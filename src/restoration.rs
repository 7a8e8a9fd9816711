//! Keeping "this was the default device" across profile switches that make a
//! device's nodes disappear and come back under new ids.
use vstd::prelude::*;
use vstd::string::*;
use crate::model::{Device, Node, NodeType};
use crate::store::Store;
use crate::text::{contains_seq, str_contains};

verus! {

/// A record expires this many seconds after it was captured.
pub const RESTORATION_TIMEOUT_SECS: u64 = 30;

/// A record is dropped after this many polls.
pub const MAX_RESTORATION_ATTEMPTS: u8 = 50;

/// What a profile switch is to restore once the device's nodes are back.
#[derive(Debug)]
pub struct DefaultRestoration {
    pub device_id: u32,
    pub device_name: String,
    pub had_default_sink: bool,
    pub had_default_source: bool,
    pub target_profile_index: u32,
    pub timestamp: u64,
    pub attempts: u8,
}

pub open spec fn expired(r: DefaultRestoration, now: u64) -> bool {
    now >= r.timestamp && now - r.timestamp > RESTORATION_TIMEOUT_SECS
}

pub open spec fn exhausted(r: DefaultRestoration) -> bool {
    r.attempts >= MAX_RESTORATION_ATTEMPTS
}

/// Still worth polling at `now`.
pub open spec fn live(r: DefaultRestoration, now: u64) -> bool {
    !expired(r, now) && !exhausted(r)
}

impl DefaultRestoration {
    /// A fresh record captured at `now` (seconds on a monotonic clock).
    pub fn new(
        device_id: u32,
        device_name: String,
        had_default_sink: bool,
        had_default_source: bool,
        target_profile_index: u32,
        now: u64,
    ) -> (r: Self)
        ensures
            r == (DefaultRestoration {
                device_id,
                device_name,
                had_default_sink,
                had_default_source,
                target_profile_index,
                timestamp: now,
                attempts: 0,
            }),
    {
        DefaultRestoration {
            device_id,
            device_name,
            had_default_sink,
            had_default_source,
            target_profile_index,
            timestamp: now,
            attempts: 0,
        }
    }

    pub fn is_expired(&self, now: u64) -> (r: bool)
        ensures
            r == expired(*self, now),
    {
        now >= self.timestamp && now - self.timestamp > RESTORATION_TIMEOUT_SECS
    }

    pub fn max_attempts_reached(&self) -> (r: bool)
        ensures
            r == exhausted(*self),
    {
        self.attempts >= MAX_RESTORATION_ATTEMPTS
    }

    pub fn increment_attempt(&mut self)
        requires
            old(self).attempts < 255,
        ensures
            *final(self) == (DefaultRestoration { attempts: (old(self).attempts + 1) as u8, ..*old(self) }),
    {
        self.attempts = self.attempts + 1;
    }
}

/// Device names of the USB class: those whose name holds ".usb-" or "USB".
pub open spec fn spec_is_usb(name: Seq<char>) -> bool {
    contains_seq(name, ".usb-"@) || contains_seq(name, "USB"@)
}

/// The device is of the USB class: its bus says so, or its name does.
pub open spec fn usb_class(d: Device) -> bool {
    (d.bus matches Some(b) && b@ == "usb"@) || spec_is_usb(d.name@)
}

/// The first node at or after `j` owned by the device and of type `t`.
pub open spec fn first_owned(nodes: Seq<Node>, device_id: u32, t: NodeType, j: int) -> Option<int>
    decreases nodes.len() - j,
{
    if j < 0 || j >= nodes.len() {
        None
    } else if nodes[j].device_id == Some(device_id) && nodes[j].node_type == t {
        Some(j)
    } else {
        first_owned(nodes, device_id, t, j + 1)
    }
}

/// The first device at or after `j` with the given name.
pub open spec fn first_named(devices: Seq<Device>, name: Seq<char>, j: int) -> Option<int>
    decreases devices.len() - j,
{
    if j < 0 || j >= devices.len() {
        None
    } else if devices[j].name@ == name {
        Some(j)
    } else {
        first_named(devices, name, j + 1)
    }
}

/// Some node is owned by the device.
pub open spec fn owns_nodes(nodes: Seq<Node>, device_id: u32) -> bool {
    exists|k: int| 0 <= k < nodes.len() && nodes[k].device_id == Some(device_id)
}

/// Some node owned by the device is the current default of type `t`.
pub open spec fn owns_default(nodes: Seq<Node>, device_id: u32, t: NodeType) -> bool {
    exists|k: int|
        0 <= k < nodes.len() && nodes[k].device_id == Some(device_id) && nodes[k].is_default
            && nodes[k].node_type == t
}

/// The (sink, source) node ids to make default for a record, 0 where none is
/// to be restored; none while the device is not yet on the target profile or
/// its nodes are not yet back.
pub open spec fn spec_attempt(s: Store, r: DefaultRestoration) -> Option<(u32, u32)> {
    match first_named(s.devices@, r.device_name@, 0) {
        None => None,
        Some(di) => {
            let d = s.devices@[di];
            let sink = first_owned(s.nodes@, d.id, NodeType::AudioSink, 0);
            let source = first_owned(s.nodes@, d.id, NodeType::AudioSource, 0);
            if d.current_profile_index != Some(r.target_profile_index) {
                None
            } else if !owns_nodes(s.nodes@, d.id) {
                None
            } else if r.had_default_sink && sink is None {
                None
            } else if r.had_default_source && source is None {
                None
            } else {
                Some((
                    if r.had_default_sink { s.nodes@[sink->0].id } else { 0 },
                    if r.had_default_source { s.nodes@[source->0].id } else { 0 },
                ))
            }
        },
    }
}

/// The restorations due over the first `k` records, with the names of the
/// devices they complete.
pub open spec fn due(s: Store, rs: Seq<DefaultRestoration>, now: u64, k: int) -> (Seq<(u32, u32)>, Seq<Seq<char>>)
    decreases k,
{
    if k <= 0 {
        (Seq::empty(), Seq::empty())
    } else {
        let (a, b) = due(s, rs, now, k - 1);
        let r = rs[k - 1];
        if live(r, now) && spec_attempt(s, r) is Some {
            (a.push(spec_attempt(s, r)->0), b.push(r.device_name@))
        } else {
            (a, b)
        }
    }
}

pub open spec fn unique_names(rs: Seq<DefaultRestoration>) -> bool {
    forall|i: int, j: int| 0 <= i < j < rs.len() ==> rs[i].device_name@ != rs[j].device_name@
}

/// The record after one more poll.
pub open spec fn polled(r: DefaultRestoration) -> DefaultRestoration {
    DefaultRestoration { attempts: (r.attempts + 1) as u8, ..r }
}

pub open spec fn is_live_at(now: u64) -> spec_fn(DefaultRestoration) -> bool {
    |r: DefaultRestoration| live(r, now)
}

pub open spec fn not_expired_at(now: u64) -> spec_fn(DefaultRestoration) -> bool {
    |r: DefaultRestoration| !expired(r, now)
}

pub open spec fn not_named_in(names: Seq<Seq<char>>) -> spec_fn(DefaultRestoration) -> bool {
    |r: DefaultRestoration| !names.contains(r.device_name@)
}

pub open spec fn string_views(v: Seq<String>) -> Seq<Seq<char>> {
    v.map_values(|s: String| s@)
}

fn clone_record(r: &DefaultRestoration) -> (c: DefaultRestoration)
    ensures
        c == *r,
{
    DefaultRestoration {
        device_id: r.device_id,
        device_name: r.device_name.clone(),
        had_default_sink: r.had_default_sink,
        had_default_source: r.had_default_source,
        target_profile_index: r.target_profile_index,
        timestamp: r.timestamp,
        attempts: r.attempts,
    }
}

/// `f` is `o` with `rec` in place of the record of the same device name, or
/// appended when there was none.
pub open spec fn captured(o: Seq<DefaultRestoration>, f: Seq<DefaultRestoration>, rec: DefaultRestoration) -> bool {
    if exists|i: int| 0 <= i < o.len() && o[i].device_name@ == rec.device_name@ {
        exists|i: int| 0 <= i < o.len() && o[i].device_name@ == rec.device_name@ && f == o.update(i, rec)
    } else {
        f == o.push(rec)
    }
}

/// What `should_capture_defaults` yields for the device: its name and which
/// defaults it owns, when it is of the USB class and owns one.
pub open spec fn capture_plan(s: Store, device_id: u32) -> Option<(String, bool, bool)> {
    if !crate::store::device_in(s.devices@, device_id) {
        None
    } else {
        let d = s.devices@[crate::devices::device_index(s.devices@, device_id)];
        let sink = owns_default(s.nodes@, device_id, NodeType::AudioSink);
        let source = owns_default(s.nodes@, device_id, NodeType::AudioSource);
        if usb_class(d) && (sink || source) {
            Some((d.name, sink, source))
        } else {
            None
        }
    }
}

/// The pending records, at most one per device name (see `wf`), in the order
/// they were captured.
pub struct RestorationManager {
    pub pending: Vec<DefaultRestoration>,
}

impl RestorationManager {
    /// At most one record per device name.
    pub open spec fn wf(&self) -> bool {
        unique_names(self.pending@)
    }

    pub fn new() -> (r: Self)
        ensures
            r.wf(),
            r.pending@.len() == 0,
    {
        RestorationManager { pending: Vec::new() }
    }

    pub fn is_usb_device(device_name: &str) -> (r: bool)
        ensures
            r == spec_is_usb(device_name@),
    {
        str_contains(device_name, ".usb-") || str_contains(device_name, "USB")
    }

    fn owned_flags(store: &Store, device_id: u32) -> (r: (bool, bool))
        ensures
            r.0 == owns_default(store.nodes@, device_id, NodeType::AudioSink),
            r.1 == owns_default(store.nodes@, device_id, NodeType::AudioSource),
    {
        let mut sink = false;
        let mut source = false;
        let mut k: usize = 0;
        while k < store.nodes.len()
            invariant
                0 <= k <= store.nodes@.len(),
                sink == exists|a: int|
                    0 <= a < k && store.nodes@[a].device_id == Some(device_id) && store.nodes@[a].is_default
                        && store.nodes@[a].node_type == NodeType::AudioSink,
                source == exists|a: int|
                    0 <= a < k && store.nodes@[a].device_id == Some(device_id) && store.nodes@[a].is_default
                        && store.nodes@[a].node_type == NodeType::AudioSource,
            decreases store.nodes@.len() - k,
        {
            let n = &store.nodes[k];
            if n.device_id == Some(device_id) && n.is_default {
                if n.node_type == NodeType::AudioSink {
                    sink = true;
                }
                if n.node_type == NodeType::AudioSource {
                    source = true;
                }
            }
            k = k + 1;
        }
        (sink, source)
    }

    /// Whether a switch on this device calls for a record: the device is of
    /// the USB class (by bus or by name) and owns the default sink or source. Gives the device's
    /// name and which defaults it owns.
    pub fn should_capture_defaults(store: &Store, device_id: u32) -> (r: Option<(String, bool, bool)>)
        requires
            store.wf(),
        ensures
            r == capture_plan(*store, device_id),
    {
        let i = store.find_device(device_id)?;
        proof {
            crate::devices::lemma_device_index(store.devices@, i as int);
        }
        let name = &store.devices[i].name;
        let usb_bus = match &store.devices[i].bus {
            Some(b) => crate::text::str_eq(b.as_str(), "usb"),
            None => false,
        };
        if !usb_bus && !Self::is_usb_device(name.as_str()) {
            return None;
        }
        let (sink, source) = Self::owned_flags(store, device_id);
        if !sink && !source {
            return None;
        }
        Some((name.clone(), sink, source))
    }

    /// Records what to restore for the device, replacing an earlier record of
    /// the same name.
    pub fn capture_defaults(
        &mut self,
        device_id: u32,
        device_name: String,
        had_default_sink: bool,
        had_default_source: bool,
        target_profile_index: u32,
        now: u64,
    )
        requires
            old(self).wf(),
        ensures
            final(self).wf(),
            captured(old(self).pending@, final(self).pending@, DefaultRestoration {
                device_id,
                device_name,
                had_default_sink,
                had_default_source,
                target_profile_index,
                timestamp: now,
                attempts: 0,
            }),
    {
        let ghost dn = device_name;
        let rec = DefaultRestoration::new(device_id, device_name, had_default_sink, had_default_source, target_profile_index, now);
        let ghost o = self.pending@;
        let mut i: usize = 0;
        while i < self.pending.len()
            invariant
                0 <= i <= o.len(),
                self.pending@ == o,
                o == old(self).pending@,
                unique_names(o),
                dn == device_name,
                rec == (DefaultRestoration {
                    device_id,
                    device_name: dn,
                    had_default_sink,
                    had_default_source,
                    target_profile_index,
                    timestamp: now,
                    attempts: 0,
                }),
                forall|j: int| 0 <= j < i ==> o[j].device_name@ != rec.device_name@,
            decreases o.len() - i,
        {
            if self.pending[i].device_name == rec.device_name {
                let ghost r = rec;
                self.pending.set(i, rec);
                proof {
                    assert(self.pending@ == o.update(i as int, r));
                    assert(o[i as int].device_name@ == r.device_name@);
                    assert(exists|w: int| 0 <= w < o.len() && o[w].device_name@ == r.device_name@ && self.pending@ == o.update(w, r));
                    assert(captured(o, self.pending@, r));

                    assert forall|a: int, b: int| 0 <= a < b < self.pending@.len() implies self.pending@[a].device_name@
                        != self.pending@[b].device_name@ by {
                        assert(o[a].device_name@ != o[b].device_name@);
                    }
                }
                return;
            }
            i = i + 1;
        }
        let ghost nm = rec.device_name@;
        self.pending.push(rec);
        proof {
            assert forall|a: int, b: int| 0 <= a < b < self.pending@.len() implies self.pending@[a].device_name@
                != self.pending@[b].device_name@ by {
                if b == o.len() {
                    assert(o[a].device_name@ != nm);
                }
            }
        }
    }

    fn first_owned_node(store: &Store, device_id: u32, t: NodeType) -> (r: Option<usize>)
        ensures
            match r {
                Some(k) => first_owned(store.nodes@, device_id, t, 0) == Some(k as int) && k < store.nodes@.len(),
                None => first_owned(store.nodes@, device_id, t, 0) is None,
            },
    {
        let mut k: usize = 0;
        while k < store.nodes.len()
            invariant
                0 <= k <= store.nodes@.len(),
                first_owned(store.nodes@, device_id, t, 0) == first_owned(store.nodes@, device_id, t, k as int),
            decreases store.nodes@.len() - k,
        {
            if store.nodes[k].device_id == Some(device_id) && store.nodes[k].node_type == t {
                return Some(k);
            }
            k = k + 1;
        }
        None
    }

    fn owns_any(store: &Store, device_id: u32) -> (r: bool)
        ensures
            r == owns_nodes(store.nodes@, device_id),
    {
        let mut k: usize = 0;
        while k < store.nodes.len()
            invariant
                0 <= k <= store.nodes@.len(),
                forall|a: int| 0 <= a < k ==> store.nodes@[a].device_id != Some(device_id),
            decreases store.nodes@.len() - k,
        {
            if store.nodes[k].device_id == Some(device_id) {
                return true;
            }
            k = k + 1;
        }
        false
    }

    fn first_named_device(store: &Store, name: &String) -> (r: Option<usize>)
        ensures
            match r {
                Some(k) => first_named(store.devices@, name@, 0) == Some(k as int) && k < store.devices@.len(),
                None => first_named(store.devices@, name@, 0) is None,
            },
    {
        let mut k: usize = 0;
        while k < store.devices.len()
            invariant
                0 <= k <= store.devices@.len(),
                first_named(store.devices@, name@, 0) == first_named(store.devices@, name@, k as int),
            decreases store.devices@.len() - k,
        {
            if store.devices[k].name == *name {
                return Some(k);
            }
            k = k + 1;
        }
        None
    }

    /// The (sink, source) to make default for one record, if it is due.
    pub fn attempt_restoration(store: &Store, restoration: &DefaultRestoration) -> (r: Option<(u32, u32)>)
        ensures
            r == spec_attempt(*store, *restoration),
    {
        let di = Self::first_named_device(store, &restoration.device_name)?;
        let device = &store.devices[di];
        if device.current_profile_index != Some(restoration.target_profile_index) {
            return None;
        }
        if !Self::owns_any(store, device.id) {
            return None;
        }
        let sink = Self::first_owned_node(store, device.id, NodeType::AudioSink);
        let source = Self::first_owned_node(store, device.id, NodeType::AudioSource);
        let mut sink_id: u32 = 0;
        if restoration.had_default_sink {
            match sink {
                Some(k) => {
                    sink_id = store.nodes[k].id;
                },
                None => {
                    return None;
                },
            }
        }
        let mut source_id: u32 = 0;
        if restoration.had_default_source {
            match source {
                Some(k) => {
                    source_id = store.nodes[k].id;
                },
                None => {
                    return None;
                },
            }
        }
        Some((sink_id, source_id))
    }

    /// The restorations due now, as (sink id, source id) with 0 for "none",
    /// and the names of the devices they complete. Expired and exhausted
    /// records are passed over.
    pub fn get_pending_restorations(&self, store: &Store, now: u64) -> (r: (Vec<(u32, u32)>, Vec<String>))
        ensures
            r.0@ == due(*store, self.pending@, now, self.pending@.len() as int).0,
            string_views(r.1@) == due(*store, self.pending@, now, self.pending@.len() as int).1,
    {
        let mut nodes_to_restore: Vec<(u32, u32)> = Vec::new();
        let mut completed: Vec<String> = Vec::new();
        let mut k: usize = 0;
        while k < self.pending.len()
            invariant
                0 <= k <= self.pending@.len(),
                nodes_to_restore@ == due(*store, self.pending@, now, k as int).0,
                string_views(completed@) == due(*store, self.pending@, now, k as int).1,
            decreases self.pending@.len() - k,
        {
            let rec = &self.pending[k];
            if !rec.is_expired(now) && !rec.max_attempts_reached() {
                match Self::attempt_restoration(store, rec) {
                    Some(pair) => {
                        nodes_to_restore.push(pair);
                        let ghost before = completed@;
                        completed.push(rec.device_name.clone());
                        proof {
                            assert(string_views(completed@) =~= string_views(before).push(rec.device_name@));
                        }
                    },
                    None => {},
                }
            }
            k = k + 1;
        }
        (nodes_to_restore, completed)
    }

    /// One poll: drops expired and exhausted records and counts an attempt on
    /// the others.
    pub fn update_attempts_and_cleanup(&mut self, now: u64)
        requires
            old(self).wf(),
        ensures
            final(self).wf(),
            final(self).pending@ == old(self).pending@.filter(is_live_at(now)).map_values(|r: DefaultRestoration| polled(r)),
    {
        let ghost o = self.pending@;
        let ghost f = |r: DefaultRestoration| polled(r);
        let mut kept: Vec<DefaultRestoration> = Vec::new();
        let mut k: usize = 0;
        while k < self.pending.len()
            invariant
                0 <= k <= o.len(),
                self.pending@ == o,
                unique_names(o),
                f == (|r: DefaultRestoration| polled(r)),
                kept@ == o.subrange(0, k as int).filter(is_live_at(now)).map_values(f),
                forall|a: int| 0 <= a < kept@.len() ==> exists|b: int| 0 <= b < k && #[trigger] kept@[a].device_name@ == o[b].device_name@,
                unique_names(kept@),
            decreases o.len() - k,
        {
            proof {
                reveal_with_fuel(Seq::filter, 1);
                assert(o.subrange(0, k + 1).drop_last() =~= o.subrange(0, k as int));
            }
            let rec = &self.pending[k];
            if !rec.is_expired(now) && !rec.max_attempts_reached() {
                let mut c = clone_record(rec);
                c.increment_attempt();
                let ghost before = kept@;
                kept.push(c);
                proof {
                    let s = o.subrange(0, k as int).filter(is_live_at(now));
                    assert(s.push(o[k as int]).map_values(f) =~= s.map_values(f).push(polled(o[k as int])));
                    assert forall|a: int, b: int| 0 <= a < b < kept@.len() implies kept@[a].device_name@ != kept@[b].device_name@ by {
                        if b == kept@.len() - 1 {
                            assert(kept@[a] == before[a]);
                            let w = choose|w: int| 0 <= w < k && #[trigger] before[a].device_name@ == o[w].device_name@;
                            assert(o[w].device_name@ != o[k as int].device_name@);
                        } else {
                            assert(kept@[a] == before[a]);
                            assert(kept@[b] == before[b]);
                        }
                    }
                    assert forall|a: int| 0 <= a < kept@.len() implies exists|b: int| 0 <= b < k + 1 && #[trigger] kept@[a].device_name@ == o[b].device_name@ by {
                        if a == kept@.len() - 1 {
                            assert(kept@[a].device_name@ == o[k as int].device_name@);
                        } else {
                            assert(kept@[a] == before[a]);
                            let w = choose|w: int| 0 <= w < k && #[trigger] before[a].device_name@ == o[w].device_name@;
                            assert(kept@[a].device_name@ == o[w].device_name@);
                        }
                    }
                }
            }
            k = k + 1;
        }
        proof {
            assert(o.subrange(0, o.len() as int) =~= o);
        }
        self.pending = kept;
    }

    fn filter_pending(&mut self, keep_expired: bool, now: u64, names: &Vec<String>)
        requires
            old(self).wf(),
        ensures
            final(self).wf(),
            keep_expired ==> final(self).pending@ == old(self).pending@.filter(not_named_in(string_views(names@))),
            !keep_expired ==> final(self).pending@ == old(self).pending@.filter(not_expired_at(now)),
    {
        let ghost o = self.pending@;
        let ghost p = if keep_expired { not_named_in(string_views(names@)) } else { not_expired_at(now) };
        let mut kept: Vec<DefaultRestoration> = Vec::new();
        let mut k: usize = 0;
        while k < self.pending.len()
            invariant
                0 <= k <= o.len(),
                self.pending@ == o,
                unique_names(o),
                p == (if keep_expired { not_named_in(string_views(names@)) } else { not_expired_at(now) }),
                kept@ == o.subrange(0, k as int).filter(p),
                forall|a: int| 0 <= a < kept@.len() ==> exists|b: int| 0 <= b < k && #[trigger] kept@[a].device_name@ == o[b].device_name@,
                unique_names(kept@),
            decreases o.len() - k,
        {
            proof {
                reveal_with_fuel(Seq::filter, 1);
                assert(o.subrange(0, k + 1).drop_last() =~= o.subrange(0, k as int));
            }
            let rec = &self.pending[k];
            let keep = if keep_expired {
                !name_listed(names, &rec.device_name)
            } else {
                !rec.is_expired(now)
            };
            if keep {
                let ghost before = kept@;
                kept.push(clone_record(rec));
                proof {
                    assert forall|a: int, b: int| 0 <= a < b < kept@.len() implies kept@[a].device_name@ != kept@[b].device_name@ by {
                        if b == kept@.len() - 1 {
                            assert(kept@[a] == before[a]);
                            let w = choose|w: int| 0 <= w < k && #[trigger] before[a].device_name@ == o[w].device_name@;
                            assert(o[w].device_name@ != o[k as int].device_name@);
                        } else {
                            assert(kept@[a] == before[a]);
                            assert(kept@[b] == before[b]);
                        }
                    }
                    assert forall|a: int| 0 <= a < kept@.len() implies exists|b: int| 0 <= b < k + 1 && #[trigger] kept@[a].device_name@ == o[b].device_name@ by {
                        if a == kept@.len() - 1 {
                            assert(kept@[a].device_name@ == o[k as int].device_name@);
                        } else {
                            assert(kept@[a] == before[a]);
                            let w = choose|w: int| 0 <= w < k && #[trigger] before[a].device_name@ == o[w].device_name@;
                            assert(kept@[a].device_name@ == o[w].device_name@);
                        }
                    }
                }
            }
            k = k + 1;
        }
        proof {
            assert(o.subrange(0, o.len() as int) =~= o);
        }
        self.pending = kept;
    }

    /// Drops the records of the named devices.
    pub fn mark_completed(&mut self, device_names: &Vec<String>)
        requires
            old(self).wf(),
        ensures
            final(self).wf(),
            final(self).pending@ == old(self).pending@.filter(not_named_in(string_views(device_names@))),
    {
        self.filter_pending(true, 0, device_names);
    }

    /// Drops the records that have expired at `now`.
    pub fn cleanup_expired(&mut self, now: u64)
        requires
            old(self).wf(),
        ensures
            final(self).wf(),
            final(self).pending@ == old(self).pending@.filter(not_expired_at(now)),
    {
        let none: Vec<String> = Vec::new();
        self.filter_pending(false, now, &none);
    }
}

proof fn lemma_first_owned(nodes: Seq<Node>, device_id: u32, t: NodeType, j: int)
    ensures
        first_owned(nodes, device_id, t, j) matches Some(k) ==> 0 <= k < nodes.len() && nodes[k].device_id == Some(device_id)
            && nodes[k].node_type == t,
    decreases nodes.len() - j,
{
    if 0 <= j < nodes.len() {
        lemma_first_owned(nodes, device_id, t, j + 1);
    }
}

/// A live record that had the default sink, for a device that is now on the
/// target profile and owns a sink again, is due: polling yields exactly one
/// restoration, (that sink, 0), and completes that device.
pub proof fn lemma_restoration_due(s: Store, r: DefaultRestoration, now: u64)
    requires
        live(r, now),
        r.had_default_sink,
        !r.had_default_source,
        first_named(s.devices@, r.device_name@, 0) matches Some(di) && s.devices@[di].current_profile_index == Some(
            r.target_profile_index,
        ) && first_owned(s.nodes@, s.devices@[di].id, NodeType::AudioSink, 0) is Some,
    ensures
        ({
            let di = first_named(s.devices@, r.device_name@, 0)->0;
            let k = first_owned(s.nodes@, s.devices@[di].id, NodeType::AudioSink, 0)->0;
            due(s, seq![r], now, 1) == (seq![(s.nodes@[k].id, 0u32)], seq![r.device_name@])
        }),
{
    let di = first_named(s.devices@, r.device_name@, 0)->0;
    let d = s.devices@[di];
    lemma_first_owned(s.nodes@, d.id, NodeType::AudioSink, 0);
    let k = first_owned(s.nodes@, d.id, NodeType::AudioSink, 0)->0;
    assert(owns_nodes(s.nodes@, d.id));
    assert(spec_attempt(s, r) == Some((s.nodes@[k].id, 0u32)));
    assert(due(s, seq![r], now, 0) == (Seq::<(u32, u32)>::empty(), Seq::<Seq<char>>::empty()));
    assert(seq![r][0] == r);
    assert(Seq::<(u32, u32)>::empty().push((s.nodes@[k].id, 0u32)) =~= seq![(s.nodes@[k].id, 0u32)]);
    assert(Seq::<Seq<char>>::empty().push(r.device_name@) =~= seq![r.device_name@]);
}

fn name_listed(names: &Vec<String>, name: &String) -> (r: bool)
    ensures
        r == string_views(names@).contains(name@),
{
    let mut k: usize = 0;
    while k < names.len()
        invariant
            0 <= k <= names@.len(),
            forall|a: int| 0 <= a < k ==> names@[a]@ != name@,
        decreases names@.len() - k,
    {
        if names[k] == *name {
            proof {
                assert(string_views(names@)[k as int] == name@);
            }
            return true;
        }
        k = k + 1;
    }
    proof {
        if string_views(names@).contains(name@) {
            let a = choose|a: int| 0 <= a < string_views(names@).len() && string_views(names@)[a] == name@;
            assert(names@[a]@ == name@);
        }
    }
    false
}

} // verus!
