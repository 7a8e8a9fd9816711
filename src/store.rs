//! The graph store: sole owner of the entity collections, applying the
//! server's structural events and keeping the cross-references consistent.
use vstd::prelude::*;
use crate::model::{ConnectionStatus, Device, Link, Node, Port};
use vstd::seq_lib::group_filter_ensures;
use crate::metadata::MetadataManager;
use crate::restoration::RestorationManager;

verus! {

/// Profiles ordered by descending priority.
pub open spec fn profiles_sorted(s: Seq<crate::model::Profile>) -> bool {
    forall|i: int, j: int| 0 <= i < j < s.len() ==> s[i].priority >= s[j].priority
}

/// No two profiles share an index.
pub open spec fn profile_indices_distinct(s: Seq<crate::model::Profile>) -> bool {
    forall|i: int, j: int| 0 <= i < j < s.len() ==> s[i].index != s[j].index
}

/// Every device keeps its profiles ordered by descending priority, with no
/// index twice.
pub open spec fn device_profiles_sorted(s: Seq<Device>) -> bool {
    forall|i: int| 0 <= i < s.len() ==> profiles_sorted(#[trigger] s[i].profiles@) && profile_indices_distinct(s[i].profiles@)
}

/// The id list holds each id at most once.
pub open spec fn no_dup(s: Seq<u32>) -> bool {
    forall|i: int, j: int| 0 <= i < j < s.len() ==> s[i] != s[j]
}

/// Every device lists each of its nodes once.
pub open spec fn device_lists_distinct(s: Seq<Device>) -> bool {
    forall|i: int| 0 <= i < s.len() ==> no_dup(#[trigger] s[i].nodes@)
}

/// Every node lists each of its ports once.
pub open spec fn node_lists_distinct(s: Seq<Node>) -> bool {
    forall|i: int| 0 <= i < s.len() ==> no_dup(#[trigger] s[i].ports@)
}

/// Every port lists each of its links once.
pub open spec fn port_lists_distinct(s: Seq<Port>) -> bool {
    forall|i: int| 0 <= i < s.len() ==> no_dup(#[trigger] s[i].links@)
}

pub open spec fn unique_node_ids(s: Seq<Node>) -> bool {
    forall|i: int, j: int| 0 <= i < j < s.len() ==> s[i].id != s[j].id
}

pub open spec fn unique_device_ids(s: Seq<Device>) -> bool {
    forall|i: int, j: int| 0 <= i < j < s.len() ==> s[i].id != s[j].id
}

pub open spec fn unique_port_ids(s: Seq<Port>) -> bool {
    forall|i: int, j: int| 0 <= i < j < s.len() ==> s[i].id != s[j].id
}

pub open spec fn unique_link_ids(s: Seq<Link>) -> bool {
    forall|i: int, j: int| 0 <= i < j < s.len() ==> s[i].id != s[j].id
}

pub open spec fn node_in(s: Seq<Node>, id: u32) -> bool {
    exists|i: int| 0 <= i < s.len() && s[i].id == id
}

pub open spec fn device_in(s: Seq<Device>, id: u32) -> bool {
    exists|i: int| 0 <= i < s.len() && s[i].id == id
}

pub open spec fn port_in(s: Seq<Port>, id: u32) -> bool {
    exists|i: int| 0 <= i < s.len() && s[i].id == id
}

pub open spec fn link_in(s: Seq<Link>, id: u32) -> bool {
    exists|i: int| 0 <= i < s.len() && s[i].id == id
}

/// The link has the port at one of its ends.
pub open spec fn link_touches(l: Link, port_id: u32) -> bool {
    l.output_port == port_id || l.input_port == port_id
}

/// Accepts every id but `y`.
pub open spec fn other_than(y: u32) -> spec_fn(u32) -> bool {
    |z: u32| z != y
}

/// `b` is `a` with its link list reduced to the ids that `keep` accepts.
pub open spec fn port_links_reduced(a: Port, b: Port, keep: spec_fn(u32) -> bool) -> bool {
    &&& b.id == a.id
    &&& b.name == a.name
    &&& b.node_id == a.node_id
    &&& b.direction == a.direction
    &&& b.channel == a.channel
    &&& forall|x: u32| #[trigger] b.links@.contains(x) <==> (a.links@.contains(x) && keep(x))
}

/// `b` is `a` with each port's link list reduced to the ids that `keep` accepts;
/// every other field of every port is kept.
pub open spec fn ports_links_reduced(a: Seq<Port>, b: Seq<Port>, keep: spec_fn(u32) -> bool) -> bool {
    &&& a.len() == b.len()
    &&& forall|i: int| 0 <= i < a.len() ==> port_links_reduced(a[i], #[trigger] b[i], keep)
}

/// Some link of `ls` has id `x` and touches the port.
pub open spec fn touching_link_id(ls: Seq<Link>, port_id: u32, x: u32) -> bool {
    exists|k: int| 0 <= k < ls.len() && ls[k].id == x && link_touches(ls[k], port_id)
}

proof fn lemma_filter_ne_contains(s: Seq<u32>, y: u32, x: u32)
    ensures
        s.filter(other_than(y)).contains(x) <==> (s.contains(x) && x != y),
{
    let p = other_than(y);
    if s.filter(p).contains(x) {
        s.lemma_filter_contains_rev(p, x);
        let k = choose|k: int| 0 <= k < s.filter(p).len() && s.filter(p)[k] == x;
        s.lemma_filter_pred(p, k);
    }
    if s.contains(x) && x != y {
        let k = choose|k: int| 0 <= k < s.len() && s[k] == x;
        s.lemma_filter_contains(p, k);
    }
}

/// The id lists hold `x` no more.
pub fn remove_id(v: &mut Vec<u32>, x: u32)
    ensures
        final(v)@ == old(v)@.filter(other_than(x)),
        no_dup(old(v)@) ==> no_dup(final(v)@),
{
    let ghost orig = v@;
    let mut kept: Vec<u32> = Vec::new();
    let mut i: usize = 0;
    while i < v.len()
        invariant
            v@ == orig,
            0 <= i <= orig.len(),
            kept@ == orig.subrange(0, i as int).filter(other_than(x)),
            forall|a: int| 0 <= a < kept@.len() ==> exists|b: int| 0 <= b < i && #[trigger] kept@[a] == orig[b],
            no_dup(orig) ==> no_dup(kept@),
        decreases orig.len() - i,
    {
        proof {
            reveal_with_fuel(Seq::filter, 1);
            assert(orig.subrange(0, i + 1).drop_last() =~= orig.subrange(0, i as int));
        }
        let ghost before = kept@;
        if v[i] != x {
            kept.push(v[i]);
            proof {
                assert forall|a: int| 0 <= a < kept@.len() implies exists|b: int| 0 <= b < i + 1 && #[trigger] kept@[a] == orig[b] by {
                    if a < before.len() {
                        let b = choose|b: int| 0 <= b < i && #[trigger] before[a] == orig[b];
                        assert(kept@[a] == orig[b]);
                    } else {
                        assert(kept@[a] == orig[i as int]);
                    }
                }
                if no_dup(orig) {
                    assert forall|a: int, c: int| 0 <= a < c < kept@.len() implies kept@[a] != kept@[c] by {
                        if c == kept@.len() - 1 {
                            let b = choose|b: int| 0 <= b < i && #[trigger] before[a] == orig[b];
                            assert(kept@[a] == before[a]);
                        } else {
                            assert(kept@[a] == before[a] && kept@[c] == before[c]);
                        }
                    }
                }
            }
        }
        i = i + 1;
    }
    proof {
        assert(orig.subrange(0, orig.len() as int) =~= orig);
    }
    *v = kept;
}

/// Pushes `x` unless the list holds it already.
pub fn push_unique(v: &mut Vec<u32>, x: u32)
    ensures
        old(v)@.contains(x) ==> final(v)@ == old(v)@,
        !old(v)@.contains(x) ==> final(v)@ == old(v)@.push(x),
        no_dup(old(v)@) ==> no_dup(final(v)@),
        final(v)@.contains(x),
{
    let mut i: usize = 0;
    while i < v.len()
        invariant
            0 <= i <= v@.len(),
            v@ == old(v)@,
            forall|j: int| 0 <= j < i ==> v@[j] != x,
        decreases v@.len() - i,
    {
        if v[i] == x {
            assert(v@[i as int] == x);
            return;
        }
        i = i + 1;
    }
    let ghost before = v@;
    v.push(x);
    proof {
        assert(v@[before.len() as int] == x);
        if no_dup(before) {
            assert forall|a: int, c: int| 0 <= a < c < v@.len() implies v@[a] != v@[c] by {
                if c == before.len() {
                    assert(v@[a] == before[a]);
                }
            }
        }
    }
}

/// Takes `link_id` out of every port's link list.
pub fn detach_link(ports: &mut Vec<Port>, link_id: u32)
    ensures
        ports_links_reduced(old(ports)@, final(ports)@, other_than(link_id)),
        port_lists_distinct(old(ports)@) ==> port_lists_distinct(final(ports)@),
{
    let ghost orig = ports@;
    let mut i: usize = 0;
    while i < ports.len()
        invariant
            0 <= i <= orig.len(),
            ports@.len() == orig.len(),
            forall|j: int| i <= j < orig.len() ==> ports@[j] == orig[j],
            forall|j: int| 0 <= j < i ==> port_links_reduced(orig[j], #[trigger] ports@[j], other_than(link_id)),
            port_lists_distinct(orig) ==> port_lists_distinct(ports@),
        decreases orig.len() - i,
    {
        remove_id(&mut ports[i].links, link_id);
        proof {
            assert forall|x: u32| #[trigger] ports@[i as int].links@.contains(x) <==> (orig[i as int].links@.contains(x)
                && other_than(link_id)(x)) by {
                lemma_filter_ne_contains(orig[i as int].links@, link_id, x);
            }
        }
        i = i + 1;
    }
}

/// Keeps the links that do not touch the port.
pub open spec fn not_touching(port_id: u32) -> spec_fn(Link) -> bool {
    |l: Link| !link_touches(l, port_id)
}

/// Keeps the link ids that no link of `ls` touching the port carries.
pub open spec fn untouched_id(ls: Seq<Link>, port_id: u32) -> spec_fn(u32) -> bool {
    |x: u32| !touching_link_id(ls, port_id, x)
}

/// `b` is `a` with only its node list changed.
pub open spec fn device_nodes_changed(a: Device, b: Device) -> bool {
    a.id == b.id && a.name == b.name && a.nick == b.nick && a.description == b.description
        && a.device_type == b.device_type && a.bus == b.bus && a.form_factor == b.form_factor
        && a.profiles == b.profiles && a.current_profile_index == b.current_profile_index
        && a.volume == b.volume && a.muted == b.muted && a.output_route == b.output_route
        && a.input_route == b.input_route && a.has_route_volume == b.has_route_volume
}

/// `b` is `a` with only its port list changed.
pub open spec fn node_ports_changed(a: Node, b: Node) -> bool {
    a.id == b.id && a.name == b.name && a.nick == b.nick && a.description == b.description
        && a.media_class == b.media_class && a.application_name == b.application_name
        && a.node_type == b.node_type && a.volume == b.volume && a.is_default == b.is_default
        && a.device_id == b.device_id && a.media_name == b.media_name && a.has_received_params
        == b.has_received_params
}

/// The devices of `b` are those of `a`; the one with id `owner`, if any, no
/// longer lists `node_id`.
pub open spec fn devices_detached_node(a: Seq<Device>, b: Seq<Device>, owner: Option<u32>, node_id: u32) -> bool {
    &&& a.len() == b.len()
    &&& forall|i: int|
        0 <= i < a.len() ==> if owner == Some(a[i].id) {
            device_nodes_changed(a[i], #[trigger] b[i]) && b[i].nodes@ == a[i].nodes@.filter(
                other_than(node_id),
            )
        } else {
            b[i] == a[i]
        }
}

/// The nodes of `b` are those of `a`; the one with id `owner`, if any, no
/// longer lists `port_id`.
pub open spec fn nodes_detached_port(a: Seq<Node>, b: Seq<Node>, owner: u32, port_id: u32) -> bool {
    &&& a.len() == b.len()
    &&& forall|i: int|
        0 <= i < a.len() ==> if owner == a[i].id {
            node_ports_changed(a[i], #[trigger] b[i]) && b[i].ports@ == a[i].ports@.filter(
                other_than(port_id),
            )
        } else {
            b[i] == a[i]
        }
}

proof fn lemma_touching_step(ls: Seq<Link>, j: int, port_id: u32, x: u32)
    requires
        0 <= j < ls.len(),
    ensures
        touching_link_id(ls.subrange(0, j + 1), port_id, x) <==> (touching_link_id(
            ls.subrange(0, j),
            port_id,
            x,
        ) || (ls[j].id == x && link_touches(ls[j], port_id))),
{
    let a = ls.subrange(0, j + 1);
    let b = ls.subrange(0, j);
    if touching_link_id(a, port_id, x) {
        let k = choose|k: int| 0 <= k < a.len() && a[k].id == x && link_touches(a[k], port_id);
        if k < j {
            assert(b[k] == a[k]);
        }
    }
    if touching_link_id(b, port_id, x) {
        let k = choose|k: int| 0 <= k < b.len() && b[k].id == x && link_touches(b[k], port_id);
        assert(a[k] == b[k]);
    }
    if ls[j].id == x && link_touches(ls[j], port_id) {
        assert(a[j] == ls[j]);
    }
}

pub(crate) proof fn lemma_unique_links_filter(s: Seq<Link>, p: spec_fn(Link) -> bool)
    requires
        unique_link_ids(s),
    ensures
        unique_link_ids(s.filter(p)),
        forall|x: Link| s.filter(p).contains(x) ==> s.contains(x),
    decreases s.len(),
{
    reveal_with_fuel(Seq::filter, 1);
    if s.len() > 0 {
        let r = s.drop_last();
        assert(unique_link_ids(r));
        lemma_unique_links_filter(r, p);
        assert forall|x: Link| r.contains(x) implies s.contains(x) by {
            let m = choose|m: int| 0 <= m < r.len() && r[m] == x;
            assert(s[m] == x);
        }
        if p(s.last()) {
            let f = s.filter(p);
            assert(f == r.filter(p).push(s.last()));
            assert forall|i: int, j: int| 0 <= i < j < f.len() implies f[i].id != f[j].id by {
                if j == f.len() - 1 {
                    assert(r.filter(p)[i] == f[i]);
                    assert(r.filter(p).contains(f[i]));
                    assert(r.contains(f[i]));
                    let k = choose|k: int| 0 <= k < r.len() && r[k] == f[i];
                    assert(s[k] == r[k]);
                    assert(f[j] == s[s.len() - 1]);
                } else {
                    assert(r.filter(p)[i] == f[i]);
                    assert(r.filter(p)[j] == f[j]);
                }
            }
            assert forall|x: Link| f.contains(x) implies s.contains(x) by {
                if x != s.last() {
                    let k = choose|k: int| 0 <= k < f.len() && f[k] == x;
                    assert(r.filter(p)[k] == x);
                    assert(r.filter(p).contains(x));
                } else {
                    assert(s[s.len() - 1] == x);
                }
            }
        } else {
            assert(s.filter(p) == r.filter(p));
        }
    }
}

/// The store of the graph. Entities are kept in vectors, in the order the
/// server announced them, with each id at most once (see `wf`). The
/// contracts speak of "the first node of this device that is a sink" and of
/// the order in which restorations and pairs are taken; a vector gives those
/// a defined answer, where a hash map's walk order would not.
pub struct Store {
    pub nodes: Vec<Node>,
    pub devices: Vec<Device>,
    pub ports: Vec<Port>,
    pub links: Vec<Link>,
    pub default_sink: Option<u32>,
    pub default_source: Option<u32>,
    pub connection_status: ConnectionStatus,
    pub pwmenu_client_id: Option<u32>,
    pub metadata_manager: MetadataManager,
    pub restoration_manager: RestorationManager,
    pub initial_sync_complete: bool,
    pub initial_sync_seq: Option<i32>,
    pub params_sync_complete: bool,
    pub params_sync_seq: Option<i32>,
    pub data_complete: bool,
    pub refresh_pending: bool,
    pub default_clock_rate: u32,
}

/// `f` is the store `o` after the server removed object `id`: a device, else
/// a node, else a port, else a link, with the cascades each one calls for.
pub open spec fn removed_object(o: Store, f: Store, id: u32) -> bool {
    if device_in(o.devices@, id) {
        &&& exists|i: int|
            0 <= i < o.devices@.len() && o.devices@[i].id == id && f.devices@
                == o.devices@.remove(i)
        &&& f.nodes == o.nodes && f.ports == o.ports && f.links == o.links
        &&& f.default_sink == o.default_sink && f.default_source == o.default_source
    } else if node_in(o.nodes@, id) {
        &&& exists|i: int|
            0 <= i < o.nodes@.len() && o.nodes@[i].id == id && f.nodes@
                == o.nodes@.remove(i) && devices_detached_node(
                o.devices@,
                f.devices@,
                o.nodes@[i].device_id,
                id,
            )
        &&& f.ports == o.ports && f.links == o.links
        &&& f.default_sink == (if o.default_sink == Some(id) {
            None
        } else {
            o.default_sink
        })
        &&& f.default_source == (if o.default_source == Some(id) {
            None
        } else {
            o.default_source
        })
    } else if port_in(o.ports@, id) {
        &&& exists|i: int|
            0 <= i < o.ports@.len() && o.ports@[i].id == id && ports_links_reduced(
                o.ports@.remove(i),
                f.ports@,
                untouched_id(o.links@, id),
            ) && nodes_detached_port(o.nodes@, f.nodes@, o.ports@[i].node_id, id)
        &&& f.links@ == o.links@.filter(not_touching(id))
        &&& f.devices == o.devices
        &&& f.default_sink == o.default_sink && f.default_source == o.default_source
    } else if link_in(o.links@, id) {
        &&& exists|i: int|
            0 <= i < o.links@.len() && o.links@[i].id == id && f.links@
                == o.links@.remove(i)
        &&& ports_links_reduced(o.ports@, f.ports@, other_than(id))
        &&& f.nodes == o.nodes && f.devices == o.devices
        &&& f.default_sink == o.default_sink && f.default_source == o.default_source
    } else {
        f.nodes == o.nodes && f.devices == o.devices && f.ports == o.ports && f.links
            == o.links && f.default_sink == o.default_sink && f.default_source
            == o.default_source
    }
}

impl Store {
    /// Every collection holds each id at most once.
    pub open spec fn wf(&self) -> bool {
        &&& unique_node_ids(self.nodes@)
        &&& unique_device_ids(self.devices@)
        &&& unique_port_ids(self.ports@)
        &&& unique_link_ids(self.links@)
        &&& device_profiles_sorted(self.devices@)
        &&& device_lists_distinct(self.devices@)
        &&& node_lists_distinct(self.nodes@)
        &&& port_lists_distinct(self.ports@)
        &&& self.metadata_manager.wf()
        &&& self.restoration_manager.wf()
    }

    pub fn new() -> (r: Self)
        ensures
            r.wf(),
            r.nodes@.len() == 0,
            r.devices@.len() == 0,
            r.ports@.len() == 0,
            r.links@.len() == 0,
            r.default_sink is None,
            r.default_source is None,
            r.connection_status == ConnectionStatus::Connected,
            r.pwmenu_client_id is None,
            !r.metadata_manager.default_available,
            !r.metadata_manager.settings_available,
            r.metadata_manager.properties@.len() == 0,
            r.metadata_manager.settings_properties@.len() == 0,
            r.restoration_manager.pending@.len() == 0,
            !r.initial_sync_complete,
            r.initial_sync_seq is None,
            !r.params_sync_complete,
            r.params_sync_seq is None,
            !r.data_complete,
            !r.refresh_pending,
            r.default_clock_rate == 48000,
    {
        Store {
            nodes: Vec::new(),
            devices: Vec::new(),
            ports: Vec::new(),
            links: Vec::new(),
            default_sink: None,
            default_source: None,
            connection_status: ConnectionStatus::Connected,
            pwmenu_client_id: None,
            metadata_manager: MetadataManager::new(),
            restoration_manager: RestorationManager::new(),
            initial_sync_complete: false,
            initial_sync_seq: None,
            params_sync_complete: false,
            params_sync_seq: None,
            data_complete: false,
            refresh_pending: false,
            default_clock_rate: 48000,
        }
    }

    pub fn find_node(&self, id: u32) -> (r: Option<usize>)
        ensures
            match r {
                Some(i) => i < self.nodes@.len() && self.nodes@[i as int].id == id,
                None => !node_in(self.nodes@, id),
            },
    {
        let mut i: usize = 0;
        while i < self.nodes.len()
            invariant
                0 <= i <= self.nodes@.len(),
                forall|j: int| 0 <= j < i ==> self.nodes@[j].id != id,
            decreases self.nodes@.len() - i,
        {
            if self.nodes[i].id == id {
                return Some(i);
            }
            i = i + 1;
        }
        None
    }

    pub fn find_device(&self, id: u32) -> (r: Option<usize>)
        ensures
            match r {
                Some(i) => i < self.devices@.len() && self.devices@[i as int].id == id,
                None => !device_in(self.devices@, id),
            },
    {
        let mut i: usize = 0;
        while i < self.devices.len()
            invariant
                0 <= i <= self.devices@.len(),
                forall|j: int| 0 <= j < i ==> self.devices@[j].id != id,
            decreases self.devices@.len() - i,
        {
            if self.devices[i].id == id {
                return Some(i);
            }
            i = i + 1;
        }
        None
    }

    pub fn find_port(&self, id: u32) -> (r: Option<usize>)
        ensures
            match r {
                Some(i) => i < self.ports@.len() && self.ports@[i as int].id == id,
                None => !port_in(self.ports@, id),
            },
    {
        let mut i: usize = 0;
        while i < self.ports.len()
            invariant
                0 <= i <= self.ports@.len(),
                forall|j: int| 0 <= j < i ==> self.ports@[j].id != id,
            decreases self.ports@.len() - i,
        {
            if self.ports[i].id == id {
                return Some(i);
            }
            i = i + 1;
        }
        None
    }

    pub fn find_link(&self, id: u32) -> (r: Option<usize>)
        ensures
            match r {
                Some(i) => i < self.links@.len() && self.links@[i as int].id == id,
                None => !link_in(self.links@, id),
            },
    {
        let mut i: usize = 0;
        while i < self.links.len()
            invariant
                0 <= i <= self.links@.len(),
                forall|j: int| 0 <= j < i ==> self.links@[j].id != id,
            decreases self.links@.len() - i,
        {
            if self.links[i].id == id {
                return Some(i);
            }
            i = i + 1;
        }
        None
    }

    /// Records a finished round trip: the initial registry walk or the
    /// parameter re-enumeration, whichever sequence number it answers first.
    pub fn handle_sync_done(&mut self, seq: i32)
        ensures
            ({
                let o = *old(self);
                let f = *final(self);
                if o.initial_sync_seq == Some(seq) && !o.initial_sync_complete {
                    f == Store { initial_sync_complete: true, ..o }
                } else if o.params_sync_seq == Some(seq) && !o.params_sync_complete {
                    f == Store { params_sync_complete: true, ..o }
                } else {
                    f == o
                }
            }),
    {
        if let Some(initial_seq) = self.initial_sync_seq {
            if seq == initial_seq && !self.initial_sync_complete {
                self.initial_sync_complete = true;
                return;
            }
        }
        if let Some(params_seq) = self.params_sync_seq {
            if seq == params_seq && !self.params_sync_complete {
                self.params_sync_complete = true;
                return;
            }
        }
    }

    pub fn set_pwmenu_client_id(&mut self, id: u32)
        ensures
            *final(self) == (Store { pwmenu_client_id: Some(id), ..*old(self) }),
    {
        self.pwmenu_client_id = Some(id);
    }

    /// Removes every link that touches the port, and takes the removed links'
    /// ids out of every port's link list.
    fn remove_links_touching(&mut self, port_id: u32)
        requires
            old(self).wf(),
        ensures
            final(self).wf(),
            final(self).links@ == old(self).links@.filter(not_touching(port_id)),
            ports_links_reduced(old(self).ports@, final(self).ports@, untouched_id(old(self).links@, port_id)),
            final(self).nodes == old(self).nodes,
            final(self).devices == old(self).devices,
            final(self).default_sink == old(self).default_sink,
            final(self).default_source == old(self).default_source,
    {
        let ghost old_ports = self.ports@;
        let ghost old_links = self.links@;
        let mut kept: Vec<Link> = Vec::new();
        let mut j: usize = 0;
        proof {
            assert forall|i: int, x: u32| 0 <= i < old_ports.len() implies (#[trigger] self.ports@[i].links@.contains(x)
                <==> (old_ports[i].links@.contains(x) && untouched_id(old_links.subrange(0, 0), port_id)(x))) by {}
        }
        while j < self.links.len()
            invariant
                self.links@ == old_links,
                0 <= j <= old_links.len(),
                kept@ == old_links.subrange(0, j as int).filter(not_touching(port_id)),
                ports_links_reduced(old_ports, self.ports@, untouched_id(old_links.subrange(0, j as int), port_id)),
                unique_port_ids(self.ports@),
                port_lists_distinct(self.ports@),
                self.nodes == old(self).nodes,
                self.devices == old(self).devices,
                self.default_sink == old(self).default_sink,
                self.default_source == old(self).default_source,
                unique_node_ids(self.nodes@),
                unique_device_ids(self.devices@),
                unique_link_ids(old_links),
                self.metadata_manager == old(self).metadata_manager,
                self.restoration_manager == old(self).restoration_manager,
                old(self).wf(),
            decreases old_links.len() - j,
        {
            let l = self.links[j];
            let ghost prev = self.ports@;
            proof {
                reveal_with_fuel(Seq::filter, 1);
                assert(old_links.subrange(0, j + 1).drop_last() =~= old_links.subrange(0, j as int));
            }
            if l.output_port == port_id || l.input_port == port_id {
                detach_link(&mut self.ports, l.id);
            } else {
                kept.push(l);
            }
            proof {
                assert forall|i: int| 0 <= i < old_ports.len() implies port_links_reduced(
                    old_ports[i],
                    #[trigger] self.ports@[i],
                    untouched_id(old_links.subrange(0, j + 1), port_id),
                ) by {
                    assert(port_links_reduced(old_ports[i], prev[i], untouched_id(old_links.subrange(0, j as int), port_id)));
                    assert forall|x: u32| #[trigger] self.ports@[i].links@.contains(x) <==> (
                    old_ports[i].links@.contains(x) && untouched_id(old_links.subrange(0, j + 1), port_id)(x)) by {
                        lemma_touching_step(old_links, j as int, port_id, x);
                        assert(prev[i].links@.contains(x) <==> (old_ports[i].links@.contains(x)
                            && untouched_id(old_links.subrange(0, j as int), port_id)(x)));
                    }
                }
                assert forall|a: int, b: int| 0 <= a < b < self.ports@.len() implies self.ports@[a].id
                    != self.ports@[b].id by {
                    assert(self.ports@[a].id == old_ports[a].id);
                    assert(self.ports@[b].id == old_ports[b].id);
                    assert(prev[a].id == old_ports[a].id);
                }
            }
            j = j + 1;
        }
        proof {
            assert(old_links.subrange(0, old_links.len() as int) =~= old_links);
            lemma_unique_links_filter(old_links, not_touching(port_id));
        }
        self.links = kept;
    }

    /// Applies the server's removal of object `id`: a device, else a node, else
    /// a port, else a link, with the cascades each one calls for.
    pub fn remove_object(&mut self, id: u32)
        requires
            old(self).wf(),
        ensures
            final(self).wf(),
            removed_object(*old(self), *final(self), id),
    {
        if let Some(i) = self.find_device(id) {
            self.devices.remove(i);
            return;
        }
        if let Some(i) = self.find_node(id) {
            let node = self.nodes.remove(i);
            if self.default_sink == Some(id) {
                self.default_sink = None;
            }
            if self.default_source == Some(id) {
                self.default_source = None;
            }
            let ghost before = self.devices@;
            if let Some(device_id) = node.device_id {
                if let Some(d) = self.find_device(device_id) {
                    remove_id(&mut self.devices[d].nodes, id);
                    proof {
                        assert forall|k: int| 0 <= k < before.len() && k != d implies before[k].id
                            != device_id by {}
                    }
                }
            }
            return;
        }
        if let Some(i) = self.find_port(id) {
            let port = self.ports.remove(i);
            let ghost before = self.nodes@;
            if let Some(n) = self.find_node(port.node_id) {
                remove_id(&mut self.nodes[n].ports, id);
                proof {
                    assert forall|k: int| 0 <= k < before.len() && k != n implies before[k].id
                        != port.node_id by {}
                }
            }
            self.remove_links_touching(id);
            return;
        }
        if let Some(i) = self.find_link(id) {
            self.links.remove(i);
            detach_link(&mut self.ports, id);
            proof {
                let f = self.ports@;
                assert forall|a: int, b: int| 0 <= a < b < f.len() implies f[a].id != f[b].id by {
                    assert(port_links_reduced(old(self).ports@[a], f[a], other_than(id)));
                    assert(port_links_reduced(old(self).ports@[b], f[b], other_than(id)));
                }
            }
        }
    }
}

/// Removing a port removes every link that touched it, and no port lists a
/// removed link's id afterwards.
pub proof fn lemma_port_removal_cascades(o: Store, f: Store, id: u32)
    requires
        o.wf(),
        !device_in(o.devices@, id),
        !node_in(o.nodes@, id),
        port_in(o.ports@, id),
        removed_object(o, f, id),
    ensures
        forall|k: int| 0 <= k < f.links@.len() ==> !link_touches(#[trigger] f.links@[k], id),
        forall|k: int, m: int|
            0 <= k < f.ports@.len() && 0 <= m < o.links@.len() && link_touches(o.links@[m], id)
                ==> !(#[trigger] f.ports@[k]).links@.contains(#[trigger] o.links@[m].id),
{
    broadcast use group_filter_ensures;
    let i = choose|i: int|
        0 <= i < o.ports@.len() && o.ports@[i].id == id && ports_links_reduced(
            o.ports@.remove(i),
            f.ports@,
            untouched_id(o.links@, id),
        ) && nodes_detached_port(o.nodes@, f.nodes@, o.ports@[i].node_id, id);
    assert forall|k: int| 0 <= k < f.links@.len() implies !link_touches(#[trigger] f.links@[k], id) by {
        assert(not_touching(id)(f.links@[k]));
    }
    assert forall|k: int, m: int|
        0 <= k < f.ports@.len() && 0 <= m < o.links@.len() && link_touches(o.links@[m], id)
            implies !(#[trigger] f.ports@[k]).links@.contains(#[trigger] o.links@[m].id) by {
        assert(port_links_reduced(o.ports@.remove(i)[k], f.ports@[k], untouched_id(o.links@, id)));
        assert(touching_link_id(o.links@, id, o.links@[m].id));
    }
}

/// Removing the node that is the default sink or source clears that default.
pub proof fn lemma_node_removal_clears_default(o: Store, f: Store, id: u32)
    requires
        !device_in(o.devices@, id),
        node_in(o.nodes@, id),
        removed_object(o, f, id),
    ensures
        o.default_sink == Some(id) ==> f.default_sink is None,
        o.default_source == Some(id) ==> f.default_source is None,
        f.default_sink != Some(id),
        f.default_source != Some(id),
{
}

} // verus!
