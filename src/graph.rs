//! Derived state of the graph: default tracking, data completeness, the
//! recomputation after each change, and the published snapshot.
use vstd::prelude::*;
use vstd::string::*;
use crate::model::{ConnectionStatus, Device, DeviceType, GraphError, Link, Node, NodeType, Port, device_eq, node_eq, port_eq};
use crate::metadata::MetadataWrite;
use crate::nodes::node_type_is;
use crate::store::{Store, unique_node_ids};
use crate::text::{str_eq, str_trim, trim};
use crate::devices::{effective_type, lemma_device_index};
use crate::metadata::recorded_name;
use crate::restoration::{due, not_named_in, not_expired_at, is_live_at, polled, DefaultRestoration};
use crate::nodes::{is_device_node, node_index, default_set};
use crate::store::node_in;

verus! {

/// The node is of type `t` and answers to the name: by its name or its
/// description, exactly or with whitespace trimmed.
pub open spec fn name_match(n: Node, name: Seq<char>, t: NodeType) -> bool {
    n.node_type == t && (n.name@ == name || trim(n.name@) == trim(name) || (n.description matches Some(d) && (d@ == name
        || trim(d@) == trim(name))))
}

/// The first node at or after `j` that answers to the name.
pub open spec fn first_name_match(nodes: Seq<Node>, name: Seq<char>, t: NodeType, j: int) -> Option<int>
    decreases nodes.len() - j,
{
    if j < 0 || j >= nodes.len() {
        None
    } else if name_match(nodes[j], name, t) {
        Some(j)
    } else {
        first_name_match(nodes, name, t, j + 1)
    }
}

/// No node answers to the name and there is exactly one node of the kind: it
/// is taken as default by convention.
pub open spec fn lone_fallback(nodes: Seq<Node>, name: Seq<char>, t: NodeType) -> bool {
    first_name_match(nodes, name, t, 0) is None && nodes.filter(node_type_is(t)).len() == 1
}

/// The default flags after matching the recorded name against the nodes of
/// type `t`.
pub open spec fn flags_after_name(o: Seq<Node>, f: Seq<Node>, name: Seq<char>, t: NodeType) -> bool {
    &&& f.len() == o.len()
    &&& forall|j: int|
        0 <= j < o.len() ==> #[trigger] f[j] == (if o[j].node_type == t {
            Node { is_default: name_match(o[j], name, t) || lone_fallback(o, name, t), ..o[j] }
        } else {
            o[j]
        })
}

/// The default id after matching the recorded name: the first node that
/// answers to it, else the lone sink, else unchanged.
pub open spec fn default_after_name(o: Seq<Node>, name: Seq<char>, t: NodeType, prev: Option<u32>) -> Option<u32> {
    match first_name_match(o, name, t, 0) {
        Some(j) => Some(o[j].id),
        None => if lone_fallback(o, name, t) {
            Some(o[the_one_of_type(o, t)].id)
        } else {
            prev
        },
    }
}

/// The position of a node of type `t` (the only one, where there is one).
pub open spec fn the_one_of_type(o: Seq<Node>, t: NodeType) -> int {
    choose|j: int| 0 <= j < o.len() && o[j].node_type == t
}

/// The single node of type `t`, when there is exactly one, becomes the default.
pub open spec fn lone_default(o: Seq<Node>, t: NodeType, prev: Option<u32>) -> Option<u32> {
    if prev is None && o.filter(node_type_is(t)).len() == 1 {
        Some(o[the_one_of_type(o, t)].id)
    } else {
        prev
    }
}

/// `f` is `o` after matching the recorded name, if there is one, against the
/// nodes of type `t`.
pub open spec fn name_applied(o: Store, f: Store, name: Option<Seq<char>>, t: NodeType) -> bool {
    match name {
        None => f == o,
        Some(n) => {
            &&& flags_after_name(o.nodes@, f.nodes@, n, t)
            &&& t == NodeType::AudioSink ==> f == (Store {
                nodes: f.nodes,
                default_sink: default_after_name(o.nodes@, n, t, o.default_sink),
                ..o
            })
            &&& t == NodeType::AudioSource ==> f == (Store {
                nodes: f.nodes,
                default_source: default_after_name(o.nodes@, n, t, o.default_source),
                ..o
            })
        },
    }
}

/// The name the metadata records for a default: the current key, else the
/// configured one.
pub open spec fn recorded_default(s: Store, current: Seq<char>, configured: Seq<char>) -> Option<Seq<char>> {
    let c = recorded_name(s.metadata_manager.properties@, current);
    if c is Some {
        c
    } else {
        recorded_name(s.metadata_manager.properties@, configured)
    }
}

/// Every sink and source node has had its parameters, and there is one.
pub open spec fn audio_nodes_ready(nodes: Seq<Node>) -> bool {
    &&& exists|j: int| 0 <= j < nodes.len() && is_device_node(nodes[j].node_type)
    &&& forall|j: int| 0 <= j < nodes.len() && is_device_node(nodes[j].node_type) ==> nodes[j].has_received_params
}

/// Some device has a known type, and every such device has profiles and a
/// current profile.
pub open spec fn devices_ready(devices: Seq<Device>) -> bool {
    &&& exists|j: int| 0 <= j < devices.len() && devices[j].device_type != DeviceType::Unknown
    &&& forall|j: int|
        0 <= j < devices.len() && devices[j].device_type != DeviceType::Unknown ==> devices[j].profiles@.len() > 0
            && devices[j].current_profile_index is Some
}

/// The device with the type its nodes show, if its own is unknown.
pub open spec fn typed(nodes: Seq<Node>, d: Device) -> Device {
    Device {
        device_type: match effective_type(nodes, d.device_type, d.nodes@) {
            Some(t) => t,
            None => d.device_type,
        },
        ..d
    }
}

/// `f` is `o` with the single node of type `t` made default, when there is
/// no default of that kind yet and exactly one such node.
pub open spec fn fallback_applied(o: Store, f: Store, t: NodeType) -> bool {
    let prev = if t == NodeType::AudioSink { o.default_sink } else { o.default_source };
    let applies = prev is None && o.nodes@.filter(node_type_is(t)).len() == 1;
    let one = the_one_of_type(o.nodes@, t);
    &&& f.nodes@.len() == o.nodes@.len()
    &&& forall|j: int|
        0 <= j < o.nodes@.len() ==> #[trigger] f.nodes@[j] == (if applies && j == one {
            Node { is_default: true, ..o.nodes@[j] }
        } else {
            o.nodes@[j]
        })
    &&& t == NodeType::AudioSink ==> f == (Store { nodes: f.nodes, default_sink: lone_default(o.nodes@, t, prev), ..o })
    &&& t == NodeType::AudioSource ==> f == (Store { nodes: f.nodes, default_source: lone_default(o.nodes@, t, prev), ..o })
}

/// `f` is `o` after the default sink and source names that the metadata
/// records were applied, sink first.
pub open spec fn metadata_defaults_applied(o: Store, f: Store) -> bool {
    exists|mid: Store|
        #[trigger] name_applied(
            o,
            mid,
            recorded_default(o, "default.audio.sink"@, "default.configured.audio.sink"@),
            NodeType::AudioSink,
        ) && name_applied(
            mid,
            f,
            recorded_default(o, "default.audio.source"@, "default.configured.audio.source"@),
            NodeType::AudioSource,
        )
}

/// `r` is the data-completeness test on `o`, and `f` the store after it: the
/// devices take the type their nodes show, and on success the fallbacks are
/// applied.
pub open spec fn completeness_checked(o: Store, f: Store, r: bool) -> bool {
    &&& (o.devices@.len() == 0 || !audio_nodes_ready(o.nodes@)) ==> !r && f == o
    &&& (o.devices@.len() > 0 && audio_nodes_ready(o.nodes@)) ==> exists|m: Store| {
        &&& #[trigger] m.devices@.len() == o.devices@.len()
        &&& m == (Store { devices: m.devices, ..o })
        &&& forall|j: int| 0 <= j < m.devices@.len() ==> #[trigger] m.devices@[j] == typed(o.nodes@, o.devices@[j])
        &&& r == devices_ready(m.devices@)
        &&& r ==> exists|mid: Store| #[trigger] fallback_applied(m, mid, NodeType::AudioSink)
            && fallback_applied(mid, f, NodeType::AudioSource)
        &&& !r ==> f == m
    }
}

/// Over the first `k` restorations due, the last node id of kind `t` (sink
/// ids first in each pair, source ids second) that is not 0 and names a node
/// of that type in `s`.
pub open spec fn restored_target(s: Store, due_pairs: Seq<(u32, u32)>, t: NodeType, k: int) -> Option<u32>
    decreases k,
{
    if k <= 0 || k > due_pairs.len() {
        None
    } else {
        let id = if t == NodeType::AudioSink { due_pairs[k - 1].0 } else { due_pairs[k - 1].1 };
        if id != 0 && node_in(s.nodes@, id) && s.nodes@[node_index(s.nodes@, id)].node_type == t {
            Some(id)
        } else {
            restored_target(s, due_pairs, t, k - 1)
        }
    }
}

proof fn lemma_restored_target(s: Store, due_pairs: Seq<(u32, u32)>, t: NodeType, k: int)
    ensures
        restored_target(s, due_pairs, t, k) matches Some(id) ==> node_in(s.nodes@, id) && s.nodes@[node_index(s.nodes@, id)].node_type == t,
    decreases k,
{
    if k > 0 && k <= due_pairs.len() {
        lemma_restored_target(s, due_pairs, t, k - 1);
    }
}

/// The steps of one recomputation from `o` to `f` at `now`, with the stores
/// in between and the metadata writes of the two restored defaults:
/// recorded defaults applied; the completeness test run unless the data was
/// already complete; restoration records polled and completed ones dropped;
/// then the restored sink and source made default.
pub open spec fn refresh_chain(
    o: Store,
    st: ((Store, Store, bool, Store), (Store, Store, Seq<MetadataWrite>, Seq<MetadataWrite>)),
    f: Store,
    w: Seq<MetadataWrite>,
    now: u64,
) -> bool {
    let (s1, checked, c, s2) = st.0;
    let (s3, s4, w1, w2) = st.1;
    let due_now = due(o, o.restoration_manager.pending@, now, o.restoration_manager.pending@.len() as int);
    &&& metadata_defaults_applied(o, s1)
    &&& if s1.data_complete {
        s2 == s1
    } else {
        completeness_checked(s1, checked, c) && s2 == (Store { data_complete: c, ..checked })
    }
    &&& s3 == (Store { restoration_manager: s3.restoration_manager, ..s2 })
    &&& s3.restoration_manager.pending@ == records_after_refresh(o.restoration_manager.pending@, due_now.1, now)
    &&& restored_applied(s3, due_now.0, (s4, w1, w2), f, w)
}

/// `f` is `s` after the restored sink and then the restored source among
/// `due_pairs` were made default (through `mid`), and `w` their metadata
/// writes, in that order.
pub open spec fn restored_applied(
    s: Store,
    due_pairs: Seq<(u32, u32)>,
    x: (Store, Seq<MetadataWrite>, Seq<MetadataWrite>),
    f: Store,
    w: Seq<MetadataWrite>,
) -> bool {
    let (mid, w1, w2) = x;
    &&& match restored_target(s, due_pairs, NodeType::AudioSink, due_pairs.len() as int) {
        None => mid == s && w1.len() == 0,
        Some(id) => default_set(s, mid, id, NodeType::AudioSink, w1),
    }
    &&& match restored_target(s, due_pairs, NodeType::AudioSource, due_pairs.len() as int) {
        None => f == mid && w2.len() == 0,
        Some(id) => default_set(mid, f, id, NodeType::AudioSource, w2),
    }
    &&& w == w1 + w2
}

/// A copy of the graph for readers.
pub struct AudioGraph {
    pub nodes: Vec<Node>,
    pub devices: Vec<Device>,
    pub ports: Vec<Port>,
    pub links: Vec<Link>,
    pub default_sink: Option<u32>,
    pub default_source: Option<u32>,
    pub connection_status: ConnectionStatus,
    pub initial_sync_complete: bool,
    pub params_sync_complete: bool,
    pub data_complete: bool,
    pub default_clock_rate: u32,
}

impl AudioGraph {
    /// The graph before anything was heard from the server.
    pub fn new() -> (r: Self)
        ensures
            r.nodes@.len() == 0 && r.devices@.len() == 0 && r.ports@.len() == 0 && r.links@.len() == 0,
            r.default_sink is None && r.default_source is None,
            r.connection_status == ConnectionStatus::Disconnected,
            !r.initial_sync_complete && !r.params_sync_complete && !r.data_complete,
            r.default_clock_rate == 0,
    {
        AudioGraph {
            nodes: Vec::new(),
            devices: Vec::new(),
            ports: Vec::new(),
            links: Vec::new(),
            default_sink: None,
            default_source: None,
            connection_status: ConnectionStatus::Disconnected,
            initial_sync_complete: false,
            params_sync_complete: false,
            data_complete: false,
            default_clock_rate: 0,
        }
    }
}

/// `g` is a faithful copy of the store.
pub open spec fn snapshot_of(g: AudioGraph, s: Store) -> bool {
    &&& g.nodes@.len() == s.nodes@.len()
    &&& forall|k: int| 0 <= k < s.nodes@.len() ==> node_eq(#[trigger] g.nodes@[k], s.nodes@[k])
    &&& g.devices@.len() == s.devices@.len()
    &&& forall|k: int| 0 <= k < s.devices@.len() ==> device_eq(#[trigger] g.devices@[k], s.devices@[k])
    &&& g.ports@.len() == s.ports@.len()
    &&& forall|k: int| 0 <= k < s.ports@.len() ==> port_eq(#[trigger] g.ports@[k], s.ports@[k])
    &&& g.links@ == s.links@
    &&& g.default_sink == s.default_sink
    &&& g.default_source == s.default_source
    &&& g.connection_status == s.connection_status
    &&& g.initial_sync_complete == s.initial_sync_complete
    &&& g.params_sync_complete == s.params_sync_complete
    &&& g.data_complete == s.data_complete
    &&& g.default_clock_rate == s.default_clock_rate
}

fn node_answers(n: &Node, name: &String, t: NodeType) -> (r: bool)
    ensures
        r == name_match(*n, name@, t),
{
    if n.node_type != t {
        return false;
    }
    if n.name == *name {
        return true;
    }
    if str_eq(str_trim(n.name.as_str()), str_trim(name.as_str())) {
        return true;
    }
    match &n.description {
        Some(d) => *d == *name || str_eq(str_trim(d.as_str()), str_trim(name.as_str())),
        None => false,
    }
}

impl Store {
    /// The number of nodes of type `t` and the position of the first.
    fn count_of_type(&self, t: NodeType) -> (r: (usize, usize))
        ensures
            r.0 == self.nodes@.filter(node_type_is(t)).len(),
            r.0 > 0 ==> r.1 < self.nodes@.len() && self.nodes@[r.1 as int].node_type == t,
    {
        let ghost p = node_type_is(t);
        let mut count: usize = 0;
        let mut first: usize = 0;
        let mut i: usize = 0;
        while i < self.nodes.len()
            invariant
                0 <= i <= self.nodes@.len(),
                p == node_type_is(t),
                count == self.nodes@.subrange(0, i as int).filter(p).len(),
                count <= i,
                count > 0 ==> first < i && self.nodes@[first as int].node_type == t,
            decreases self.nodes@.len() - i,
        {
            proof {
                reveal_with_fuel(Seq::filter, 1);
                assert(self.nodes@.subrange(0, i + 1).drop_last() =~= self.nodes@.subrange(0, i as int));
            }
            if self.nodes[i].node_type == t {
                if count == 0 {
                    first = i;
                }
                count = count + 1;
            }
            i = i + 1;
        }
        proof {
            assert(self.nodes@.subrange(0, self.nodes@.len() as int) =~= self.nodes@);
        }
        (count, first)
    }

    /// Matches a recorded default name against the nodes of type `t` (sink or
    /// source) and sets the default flags and pointer accordingly.
    pub fn apply_default_name(&mut self, name: &String, t: NodeType)
        requires
            old(self).wf(),
            t == NodeType::AudioSink || t == NodeType::AudioSource,
        ensures
            final(self).wf(),
            flags_after_name(old(self).nodes@, final(self).nodes@, name@, t),
            t == NodeType::AudioSink ==> *final(self) == (Store {
                nodes: final(self).nodes,
                default_sink: default_after_name(old(self).nodes@, name@, t, old(self).default_sink),
                ..*old(self)
            }),
            t == NodeType::AudioSource ==> *final(self) == (Store {
                nodes: final(self).nodes,
                default_source: default_after_name(old(self).nodes@, name@, t, old(self).default_source),
                ..*old(self)
            }),
    {
        let ghost o = self.nodes@;
        let mut found: Option<usize> = None;
        let mut i: usize = 0;
        while i < self.nodes.len()
            invariant
                0 <= i <= o.len(),
                self.nodes@.len() == o.len(),
                unique_node_ids(o),
                o == old(self).nodes@,
                *self == (Store { nodes: self.nodes, ..*old(self) }),
                first_name_match(o, name@, t, 0) == match found {
                    Some(k) => Some(k as int),
                    None => first_name_match(o, name@, t, i as int),
                },
                found matches Some(k) ==> k < i,
                forall|j: int| i <= j < o.len() ==> #[trigger] self.nodes@[j] == o[j],
                forall|j: int| 0 <= j < i ==> #[trigger] self.nodes@[j] == (if o[j].node_type == t {
                    Node { is_default: name_match(o[j], name@, t), ..o[j] }
                } else {
                    o[j]
                }),
            decreases o.len() - i,
        {
            if self.nodes[i].node_type == t {
                let m = node_answers(&self.nodes[i], name, t);
                if m && found.is_none() {
                    found = Some(i);
                }
                self.nodes[i].is_default = m;
            }
            i = i + 1;
        }
        let ghost after = self.nodes@;
        let mut fallback = false;
        if found.is_none() {
            let (count, first) = self.count_of_type(t);
            if count == 1 {
                fallback = true;
                proof {
                    lemma_filter_same_type(o, self.nodes@, t);
                    lemma_single_of_type(o, t, first as int);
                    let c = the_one_of_type(o, t);
                    assert(o[first as int].node_type == t);
                    if c != first as int {
                        assert(o[c].node_type == t);
                    }
                }
                self.nodes[first].is_default = true;
                let id = self.nodes[first].id;
                if t == NodeType::AudioSink {
                    self.default_sink = Some(id);
                } else {
                    self.default_source = Some(id);
                }
            } else {
                proof {
                    lemma_filter_same_type(o, self.nodes@, t);
                }
            }
        }
        if let Some(k) = found {
            let id = self.nodes[k].id;
            if t == NodeType::AudioSink {
                self.default_sink = Some(id);
            } else {
                self.default_source = Some(id);
            }
        }
        proof {
            assert forall|a: int, b: int| 0 <= a < b < self.nodes@.len() implies self.nodes@[a].id != self.nodes@[b].id by {
                assert(o[a].id != o[b].id);
            }
            if found is None {
                lemma_filter_same_type(o, after, t);
            }
        }
    }
}

impl Store {
    /// Re-reads the default sink and source names that the metadata records
    /// and applies them to the nodes.
    pub fn update_defaults_from_metadata(&mut self)
        requires
            old(self).wf(),
        ensures
            final(self).wf(),
            metadata_defaults_applied(*old(self), *final(self)),
    {
        let sink = self.metadata_manager.get_default_sink();
        let source = self.metadata_manager.get_default_source();
        if let Some(name) = &sink {
            self.apply_default_name(name, NodeType::AudioSink);
        }
        let ghost mid = *self;
        if let Some(name) = &source {
            self.apply_default_name(name, NodeType::AudioSource);
        }
        proof {
            assert(name_applied(*old(self), mid, recorded_default(*old(self), "default.audio.sink"@, "default.configured.audio.sink"@), NodeType::AudioSink));
        }
    }

    /// Makes the single node of type `t` the default of its kind, when no
    /// default of that kind was ever announced.
    pub fn apply_default_fallback(&mut self, t: NodeType)
        requires
            old(self).wf(),
            t == NodeType::AudioSink || t == NodeType::AudioSource,
        ensures
            final(self).wf(),
            fallback_applied(*old(self), *final(self), t),
    {
        let prev = if t == NodeType::AudioSink {
            self.default_sink
        } else {
            self.default_source
        };
        if prev.is_some() {
            return;
        }
        let (count, first) = self.count_of_type(t);
        if count != 1 {
            return;
        }
        proof {
            lemma_single_of_type(self.nodes@, t, first as int);
            let c = the_one_of_type(self.nodes@, t);
            if c != first as int {
                assert(self.nodes@[c].node_type == t);
            }
        }
        let id = self.nodes[first].id;
        if t == NodeType::AudioSink {
            self.default_sink = Some(id);
        } else {
            self.default_source = Some(id);
        }
        self.nodes[first].is_default = true;
        proof {
            assert forall|a: int, b: int| 0 <= a < b < self.nodes@.len() implies self.nodes@[a].id != self.nodes@[b].id by {
                assert(old(self).nodes@[a].id != old(self).nodes@[b].id);
            }
        }
    }

    /// Both fallbacks: the lone sink, then the lone source.
    pub fn apply_default_fallbacks(&mut self)
        requires
            old(self).wf(),
        ensures
            final(self).wf(),
            exists|mid: Store| #[trigger] fallback_applied(*old(self), mid, NodeType::AudioSink)
                && fallback_applied(mid, *final(self), NodeType::AudioSource),
    {
        self.apply_default_fallback(NodeType::AudioSink);
        let ghost mid = *self;
        self.apply_default_fallback(NodeType::AudioSource);
        assert(fallback_applied(*old(self), mid, NodeType::AudioSink));
    }

    fn audio_nodes_are_ready(&self) -> (r: bool)
        ensures
            r == audio_nodes_ready(self.nodes@),
    {
        let mut any = false;
        let mut i: usize = 0;
        while i < self.nodes.len()
            invariant
                0 <= i <= self.nodes@.len(),
                any == exists|j: int| 0 <= j < i && is_device_node(self.nodes@[j].node_type),
                forall|j: int| 0 <= j < i && is_device_node(self.nodes@[j].node_type) ==> self.nodes@[j].has_received_params,
            decreases self.nodes@.len() - i,
        {
            let t = self.nodes[i].node_type;
            if t == NodeType::AudioSink || t == NodeType::AudioSource {
                if !self.nodes[i].has_received_params {
                    return false;
                }
                any = true;
            }
            i = i + 1;
        }
        any
    }

    fn devices_are_ready(&self) -> (r: bool)
        ensures
            r == devices_ready(self.devices@),
    {
        let mut any = false;
        let mut i: usize = 0;
        while i < self.devices.len()
            invariant
                0 <= i <= self.devices@.len(),
                any == exists|j: int| 0 <= j < i && self.devices@[j].device_type != DeviceType::Unknown,
                forall|j: int|
                    0 <= j < i && self.devices@[j].device_type != DeviceType::Unknown ==> self.devices@[j].profiles@.len() > 0
                        && self.devices@[j].current_profile_index is Some,
            decreases self.devices@.len() - i,
        {
            if self.devices[i].device_type != DeviceType::Unknown {
                if self.devices[i].profiles.len() == 0 || self.devices[i].current_profile_index.is_none() {
                    return false;
                }
                any = true;
            }
            i = i + 1;
        }
        any
    }

    /// Gives every device of unknown type the type its nodes show.
    pub fn update_all_device_types(&mut self)
        requires
            old(self).wf(),
        ensures
            final(self).wf(),
            *final(self) == (Store { devices: final(self).devices, ..*old(self) }),
            final(self).devices@.len() == old(self).devices@.len(),
            forall|j: int| 0 <= j < old(self).devices@.len() ==> #[trigger] final(self).devices@[j] == typed(old(self).nodes@, old(self).devices@[j]),
    {
        let ghost o = self.devices@;
        let mut i: usize = 0;
        while i < self.devices.len()
            invariant
                0 <= i <= o.len(),
                self.wf(),
                *self == (Store { devices: self.devices, ..*old(self) }),
                o == old(self).devices@,
                self.devices@.len() == o.len(),
                unique_node_ids(self.nodes@),
                forall|j: int| 0 <= j < o.len() ==> #[trigger] self.devices@[j].id == o[j].id,
                forall|j: int| 0 <= j < i ==> #[trigger] self.devices@[j] == typed(old(self).nodes@, o[j]),
                forall|j: int| i <= j < o.len() ==> #[trigger] self.devices@[j] == o[j],
            decreases o.len() - i,
        {
            let id = self.devices[i].id;
            proof {
                lemma_device_index(self.devices@, i as int);
            }
            self.update_device_type_from_nodes(id);
            i = i + 1;
        }
    }

    /// The data-completeness test: devices exist, some sink or source node
    /// exists and every one has had its parameters, and (once devices take
    /// the type their nodes show) every typed device has profiles and a
    /// current profile, with at least one such device. On success the lone
    /// sink and source become defaults where none was announced.
    pub fn check_data_completeness(&mut self) -> (r: bool)
        requires
            old(self).wf(),
        ensures
            final(self).wf(),
            completeness_checked(*old(self), *final(self), r),
    {
        if self.devices.len() == 0 {
            return false;
        }
        if !self.audio_nodes_are_ready() {
            return false;
        }
        self.update_all_device_types();
        let ghost m = *self;
        if !self.devices_are_ready() {
            return false;
        }
        self.apply_default_fallbacks();
        true
    }

    /// A faithful copy of the store for readers.
    pub fn to_graph(&self) -> (g: AudioGraph)
        ensures
            snapshot_of(g, *self),
    {
        let mut nodes: Vec<Node> = Vec::new();
        let mut i: usize = 0;
        while i < self.nodes.len()
            invariant
                0 <= i <= self.nodes@.len(),
                nodes@.len() == i,
                forall|k: int| 0 <= k < i ==> node_eq(#[trigger] nodes@[k], self.nodes@[k]),
            decreases self.nodes@.len() - i,
        {
            nodes.push(self.nodes[i].clone());
            i = i + 1;
        }
        let mut devices: Vec<Device> = Vec::new();
        let mut i: usize = 0;
        while i < self.devices.len()
            invariant
                0 <= i <= self.devices@.len(),
                devices@.len() == i,
                forall|k: int| 0 <= k < i ==> device_eq(#[trigger] devices@[k], self.devices@[k]),
            decreases self.devices@.len() - i,
        {
            devices.push(self.devices[i].clone());
            i = i + 1;
        }
        let mut ports: Vec<Port> = Vec::new();
        let mut i: usize = 0;
        while i < self.ports.len()
            invariant
                0 <= i <= self.ports@.len(),
                ports@.len() == i,
                forall|k: int| 0 <= k < i ==> port_eq(#[trigger] ports@[k], self.ports@[k]),
            decreases self.ports@.len() - i,
        {
            ports.push(self.ports[i].clone());
            i = i + 1;
        }
        let mut links: Vec<Link> = Vec::new();
        let mut i: usize = 0;
        while i < self.links.len()
            invariant
                0 <= i <= self.links@.len(),
                links@ == self.links@.subrange(0, i as int),
            decreases self.links@.len() - i,
        {
            links.push(self.links[i]);
            i = i + 1;
            proof {
                assert(links@ =~= self.links@.subrange(0, i as int));
            }
        }
        proof {
            assert(self.links@.subrange(0, self.links@.len() as int) =~= self.links@);
        }
        AudioGraph {
            nodes,
            devices,
            ports,
            links,
            default_sink: self.default_sink,
            default_source: self.default_source,
            connection_status: self.connection_status,
            initial_sync_complete: self.initial_sync_complete,
            params_sync_complete: self.params_sync_complete,
            data_complete: self.data_complete,
            default_clock_rate: self.default_clock_rate,
        }
    }
}

/// The restoration records after one recomputation at `now` that completed
/// the devices named in `done`.
pub open spec fn records_after_refresh(o: Seq<DefaultRestoration>, done: Seq<Seq<char>>, now: u64) -> Seq<DefaultRestoration> {
    o.filter(is_live_at(now)).map_values(|r: DefaultRestoration| polled(r)).filter(not_named_in(done)).filter(not_expired_at(now))
}

impl Store {
    /// Before a profile switch: records the device's default sink and source
    /// for restoration when it is of the USB class and owns one; then checks
    /// the switch as `switch_device_profile` does.
    pub fn switch_device_profile_with_restoration(&mut self, device_id: u32, profile_index: u32, now: u64) -> (r: Result<(), GraphError>)
        requires
            old(self).wf(),
        ensures
            final(self).wf(),
            *final(self) == (Store { restoration_manager: final(self).restoration_manager, ..*old(self) }),
            r == old(self).switch_device_profile_spec(device_id, profile_index),
            match crate::restoration::capture_plan(*old(self), device_id) {
                Some((name, sink, source)) => crate::restoration::captured(
                    old(self).restoration_manager.pending@,
                    final(self).restoration_manager.pending@,
                    DefaultRestoration {
                        device_id,
                        device_name: name,
                        had_default_sink: sink,
                        had_default_source: source,
                        target_profile_index: profile_index,
                        timestamp: now,
                        attempts: 0,
                    },
                ),
                None => final(self).restoration_manager == old(self).restoration_manager,
            },
    {
        match crate::restoration::RestorationManager::should_capture_defaults(self, device_id) {
            Some((name, sink, source)) => {
                self.restoration_manager.capture_defaults(device_id, name, sink, source, profile_index, now);
            },
            None => {},
        }
        self.switch_device_profile(device_id, profile_index)
    }

    /// Sets the global sample rate: remembered in the store, and the settings
    /// writes that apply it, when the settings object is there.
    pub fn set_sample_rate(&mut self, sample_rate: u32) -> (r: Result<Vec<MetadataWrite>, GraphError>)
        requires
            old(self).wf(),
        ensures
            final(self).wf(),
            *final(self) == (Store { default_clock_rate: sample_rate, ..*old(self) }),
            !old(self).metadata_manager.settings_available ==> r == Err::<Vec<MetadataWrite>, GraphError>(GraphError::MetadataUnavailable),
            old(self).metadata_manager.settings_available ==> (r matches Ok(w) && crate::metadata::rate_writes(w@, sample_rate)),
    {
        self.default_clock_rate = sample_rate;
        self.metadata_manager.set_sample_rate(sample_rate)
    }

    /// The server connection failed: the status becomes Error.
    pub fn fail_connection(&mut self)
        ensures
            *final(self) == (Store { connection_status: ConnectionStatus::Error, ..*old(self) }),
    {
        self.connection_status = ConnectionStatus::Error;
    }

    /// Recomputes derived state after a change, at `now` (seconds): collects
    /// the restorations due, re-applies the defaults the metadata records,
    /// tests data completeness until it first holds, counts a poll on the
    /// restoration records and drops completed and expired ones, then makes
    /// the restored nodes default. Returns the snapshot and the metadata
    /// writes that the new defaults call for.
    pub fn update_graph(&mut self, now: u64) -> (r: (AudioGraph, Vec<MetadataWrite>))
        requires
            old(self).wf(),
        ensures
            final(self).wf(),
            snapshot_of(r.0, *final(self)),
            exists|st: ((Store, Store, bool, Store), (Store, Store, Seq<MetadataWrite>, Seq<MetadataWrite>))|
                #[trigger] refresh_chain(*old(self), st, *final(self), r.1@, now),
    {
        let (restore, completed) = self.restoration_manager.get_pending_restorations(self, now);
        self.update_defaults_from_metadata();
        let ghost s1 = *self;
        let mut c = false;
        let ghost mut checked = *self;
        if !self.data_complete {
            c = self.check_data_completeness();
            proof {
                checked = *self;
            }
            self.data_complete = c;
        }
        let ghost s2 = *self;
        self.restoration_manager.update_attempts_and_cleanup(now);
        self.restoration_manager.mark_completed(&completed);
        self.restoration_manager.cleanup_expired(now);
        let ghost s3 = *self;
        let writes = self.apply_restored_defaults(&restore);
        let ghost ws = writes@;
        let ghost st = {
            let x = choose|x: (Store, Seq<MetadataWrite>, Seq<MetadataWrite>)| #[trigger] restored_applied(s3, restore@, x, *self, ws);
            ((s1, checked, c, s2), (s3, x.0, x.1, x.2))
        };
        proof {
            assert(restored_applied(s3, restore@, (st.1.1, st.1.2, st.1.3), *self, ws));
            assert(refresh_chain(*old(self), st, *self, ws, now));
        }
        let g = self.to_graph();
        let r = (g, writes);
        assert(refresh_chain(*old(self), st, *self, r.1@, now));
        r
    }

    /// Makes the restored sink, then the restored source, among the due
    /// (sink, source) pairs the defaults of their kinds; returns the metadata
    /// writes that persist them.
    fn apply_restored_defaults(&mut self, pairs: &Vec<(u32, u32)>) -> (w: Vec<MetadataWrite>)
        requires
            old(self).wf(),
        ensures
            final(self).wf(),
            exists|x: (Store, Seq<MetadataWrite>, Seq<MetadataWrite>)| #[trigger] restored_applied(*old(self), pairs@, x, *final(self), w@),
    {
        let ghost s3 = *self;
        let sink_target = self.restored_target(pairs, NodeType::AudioSink);
        let source_target = self.restored_target(pairs, NodeType::AudioSource);
        let mut writes: Vec<MetadataWrite> = Vec::new();
        proof {
            lemma_restored_target(s3, pairs@, NodeType::AudioSink, pairs@.len() as int);
            lemma_restored_target(s3, pairs@, NodeType::AudioSource, pairs@.len() as int);
        }
        if let Some(id) = sink_target {
            if let Ok(mut w) = self.set_default_sink(id) {
                writes.append(&mut w);
            }
        }
        let ghost s4 = *self;
        let ghost w1 = writes@;
        if let Some(id) = source_target {
            proof {
                if let Some(sid) = sink_target {
                    crate::nodes::lemma_default_set_keeps_nodes(s3, s4, sid, NodeType::AudioSink, w1);
                }
                crate::nodes::lemma_same_ids(s3.nodes@, s4.nodes@, id);
            }
            if let Ok(mut w) = self.set_default_source(id) {
                writes.append(&mut w);
            }
        }
        proof {
            let w2 = writes@.subrange(w1.len() as int, writes@.len() as int);
            assert(writes@ =~= w1 + w2);
            assert(restored_applied(s3, pairs@, (s4, w1, w2), *self, writes@));
        }
        writes
    }

    /// The restoration target of kind `t` among the due pairs.
    fn restored_target(&self, pairs: &Vec<(u32, u32)>, t: NodeType) -> (r: Option<u32>)
        requires
            self.wf(),
        ensures
            r == restored_target(*self, pairs@, t, pairs@.len() as int),
    {
        let mut r: Option<u32> = None;
        let mut k: usize = 0;
        while k < pairs.len()
            invariant
                0 <= k <= pairs@.len(),
                self.wf(),
                r == restored_target(*self, pairs@, t, k as int),
            decreases pairs@.len() - k,
        {
            let id = if t == NodeType::AudioSink { pairs[k].0 } else { pairs[k].1 };
            if id != 0 {
                if let Some(i) = self.find_node(id) {
                    proof {
                        crate::devices::lemma_node_index(self.nodes@, i as int);
                        let c = node_index(self.nodes@, id);
                        if c != i as int {
                            assert(self.nodes@[c].id == id);
                        }
                    }
                    if self.nodes[i].node_type == t {
                        r = Some(id);
                    }
                }
            }
            k = k + 1;
        }
        r
    }
}

/// When no default sink was ever announced, the fallbacks leave a default
/// sink exactly when there is exactly one sink node.
pub proof fn lemma_fallback_default_sink(o: Store, mid: Store, f: Store)
    requires
        o.default_sink is None,
        fallback_applied(o, mid, NodeType::AudioSink),
        fallback_applied(mid, f, NodeType::AudioSource),
    ensures
        f.default_sink is Some <==> o.nodes@.filter(node_type_is(NodeType::AudioSink)).len() == 1,
{
}

/// Two node lists that agree on every type filter by type alike, up to the
/// default flag.
proof fn lemma_filter_same_type(a: Seq<Node>, b: Seq<Node>, t: NodeType)
    requires
        a.len() == b.len(),
        forall|j: int| 0 <= j < a.len() ==> (#[trigger] b[j]).node_type == a[j].node_type,
    ensures
        a.filter(node_type_is(t)).len() == b.filter(node_type_is(t)).len(),
    decreases a.len(),
{
    reveal_with_fuel(Seq::filter, 1);
    if a.len() > 0 {
        lemma_filter_same_type(a.drop_last(), b.drop_last(), t);
        assert(b[b.len() - 1].node_type == a[a.len() - 1].node_type);
    }
}

/// With exactly one node of type `t`, the first of that type is it, and it is
/// the only one.
proof fn lemma_single_of_type(s: Seq<Node>, t: NodeType, k: int)
    requires
        s.filter(node_type_is(t)).len() == 1,
        0 <= k < s.len(),
        s[k].node_type == t,
    ensures
        forall|j: int| 0 <= j < s.len() && j != k ==> s[j].node_type != t,
{
    lemma_single_of_type_from(s, t, k);
}

proof fn lemma_single_of_type_from(s: Seq<Node>, t: NodeType, k: int)
    requires
        s.filter(node_type_is(t)).len() == 1,
        0 <= k < s.len(),
        s[k].node_type == t,
    ensures
        forall|j: int| 0 <= j < s.len() && j != k ==> s[j].node_type != t,
    decreases s.len(),
{
    reveal_with_fuel(Seq::filter, 1);
    let p = node_type_is(t);
    let r = s.drop_last();
    if k == s.len() - 1 {
        assert(s.filter(p) == r.filter(p).push(s[k]));
        assert(r.filter(p).len() == 0);
        assert forall|j: int| 0 <= j < s.len() && j != k implies s[j].node_type != t by {
            assert(s[j] == r[j]);
            if r[j].node_type == t {
                r.lemma_filter_contains(p, j);
            }
        }
    } else {
        if s.last().node_type == t {
            assert(s.filter(p) == r.filter(p).push(s.last()));
            assert(r[k] == s[k]);
            assert(r[k].node_type == t);
            r.lemma_filter_contains(p, k);
            assert(r.filter(p).len() >= 1);
        } else {
            assert(s.filter(p) == r.filter(p));
            assert(r[k] == s[k]);
            lemma_single_of_type_from(r, t, k);
            assert forall|j: int| 0 <= j < s.len() && j != k implies s[j].node_type != t by {
                if j < r.len() {
                    assert(s[j] == r[j]);
                }
            }
        }
    }
}

} // verus!
