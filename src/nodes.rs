//! Node-level state: parameter updates, volume and mute requests, and the
//! default sink and source.
use vstd::prelude::*;
use crate::model::{GraphError, Node, NodeType, Volume, clamp_volume, node_eq};
use crate::metadata::{MetadataWrite, default_writes};
use crate::store::{Store, node_in, unique_node_ids};
use crate::volume::{ParamValue, VolumeResolver, cubic_scaled, MAX_VOLUME};
use crate::devices::{volume_moved, first_channel, lemma_node_index};

verus! {

/// Which property a node parameter entry sets.
#[derive(Debug, Clone, Copy, PartialEq, Eq, Structural)]
pub enum PropKey {
    ChannelVolumes,
    Volume,
    Mute,
    Other,
}

/// One entry of a node's property parameter.
pub struct ParamProp {
    pub key: PropKey,
    pub value: ParamValue,
}

/// The position of the node with id `id`.
pub open spec fn node_index(nodes: Seq<Node>, id: u32) -> int {
    choose|i: int| 0 <= i < nodes.len() && nodes[i].id == id
}

pub open spec fn is_device_node(t: NodeType) -> bool {
    t == NodeType::AudioSink || t == NodeType::AudioSource
}

/// The node's volume after the first `k` property entries.
pub open spec fn props_volume(v: Volume, t: NodeType, props: Seq<ParamProp>, k: int) -> Volume
    decreases k,
{
    if k <= 0 {
        v
    } else {
        let prev = props_volume(v, t, props, k - 1);
        let p = props[k - 1];
        match p.key {
            PropKey::ChannelVolumes => match first_channel(Some(p.value)) {
                Some(raw) => if is_device_node(t) && volume_moved(prev.linear, cubic_scaled(raw as int) as u32) {
                    Volume { linear: cubic_scaled(raw as int) as u32, ..prev }
                } else {
                    prev
                },
                None => prev,
            },
            PropKey::Volume => match p.value {
                ParamValue::Float(x) => if volume_moved(prev.linear, x) {
                    Volume { linear: x, ..prev }
                } else {
                    prev
                },
                _ => prev,
            },
            PropKey::Mute => match p.value {
                ParamValue::Bool(m) => Volume { muted: m, ..prev },
                _ => prev,
            },
            PropKey::Other => prev,
        }
    }
}

/// The nodes of `f` are those of `o`, but the one with id `new` is now the
/// default and the one with id `old`, if another, no longer is.
pub open spec fn default_moved(o: Seq<Node>, f: Seq<Node>, old: Option<u32>, new: u32) -> bool {
    &&& f.len() == o.len()
    &&& forall|j: int|
        0 <= j < o.len() ==> #[trigger] f[j] == (if o[j].id == new {
            Node { is_default: true, ..o[j] }
        } else if old == Some(o[j].id) {
            Node { is_default: false, ..o[j] }
        } else {
            o[j]
        })
}

/// `f` is `o` after node `id`, a node of type `t` (sink or source), was made
/// the default of its kind, and `w` the metadata writes that persist it: none
/// when it already was the default (its flag is set again) or when the
/// metadata object is not there.
pub open spec fn default_set(o: Store, f: Store, id: u32, t: NodeType, w: Seq<MetadataWrite>) -> bool {
    let i = node_index(o.nodes@, id);
    let n = o.nodes@[i];
    let cur = if t == NodeType::AudioSink { o.default_sink } else { o.default_source };
    if cur == Some(id) {
        &&& w.len() == 0
        &&& f == (Store { nodes: f.nodes, ..o })
        &&& f.nodes@ == o.nodes@.update(i, Node { is_default: true, ..n })
    } else {
        &&& t == NodeType::AudioSink ==> f == (Store { nodes: f.nodes, default_sink: Some(id), ..o })
        &&& t == NodeType::AudioSource ==> f == (Store { nodes: f.nodes, default_source: Some(id), ..o })
        &&& default_moved(o.nodes@, f.nodes@, cur, id)
        &&& if o.metadata_manager.default_available {
            default_writes(w, n.name@, if t == NodeType::AudioSink { "sink"@ } else { "source"@ })
        } else {
            w.len() == 0
        }
    }
}

/// A node list that keeps every id and type keeps where an id is found and
/// its type.
pub proof fn lemma_same_ids(a: Seq<Node>, b: Seq<Node>, id: u32)
    requires
        a.len() == b.len(),
        forall|j: int| 0 <= j < a.len() ==> (#[trigger] b[j]).id == a[j].id && b[j].node_type == a[j].node_type,
        unique_node_ids(a),
        node_in(a, id),
    ensures
        node_in(b, id),
        b[node_index(b, id)].node_type == a[node_index(a, id)].node_type,
{
    let i = node_index(a, id);
    assert(b[i].id == id);
    let k = node_index(b, id);
    assert(a[k].id == id);
    if k != i {
        if k < i {
            assert(a[k].id != a[i].id);
        } else {
            assert(a[i].id != a[k].id);
        }
    }
}

/// Making a node default keeps every node's id and type.
pub proof fn lemma_default_set_keeps_nodes(o: Store, f: Store, id: u32, t: NodeType, w: Seq<MetadataWrite>)
    requires
        default_set(o, f, id, t, w),
        node_in(o.nodes@, id),
    ensures
        f.nodes@.len() == o.nodes@.len(),
        forall|j: int| 0 <= j < o.nodes@.len() ==> (#[trigger] f.nodes@[j]).id == o.nodes@[j].id && f.nodes@[j].node_type
            == o.nodes@[j].node_type,
{
    let cur = if t == NodeType::AudioSink { o.default_sink } else { o.default_source };
    if cur == Some(id) {
        assert forall|j: int| 0 <= j < o.nodes@.len() implies (#[trigger] f.nodes@[j]).id == o.nodes@[j].id && f.nodes@[j].node_type
            == o.nodes@[j].node_type by {
            if node_index(o.nodes@, id) != j {
                assert(f.nodes@[j] == o.nodes@[j]);
            }
        }
    } else {
        assert forall|j: int| 0 <= j < o.nodes@.len() implies (#[trigger] f.nodes@[j]).id == o.nodes@[j].id && f.nodes@[j].node_type
            == o.nodes@[j].node_type by {
            assert(f.nodes@[j] == (if o.nodes@[j].id == id {
                Node { is_default: true, ..o.nodes@[j] }
            } else if cur == Some(o.nodes@[j].id) {
                Node { is_default: false, ..o.nodes@[j] }
            } else {
                o.nodes@[j]
            }));
        }
    }
}

impl Store {
    /// Applies a node's property parameter. The first one marks the node as
    /// having received parameters; channel volumes (on sinks and sources, cube
    /// root scaled) and volumes are taken when they moved by more than a
    /// thousandth, mute when it changed. Returns whether anything observable
    /// changed.
    pub fn update_node_param(&mut self, node_id: u32, props: &Vec<ParamProp>) -> (r: bool)
        requires
            old(self).wf(),
        ensures
            final(self).wf(),
            !node_in(old(self).nodes@, node_id) ==> !r && *final(self) == *old(self),
            node_in(old(self).nodes@, node_id) ==> ({
                let i = node_index(old(self).nodes@, node_id);
                let o = old(self).nodes@[i];
                let v = props_volume(o.volume, o.node_type, props@, props@.len() as int);
                &&& *final(self) == (Store { nodes: final(self).nodes, ..*old(self) })
                &&& final(self).nodes@ == old(self).nodes@.update(i, Node { volume: v, has_received_params: true, ..o })
                &&& r == (!o.has_received_params || v != o.volume)
            }),
    {
        let i = match self.find_node(node_id) {
            Some(i) => i,
            None => {
                return false;
            },
        };
        proof {
            lemma_node_index(self.nodes@, i as int);
            let c = node_index(self.nodes@, node_id);
            if c != i as int {
                assert(self.nodes@[c].id == node_id);
            }
        }
        let first = !self.nodes[i].has_received_params;
        let t = self.nodes[i].node_type;
        let start = self.nodes[i].volume;
        let mut v = start;
        let mut k: usize = 0;
        while k < props.len()
            invariant
                0 <= k <= props@.len(),
                v == props_volume(start, t, props@, k as int),
            decreases props@.len() - k,
        {
            let p = &props[k];
            match p.key {
                PropKey::ChannelVolumes => {
                    if t == NodeType::AudioSink || t == NodeType::AudioSource {
                        if let Some(raw) = VolumeResolver::extract_channel_volume(&p.value) {
                            let scaled = VolumeResolver::apply_cubic_scaling(raw);
                            if crate::devices::abs_diff_exceeds(v.linear, scaled) {
                                v.linear = scaled;
                            }
                        }
                    }
                },
                PropKey::Volume => {
                    if let ParamValue::Float(x) = p.value {
                        if crate::devices::abs_diff_exceeds(v.linear, x) {
                            v.linear = x;
                        }
                    }
                },
                PropKey::Mute => {
                    if let ParamValue::Bool(m) = p.value {
                        v.muted = m;
                    }
                },
                PropKey::Other => {},
            }
            k = k + 1;
        }
        self.nodes[i].has_received_params = true;
        self.nodes[i].volume = v;
        proof {
            assert(self.nodes@ =~= old(self).nodes@.update(i as int, self.nodes@[i as int]));
            assert forall|a: int, b: int| 0 <= a < b < self.nodes@.len() implies self.nodes@[a].id != self.nodes@[b].id by {
                assert(old(self).nodes@[a].id != old(self).nodes@[b].id);
            }
        }
        first || v.linear != start.linear || v.muted != start.muted
    }

    /// Records a requested node volume, clamped to the largest gain; returns
    /// the clamped value that the request carries to the server.
    pub fn set_node_volume(&mut self, node_id: u32, volume: u32) -> (r: Result<u32, GraphError>)
        requires
            old(self).wf(),
        ensures
            final(self).wf(),
            !node_in(old(self).nodes@, node_id) ==> r == Err::<u32, GraphError>(GraphError::NodeNotFound(node_id))
                && *final(self) == *old(self),
            node_in(old(self).nodes@, node_id) ==> ({
                let i = node_index(old(self).nodes@, node_id);
                let o = old(self).nodes@[i];
                &&& r == Ok::<u32, GraphError>(clamp_volume(volume))
                &&& *final(self) == (Store { nodes: final(self).nodes, ..*old(self) })
                &&& final(self).nodes@ == old(self).nodes@.update(i, Node { volume: Volume { linear: clamp_volume(volume), ..o.volume }, ..o })
            }),
    {
        let i = match self.find_node(node_id) {
            Some(i) => i,
            None => {
                return Err(GraphError::NodeNotFound(node_id));
            },
        };
        proof {
            lemma_node_index(self.nodes@, i as int);
            let c = node_index(self.nodes@, node_id);
            if c != i as int {
                assert(self.nodes@[c].id == node_id);
            }
        }
        let value = if volume > MAX_VOLUME {
            MAX_VOLUME
        } else {
            volume
        };
        self.nodes[i].volume.linear = value;
        proof {
            assert(self.nodes@ =~= old(self).nodes@.update(i as int, self.nodes@[i as int]));
            assert forall|a: int, b: int| 0 <= a < b < self.nodes@.len() implies self.nodes@[a].id != self.nodes@[b].id by {
                assert(old(self).nodes@[a].id != old(self).nodes@[b].id);
            }
        }
        Ok(value)
    }

    /// Records a requested node mute.
    pub fn set_node_mute(&mut self, node_id: u32, mute: bool) -> (r: Result<(), GraphError>)
        requires
            old(self).wf(),
        ensures
            final(self).wf(),
            !node_in(old(self).nodes@, node_id) ==> r == Err::<(), GraphError>(GraphError::NodeNotFound(node_id))
                && *final(self) == *old(self),
            node_in(old(self).nodes@, node_id) ==> ({
                let i = node_index(old(self).nodes@, node_id);
                let o = old(self).nodes@[i];
                &&& r is Ok
                &&& *final(self) == (Store { nodes: final(self).nodes, ..*old(self) })
                &&& final(self).nodes@ == old(self).nodes@.update(i, Node { volume: Volume { muted: mute, ..o.volume }, ..o })
            }),
    {
        let i = match self.find_node(node_id) {
            Some(i) => i,
            None => {
                return Err(GraphError::NodeNotFound(node_id));
            },
        };
        proof {
            lemma_node_index(self.nodes@, i as int);
            let c = node_index(self.nodes@, node_id);
            if c != i as int {
                assert(self.nodes@[c].id == node_id);
            }
        }
        self.nodes[i].volume.muted = mute;
        proof {
            assert(self.nodes@ =~= old(self).nodes@.update(i as int, self.nodes@[i as int]));
            assert forall|a: int, b: int| 0 <= a < b < self.nodes@.len() implies self.nodes@[a].id != self.nodes@[b].id by {
                assert(old(self).nodes@[a].id != old(self).nodes@[b].id);
            }
        }
        Ok(())
    }

    /// Moves the default flag from the node `old_id` (if any) to `new_id`.
    fn move_default_flag(&mut self, old_id: Option<u32>, new_id: u32)
        requires
            old(self).wf(),
            old_id != Some(new_id),
        ensures
            final(self).wf(),
            *final(self) == (Store { nodes: final(self).nodes, ..*old(self) }),
            default_moved(old(self).nodes@, final(self).nodes@, old_id, new_id),
    {
        let ghost o = self.nodes@;
        if let Some(oid) = old_id {
            if let Some(j) = self.find_node(oid) {
                proof {
                    lemma_node_index(self.nodes@, j as int);
                }
                self.nodes[j].is_default = false;
            }
        }
        let ghost mid = self.nodes@;
        if let Some(j) = self.find_node(new_id) {
            proof {
                lemma_node_index(self.nodes@, j as int);
            }
            self.nodes[j].is_default = true;
        }
        proof {
            assert forall|a: int, b: int| 0 <= a < b < self.nodes@.len() implies self.nodes@[a].id != self.nodes@[b].id by {
                assert(o[a].id != o[b].id);
            }
        }
    }

    /// Makes the node the default sink. A node already default is left as it
    /// is. Returns the metadata writes that persist the choice on the server,
    /// none when the metadata object is not there.
    pub fn set_default_sink(&mut self, node_id: u32) -> (r: Result<Vec<MetadataWrite>, GraphError>)
        requires
            old(self).wf(),
        ensures
            final(self).wf(),
            node_in(old(self).nodes@, node_id) && old(self).nodes@[node_index(old(self).nodes@, node_id)].node_type
                == NodeType::AudioSink ==> (r matches Ok(w) && default_set(*old(self), *final(self), node_id, NodeType::AudioSink, w@)),
            !node_in(old(self).nodes@, node_id) ==> r == Err::<Vec<MetadataWrite>, GraphError>(GraphError::NodeNotFound(node_id))
                && *final(self) == *old(self),
            node_in(old(self).nodes@, node_id) ==> ({
                let n = old(self).nodes@[node_index(old(self).nodes@, node_id)];
                if n.node_type != NodeType::AudioSink {
                    r == Err::<Vec<MetadataWrite>, GraphError>(GraphError::NotASink(node_id)) && *final(self) == *old(self)
                } else if old(self).default_sink == Some(node_id) {
                    &&& (r matches Ok(w) && w@.len() == 0)
                    &&& *final(self) == (Store { nodes: final(self).nodes, ..*old(self) })
                    &&& final(self).nodes@ == old(self).nodes@.update(node_index(old(self).nodes@, node_id), Node { is_default: true, ..n })
                } else {
                    &&& *final(self) == (Store { nodes: final(self).nodes, default_sink: Some(node_id), ..*old(self) })
                    &&& default_moved(old(self).nodes@, final(self).nodes@, old(self).default_sink, node_id)
                    &&& r matches Ok(w) && if old(self).metadata_manager.default_available {
                        default_writes(w@, n.name@, "sink"@)
                    } else {
                        w@.len() == 0
                    }
                }
            }),
    {
        let i = match self.find_node(node_id) {
            Some(i) => i,
            None => {
                return Err(GraphError::NodeNotFound(node_id));
            },
        };
        proof {
            lemma_node_index(self.nodes@, i as int);
            let c = node_index(self.nodes@, node_id);
            if c != i as int {
                assert(self.nodes@[c].id == node_id);
            }
        }
        if self.nodes[i].node_type != NodeType::AudioSink {
            return Err(GraphError::NotASink(node_id));
        }
        if self.default_sink == Some(node_id) {
            self.nodes[i].is_default = true;
            proof {
                assert(self.nodes@ =~= old(self).nodes@.update(i as int, self.nodes@[i as int]));
                assert forall|a: int, b: int| 0 <= a < b < self.nodes@.len() implies self.nodes@[a].id != self.nodes@[b].id by {
                    assert(old(self).nodes@[a].id != old(self).nodes@[b].id);
                }
            }
            return Ok(Vec::new());
        }
        let writes = match self.metadata_manager.set_default_sink(self.nodes[i].name.as_str()) {
            Ok(w) => w,
            Err(_) => Vec::new(),
        };
        let previous = self.default_sink;
        self.default_sink = Some(node_id);
        self.move_default_flag(previous, node_id);
        Ok(writes)
    }

    /// Makes the node the default source; as for the sink.
    pub fn set_default_source(&mut self, node_id: u32) -> (r: Result<Vec<MetadataWrite>, GraphError>)
        requires
            old(self).wf(),
        ensures
            final(self).wf(),
            node_in(old(self).nodes@, node_id) && old(self).nodes@[node_index(old(self).nodes@, node_id)].node_type
                == NodeType::AudioSource ==> (r matches Ok(w) && default_set(*old(self), *final(self), node_id, NodeType::AudioSource, w@)),
            !node_in(old(self).nodes@, node_id) ==> r == Err::<Vec<MetadataWrite>, GraphError>(GraphError::NodeNotFound(node_id))
                && *final(self) == *old(self),
            node_in(old(self).nodes@, node_id) ==> ({
                let n = old(self).nodes@[node_index(old(self).nodes@, node_id)];
                if n.node_type != NodeType::AudioSource {
                    r == Err::<Vec<MetadataWrite>, GraphError>(GraphError::NotASource(node_id)) && *final(self) == *old(self)
                } else if old(self).default_source == Some(node_id) {
                    &&& (r matches Ok(w) && w@.len() == 0)
                    &&& *final(self) == (Store { nodes: final(self).nodes, ..*old(self) })
                    &&& final(self).nodes@ == old(self).nodes@.update(node_index(old(self).nodes@, node_id), Node { is_default: true, ..n })
                } else {
                    &&& *final(self) == (Store { nodes: final(self).nodes, default_source: Some(node_id), ..*old(self) })
                    &&& default_moved(old(self).nodes@, final(self).nodes@, old(self).default_source, node_id)
                    &&& r matches Ok(w) && if old(self).metadata_manager.default_available {
                        default_writes(w@, n.name@, "source"@)
                    } else {
                        w@.len() == 0
                    }
                }
            }),
    {
        let i = match self.find_node(node_id) {
            Some(i) => i,
            None => {
                return Err(GraphError::NodeNotFound(node_id));
            },
        };
        proof {
            lemma_node_index(self.nodes@, i as int);
            let c = node_index(self.nodes@, node_id);
            if c != i as int {
                assert(self.nodes@[c].id == node_id);
            }
        }
        if self.nodes[i].node_type != NodeType::AudioSource {
            return Err(GraphError::NotASource(node_id));
        }
        if self.default_source == Some(node_id) {
            self.nodes[i].is_default = true;
            proof {
                assert(self.nodes@ =~= old(self).nodes@.update(i as int, self.nodes@[i as int]));
                assert forall|a: int, b: int| 0 <= a < b < self.nodes@.len() implies self.nodes@[a].id != self.nodes@[b].id by {
                    assert(old(self).nodes@[a].id != old(self).nodes@[b].id);
                }
            }
            return Ok(Vec::new());
        }
        let writes = match self.metadata_manager.set_default_source(self.nodes[i].name.as_str()) {
            Ok(w) => w,
            Err(_) => Vec::new(),
        };
        let previous = self.default_source;
        self.default_source = Some(node_id);
        self.move_default_flag(previous, node_id);
        Ok(writes)
    }

    /// Copies of the nodes of type `t`, in stored order.
    pub fn nodes_of_type(&self, t: NodeType) -> (r: Vec<Node>)
        ensures
            r@.len() == self.nodes@.filter(node_type_is(t)).len(),
            forall|k: int| 0 <= k < r@.len() ==> node_eq(#[trigger] r@[k], self.nodes@.filter(node_type_is(t))[k]),
    {
        let ghost p = node_type_is(t);
        let mut r: Vec<Node> = Vec::new();
        let mut i: usize = 0;
        while i < self.nodes.len()
            invariant
                0 <= i <= self.nodes@.len(),
                p == node_type_is(t),
                r@.len() == self.nodes@.subrange(0, i as int).filter(p).len(),
                forall|k: int| 0 <= k < r@.len() ==> node_eq(#[trigger] r@[k], self.nodes@.subrange(0, i as int).filter(p)[k]),
            decreases self.nodes@.len() - i,
        {
            proof {
                reveal_with_fuel(Seq::filter, 1);
                assert(self.nodes@.subrange(0, i + 1).drop_last() =~= self.nodes@.subrange(0, i as int));
            }
            let ghost prev = r@;
            if self.nodes[i].node_type == t {
                r.push(self.nodes[i].clone());
                proof {
                    let f = self.nodes@.subrange(0, i + 1).filter(p);
                    assert(f == self.nodes@.subrange(0, i as int).filter(p).push(self.nodes@[i as int]));
                    assert forall|k: int| 0 <= k < r@.len() implies node_eq(#[trigger] r@[k], f[k]) by {
                        if k < prev.len() {
                            assert(r@[k] == prev[k]);
                        }
                    }
                }
            }
            i = i + 1;
        }
        proof {
            assert(self.nodes@.subrange(0, self.nodes@.len() as int) =~= self.nodes@);
        }
        r
    }

    pub fn get_output_nodes(&self) -> (r: Vec<Node>)
        ensures
            r@.len() == self.nodes@.filter(node_type_is(NodeType::AudioSink)).len(),
            forall|k: int| 0 <= k < r@.len() ==> node_eq(#[trigger] r@[k], self.nodes@.filter(node_type_is(NodeType::AudioSink))[k]),
    {
        self.nodes_of_type(NodeType::AudioSink)
    }

    pub fn get_input_nodes(&self) -> (r: Vec<Node>)
        ensures
            r@.len() == self.nodes@.filter(node_type_is(NodeType::AudioSource)).len(),
            forall|k: int| 0 <= k < r@.len() ==> node_eq(#[trigger] r@[k], self.nodes@.filter(node_type_is(NodeType::AudioSource))[k]),
    {
        self.nodes_of_type(NodeType::AudioSource)
    }

    pub fn get_node(&self, node_id: u32) -> (r: Option<Node>)
        requires
            self.wf(),
        ensures
            !node_in(self.nodes@, node_id) ==> r is None,
            node_in(self.nodes@, node_id) ==> (r matches Some(n) && node_eq(n, self.nodes@[node_index(self.nodes@, node_id)])),
    {
        match self.find_node(node_id) {
            Some(i) => {
                proof {
                    lemma_node_index(self.nodes@, i as int);
                    let c = node_index(self.nodes@, node_id);
                    if c != i as int {
                        assert(self.nodes@[c].id == node_id);
                    }
                }
                Some(self.nodes[i].clone())
            },
            None => None,
        }
    }

    /// A stream node reported its media name; returns whether it changed.
    /// Other nodes keep theirs.
    pub fn update_node_media_name(&mut self, node_id: u32, media_name: Option<String>) -> (r: bool)
        requires
            old(self).wf(),
        ensures
            final(self).wf(),
            !node_in(old(self).nodes@, node_id) ==> !r && *final(self) == *old(self),
            node_in(old(self).nodes@, node_id) ==> ({
                let i = node_index(old(self).nodes@, node_id);
                let o = old(self).nodes@[i];
                let stream = o.node_type == NodeType::StreamOutputAudio || o.node_type == NodeType::StreamInputAudio;
                if stream && media_name is Some && crate::registry::opt_view(o.media_name) != crate::registry::opt_view(media_name) {
                    &&& r
                    &&& *final(self) == (Store { nodes: final(self).nodes, ..*old(self) })
                    &&& final(self).nodes@ == old(self).nodes@.update(i, Node { media_name, ..o })
                } else {
                    !r && *final(self) == *old(self)
                }
            }),
    {
        let i = match self.find_node(node_id) {
            Some(i) => i,
            None => {
                return false;
            },
        };
        proof {
            lemma_node_index(self.nodes@, i as int);
            let c = node_index(self.nodes@, node_id);
            if c != i as int {
                assert(self.nodes@[c].id == node_id);
            }
        }
        let t = self.nodes[i].node_type;
        if t != NodeType::StreamOutputAudio && t != NodeType::StreamInputAudio {
            return false;
        }
        let same = match (&self.nodes[i].media_name, &media_name) {
            (Some(a), Some(b)) => *a == *b,
            (None, None) => true,
            _ => false,
        };
        if media_name.is_none() || same {
            return false;
        }
        self.nodes[i].media_name = media_name;
        proof {
            assert(self.nodes@ =~= old(self).nodes@.update(i as int, self.nodes@[i as int]));
            assert forall|a: int, b: int| 0 <= a < b < self.nodes@.len() implies self.nodes@[a].id != self.nodes@[b].id by {
                assert(old(self).nodes@[a].id != old(self).nodes@[b].id);
            }
        }
        true
    }

    /// The devices that expose route-level volume, whose routes are asked
    /// for again when something outside changed them.
    pub fn route_capable_devices(&self) -> (r: Vec<u32>)
        ensures
            r@ == self.devices@.filter(|d: crate::model::Device| d.has_route_volume).map_values(|d: crate::model::Device| d.id),
    {
        let ghost p = |d: crate::model::Device| d.has_route_volume;
        let ghost f = |d: crate::model::Device| d.id;
        let mut r: Vec<u32> = Vec::new();
        let mut i: usize = 0;
        while i < self.devices.len()
            invariant
                0 <= i <= self.devices@.len(),
                p == (|d: crate::model::Device| d.has_route_volume),
                f == (|d: crate::model::Device| d.id),
                r@ == self.devices@.subrange(0, i as int).filter(p).map_values(f),
            decreases self.devices@.len() - i,
        {
            proof {
                reveal_with_fuel(Seq::filter, 1);
                assert(self.devices@.subrange(0, i + 1).drop_last() =~= self.devices@.subrange(0, i as int));
            }
            if self.devices[i].has_route_volume {
                r.push(self.devices[i].id);
                proof {
                    let s = self.devices@.subrange(0, i as int).filter(p);
                    assert(s.push(self.devices@[i as int]).map_values(f) =~= s.map_values(f).push(self.devices@[i as int].id));
                }
            }
            i = i + 1;
        }
        proof {
            assert(self.devices@.subrange(0, self.devices@.len() as int) =~= self.devices@);
        }
        r
    }
}

pub open spec fn node_type_is(t: NodeType) -> spec_fn(Node) -> bool {
    |n: Node| n.node_type == t
}

} // verus!
