//! Objects appearing on the server: building entities from their announced
//! properties and linking them into the store.
use vstd::prelude::*;
use vstd::string::*;
use crate::model::{Device, DeviceType, GraphError, Link, Node, NodeType, Port, PortDirection, RouteInfo, Volume};
use crate::store::{Store, device_in, node_in, port_in, link_in, push_unique, no_dup, unique_node_ids, unique_port_ids, unique_link_ids};
use crate::text::{parse_u32, spec_parse_u32, str_eq};
use crate::volume::VOLUME_UNIT;
use crate::devices::effective_type;

verus! {

/// Properties the server announces with a device.
pub struct DeviceProps {
    pub name: Option<String>,
    pub nick: Option<String>,
    pub description: Option<String>,
    pub media_class: Option<String>,
}

/// Properties the server announces with a node.
pub struct NodeProps {
    pub name: Option<String>,
    pub nick: Option<String>,
    pub description: Option<String>,
    pub application_name: Option<String>,
    pub media_class: Option<String>,
    pub device_id: Option<String>,
    pub media_name: Option<String>,
}

/// Properties the server announces with a port.
pub struct PortProps {
    pub name: Option<String>,
    pub node_id: Option<String>,
    pub direction: Option<String>,
    pub channel: Option<String>,
}

/// Properties the server announces with a link.
pub struct LinkProps {
    pub output_port: Option<String>,
    pub input_port: Option<String>,
    pub output_node: Option<String>,
    pub input_node: Option<String>,
}

/// An object that appeared in the server's registry.
pub enum ObjectKind {
    Device(DeviceProps),
    Node(NodeProps),
    Port(PortProps),
    Link(LinkProps),
    Other,
}

pub open spec fn opt_view(o: Option<String>) -> Option<Seq<char>> {
    match o {
        Some(s) => Some(s@),
        None => None,
    }
}

pub open spec fn spec_device_type(mc: Option<Seq<char>>) -> DeviceType {
    match mc {
        Some(m) => if m == "Audio/Device/Sink"@ || m == "Audio/Sink"@ {
            DeviceType::Sink
        } else if m == "Audio/Device/Source"@ || m == "Audio/Source"@ {
            DeviceType::Source
        } else {
            DeviceType::Unknown
        },
        None => DeviceType::Unknown,
    }
}

pub open spec fn spec_node_type(mc: Option<Seq<char>>) -> NodeType {
    match mc {
        Some(m) => if m == "Audio/Sink"@ {
            NodeType::AudioSink
        } else if m == "Audio/Source"@ {
            NodeType::AudioSource
        } else if m == "Audio/Duplex"@ {
            NodeType::AudioDuplex
        } else if m == "Stream/Output/Audio"@ {
            NodeType::StreamOutputAudio
        } else if m == "Stream/Input/Audio"@ {
            NodeType::StreamInputAudio
        } else {
            NodeType::Unknown
        },
        None => NodeType::Unknown,
    }
}

/// The first present value among `a`, `b`, `c`, else `fallback`.
pub open spec fn first_present(
    a: Option<Seq<char>>,
    b: Option<Seq<char>>,
    c: Option<Seq<char>>,
    fallback: Seq<char>,
) -> Seq<char> {
    if a is Some {
        a->0
    } else if b is Some {
        b->0
    } else if c is Some {
        c->0
    } else {
        fallback
    }
}

/// The ids of the nodes that name `device_id` as their device, in order.
pub open spec fn nodes_owned_by(nodes: Seq<Node>, device_id: u32) -> Seq<u32> {
    nodes.filter(|n: Node| n.device_id == Some(device_id)).map_values(|n: Node| n.id)
}

/// The ids of the ports that belong to `node_id`, in order.
pub open spec fn ports_of_node(ports: Seq<Port>, node_id: u32) -> Seq<u32> {
    ports.filter(|p: Port| p.node_id == node_id).map_values(|p: Port| p.id)
}

pub open spec fn link_attaches(l: Link, port_id: u32, dir: PortDirection) -> bool {
    (l.input_port == port_id && dir == PortDirection::Input) || (l.output_port == port_id && dir
        == PortDirection::Output)
}

/// The ids of the links that end at the port on its side, in order.
pub open spec fn links_at_port(links: Seq<Link>, port_id: u32, dir: PortDirection) -> Seq<u32> {
    links.filter(|l: Link| link_attaches(l, port_id, dir)).map_values(|l: Link| l.id)
}

/// `f` is `o` with `x` stored at `k`: in place of the entry with the same id,
/// or appended when there was none.
pub open spec fn upserted<T>(o: Seq<T>, f: Seq<T>, k: int, x: T, has_id: bool) -> bool {
    &&& 0 <= k < f.len()
    &&& f[k] == x
    &&& if has_id {
        f.len() == o.len() && forall|j: int| 0 <= j < o.len() && j != k ==> f[j] == o[j]
    } else {
        f.len() == o.len() + 1 && k == o.len() && forall|j: int| 0 <= j < o.len() ==> f[j] == o[j]
    }
}

fn take_or_default(a: Option<String>, fallback: &str) -> (r: String)
    ensures
        r@ == (if a is Some { a->0@ } else { fallback@ }),
{
    match a {
        Some(s) => s,
        None => String::from_str(fallback),
    }
}

fn device_type_of(mc: &Option<String>) -> (r: DeviceType)
    ensures
        r == spec_device_type(opt_view(*mc)),
{
    match mc {
        Some(m) => {
            let m = m.as_str();
            if str_eq(m, "Audio/Device/Sink") || str_eq(m, "Audio/Sink") {
                DeviceType::Sink
            } else if str_eq(m, "Audio/Device/Source") || str_eq(m, "Audio/Source") {
                DeviceType::Source
            } else {
                DeviceType::Unknown
            }
        },
        None => DeviceType::Unknown,
    }
}

fn node_type_of(mc: &Option<String>) -> (r: NodeType)
    ensures
        r == spec_node_type(opt_view(*mc)),
{
    match mc {
        Some(m) => {
            let m = m.as_str();
            if str_eq(m, "Audio/Sink") {
                NodeType::AudioSink
            } else if str_eq(m, "Audio/Source") {
                NodeType::AudioSource
            } else if str_eq(m, "Audio/Duplex") {
                NodeType::AudioDuplex
            } else if str_eq(m, "Stream/Output/Audio") {
                NodeType::StreamOutputAudio
            } else if str_eq(m, "Stream/Input/Audio") {
                NodeType::StreamInputAudio
            } else {
                NodeType::Unknown
            }
        },
        None => NodeType::Unknown,
    }
}

pub open spec fn parsed_id(o: Option<String>) -> Option<u32> {
    match o {
        Some(t) => spec_parse_u32(t@),
        None => None,
    }
}

/// `d` is the device built from the announced properties of object `id`.
pub open spec fn device_from_props(d: Device, id: u32, props: DeviceProps, nodes: Seq<Node>) -> bool {
    &&& d.id == id
    &&& d.name@ == first_present(
        opt_view(props.name),
        opt_view(props.nick),
        opt_view(props.description),
        "Unknown Device"@,
    )
    &&& d.nick == props.nick
    &&& d.description == props.description
    &&& d.device_type == spec_device_type(opt_view(props.media_class))
    &&& d.bus is None && d.form_factor is None
    &&& d.nodes@ == nodes_owned_by(nodes, id)
    &&& d.profiles@.len() == 0
    &&& d.current_profile_index is None
    &&& d.volume == VOLUME_UNIT && !d.muted
    &&& d.output_route == RouteInfo { index: None, device: None, volume: VOLUME_UNIT, muted: false }
    &&& d.input_route == RouteInfo { index: None, device: None, volume: VOLUME_UNIT, muted: false }
    &&& !d.has_route_volume
}

/// `n` is the node built from the announced properties of object `id`.
pub open spec fn node_from_props(n: Node, id: u32, props: NodeProps, o: Store) -> bool {
    &&& n.id == id
    &&& n.name@ == first_present(opt_view(props.name), opt_view(props.nick), None, "Unknown Node"@)
    &&& n.nick == props.nick
    &&& n.description == props.description
    &&& n.application_name == props.application_name
    &&& n.media_class == props.media_class
    &&& n.node_type == spec_node_type(opt_view(props.media_class))
    &&& n.device_id == parsed_id(props.device_id)
    &&& n.volume == Volume { linear: VOLUME_UNIT, muted: false }
    &&& n.is_default == ((n.node_type == NodeType::AudioSink && o.default_sink == Some(id)) || (
    n.node_type == NodeType::AudioSource && o.default_source == Some(id)))
    &&& n.ports@ == ports_of_node(o.ports@, id)
    &&& n.media_name == props.media_name
    &&& !n.has_received_params
}

/// The devices after a node naming `owner` appeared: that device lists the
/// node and takes the type its nodes show; the others are kept.
pub open spec fn devices_took_node(o: Seq<Device>, f: Seq<Device>, nodes: Seq<Node>, owner: Option<u32>, node_id: u32) -> bool {
    &&& f.len() == o.len()
    &&& forall|j: int|
        0 <= j < o.len() ==> if owner == Some(o[j].id) {
            let listed = if o[j].nodes@.contains(node_id) {
                o[j].nodes@
            } else {
                o[j].nodes@.push(node_id)
            };
            &&& (#[trigger] f[j]).nodes@ == listed
            &&& f[j].device_type == match effective_type(nodes, o[j].device_type, listed) {
                Some(t) => t,
                None => o[j].device_type,
            }
            &&& f[j].id == o[j].id && f[j].name == o[j].name && f[j].nick == o[j].nick
            &&& f[j].description == o[j].description && f[j].bus == o[j].bus
            &&& f[j].form_factor == o[j].form_factor && f[j].profiles == o[j].profiles
            &&& f[j].current_profile_index == o[j].current_profile_index
            &&& f[j].volume == o[j].volume && f[j].muted == o[j].muted
            &&& f[j].output_route == o[j].output_route && f[j].input_route == o[j].input_route
            &&& f[j].has_route_volume == o[j].has_route_volume
        } else {
            f[j] == o[j]
        }
}

/// What a port's announced properties give: its node and direction, or the
/// error that refuses it.
pub open spec fn port_header(id: u32, props: PortProps) -> Result<(u32, PortDirection), GraphError> {
    match props.node_id {
        None => Err(GraphError::MissingProperty(id)),
        Some(t) => match spec_parse_u32(t@) {
            None => Err(GraphError::InvalidProperty(id)),
            Some(node_id) => match props.direction {
                Some(d) => if d@ == "in"@ {
                    Ok((node_id, PortDirection::Input))
                } else if d@ == "out"@ {
                    Ok((node_id, PortDirection::Output))
                } else {
                    Err(GraphError::InvalidDirection(id))
                },
                None => Err(GraphError::InvalidDirection(id)),
            },
        },
    }
}

pub open spec fn id_prop(id: u32, o: Option<String>) -> Result<u32, GraphError> {
    match o {
        None => Err(GraphError::MissingProperty(id)),
        Some(t) => match spec_parse_u32(t@) {
            None => Err(GraphError::InvalidProperty(id)),
            Some(v) => Ok(v),
        },
    }
}

/// The link that the announced properties describe, or the first error.
pub open spec fn link_header(id: u32, props: LinkProps) -> Result<Link, GraphError> {
    match (id_prop(id, props.output_port), id_prop(id, props.input_port), id_prop(id, props.output_node), id_prop(id, props.input_node)) {
        (Err(e), _, _, _) => Err(e),
        (Ok(_), Err(e), _, _) => Err(e),
        (Ok(_), Ok(_), Err(e), _) => Err(e),
        (Ok(_), Ok(_), Ok(_), Err(e)) => Err(e),
        (Ok(op), Ok(ip), Ok(on), Ok(inn)) => Ok(Link { id, output_node: on, output_port: op, input_node: inn, input_port: ip }),
    }
}

/// The port with `id`, if any, lists `link_id`; the other ports are kept.
pub open spec fn port_took_link(o: Seq<Port>, f: Seq<Port>, port_id: u32, link_id: u32) -> bool {
    &&& f.len() == o.len()
    &&& forall|j: int|
        0 <= j < o.len() ==> if o[j].id == port_id {
            &&& (#[trigger] f[j]).links@ == (if o[j].links@.contains(link_id) {
                o[j].links@
            } else {
                o[j].links@.push(link_id)
            })
            &&& f[j].id == o[j].id && f[j].name == o[j].name && f[j].node_id == o[j].node_id
            &&& f[j].direction == o[j].direction && f[j].channel == o[j].channel
        } else {
            f[j] == o[j]
        }
}

/// The node with `id`, if any, lists `port_id`; the other nodes are kept.
pub open spec fn node_took_port(o: Seq<Node>, f: Seq<Node>, node_id: u32, port_id: u32) -> bool {
    &&& f.len() == o.len()
    &&& forall|j: int|
        0 <= j < o.len() ==> if o[j].id == node_id {
            &&& (#[trigger] f[j]).ports@ == (if o[j].ports@.contains(port_id) {
                o[j].ports@
            } else {
                o[j].ports@.push(port_id)
            })
            &&& crate::store::node_ports_changed(o[j], f[j])
        } else {
            f[j] == o[j]
        }
}

/// `f` is `o` after link `l` appeared: stored by its id, and listed by both
/// of its end ports.
pub open spec fn link_added(o: Store, f: Store, l: Link) -> bool {
    &&& f == (Store { links: f.links, ports: f.ports, ..o })
    &&& exists|k: int| #[trigger] upserted(o.links@, f.links@, k, l, link_in(o.links@, l.id))
    &&& exists|mid: Seq<Port>|
        #[trigger] port_took_link(o.ports@, mid, l.output_port, l.id) && port_took_link(
            mid,
            f.ports@,
            l.input_port,
            l.id,
        )
}

fn read_id(id: u32, o: Option<String>) -> (r: Result<u32, GraphError>)
    ensures
        r == id_prop(id, o),
{
    match o {
        None => Err(GraphError::MissingProperty(id)),
        Some(t) => match parse_u32(t.as_str()) {
            None => Err(GraphError::InvalidProperty(id)),
            Some(v) => Ok(v),
        },
    }
}

impl Store {
    pub fn nodes_of_device(&self, device_id: u32) -> (r: Vec<u32>)
        requires
            unique_node_ids(self.nodes@),
        ensures
            r@ == nodes_owned_by(self.nodes@, device_id),
            no_dup(r@),
    {
        let ghost p = |n: Node| n.device_id == Some(device_id);
        let ghost f = |n: Node| n.id;
        let mut r: Vec<u32> = Vec::new();
        let mut i: usize = 0;
        while i < self.nodes.len()
            invariant
                0 <= i <= self.nodes@.len(),
                p == (|n: Node| n.device_id == Some(device_id)),
                f == (|n: Node| n.id),
                r@ == self.nodes@.subrange(0, i as int).filter(p).map_values(f),
                unique_node_ids(self.nodes@),
                no_dup(r@),
                forall|a: int| 0 <= a < r@.len() ==> exists|b: int| 0 <= b < i && #[trigger] r@[a] == self.nodes@[b].id,
            decreases self.nodes@.len() - i,
        {
            proof {
                reveal_with_fuel(Seq::filter, 1);
                assert(self.nodes@.subrange(0, i + 1).drop_last() =~= self.nodes@.subrange(0, i as int));
            }
            if self.nodes[i].device_id == Some(device_id) {
                let ghost before = r@;
                r.push(self.nodes[i].id);
                proof {
                    assert forall|a: int| 0 <= a < r@.len() implies exists|b: int| 0 <= b < i + 1 && #[trigger] r@[a] == self.nodes@[b].id by {
                        if a < before.len() {
                            let b = choose|b: int| 0 <= b < i && #[trigger] before[a] == self.nodes@[b].id;
                            assert(r@[a] == self.nodes@[b].id);
                        } else {
                            assert(r@[a] == self.nodes@[i as int].id);
                        }
                    }
                    assert forall|a: int, c: int| 0 <= a < c < r@.len() implies r@[a] != r@[c] by {
                        if c == r@.len() - 1 {
                            let b = choose|b: int| 0 <= b < i && #[trigger] before[a] == self.nodes@[b].id;
                            assert(r@[a] == before[a]);
                            assert(self.nodes@[b].id != self.nodes@[i as int].id);
                        } else {
                            assert(r@[a] == before[a] && r@[c] == before[c]);
                        }
                    }
                }
                proof {
                    let s = self.nodes@.subrange(0, i as int).filter(p);
                    assert(s.push(self.nodes@[i as int]).map_values(f) =~= s.map_values(f).push(self.nodes@[i as int].id));
                }
            }
            i = i + 1;
        }
        proof {
            assert(self.nodes@.subrange(0, self.nodes@.len() as int) =~= self.nodes@);
        }
        r
    }

    pub fn ports_of(&self, node_id: u32) -> (r: Vec<u32>)
        requires
            unique_port_ids(self.ports@),
        ensures
            r@ == ports_of_node(self.ports@, node_id),
            no_dup(r@),
    {
        let ghost p = |x: Port| x.node_id == node_id;
        let ghost f = |x: Port| x.id;
        let mut r: Vec<u32> = Vec::new();
        let mut i: usize = 0;
        while i < self.ports.len()
            invariant
                0 <= i <= self.ports@.len(),
                p == (|x: Port| x.node_id == node_id),
                f == (|x: Port| x.id),
                r@ == self.ports@.subrange(0, i as int).filter(p).map_values(f),
                unique_port_ids(self.ports@),
                no_dup(r@),
                forall|a: int| 0 <= a < r@.len() ==> exists|b: int| 0 <= b < i && #[trigger] r@[a] == self.ports@[b].id,
            decreases self.ports@.len() - i,
        {
            proof {
                reveal_with_fuel(Seq::filter, 1);
                assert(self.ports@.subrange(0, i + 1).drop_last() =~= self.ports@.subrange(0, i as int));
            }
            if self.ports[i].node_id == node_id {
                let ghost before = r@;
                r.push(self.ports[i].id);
                proof {
                    assert forall|a: int| 0 <= a < r@.len() implies exists|b: int| 0 <= b < i + 1 && #[trigger] r@[a] == self.ports@[b].id by {
                        if a < before.len() {
                            let b = choose|b: int| 0 <= b < i && #[trigger] before[a] == self.ports@[b].id;
                            assert(r@[a] == self.ports@[b].id);
                        } else {
                            assert(r@[a] == self.ports@[i as int].id);
                        }
                    }
                    assert forall|a: int, c: int| 0 <= a < c < r@.len() implies r@[a] != r@[c] by {
                        if c == r@.len() - 1 {
                            let b = choose|b: int| 0 <= b < i && #[trigger] before[a] == self.ports@[b].id;
                            assert(r@[a] == before[a]);
                            assert(self.ports@[b].id != self.ports@[i as int].id);
                        } else {
                            assert(r@[a] == before[a] && r@[c] == before[c]);
                        }
                    }
                }
                proof {
                    let s = self.ports@.subrange(0, i as int).filter(p);
                    assert(s.push(self.ports@[i as int]).map_values(f) =~= s.map_values(f).push(self.ports@[i as int].id));
                }
            }
            i = i + 1;
        }
        proof {
            assert(self.ports@.subrange(0, self.ports@.len() as int) =~= self.ports@);
        }
        r
    }

    pub fn links_of_port(&self, port_id: u32, dir: PortDirection) -> (r: Vec<u32>)
        requires
            unique_link_ids(self.links@),
        ensures
            r@ == links_at_port(self.links@, port_id, dir),
            no_dup(r@),
    {
        let ghost p = |l: Link| link_attaches(l, port_id, dir);
        let ghost f = |l: Link| l.id;
        let mut r: Vec<u32> = Vec::new();
        let mut i: usize = 0;
        while i < self.links.len()
            invariant
                0 <= i <= self.links@.len(),
                p == (|l: Link| link_attaches(l, port_id, dir)),
                f == (|l: Link| l.id),
                r@ == self.links@.subrange(0, i as int).filter(p).map_values(f),
                unique_link_ids(self.links@),
                no_dup(r@),
                forall|a: int| 0 <= a < r@.len() ==> exists|b: int| 0 <= b < i && #[trigger] r@[a] == self.links@[b].id,
            decreases self.links@.len() - i,
        {
            proof {
                reveal_with_fuel(Seq::filter, 1);
                assert(self.links@.subrange(0, i + 1).drop_last() =~= self.links@.subrange(0, i as int));
            }
            let l = self.links[i];
            if (l.input_port == port_id && dir == PortDirection::Input) || (l.output_port == port_id
                && dir == PortDirection::Output) {
                let ghost before = r@;
                r.push(l.id);
                proof {
                    assert forall|a: int| 0 <= a < r@.len() implies exists|b: int| 0 <= b < i + 1 && #[trigger] r@[a] == self.links@[b].id by {
                        if a < before.len() {
                            let b = choose|b: int| 0 <= b < i && #[trigger] before[a] == self.links@[b].id;
                            assert(r@[a] == self.links@[b].id);
                        } else {
                            assert(r@[a] == self.links@[i as int].id);
                        }
                    }
                    assert forall|a: int, c: int| 0 <= a < c < r@.len() implies r@[a] != r@[c] by {
                        if c == r@.len() - 1 {
                            let b = choose|b: int| 0 <= b < i && #[trigger] before[a] == self.links@[b].id;
                            assert(r@[a] == before[a]);
                            assert(self.links@[b].id != self.links@[i as int].id);
                        } else {
                            assert(r@[a] == before[a] && r@[c] == before[c]);
                        }
                    }
                }
                proof {
                    let s = self.links@.subrange(0, i as int).filter(p);
                    assert(s.push(l).map_values(f) =~= s.map_values(f).push(l.id));
                }
            }
            i = i + 1;
        }
        proof {
            assert(self.links@.subrange(0, self.links@.len() as int) =~= self.links@);
        }
        r
    }

    /// Stores the device in place of the one with its id, or appends it.
    pub fn put_device(&mut self, d: Device) -> (k: usize)
        requires
            old(self).wf(),
            crate::store::profiles_sorted(d.profiles@),
            crate::store::profile_indices_distinct(d.profiles@),
            no_dup(d.nodes@),
        ensures
            final(self).wf(),
            upserted(old(self).devices@, final(self).devices@, k as int, d, device_in(old(self).devices@, d.id)),
            *final(self) == (Store { devices: final(self).devices, ..*old(self) }),
    {
        let ghost did = d.id;
        match self.find_device(d.id) {
            Some(i) => {
                self.devices.set(i, d);
                proof {
                    assert forall|a: int, b: int| 0 <= a < b < self.devices@.len() implies self.devices@[a].id
                        != self.devices@[b].id by {
                        if a != i && b != i {
                            assert(old(self).devices@[a].id != old(self).devices@[b].id);
                        } else if a == i {
                            assert(old(self).devices@[a].id != old(self).devices@[b].id);
                        } else {
                            assert(old(self).devices@[a].id != old(self).devices@[b].id);
                        }
                    }
                }
                i
            },
            None => {
                self.devices.push(d);
                proof {
                    assert forall|a: int, b: int| 0 <= a < b < self.devices@.len() implies self.devices@[a].id
                        != self.devices@[b].id by {
                        if b == self.devices@.len() - 1 {
                            assert(old(self).devices@[a].id != did);
                        }
                    }
                }
                self.devices.len() - 1
            },
        }
    }

    /// Stores the node in place of the one with its id, or appends it.
    pub fn put_node(&mut self, n: Node) -> (k: usize)
        requires
            old(self).wf(),
            no_dup(n.ports@),
        ensures
            final(self).wf(),
            upserted(old(self).nodes@, final(self).nodes@, k as int, n, node_in(old(self).nodes@, n.id)),
            *final(self) == (Store { nodes: final(self).nodes, ..*old(self) }),
    {
        let ghost nid = n.id;
        match self.find_node(n.id) {
            Some(i) => {
                self.nodes.set(i, n);
                proof {
                    assert forall|a: int, b: int| 0 <= a < b < self.nodes@.len() implies self.nodes@[a].id
                        != self.nodes@[b].id by {
                        assert(old(self).nodes@[a].id != old(self).nodes@[b].id);
                    }
                }
                i
            },
            None => {
                self.nodes.push(n);
                proof {
                    assert forall|a: int, b: int| 0 <= a < b < self.nodes@.len() implies self.nodes@[a].id
                        != self.nodes@[b].id by {
                        if b == self.nodes@.len() - 1 {
                            assert(old(self).nodes@[a].id != nid);
                        }
                    }
                }
                self.nodes.len() - 1
            },
        }
    }

    /// Stores the port in place of the one with its id, or appends it.
    pub fn put_port(&mut self, p: Port) -> (k: usize)
        requires
            old(self).wf(),
            no_dup(p.links@),
        ensures
            final(self).wf(),
            upserted(old(self).ports@, final(self).ports@, k as int, p, port_in(old(self).ports@, p.id)),
            *final(self) == (Store { ports: final(self).ports, ..*old(self) }),
    {
        let ghost pid = p.id;
        match self.find_port(p.id) {
            Some(i) => {
                let ghost gp = p;
                self.ports.set(i, p);
                assert(self.ports@[i as int] == gp);
                proof {
                    assert forall|a: int| 0 <= a < self.ports@.len() implies crate::store::no_dup(#[trigger] self.ports@[a].links@) by {
                        if a != i {
                            assert(self.ports@[a] == old(self).ports@[a]);
                            assert(crate::store::no_dup(old(self).ports@[a].links@));
                        }
                    }
                    assert forall|a: int, b: int| 0 <= a < b < self.ports@.len() implies self.ports@[a].id
                        != self.ports@[b].id by {
                        assert(old(self).ports@[a].id != old(self).ports@[b].id);
                    }
                }
                i
            },
            None => {
                let ghost gp = p;
                self.ports.push(p);
                assert(self.ports@[old(self).ports@.len() as int] == gp);
                proof {
                    assert forall|a: int| 0 <= a < self.ports@.len() implies crate::store::no_dup(#[trigger] self.ports@[a].links@) by {
                        if a < old(self).ports@.len() {
                            assert(self.ports@[a] == old(self).ports@[a]);
                            assert(crate::store::no_dup(old(self).ports@[a].links@));
                        }
                    }
                    assert forall|a: int, b: int| 0 <= a < b < self.ports@.len() implies self.ports@[a].id
                        != self.ports@[b].id by {
                        if b == self.ports@.len() - 1 {
                            assert(old(self).ports@[a].id != pid);
                        }
                    }
                }
                self.ports.len() - 1
            },
        }
    }

    /// Stores the link in place of the one with its id, or appends it.
    pub fn put_link(&mut self, l: Link) -> (k: usize)
        requires
            old(self).wf(),
        ensures
            final(self).wf(),
            upserted(old(self).links@, final(self).links@, k as int, l, link_in(old(self).links@, l.id)),
            *final(self) == (Store { links: final(self).links, ..*old(self) }),
    {
        match self.find_link(l.id) {
            Some(i) => {
                self.links.set(i, l);
                proof {
                    assert forall|a: int, b: int| 0 <= a < b < self.links@.len() implies self.links@[a].id
                        != self.links@[b].id by {
                        assert(old(self).links@[a].id != old(self).links@[b].id);
                    }
                }
                i
            },
            None => {
                self.links.push(l);
                proof {
                    assert forall|a: int, b: int| 0 <= a < b < self.links@.len() implies self.links@[a].id
                        != self.links@[b].id by {
                        if b == self.links@.len() - 1 {
                            assert(old(self).links@[a].id != l.id);
                        }
                    }
                }
                self.links.len() - 1
            },
        }
    }

    /// The server announced device `id`.
    pub fn add_device(&mut self, id: u32, props: DeviceProps)
        requires
            old(self).wf(),
        ensures
            final(self).wf(),
            *final(self) == (Store { devices: final(self).devices, ..*old(self) }),
            exists|k: int|
                upserted(old(self).devices@, final(self).devices@, k, final(self).devices@[k], device_in(old(self).devices@, id))
                    && device_from_props(final(self).devices@[k], id, props, old(self).nodes@),
    {
        let ghost p = props;
        let device_type = device_type_of(&props.media_class);
        let DeviceProps { name, nick, description, media_class: _ } = props;
        let name = match name {
            Some(n) => n,
            None => match &nick {
                Some(n) => n.clone(),
                None => match &description {
                    Some(d) => d.clone(),
                    None => String::from_str("Unknown Device"),
                },
            },
        };
        let d = Device {
            id,
            name,
            nick,
            description,
            device_type,
            bus: None,
            form_factor: None,
            nodes: self.nodes_of_device(id),
            profiles: Vec::new(),
            current_profile_index: None,
            volume: VOLUME_UNIT,
            muted: false,
            output_route: RouteInfo::new(),
            input_route: RouteInfo::new(),
            has_route_volume: false,
        };
        let k = self.put_device(d);
        assert(device_from_props(self.devices@[k as int], id, p, old(self).nodes@));
    }

    /// The server announced node `id`. The node joins its device's node list,
    /// and the device takes the type its nodes show.
    pub fn add_node(&mut self, id: u32, props: NodeProps)
        requires
            old(self).wf(),
        ensures
            final(self).wf(),
            *final(self) == (Store { nodes: final(self).nodes, devices: final(self).devices, ..*old(self) }),
            exists|k: int|
                upserted(old(self).nodes@, final(self).nodes@, k, final(self).nodes@[k], node_in(old(self).nodes@, id))
                    && node_from_props(final(self).nodes@[k], id, props, *old(self)),
            devices_took_node(old(self).devices@, final(self).devices@, final(self).nodes@, parsed_id(props.device_id), id),
    {
        let ghost p = props;
        let node_type = node_type_of(&props.media_class);
        let device_id = match &props.device_id {
            Some(t) => parse_u32(t.as_str()),
            None => None,
        };
        let NodeProps { name, nick, description, application_name, media_class, device_id: _, media_name } = props;
        let name = match name {
            Some(n) => n,
            None => match &nick {
                Some(n) => n.clone(),
                None => String::from_str("Unknown Node"),
            },
        };
        let is_default = (node_type == NodeType::AudioSink && self.default_sink == Some(id)) || (
        node_type == NodeType::AudioSource && self.default_source == Some(id));
        let n = Node {
            id,
            name,
            nick,
            description,
            media_class,
            application_name,
            node_type,
            volume: Volume { linear: VOLUME_UNIT, muted: false },
            is_default,
            device_id,
            ports: self.ports_of(id),
            media_name,
            has_received_params: false,
        };
        let k = self.put_node(n);
        assert(node_from_props(self.nodes@[k as int], id, p, *old(self)));
        let ghost mid = *self;
        if let Some(dev_id) = device_id {
            if let Some(i) = self.find_device(dev_id) {
                proof {
                    assert forall|j: int| 0 <= j < self.devices@.len() && j != i implies self.devices@[j].id
                        != dev_id by {
                        if j < i {
                            assert(self.devices@[j].id != self.devices@[i as int].id);
                        } else {
                            assert(self.devices@[i as int].id != self.devices@[j].id);
                        }
                    }
                }
                push_unique(&mut self.devices[i].nodes, id);
                self.update_device_type_from_nodes(dev_id);
            }
        }
    }

    /// The server announced port `id`. It joins its node's port list.
    pub fn add_port(&mut self, id: u32, props: PortProps) -> (r: Result<(), GraphError>)
        requires
            old(self).wf(),
        ensures
            final(self).wf(),
            match port_header(id, props) {
                Err(e) => r == Err::<(), GraphError>(e) && *final(self) == *old(self),
                Ok((node_id, dir)) => {
                    &&& r is Ok
                    &&& *final(self) == (Store { ports: final(self).ports, nodes: final(self).nodes, ..*old(self) })
                    &&& exists|k: int| {
                        &&& upserted(old(self).ports@, final(self).ports@, k, final(self).ports@[k], port_in(old(self).ports@, id))
                        &&& final(self).ports@[k].id == id
                        &&& final(self).ports@[k].node_id == node_id
                        &&& final(self).ports@[k].direction == dir
                        &&& final(self).ports@[k].name@ == (if props.name is Some { props.name->0@ } else { "Unknown Port"@ })
                        &&& final(self).ports@[k].channel@ == (if props.channel is Some { props.channel->0@ } else { "unknown"@ })
                        &&& final(self).ports@[k].links@ == links_at_port(old(self).links@, id, dir)
                    }
                    &&& node_took_port(old(self).nodes@, final(self).nodes@, node_id, id)
                }
            },
    {
        let ghost p = props;
        let PortProps { name, node_id, direction, channel } = props;
        let node_id = match read_id(id, node_id) {
            Ok(v) => v,
            Err(e) => {
                return Err(e);
            },
        };
        let direction = match &direction {
            Some(d) => if str_eq(d.as_str(), "in") {
                PortDirection::Input
            } else if str_eq(d.as_str(), "out") {
                PortDirection::Output
            } else {
                return Err(GraphError::InvalidDirection(id));
            },
            None => {
                return Err(GraphError::InvalidDirection(id));
            },
        };
        let port = Port {
            id,
            name: take_or_default(name, "Unknown Port"),
            node_id,
            direction,
            channel: take_or_default(channel, "unknown"),
            links: self.links_of_port(id, direction),
        };
        let k = self.put_port(port);
        let ghost mid = self.nodes@;
        if let Some(i) = self.find_node(node_id) {
            proof {
                assert forall|j: int| 0 <= j < self.nodes@.len() && j != i implies self.nodes@[j].id
                    != node_id by {
                    if j < i {
                        assert(self.nodes@[j].id != self.nodes@[i as int].id);
                    } else {
                        assert(self.nodes@[i as int].id != self.nodes@[j].id);
                    }
                }
            }
            push_unique(&mut self.nodes[i].ports, id);
        }
        proof {
            assert(self.ports@[k as int].id == id);
        }
        Ok(())
    }

    /// The server announced link `id`. Both end ports list it.
    pub fn add_link(&mut self, id: u32, props: LinkProps) -> (r: Result<(), GraphError>)
        requires
            old(self).wf(),
        ensures
            final(self).wf(),
            match link_header(id, props) {
                Err(e) => r == Err::<(), GraphError>(e) && *final(self) == *old(self),
                Ok(l) => r is Ok && link_added(*old(self), *final(self), l),
            },
    {
        let ghost p = props;
        let LinkProps { output_port, input_port, output_node, input_node } = props;
        let output_port = match read_id(id, output_port) {
            Ok(v) => v,
            Err(e) => {
                return Err(e);
            },
        };
        let input_port = match read_id(id, input_port) {
            Ok(v) => v,
            Err(e) => {
                return Err(e);
            },
        };
        let output_node = match read_id(id, output_node) {
            Ok(v) => v,
            Err(e) => {
                return Err(e);
            },
        };
        let input_node = match read_id(id, input_node) {
            Ok(v) => v,
            Err(e) => {
                return Err(e);
            },
        };
        let link = Link { id, output_node, output_port, input_node, input_port };
        assert(link_header(id, p) == Ok::<Link, GraphError>(link));
        let k = self.put_link(link);
        self.attach_link(output_port, id);
        let ghost mid = self.ports@;
        self.attach_link(input_port, id);
        assert(upserted(old(self).links@, self.links@, k as int, link, link_in(old(self).links@, id)));
        assert(port_took_link(old(self).ports@, mid, link.output_port, link.id));
        assert(port_took_link(mid, self.ports@, link.input_port, link.id));
        Ok(())
    }

    fn attach_link(&mut self, port_id: u32, link_id: u32)
        requires
            old(self).wf(),
        ensures
            final(self).wf(),
            *final(self) == (Store { ports: final(self).ports, ..*old(self) }),
            port_took_link(old(self).ports@, final(self).ports@, port_id, link_id),
    {
        if let Some(i) = self.find_port(port_id) {
            proof {
                assert forall|j: int| 0 <= j < self.ports@.len() && j != i implies self.ports@[j].id
                    != port_id by {
                    if j < i {
                        assert(self.ports@[j].id != self.ports@[i as int].id);
                    } else {
                        assert(self.ports@[i as int].id != self.ports@[j].id);
                    }
                }
            }
            assert(crate::store::no_dup(old(self).ports@[i as int].links@));
            push_unique(&mut self.ports[i].links, link_id);
            proof {
                assert forall|a: int| 0 <= a < self.ports@.len() implies crate::store::no_dup(#[trigger] self.ports@[a].links@) by {
                    if a != i {
                        assert(self.ports@[a] == old(self).ports@[a]);
                        assert(crate::store::no_dup(old(self).ports@[a].links@));
                    }
                }
                assert forall|a: int, b: int| 0 <= a < b < self.ports@.len() implies self.ports@[a].id
                    != self.ports@[b].id by {
                    assert(old(self).ports@[a].id != old(self).ports@[b].id);
                }
            }
        }
    }

    /// Dispatches an appeared object to the matching constructor. Returns
    /// whether the object was of a kind the store keeps.
    pub fn add_object(&mut self, id: u32, kind: ObjectKind) -> (r: Result<bool, GraphError>)
        requires
            old(self).wf(),
        ensures
            final(self).wf(),
            match kind {
                ObjectKind::Device(_) => r == Ok::<bool, GraphError>(true),
                ObjectKind::Node(_) => r == Ok::<bool, GraphError>(true),
                ObjectKind::Port(p) => match port_header(id, p) {
                    Ok(_) => r == Ok::<bool, GraphError>(true),
                    Err(e) => r == Err::<bool, GraphError>(e),
                },
                ObjectKind::Link(p) => match link_header(id, p) {
                    Ok(_) => r == Ok::<bool, GraphError>(true),
                    Err(e) => r == Err::<bool, GraphError>(e),
                },
                ObjectKind::Other => r == Ok::<bool, GraphError>(false) && *final(self) == *old(self),
            },
    {
        match kind {
            ObjectKind::Device(p) => {
                self.add_device(id, p);
                Ok(true)
            },
            ObjectKind::Node(p) => {
                self.add_node(id, p);
                Ok(true)
            },
            ObjectKind::Port(p) => match self.add_port(id, p) {
                Ok(()) => Ok(true),
                Err(e) => Err(e),
            },
            ObjectKind::Link(p) => match self.add_link(id, p) {
                Ok(()) => Ok(true),
                Err(e) => Err(e),
            },
            ObjectKind::Other => Ok(false),
        }
    }
}

} // verus!
