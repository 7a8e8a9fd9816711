//! Read-side helpers over a published snapshot: display names, device
//! details and the effective volume shown for a node.
use vstd::prelude::*;
use vstd::string::*;
use crate::graph::AudioGraph;
use crate::icons::DeviceInfo;
use crate::model::{Device, GraphError, Node, NodeType, Volume, clamp_volume, node_eq};
use crate::volume::RouteDirection;

verus! {

/// The position of the last '.' before `j`, if any.
pub open spec fn last_dot(s: Seq<char>, j: int) -> Option<int>
    decreases j,
{
    if j <= 0 || j > s.len() {
        None
    } else if s[j - 1] == '.' {
        Some(j - 1)
    } else {
        last_dot(s, j - 1)
    }
}

/// The part after the last '.', or all of it when there is none.
pub open spec fn last_segment(s: Seq<char>) -> Seq<char> {
    match last_dot(s, s.len() as int) {
        Some(k) => s.subrange(k + 1, s.len() as int),
        None => s,
    }
}

/// The last dot-separated part of an identifier ("org.example.Player" gives
/// "Player").
pub fn extract_display_name_from_identifier(identifier: &str) -> (r: String)
    ensures
        r@ == last_segment(identifier@),
{
    let n = identifier.unicode_len();
    let mut j: usize = n;
    while j > 0 && identifier.get_char(j - 1) != '.'
        invariant
            0 <= j <= n,
            n == identifier@.len(),
            last_dot(identifier@, n as int) == last_dot(identifier@, j as int),
        decreases j,
    {
        j = j - 1;
    }
    if j == 0 {
        String::from_str(identifier)
    } else {
        String::from_str(identifier.substring_char(j, n))
    }
}

/// The name shown for a node's application: the application name's last
/// part, else the nick, else the description's last part, else the name.
pub fn get_application_name(node: &Node) -> (r: String)
    ensures
        r@ == match (node.application_name, node.nick, node.description) {
            (Some(a), _, _) => last_segment(a@),
            (None, Some(k), _) => k@,
            (None, None, Some(d)) => last_segment(d@),
            (None, None, None) => node.name@,
        },
{
    if let Some(app) = &node.application_name {
        return extract_display_name_from_identifier(app.as_str());
    }
    if let Some(nick) = &node.nick {
        return nick.clone();
    }
    if let Some(desc) = &node.description {
        return extract_display_name_from_identifier(desc.as_str());
    }
    node.name.clone()
}

/// The first device at or after `j` with the id.
pub open spec fn first_device(devices: Seq<Device>, id: u32, j: int) -> Option<int>
    decreases devices.len() - j,
{
    if j < 0 || j >= devices.len() {
        None
    } else if devices[j].id == id {
        Some(j)
    } else {
        first_device(devices, id, j + 1)
    }
}

/// The device a node belongs to, in the snapshot.
pub open spec fn owner(g: AudioGraph, n: Node) -> Option<Device> {
    match n.device_id {
        Some(id) => match first_device(g.devices@, id, 0) {
            Some(i) => Some(g.devices@[i]),
            None => None,
        },
        None => None,
    }
}

/// `a` comes no later than `b` in code-point order (as `String`'s order).
pub open spec fn text_le(a: Seq<char>, b: Seq<char>) -> bool
    decreases a.len(),
{
    if a.len() == 0 {
        true
    } else if b.len() == 0 {
        false
    } else if (a[0] as u32) < (b[0] as u32) {
        true
    } else if (a[0] as u32) > (b[0] as u32) {
        false
    } else {
        text_le(a.drop_first(), b.drop_first())
    }
}

proof fn lemma_text_le_total(a: Seq<char>, b: Seq<char>)
    ensures
        text_le(a, b) || text_le(b, a),
    decreases a.len(),
{
    if a.len() > 0 && b.len() > 0 && (a[0] as u32) == (b[0] as u32) {
        lemma_text_le_total(a.drop_first(), b.drop_first());
    }
}

proof fn lemma_text_le_trans(a: Seq<char>, b: Seq<char>, c: Seq<char>)
    requires
        text_le(a, b),
        text_le(b, c),
    ensures
        text_le(a, c),
    decreases a.len(),
{
    if a.len() > 0 && b.len() > 0 && c.len() > 0 && (a[0] as u32) == (b[0] as u32) && (b[0] as u32) == (c[0] as u32) {
        lemma_text_le_trans(a.drop_first(), b.drop_first(), c.drop_first());
    }
}

fn text_le_exec(a: &str, b: &str) -> (r: bool)
    ensures
        r == text_le(a@, b@),
{
    let n = a.unicode_len();
    let m = b.unicode_len();
    let mut i: usize = 0;
    proof {
        assert(a@.subrange(0, n as int) =~= a@);
        assert(b@.subrange(0, m as int) =~= b@);
    }
    while i < n && i < m && (a.get_char(i) as u32) == (b.get_char(i) as u32)
        invariant
            0 <= i <= n,
            i <= m,
            n == a@.len(),
            m == b@.len(),
            text_le(a@, b@) == text_le(a@.subrange(i as int, n as int), b@.subrange(i as int, m as int)),
        decreases n - i,
    {
        proof {
            let sa = a@.subrange(i as int, n as int);
            let sb = b@.subrange(i as int, m as int);
            assert(sa.drop_first() =~= a@.subrange(i + 1, n as int));
            assert(sb.drop_first() =~= b@.subrange(i + 1, m as int));
        }
        i = i + 1;
    }
    if i == n {
        return true;
    }
    if i == m {
        return false;
    }
    (a.get_char(i) as u32) < (b.get_char(i) as u32)
}

/// Rank of a form factor in menu order: headphones first, unknown last.
pub open spec fn form_factor_rank(f: Option<Seq<char>>) -> int {
    match f {
        Some(s) => if s == "headphone"@ { 0 } else if s == "headset"@ { 1 } else if s == "hands-free"@ { 2 }
            else if s == "handset"@ { 3 } else if s == "speaker"@ { 4 } else if s == "microphone"@ { 5 }
            else if s == "webcam"@ { 6 } else if s == "portable"@ { 7 } else if s == "car"@ { 8 }
            else if s == "hifi"@ { 9 } else if s == "tv"@ { 10 } else if s == "computer"@ { 11 }
            else if s == "internal"@ { 12 } else { 13 },
        None => 13,
    }
}

/// Rank of a bus in menu order: USB, Bluetooth, PCI, then the rest.
pub open spec fn bus_rank(b: Option<Seq<char>>) -> int {
    match b {
        Some(s) => if s == "usb"@ { 0 } else if s == "bluetooth"@ { 1 } else if s == "pci"@ { 2 } else { 3 },
        None => 3,
    }
}

pub open spec fn opt_text(o: Option<String>) -> Option<Seq<char>> {
    match o {
        Some(s) => Some(s@),
        None => None,
    }
}

/// The sort key of a node: default first, then by form factor, bus, and the
/// description (or name).
pub open spec fn node_key(g: AudioGraph, n: Node) -> (int, int, int, Seq<char>) {
    let d = owner(g, n);
    (
        if n.is_default { 0 } else { 1 },
        match d { Some(x) => form_factor_rank(opt_text(x.form_factor)), None => 13 },
        match d { Some(x) => bus_rank(opt_text(x.bus)), None => 3 },
        match n.description { Some(t) => t@, None => n.name@ },
    )
}

pub open spec fn key_le(a: (int, int, int, Seq<char>), b: (int, int, int, Seq<char>)) -> bool {
    a.0 < b.0 || (a.0 == b.0 && (a.1 < b.1 || (a.1 == b.1 && (a.2 < b.2 || (a.2 == b.2 && text_le(a.3, b.3))))))
}

pub open spec fn sorted_by_key(g: AudioGraph, s: Seq<Node>) -> bool {
    forall|i: int, j: int| 0 <= i < j < s.len() ==> key_le(node_key(g, s[i]), node_key(g, s[j]))
}

fn form_factor_rank_exec(f: &Option<String>) -> (r: u8)
    ensures
        r as int == form_factor_rank(opt_text(*f)),
{
    match f {
        Some(s) => {
            let s = s.as_str();
            if crate::text::str_eq(s, "headphone") { 0 } else if crate::text::str_eq(s, "headset") { 1 }
            else if crate::text::str_eq(s, "hands-free") { 2 } else if crate::text::str_eq(s, "handset") { 3 }
            else if crate::text::str_eq(s, "speaker") { 4 } else if crate::text::str_eq(s, "microphone") { 5 }
            else if crate::text::str_eq(s, "webcam") { 6 } else if crate::text::str_eq(s, "portable") { 7 }
            else if crate::text::str_eq(s, "car") { 8 } else if crate::text::str_eq(s, "hifi") { 9 }
            else if crate::text::str_eq(s, "tv") { 10 } else if crate::text::str_eq(s, "computer") { 11 }
            else if crate::text::str_eq(s, "internal") { 12 } else { 13 }
        },
        None => 13,
    }
}

fn bus_rank_exec(b: &Option<String>) -> (r: u8)
    ensures
        r as int == bus_rank(opt_text(*b)),
{
    match b {
        Some(s) => {
            let s = s.as_str();
            if crate::text::str_eq(s, "usb") { 0 } else if crate::text::str_eq(s, "bluetooth") { 1 }
            else if crate::text::str_eq(s, "pci") { 2 } else { 3 }
        },
        None => 3,
    }
}

/// Where a volume or mute request for a node goes: the route of its device
/// in a direction, or the node itself.
#[derive(Debug, Clone, Copy, PartialEq, Eq, Structural)]
pub enum VolumeTarget {
    Route { device_id: u32, direction: RouteDirection },
    Node,
}

/// The first node at or after `j` with the id.
pub open spec fn first_node(nodes: Seq<Node>, id: u32, j: int) -> Option<int>
    decreases nodes.len() - j,
{
    if j < 0 || j >= nodes.len() {
        None
    } else if nodes[j].id == id {
        Some(j)
    } else {
        first_node(nodes, id, j + 1)
    }
}

/// Volume goes to the route when the node is a sink or source of a device
/// with route-level volume; otherwise to the node.
pub open spec fn spec_volume_target(g: AudioGraph, n: Node) -> VolumeTarget {
    match (owner(g, n), n.device_id) {
        (Some(d), Some(id)) => if d.has_route_volume && n.node_type == NodeType::AudioSink {
            VolumeTarget::Route { device_id: id, direction: RouteDirection::Output }
        } else if d.has_route_volume && n.node_type == NodeType::AudioSource {
            VolumeTarget::Route { device_id: id, direction: RouteDirection::Input }
        } else {
            VolumeTarget::Node
        },
        _ => VolumeTarget::Node,
    }
}

/// Mute goes to the route as volume does, but only once that route is known.
pub open spec fn spec_mute_target(g: AudioGraph, n: Node) -> VolumeTarget {
    match (owner(g, n), n.device_id) {
        (Some(d), Some(id)) => if d.has_route_volume && n.node_type == NodeType::AudioSink && d.output_route.index is Some
            && d.output_route.device is Some {
            VolumeTarget::Route { device_id: id, direction: RouteDirection::Output }
        } else if d.has_route_volume && n.node_type == NodeType::AudioSource && d.input_route.index is Some
            && d.input_route.device is Some {
            VolumeTarget::Route { device_id: id, direction: RouteDirection::Input }
        } else {
            VolumeTarget::Node
        },
        _ => VolumeTarget::Node,
    }
}

/// The node is of the same kind on the same device as `n`.
pub open spec fn sibling(m: Node, n: Node) -> bool {
    m.node_type == n.node_type && m.device_id == n.device_id
}

/// The first port at or after `j` that belongs to the node.
pub open spec fn first_port_of(ports: Seq<crate::model::Port>, node_id: u32, j: int) -> Option<int>
    decreases ports.len() - j,
{
    if j < 0 || j >= ports.len() {
        None
    } else if ports[j].node_id == node_id {
        Some(j)
    } else {
        first_port_of(ports, node_id, j + 1)
    }
}

/// The number of (sibling node, its port) pairs, over the first `k` nodes and
/// first `m` ports of the next node, whose port id is below `bound`.
pub open spec fn ports_below(g: AudioGraph, n: Node, bound: u32, k: int) -> int
    decreases k,
{
    if k <= 0 {
        0
    } else {
        ports_below(g, n, bound, k - 1) + if sibling(g.nodes@[k - 1], n) {
            ports_of_below(g.ports@, g.nodes@[k - 1].id, bound, g.ports@.len() as int)
        } else {
            0
        }
    }
}

pub open spec fn ports_of_below(ports: Seq<crate::model::Port>, node_id: u32, bound: u32, m: int) -> int
    decreases m,
{
    if m <= 0 {
        0
    } else {
        ports_of_below(ports, node_id, bound, m - 1) + if ports[m - 1].node_id == node_id && ports[m - 1].id < bound { 1int } else { 0 }
    }
}

pub open spec fn siblings(g: AudioGraph, n: Node, k: int) -> int
    decreases k,
{
    if k <= 0 {
        0
    } else {
        siblings(g, n, k - 1) + if sibling(g.nodes@[k - 1], n) { 1int } else { 0 }
    }
}

/// The number shown after a node's name when its device has several nodes of
/// its kind: the rank of its first port among all their ports, by id.
pub open spec fn spec_port_number(g: AudioGraph, n: Node) -> Option<int> {
    if !(n.node_type == NodeType::AudioSink || n.node_type == NodeType::AudioSource) {
        None
    } else if siblings(g, n, g.nodes@.len() as int) <= 1 {
        None
    } else {
        match first_port_of(g.ports@, n.id, 0) {
            None => None,
            Some(j) => Some(1 + ports_below(g, n, g.ports@[j].id, g.nodes@.len() as int)),
        }
    }
}

proof fn lemma_key_total(a: (int, int, int, Seq<char>), b: (int, int, int, Seq<char>))
    ensures
        key_le(a, b) || key_le(b, a),
{
    lemma_text_le_total(a.3, b.3);
}

proof fn lemma_key_trans(a: (int, int, int, Seq<char>), b: (int, int, int, Seq<char>), c: (int, int, int, Seq<char>))
    requires
        key_le(a, b),
        key_le(b, c),
    ensures
        key_le(a, c),
{
    if a.0 == b.0 && b.0 == c.0 && a.1 == b.1 && b.1 == c.1 && a.2 == b.2 && b.2 == c.2 {
        lemma_text_le_trans(a.3, b.3, c.3);
    }
}

impl AudioGraph {
    fn find_device(&self, id: u32) -> (r: Option<usize>)
        ensures
            match r {
                Some(i) => first_device(self.devices@, id, 0) == Some(i as int) && i < self.devices@.len(),
                None => first_device(self.devices@, id, 0) is None,
            },
    {
        let mut i: usize = 0;
        while i < self.devices.len()
            invariant
                0 <= i <= self.devices@.len(),
                first_device(self.devices@, id, 0) == first_device(self.devices@, id, i as int),
            decreases self.devices@.len() - i,
        {
            if self.devices[i].id == id {
                return Some(i);
            }
            i = i + 1;
        }
        None
    }

    /// The name shown for a device: nick, else description, else name;
    /// "Unknown Device" when the snapshot has no such device.
    pub fn get_device_name(&self, device_id: u32) -> (r: String)
        ensures
            r@ == match first_device(self.devices@, device_id, 0) {
                Some(i) => match (self.devices@[i].nick, self.devices@[i].description) {
                    (Some(k), _) => k@,
                    (None, Some(d)) => d@,
                    (None, None) => self.devices@[i].name@,
                },
                None => "Unknown Device"@,
            },
    {
        match self.find_device(device_id) {
            Some(i) => {
                let d = &self.devices[i];
                match (&d.nick, &d.description) {
                    (Some(k), _) => k.clone(),
                    (None, Some(desc)) => desc.clone(),
                    (None, None) => d.name.clone(),
                }
            },
            None => String::from_str("Unknown Device"),
        }
    }

    /// What the icon choice needs to know of a node and its device.
    pub fn get_device_info(&self, node: &Node) -> (r: DeviceInfo)
        ensures
            r.media_class == node.media_class,
            r.is_muted == node.volume.muted,
            r.node_type == node.node_type,
            match owner(*self, *node) {
                Some(d) => r.nick == d.nick && r.form_factor == d.form_factor && r.bus == d.bus,
                None => r.nick is None && r.form_factor is None && r.bus is None,
            },
    {
        let mut info = DeviceInfo {
            nick: None,
            form_factor: None,
            bus: None,
            media_class: crate::model::clone_opt_string(&node.media_class),
            is_muted: node.volume.muted,
            node_type: node.node_type,
        };
        if let Some(id) = node.device_id {
            if let Some(i) = self.find_device(id) {
                let d = &self.devices[i];
                info.nick = crate::model::clone_opt_string(&d.nick);
                info.form_factor = crate::model::clone_opt_string(&d.form_factor);
                info.bus = crate::model::clone_opt_string(&d.bus);
            }
        }
        info
    }

    /// The node as shown: for a sink or source of a route-capable device,
    /// the route's volume and mute once the route is known.
    pub fn enhance_node_volume(&self, node: &Node) -> (r: Node)
        ensures
            ({
                let routed = match owner(*self, *node) {
                    Some(d) => if d.has_route_volume && node.node_type == NodeType::AudioSink && d.output_route.index is Some
                        && d.output_route.device is Some {
                        Some((d.output_route.volume, d.output_route.muted))
                    } else if d.has_route_volume && node.node_type == NodeType::AudioSource && d.input_route.index is Some
                        && d.input_route.device is Some {
                        Some((d.input_route.volume, d.input_route.muted))
                    } else {
                        None
                    },
                    None => None,
                };
                match routed {
                    Some((v, m)) => node_eq(r, Node { volume: Volume { linear: clamp_volume(v), muted: m }, ..*node }),
                    None => node_eq(r, *node),
                }
            }),
    {
        let mut shown = node.clone();
        if let Some(id) = node.device_id {
            if let Some(i) = self.find_device(id) {
                let d = &self.devices[i];
                if d.has_route_volume {
                    let state = match node.node_type {
                        NodeType::AudioSink => d.output_route.get_volume_state(),
                        NodeType::AudioSource => d.input_route.get_volume_state(),
                        _ => None,
                    };
                    if let Some((v, m)) = state {
                        shown.volume = Volume::new(v, m);
                    }
                }
            }
        }
        shown
    }

    /// The base name of a node: its device's nick, else its description, else
    /// its name.
    pub fn get_node_base_name(&self, node: &Node) -> (r: String)
        ensures
            r@ == match owner(*self, *node) {
                Some(d) if d.nick is Some => d.nick->0@,
                _ => match node.description {
                    Some(desc) => desc@,
                    None => node.name@,
                },
            },
    {
        let info = self.get_device_info(node);
        match info.nick {
            Some(k) => k,
            None => match &node.description {
                Some(d) => d.clone(),
                None => node.name.clone(),
            },
        }
    }

    /// The node's sort key, as plain values.
    fn node_key_exec<'a>(&self, n: &'a Node) -> (r: (u8, u8, u8, &'a str))
        ensures
            r.0 as int == node_key(*self, *n).0,
            r.1 as int == node_key(*self, *n).1,
            r.2 as int == node_key(*self, *n).2,
            r.3@ == node_key(*self, *n).3,
    {
        let (ff, bus) = match n.device_id {
            Some(id) => match self.find_device(id) {
                Some(i) => (form_factor_rank_exec(&self.devices[i].form_factor), bus_rank_exec(&self.devices[i].bus)),
                None => (13, 3),
            },
            None => (13, 3),
        };
        let name = match &n.description {
            Some(d) => d.as_str(),
            None => n.name.as_str(),
        };
        (if n.is_default { 0 } else { 1 }, ff, bus, name)
    }

    fn key_le_exec(&self, a: &Node, b: &Node) -> (r: bool)
        ensures
            r == key_le(node_key(*self, *a), node_key(*self, *b)),
    {
        let ka = self.node_key_exec(a);
        let kb = self.node_key_exec(b);
        ka.0 < kb.0 || (ka.0 == kb.0 && (ka.1 < kb.1 || (ka.1 == kb.1 && (ka.2 < kb.2 || (ka.2 == kb.2 && text_le_exec(ka.3, kb.3))))))
    }

    /// Orders nodes for a menu: the default first, then by form factor, bus
    /// and description (or name). Equal keys keep their order.
    pub fn sort_nodes_by_priority(&self, nodes: Vec<Node>) -> (r: Vec<Node>)
        ensures
            sorted_by_key(*self, r@),
            r@.len() == nodes@.len(),
            forall|x: Node| #[trigger] r@.contains(x) <==> nodes@.contains(x),
    {
        let mut rest = nodes;
        let ghost all = rest@;
        let mut r: Vec<Node> = Vec::new();
        while rest.len() > 0
            invariant
                sorted_by_key(*self, r@),
                r@.len() + rest@.len() == all.len(),
                forall|x: Node| #[trigger] all.contains(x) <==> (r@.contains(x) || rest@.contains(x)),
            decreases rest@.len(),
        {
            let ghost before_rest = rest@;
            let x = rest.remove(0);
            proof {
                assert forall|y: Node| #[trigger] before_rest.contains(y) <==> (rest@.contains(y) || y == x) by {
                    if before_rest.contains(y) {
                        let k = choose|k: int| 0 <= k < before_rest.len() && before_rest[k] == y;
                        if k > 0 {
                            assert(rest@[k - 1] == y);
                        }
                    }
                    if rest@.contains(y) {
                        let k = choose|k: int| 0 <= k < rest@.len() && rest@[k] == y;
                        assert(before_rest[k + 1] == y);
                    }
                    if y == x {
                        assert(before_rest[0] == y);
                    }
                }
            }
            let mut j: usize = 0;
            while j < r.len() && self.key_le_exec(&r[j], &x)
                invariant
                    0 <= j <= r@.len(),
                    forall|a: int| 0 <= a < j ==> key_le(node_key(*self, r@[a]), node_key(*self, x)),
                decreases r@.len() - j,
            {
                j = j + 1;
            }
            let ghost before = r@;
            proof {
                if j < before.len() {
                    assert(!key_le(node_key(*self, before[j as int]), node_key(*self, x)));
                    lemma_key_total(node_key(*self, before[j as int]), node_key(*self, x));
                    assert forall|b: int| j <= b < before.len() implies key_le(node_key(*self, x), node_key(*self, before[b])) by {
                        if b > j {
                            lemma_key_trans(node_key(*self, x), node_key(*self, before[j as int]), node_key(*self, before[b]));
                        }
                    }
                }
            }
            r.insert(j, x);
            proof {
                assert forall|a: int, b: int| 0 <= a < b < r@.len() implies key_le(node_key(*self, r@[a]), node_key(*self, r@[b])) by {
                    if a < j && b < j {
                        assert(r@[a] == before[a] && r@[b] == before[b]);
                    } else if a < j && b == j {
                    } else if a < j {
                        assert(r@[a] == before[a] && r@[b] == before[b - 1]);
                    } else if a == j {
                        assert(r@[b] == before[b - 1]);
                    } else {
                        assert(r@[a] == before[a - 1] && r@[b] == before[b - 1]);
                    }
                }
                assert forall|y: Node| #[trigger] r@.contains(y) <==> (before.contains(y) || y == x) by {
                    crate::devices::lemma_insert_contains(before, j as int, x, y);
                }
            }
        }
        r
    }

    fn find_node(&self, id: u32) -> (r: Option<usize>)
        ensures
            match r {
                Some(i) => first_node(self.nodes@, id, 0) == Some(i as int) && i < self.nodes@.len(),
                None => first_node(self.nodes@, id, 0) is None,
            },
    {
        let mut i: usize = 0;
        while i < self.nodes.len()
            invariant
                0 <= i <= self.nodes@.len(),
                first_node(self.nodes@, id, 0) == first_node(self.nodes@, id, i as int),
            decreases self.nodes@.len() - i,
        {
            if self.nodes[i].id == id {
                return Some(i);
            }
            i = i + 1;
        }
        None
    }

    /// Where a volume request for the node goes.
    pub fn volume_target(&self, node_id: u32) -> (r: Result<VolumeTarget, GraphError>)
        ensures
            match first_node(self.nodes@, node_id, 0) {
                Some(i) => r == Ok::<VolumeTarget, GraphError>(spec_volume_target(*self, self.nodes@[i])),
                None => r == Err::<VolumeTarget, GraphError>(GraphError::NodeNotFound(node_id)),
            },
    {
        let k = match self.find_node(node_id) {
            Some(k) => k,
            None => {
                return Err(GraphError::NodeNotFound(node_id));
            },
        };
        let n = &self.nodes[k];
        if let Some(id) = n.device_id {
            if let Some(i) = self.find_device(id) {
                let d = &self.devices[i];
                if d.has_route_volume && n.node_type == NodeType::AudioSink {
                    return Ok(VolumeTarget::Route { device_id: id, direction: RouteDirection::Output });
                }
                if d.has_route_volume && n.node_type == NodeType::AudioSource {
                    return Ok(VolumeTarget::Route { device_id: id, direction: RouteDirection::Input });
                }
            }
        }
        Ok(VolumeTarget::Node)
    }

    /// Where a mute request for the node goes.
    pub fn mute_target(&self, node_id: u32) -> (r: Result<VolumeTarget, GraphError>)
        ensures
            match first_node(self.nodes@, node_id, 0) {
                Some(i) => r == Ok::<VolumeTarget, GraphError>(spec_mute_target(*self, self.nodes@[i])),
                None => r == Err::<VolumeTarget, GraphError>(GraphError::NodeNotFound(node_id)),
            },
    {
        let k = match self.find_node(node_id) {
            Some(k) => k,
            None => {
                return Err(GraphError::NodeNotFound(node_id));
            },
        };
        let n = &self.nodes[k];
        if let Some(id) = n.device_id {
            if let Some(i) = self.find_device(id) {
                let d = &self.devices[i];
                if d.has_route_volume && n.node_type == NodeType::AudioSink && d.output_route.is_available() {
                    return Ok(VolumeTarget::Route { device_id: id, direction: RouteDirection::Output });
                }
                if d.has_route_volume && n.node_type == NodeType::AudioSource && d.input_route.is_available() {
                    return Ok(VolumeTarget::Route { device_id: id, direction: RouteDirection::Input });
                }
            }
        }
        Ok(VolumeTarget::Node)
    }

    fn count_ports_below(&self, node_id: u32, bound: u32) -> (r: u64)
        requires
            self.ports@.len() < 0x1_0000_0000,
        ensures
            r as int == ports_of_below(self.ports@, node_id, bound, self.ports@.len() as int),
            r as int <= self.ports@.len(),
    {
        let mut c: u64 = 0;
        let mut m: usize = 0;
        while m < self.ports.len()
            invariant
                0 <= m <= self.ports@.len(),
                self.ports@.len() < 0x1_0000_0000,
                c as int == ports_of_below(self.ports@, node_id, bound, m as int),
                c as int <= m,
            decreases self.ports@.len() - m,
        {
            if self.ports[m].node_id == node_id && self.ports[m].id < bound {
                c = c + 1;
            }
            m = m + 1;
        }
        c
    }

    /// The port number of a node among its device's nodes of the same kind;
    /// none when it is the only one or has no port.
    pub fn get_node_port_number(&self, node: &Node) -> (r: Option<u64>)
        requires
            self.nodes@.len() < 0x1_0000_0000,
            self.ports@.len() < 0x1_0000_0000,
        ensures
            match spec_port_number(*self, *node) {
                Some(v) => r == Some(v as u64),
                None => r is None,
            },
    {
        if !(node.node_type == NodeType::AudioSink || node.node_type == NodeType::AudioSource) {
            return None;
        }
        let mut count: u64 = 0;
        let mut k: usize = 0;
        while k < self.nodes.len()
            invariant
                0 <= k <= self.nodes@.len(),
                self.nodes@.len() < 0x1_0000_0000,
                count as int == siblings(*self, *node, k as int),
                count as int <= k,
            decreases self.nodes@.len() - k,
        {
            let m = &self.nodes[k];
            if m.node_type == node.node_type && m.device_id == node.device_id {
                count = count + 1;
            }
            k = k + 1;
        }
        if count <= 1 {
            return None;
        }
        let mut j: usize = 0;
        while j < self.ports.len() && self.ports[j].node_id != node.id
            invariant
                0 <= j <= self.ports@.len(),
                first_port_of(self.ports@, node.id, 0) == first_port_of(self.ports@, node.id, j as int),
            decreases self.ports@.len() - j,
        {
            j = j + 1;
        }
        if j == self.ports.len() {
            return None;
        }
        let bound = self.ports[j].id;
        let mut below: u64 = 0;
        let mut k: usize = 0;
        while k < self.nodes.len()
            invariant
                0 <= k <= self.nodes@.len(),
                self.nodes@.len() < 0x1_0000_0000,
                self.ports@.len() < 0x1_0000_0000,
                below as int == ports_below(*self, *node, bound, k as int),
                below as int <= k * self.ports@.len(),
            decreases self.nodes@.len() - k,
        {
            let m = &self.nodes[k];
            if m.node_type == node.node_type && m.device_id == node.device_id {
                let c = self.count_ports_below(m.id, bound);
                proof {
                    assert((k + 1) * self.ports@.len() == k * self.ports@.len() + self.ports@.len()) by (nonlinear_arith);
                    assert(k * self.ports@.len() <= 0xffff_ffff * 0xffff_ffff) by (nonlinear_arith)
                        requires k < 0x1_0000_0000, self.ports@.len() < 0x1_0000_0000;
                }
                below = below + c;
            } else {
                proof {
                    assert((k + 1) * self.ports@.len() == k * self.ports@.len() + self.ports@.len()) by (nonlinear_arith);
                }
            }
            k = k + 1;
        }
        proof {
            assert(below as int <= self.nodes@.len() * self.ports@.len());
            assert(self.nodes@.len() * self.ports@.len() <= 0xffff_ffff * 0xffff_ffff) by (nonlinear_arith)
                requires self.nodes@.len() < 0x1_0000_0000, self.ports@.len() < 0x1_0000_0000;
        }
        Some(below + 1)
    }

    /// The node with the id as shown: with its device's route volume where
    /// that applies (see `enhance_node_volume`).
    pub fn get_node(&self, node_id: u32) -> (r: Option<Node>)
        ensures
            match first_node(self.nodes@, node_id, 0) {
                None => r is None,
                Some(i) => r matches Some(n) && {
                    let o = self.nodes@[i];
                    let routed = match owner(*self, o) {
                        Some(d) => if d.has_route_volume && o.node_type == NodeType::AudioSink && d.output_route.index is Some
                            && d.output_route.device is Some {
                            Some((d.output_route.volume, d.output_route.muted))
                        } else if d.has_route_volume && o.node_type == NodeType::AudioSource && d.input_route.index is Some
                            && d.input_route.device is Some {
                            Some((d.input_route.volume, d.input_route.muted))
                        } else {
                            None
                        },
                        None => None,
                    };
                    match routed {
                        Some((v, m)) => node_eq(n, Node { volume: Volume { linear: clamp_volume(v), muted: m }, ..o }),
                        None => node_eq(n, o),
                    }
                },
            },
    {
        match self.find_node(node_id) {
            Some(i) => Some(self.enhance_node_volume(&self.nodes[i])),
            None => None,
        }
    }
}

} // verus!
