//! Device-level state: effective type, profiles, routes and route-level
//! volume.
use vstd::prelude::*;
use vstd::string::*;
use crate::model::{Device, DeviceType, GraphError, Node, NodeType, Profile, RouteInfo, Volume, profile_selectable};
use crate::store::device_in;
use vstd::seq_lib::group_filter_ensures;
use crate::volume::{ParamValue, RouteDirection, VolumeResolver, cubic_scaled, inverse_cubic, VOLUME_UNIT};
use crate::store::{Store, unique_node_ids, unique_device_ids, profiles_sorted, device_profiles_sorted};

verus! {

/// Some node listed by the device exists and has type `t`.
pub open spec fn lists_node_of_type(nodes: Seq<Node>, dev_nodes: Seq<u32>, t: NodeType) -> bool {
    exists|k: int, m: int|
        0 <= k < dev_nodes.len() && 0 <= m < nodes.len() && nodes[m].id == dev_nodes[k]
            && nodes[m].node_type == t
}

/// The device's own type when known; otherwise sink if it lists a sink node,
/// else source if it lists a source node; otherwise undetermined.
pub open spec fn effective_type(nodes: Seq<Node>, device_type: DeviceType, dev_nodes: Seq<u32>) -> Option<DeviceType> {
    if device_type != DeviceType::Unknown {
        Some(device_type)
    } else if lists_node_of_type(nodes, dev_nodes, NodeType::AudioSink) {
        Some(DeviceType::Sink)
    } else if lists_node_of_type(nodes, dev_nodes, NodeType::AudioSource) {
        Some(DeviceType::Source)
    } else {
        None
    }
}

/// The fields of an enumerated-profile parameter, as the server sent them.
pub struct ProfileParam {
    pub index: Option<i32>,
    pub name: Option<String>,
    pub description: Option<String>,
    pub priority: Option<i32>,
    pub available: Option<String>,
}

impl Profile {
    /// Builds a profile from its parameter; absent fields take their defaults
    /// (index 0, empty name and description, priority 0, availability
    /// "unknown"). A negative index or priority is refused.
    pub fn from_param(p: ProfileParam) -> (r: Result<Profile, GraphError>)
        ensures
            match (p.index, p.priority) {
                (Some(i), _) if i < 0 => r == Err::<Profile, GraphError>(GraphError::NegativeValue(i)),
                (_, Some(q)) if q < 0 => r == Err::<Profile, GraphError>(GraphError::NegativeValue(q)),
                _ => r matches Ok(pr) && {
                    &&& pr.index == (if p.index is Some { p.index->0 as u32 } else { 0 })
                    &&& pr.priority == (if p.priority is Some { p.priority->0 as u32 } else { 0 })
                    &&& pr.name@ == (if p.name is Some { p.name->0@ } else { Seq::<char>::empty() })
                    &&& pr.description@ == (if p.description is Some { p.description->0@ } else { Seq::<char>::empty() })
                    &&& pr.available@ == (if p.available is Some { p.available->0@ } else { "unknown"@ })
                },
            },
    {
        let ProfileParam { index, name, description, priority, available } = p;
        let index = match index {
            Some(i) => {
                if i < 0 {
                    return Err(GraphError::NegativeValue(i));
                }
                i as u32
            },
            None => 0,
        };
        let priority = match priority {
            Some(q) => {
                if q < 0 {
                    return Err(GraphError::NegativeValue(q));
                }
                q as u32
            },
            None => 0,
        };
        let name = match name {
            Some(n) => n,
            None => String::new(),
        };
        let description = match description {
            Some(d) => d,
            None => String::new(),
        };
        let available = match available {
            Some(a) => a,
            None => String::from_str("unknown"),
        };
        Ok(Profile { index, name, description, priority, available })
    }
}

pub(crate) proof fn lemma_insert_contains<T>(s: Seq<T>, j: int, x: T, y: T)
    requires
        0 <= j <= s.len(),
    ensures
        s.insert(j, x).contains(y) <==> (s.contains(y) || y == x),
{
    let t = s.insert(j, x);
    if t.contains(y) {
        let k = choose|k: int| 0 <= k < t.len() && t[k] == y;
        if k < j {
            assert(s[k] == y);
        } else if k > j {
            assert(s[k - 1] == y);
        }
    }
    if s.contains(y) {
        let k = choose|k: int| 0 <= k < s.len() && s[k] == y;
        if k < j {
            assert(t[k] == y);
        } else {
            assert(t[k + 1] == y);
        }
    }
    if y == x {
        assert(t[j] == x);
    }
}

/// Inserts the profile after every profile of equal or higher priority.
pub fn insert_by_priority(v: &mut Vec<Profile>, x: Profile)
    requires
        profiles_sorted(old(v)@),
    ensures
        crate::store::profile_indices_distinct(old(v)@) && (forall|k: int| 0 <= k < old(v)@.len() ==> old(v)@[k].index != x.index)
            ==> crate::store::profile_indices_distinct(final(v)@),
        profiles_sorted(final(v)@),
        final(v)@.len() == old(v)@.len() + 1,
        forall|y: Profile| #[trigger] final(v)@.contains(y) <==> (old(v)@.contains(y) || y == x),
{
    let mut j: usize = 0;
    while j < v.len() && v[j].priority >= x.priority
        invariant
            0 <= j <= v@.len(),
            v@ == old(v)@,
            forall|a: int| 0 <= a < j ==> v@[a].priority >= x.priority,
        decreases v@.len() - j,
    {
        j = j + 1;
    }
    let ghost before = v@;
    proof {
        assert forall|b: int| j <= b < before.len() implies before[b].priority < x.priority by {
            if j < before.len() {
                assert(before[j as int].priority < x.priority);
                if b > j {
                    assert(before[j as int].priority >= before[b].priority);
                }
            }
        }
    }
    v.insert(j, x);
    proof {
        assert forall|y: Profile| #[trigger] v@.contains(y) <==> (before.contains(y) || y == x) by {
            lemma_insert_contains(before, j as int, x, y);
        }
        if crate::store::profile_indices_distinct(before) && (forall|k: int| 0 <= k < before.len() ==> before[k].index != x.index) {
            assert forall|a: int, b: int| 0 <= a < b < v@.len() implies v@[a].index != v@[b].index by {
                if a < j && b < j {
                    assert(v@[a] == before[a] && v@[b] == before[b]);
                } else if a < j && b == j {
                    assert(v@[a] == before[a]);
                } else if a < j {
                    assert(v@[a] == before[a] && v@[b] == before[b - 1]);
                } else if a == j {
                    assert(v@[b] == before[b - 1]);
                } else {
                    assert(v@[a] == before[a - 1] && v@[b] == before[b - 1]);
                }
            }
        }
        assert forall|a: int, b: int| 0 <= a < b < v@.len() implies v@[a].priority >= v@[b].priority by {
            if a < j && b < j {
                assert(v@[a] == before[a]);
                assert(v@[b] == before[b]);
            } else if a < j && b == j {
            } else if a < j {
                assert(v@[a] == before[a]);
                assert(v@[b] == before[b - 1]);
            } else if a == j {
                assert(v@[b] == before[b - 1]);
            } else {
                assert(v@[a] == before[a - 1]);
                assert(v@[b] == before[b - 1]);
            }
        }
    }
}

/// Drops every profile with the given index, keeping the order of the rest.
pub fn drop_profile_index(v: &mut Vec<Profile>, index: u32)
    requires
        profiles_sorted(old(v)@),
    ensures
        crate::store::profile_indices_distinct(old(v)@) ==> crate::store::profile_indices_distinct(final(v)@),
        forall|k: int| 0 <= k < final(v)@.len() ==> final(v)@[k].index != index,
        profiles_sorted(final(v)@),
        forall|y: Profile| #[trigger] final(v)@.contains(y) <==> (old(v)@.contains(y) && y.index != index),
{
    let ghost orig = v@;
    let mut kept: Vec<Profile> = Vec::new();
    let mut i: usize = 0;
    while i < v.len()
        invariant
            v@ == orig,
            profiles_sorted(orig),
            0 <= i <= orig.len(),
            profiles_sorted(kept@),
            forall|a: int, b: int| 0 <= a < kept@.len() && i <= b < orig.len() ==> kept@[a].priority >= orig[b].priority,
            forall|y: Profile| #[trigger] kept@.contains(y) <==> (orig.subrange(0, i as int).contains(y) && y.index != index),
            forall|a: int| 0 <= a < kept@.len() ==> exists|b: int| 0 <= b < i && #[trigger] kept@[a] == orig[b],
            forall|a: int| 0 <= a < kept@.len() ==> kept@[a].index != index,
            crate::store::profile_indices_distinct(orig) ==> crate::store::profile_indices_distinct(kept@),
        decreases orig.len() - i,
    {
        let ghost prev = kept@;
        if v[i].index != index {
            kept.push(v[i].clone());
            proof {
                assert forall|a: int| 0 <= a < kept@.len() implies exists|b: int| 0 <= b < i + 1 && #[trigger] kept@[a] == orig[b] by {
                    if a < prev.len() {
                        let b = choose|b: int| 0 <= b < i && #[trigger] prev[a] == orig[b];
                        assert(kept@[a] == orig[b]);
                    } else {
                        assert(kept@[a] == orig[i as int]);
                    }
                }
                if crate::store::profile_indices_distinct(orig) {
                    assert forall|a: int, c: int| 0 <= a < c < kept@.len() implies kept@[a].index != kept@[c].index by {
                        if c == kept@.len() - 1 {
                            let b = choose|b: int| 0 <= b < i && #[trigger] prev[a] == orig[b];
                            assert(kept@[a] == prev[a]);
                        } else {
                            assert(kept@[a] == prev[a] && kept@[c] == prev[c]);
                        }
                    }
                }
            }
        }
        proof {
            let s0 = orig.subrange(0, i as int);
            let s1 = orig.subrange(0, i + 1);
            assert forall|y: Profile| s1.contains(y) <==> (s0.contains(y) || y == orig[i as int]) by {
                if s1.contains(y) {
                    let k = choose|k: int| 0 <= k < s1.len() && s1[k] == y;
                    if k < i {
                        assert(s0[k] == y);
                    }
                }
                if s0.contains(y) {
                    let k = choose|k: int| 0 <= k < s0.len() && s0[k] == y;
                    assert(s1[k] == y);
                }
                if y == orig[i as int] {
                    assert(s1[i as int] == y);
                }
            }
            assert forall|y: Profile| #[trigger] kept@.contains(y) <==> (s1.contains(y) && y.index != index) by {
                if kept@.len() > prev.len() {
                    assert(kept@ == prev.push(orig[i as int]));
                    if kept@.contains(y) {
                        let k = choose|k: int| 0 <= k < kept@.len() && kept@[k] == y;
                        if k < prev.len() {
                            assert(prev[k] == y);
                        }
                    }
                    if prev.contains(y) {
                        let k = choose|k: int| 0 <= k < prev.len() && prev[k] == y;
                        assert(kept@[k] == y);
                    }
                    if y == orig[i as int] {
                        assert(kept@[prev.len() as int] == y);
                    }
                }
            }
        }
        i = i + 1;
    }
    proof {
        assert(orig.subrange(0, orig.len() as int) =~= orig);
    }
    *v = kept;
}

/// A route parameter as the server sent it: its direction (1 for output, 0
/// for input), index and device number, its channel volumes and mute flag.
pub struct RouteParam {
    pub direction: Option<u32>,
    pub index: Option<i32>,
    pub device: Option<i32>,
    pub channel_volumes: Option<ParamValue>,
    pub mute: Option<bool>,
}

/// A device-level property parameter: volume (in millionths) and mute.
pub struct PropsParam {
    pub volume: Option<u32>,
    pub mute: Option<bool>,
}

/// Two volumes differ by more than a thousandth.
pub open spec fn volume_moved(a: u32, b: u32) -> bool {
    a as int - b as int > 1000 || b as int - a as int > 1000
}

pub open spec fn first_channel(v: Option<ParamValue>) -> Option<u32> {
    match v {
        Some(ParamValue::FloatArray(a)) => if a@.len() > 0 {
            Some(a@[0])
        } else {
            None
        },
        Some(ParamValue::Float(x)) => Some(x),
        _ => None,
    }
}

/// The route cached by direction: (output route, input route).
pub open spec fn cache_route(out: RouteInfo, inp: RouteInfo, dir: Option<u32>, index: Option<i32>, device: Option<i32>) -> (RouteInfo, RouteInfo) {
    if dir is Some && index is Some && device is Some {
        if dir->0 == 1 {
            (RouteInfo { index, device, ..out }, inp)
        } else if dir->0 == 0 {
            (out, RouteInfo { index, device, ..inp })
        } else {
            (out, inp)
        }
    } else {
        (out, inp)
    }
}

/// The route carries the device's own direction.
pub open spec fn route_is_own(t: DeviceType, dir: Option<u32>) -> bool {
    (t == DeviceType::Sink && dir == Some(1u32)) || (t == DeviceType::Source && dir == Some(0u32))
}

/// The device's (volume, mute) after a route of its own direction.
pub open spec fn route_volume(volume: u32, muted: bool, channel: Option<u32>, mute: Option<bool>) -> (u32, bool) {
    let v = match channel {
        Some(raw) => if volume_moved(volume, cubic_scaled(raw as int) as u32) {
            cubic_scaled(raw as int) as u32
        } else {
            volume
        },
        None => volume,
    };
    let m = match mute {
        Some(x) => x,
        None => muted,
    };
    (v, m)
}

fn opt_string_eq(a: &Option<String>, b: &Option<String>) -> (r: bool)
    ensures
        r == (crate::registry::opt_view(*a) == crate::registry::opt_view(*b)),
{
    match (a, b) {
        (Some(x), Some(y)) => *x == *y,
        (None, None) => true,
        _ => false,
    }
}

pub(crate) fn abs_diff_exceeds(a: u32, b: u32) -> (r: bool)
    ensures
        r == volume_moved(a, b),
{
    if a >= b {
        a - b > 1000
    } else {
        b - a > 1000
    }
}

/// The nodes listed in `ids` take volume `v`; the others are kept.
pub open spec fn nodes_took_volume(o: Seq<Node>, f: Seq<Node>, ids: Seq<u32>, v: Volume) -> bool {
    &&& f.len() == o.len()
    &&& forall|j: int|
        0 <= j < o.len() ==> #[trigger] f[j] == (if ids.contains(o[j].id) {
            Node { volume: v, ..o[j] }
        } else {
            o[j]
        })
}

/// The selectable profiles of device `id`, or none when there is no such device.
pub open spec fn spec_device_profiles(devices: Seq<Device>, id: u32) -> Seq<Profile> {
    if device_in(devices, id) {
        let i = device_index(devices, id);
        devices[i].profiles@.filter(|p: Profile| profile_selectable(p))
    } else {
        Seq::empty()
    }
}

/// The position of the device with id `id`.
pub open spec fn device_index(devices: Seq<Device>, id: u32) -> int {
    choose|i: int| 0 <= i < devices.len() && devices[i].id == id
}

/// What a route-level volume or mute request sends: the route's index and
/// device number, and the hardware (linear) volume or the mute flag.
#[derive(Debug, Clone, Copy, PartialEq, Eq, Structural)]
pub struct RouteCommand {
    pub route_index: i32,
    pub route_device: i32,
    pub raw_volume: Option<u64>,
    pub mute: Option<bool>,
}

/// The device type a route request addresses: the one the caller names, or
/// the device's effective type.
pub open spec fn addressed_type(nodes: Seq<Node>, d: Device, direction: Option<RouteDirection>) -> Option<DeviceType> {
    match direction {
        Some(RouteDirection::Output) => Some(DeviceType::Sink),
        Some(RouteDirection::Input) => Some(DeviceType::Source),
        None => effective_type(nodes, d.device_type, d.nodes@),
    }
}

/// The cached (route index, route device) for a type, or why there is none.
pub open spec fn spec_route_info(d: Device, t: DeviceType) -> Result<(i32, i32), GraphError> {
    let r = match t {
        DeviceType::Sink => d.output_route,
        DeviceType::Source => d.input_route,
        DeviceType::Unknown => d.output_route,
    };
    if t == DeviceType::Unknown {
        Err(GraphError::UnknownDeviceType(d.id))
    } else if r.index is Some && r.device is Some {
        Ok((r.index->0, r.device->0))
    } else {
        Err(GraphError::NoRouteInfo(d.id))
    }
}

/// The route a request on device `id` addresses, or why it cannot be made.
pub open spec fn route_target(o: Store, id: u32, direction: Option<RouteDirection>) -> Result<(i32, i32), GraphError> {
    if !device_in(o.devices@, id) {
        Err(GraphError::DeviceNotFound(id))
    } else {
        let d = o.devices@[device_index(o.devices@, id)];
        match addressed_type(o.nodes@, d, direction) {
            None => Err(GraphError::UnknownDeviceType(id)),
            Some(t) => spec_route_info(d, t),
        }
    }
}

/// `r` holds the (id, name) of each device of `ds`, in order.
pub open spec fn listed_as(r: Seq<(u32, String)>, ds: Seq<Device>) -> bool {
    r.len() == ds.len() && forall|k: int| 0 <= k < r.len() ==> r[k].0 == ds[k].id && r[k].1 == ds[k].name
}

pub open spec fn of_type(t: DeviceType) -> spec_fn(Device) -> bool {
    |d: Device| d.device_type == t
}

/// The devices of type `t`, in order.
pub open spec fn typed_devices(devices: Seq<Device>, t: DeviceType) -> Seq<Device> {
    devices.filter(of_type(t))
}

pub(crate) proof fn lemma_device_index(devices: Seq<Device>, i: int)
    requires
        unique_device_ids(devices),
        0 <= i < devices.len(),
    ensures
        forall|j: int| 0 <= j < devices.len() && j != i ==> devices[j].id != devices[i].id,
        device_index(devices, devices[i].id) == i,
{
    assert forall|j: int| 0 <= j < devices.len() && j != i implies devices[j].id != devices[i].id by {
        if j < i {
            assert(devices[j].id != devices[i].id);
        } else {
            assert(devices[i].id != devices[j].id);
        }
    }
}

pub(crate) proof fn lemma_node_index(nodes: Seq<Node>, i: int)
    requires
        unique_node_ids(nodes),
        0 <= i < nodes.len(),
    ensures
        forall|j: int| 0 <= j < nodes.len() && j != i ==> nodes[j].id != nodes[i].id,
{
    assert forall|j: int| 0 <= j < nodes.len() && j != i implies nodes[j].id != nodes[i].id by {
        if j < i {
            assert(nodes[j].id != nodes[i].id);
        } else {
            assert(nodes[i].id != nodes[j].id);
        }
    }
}

impl Store {
    /// Whether the listed nodes include a sink and a source.
    fn listed_node_types(&self, dev_nodes: &Vec<u32>) -> (r: (bool, bool))
        requires
            unique_node_ids(self.nodes@),
        ensures
            r.0 == lists_node_of_type(self.nodes@, dev_nodes@, NodeType::AudioSink),
            r.1 == lists_node_of_type(self.nodes@, dev_nodes@, NodeType::AudioSource),
    {
        let mut has_sink = false;
        let mut has_source = false;
        let mut k: usize = 0;
        while k < dev_nodes.len()
            invariant
                0 <= k <= dev_nodes@.len(),
                unique_node_ids(self.nodes@),
                has_sink == exists|a: int, m: int|
                    0 <= a < k && 0 <= m < self.nodes@.len() && self.nodes@[m].id == dev_nodes@[a]
                        && self.nodes@[m].node_type == NodeType::AudioSink,
                has_source == exists|a: int, m: int|
                    0 <= a < k && 0 <= m < self.nodes@.len() && self.nodes@[m].id == dev_nodes@[a]
                        && self.nodes@[m].node_type == NodeType::AudioSource,
            decreases dev_nodes@.len() - k,
        {
            match self.find_node(dev_nodes[k]) {
                Some(m) => {
                    let t = self.nodes[m].node_type;
                    proof {
                        assert forall|m2: int| 0 <= m2 < self.nodes@.len() && self.nodes@[m2].id
                            == dev_nodes@[k as int] implies m2 == m by {
                            if m2 != m {
                                if m2 < m {
                                    assert(self.nodes@[m2].id != self.nodes@[m as int].id);
                                } else {
                                    assert(self.nodes@[m as int].id != self.nodes@[m2].id);
                                }
                            }
                        }
                    }
                    if t == NodeType::AudioSink {
                        has_sink = true;
                    }
                    if t == NodeType::AudioSource {
                        has_source = true;
                    }
                },
                None => {},
            }
            k = k + 1;
        }
        (has_sink, has_source)
    }

    /// The device's effective type, or an error when it cannot be determined.
    pub fn determine_effective_device_type(&self, device: &Device) -> (r: Result<DeviceType, GraphError>)
        requires
            unique_node_ids(self.nodes@),
        ensures
            match effective_type(self.nodes@, device.device_type, device.nodes@) {
                Some(t) => r == Ok::<DeviceType, GraphError>(t),
                None => r == Err::<DeviceType, GraphError>(GraphError::UnknownDeviceType(device.id)),
            },
    {
        if device.device_type != DeviceType::Unknown {
            return Ok(device.device_type);
        }
        let (has_sink, has_source) = self.listed_node_types(&device.nodes);
        if has_sink {
            Ok(DeviceType::Sink)
        } else if has_source {
            Ok(DeviceType::Source)
        } else {
            Err(GraphError::UnknownDeviceType(device.id))
        }
    }

    /// Gives a device of unknown type the type its nodes show, when they show one.
    pub fn update_device_type_from_nodes(&mut self, device_id: u32)
        requires
            old(self).wf(),
        ensures
            final(self).wf(),
            *final(self) == (Store { devices: final(self).devices, ..*old(self) }),
            final(self).devices@.len() == old(self).devices@.len(),
            forall|j: int|
                0 <= j < old(self).devices@.len() ==> #[trigger] final(self).devices@[j] == (if old(
                    self,
                ).devices@[j].id == device_id {
                    Device {
                        device_type: match effective_type(
                            old(self).nodes@,
                            old(self).devices@[j].device_type,
                            old(self).devices@[j].nodes@,
                        ) {
                            Some(t) => t,
                            None => old(self).devices@[j].device_type,
                        },
                        ..old(self).devices@[j]
                    }
                } else {
                    old(self).devices@[j]
                }),
    {
        if let Some(i) = self.find_device(device_id) {
            proof {
                assert forall|j: int| 0 <= j < self.devices@.len() && j != i implies self.devices@[j].id
                    != device_id by {
                    if j < i {
                        assert(self.devices@[j].id != self.devices@[i as int].id);
                    } else {
                        assert(self.devices@[i as int].id != self.devices@[j].id);
                    }
                }
            }
            if self.devices[i].device_type == DeviceType::Unknown {
                let (has_sink, has_source) = self.listed_node_types(&self.devices[i].nodes);
                if has_sink {
                    self.devices[i].device_type = DeviceType::Sink;
                } else if has_source {
                    self.devices[i].device_type = DeviceType::Source;
                }
            }
        }
    }

    /// Every listed node takes the device's volume and mute.
    pub fn update_node_volumes_from_device(&mut self, ids: &Vec<u32>, volume: u32, muted: bool)
        requires
            old(self).wf(),
        ensures
            final(self).wf(),
            *final(self) == (Store { nodes: final(self).nodes, ..*old(self) }),
            nodes_took_volume(old(self).nodes@, final(self).nodes@, ids@, Volume { linear: volume, muted }),
    {
        let v = Volume { linear: volume, muted };
        let ghost o = self.nodes@;
        let mut k: usize = 0;
        while k < ids.len()
            invariant
                0 <= k <= ids@.len(),
                unique_node_ids(o),
                *self == (Store { nodes: self.nodes, ..*old(self) }),
                o == old(self).nodes@,
                self.nodes@.len() == o.len(),
                forall|j: int|
                    0 <= j < o.len() ==> #[trigger] self.nodes@[j] == (if ids@.subrange(0, k as int).contains(o[j].id) {
                        Node { volume: v, ..o[j] }
                    } else {
                        o[j]
                    }),
            decreases ids@.len() - k,
        {
            let ghost before = self.nodes@;
            let id = ids[k];
            proof {
                assert forall|j: int| 0 <= j < o.len() implies (ids@.subrange(0, k + 1).contains(o[j].id) <==> (
                ids@.subrange(0, k as int).contains(o[j].id) || o[j].id == id)) by {
                    let s0 = ids@.subrange(0, k as int);
                    let s1 = ids@.subrange(0, k + 1);
                    if s1.contains(o[j].id) {
                        let t = choose|t: int| 0 <= t < s1.len() && s1[t] == o[j].id;
                        if t < k {
                            assert(s0[t] == o[j].id);
                        }
                    }
                    if s0.contains(o[j].id) {
                        let t = choose|t: int| 0 <= t < s0.len() && s0[t] == o[j].id;
                        assert(s1[t] == o[j].id);
                    }
                    if o[j].id == id {
                        assert(s1[k as int] == id);
                    }
                }
            }
            match self.find_node(id) {
                Some(i) => {
                    proof {
                        lemma_node_index(before, i as int);
                        assert(before[i as int].id == o[i as int].id);
                        lemma_node_index(o, i as int);
                    }
                    self.nodes[i].volume = v;
                },
                None => {
                    proof {
                        assert forall|j: int| 0 <= j < o.len() implies o[j].id != id by {
                            assert(before[j].id == o[j].id);
                        }
                    }
                },
            }
            k = k + 1;
        }
        proof {
            assert(ids@.subrange(0, ids@.len() as int) =~= ids@);
        }
    }

    /// Applies a route parameter of device `device_id`: caches the route's
    /// index and device number by direction; when the route carries the
    /// device's own direction, takes its volume (cube-root scaled) and mute,
    /// records them on that route, marks the device as route-capable, and
    /// hands a changed volume or mute on to the device's nodes. Returns whether
    /// the volume or mute changed.
    pub fn parse_route_volume_data(&mut self, device_id: u32, route: &RouteParam) -> (r: Result<bool, GraphError>)
        requires
            old(self).wf(),
        ensures
            final(self).wf(),
            !device_in(old(self).devices@, device_id) ==> r == Err::<bool, GraphError>(GraphError::DeviceNotFound(device_id))
                && *final(self) == *old(self),
            device_in(old(self).devices@, device_id) ==> ({
                let i = device_index(old(self).devices@, device_id);
                let o = old(self).devices@[i];
                let (out, inp) = cache_route(o.output_route, o.input_route, route.direction, route.index, route.device);
                let own = route_is_own(o.device_type, route.direction);
                let (v, m) = route_volume(o.volume, o.muted, first_channel(route.channel_volumes), route.mute);
                let changed = own && (v != o.volume || m != o.muted);
                &&& 0 <= i < old(self).devices@.len() && o.id == device_id
                &&& final(self).devices@ == old(self).devices@.update(i, if own {
                    Device {
                        output_route: if route.direction == Some(1u32) { RouteInfo { volume: v, muted: m, ..out } } else { out },
                        input_route: if route.direction == Some(0u32) { RouteInfo { volume: v, muted: m, ..inp } } else { inp },
                        volume: v,
                        muted: m,
                        has_route_volume: true,
                        ..o
                    }
                } else {
                    Device { output_route: out, input_route: inp, ..o }
                })
                &&& r == Ok::<bool, GraphError>(changed)
                &&& if changed {
                    &&& *final(self) == (Store { nodes: final(self).nodes, devices: final(self).devices, ..*old(self) })
                    &&& nodes_took_volume(old(self).nodes@, final(self).nodes@, o.nodes@, Volume { linear: v, muted: m })
                } else {
                    *final(self) == (Store { devices: final(self).devices, ..*old(self) })
                }
            }),
    {
        let i = match self.find_device(device_id) {
            Some(i) => i,
            None => {
                return Err(GraphError::DeviceNotFound(device_id));
            },
        };
        proof {
            lemma_device_index(self.devices@, i as int);
        }
        let mut out = self.devices[i].output_route;
        let mut inp = self.devices[i].input_route;
        match (route.direction, route.index, route.device) {
            (Some(dir), Some(index), Some(device)) => {
                if dir == 1 {
                    out.index = Some(index);
                    out.device = Some(device);
                } else if dir == 0 {
                    inp.index = Some(index);
                    inp.device = Some(device);
                }
            },
            _ => {},
        }
        let t = self.devices[i].device_type;
        let own = (t == DeviceType::Sink && route.direction == Some(1u32)) || (t == DeviceType::Source
            && route.direction == Some(0u32));
        if !own {
            self.devices[i].output_route = out;
            self.devices[i].input_route = inp;
            proof {
                assert(self.devices@ =~= old(self).devices@.update(i as int, self.devices@[i as int]));
                assert(device_profiles_sorted(self.devices@));
            }
            return Ok(false);
        }
        let old_volume = self.devices[i].volume;
        let old_muted = self.devices[i].muted;
        let mut volume = old_volume;
        let mut muted = old_muted;
        if let Some(m) = route.mute {
            muted = m;
        }
        let channel = match &route.channel_volumes {
            Some(value) => VolumeResolver::extract_channel_volume(value),
            None => None,
        };
        if let Some(raw) = channel {
            let scaled = VolumeResolver::apply_cubic_scaling(raw);
            if abs_diff_exceeds(volume, scaled) {
                volume = scaled;
            }
        }
        if route.direction == Some(1u32) {
            out.volume = volume;
            out.muted = muted;
        }
        if route.direction == Some(0u32) {
            inp.volume = volume;
            inp.muted = muted;
        }
        self.devices[i].output_route = out;
        self.devices[i].input_route = inp;
        self.devices[i].volume = volume;
        self.devices[i].muted = muted;
        self.devices[i].has_route_volume = true;
        proof {
            assert(self.devices@ =~= old(self).devices@.update(i as int, self.devices@[i as int]));
            assert(device_profiles_sorted(self.devices@));
        }
        let changed = volume != old_volume || muted != old_muted;
        if changed {
            let ids = crate::model::clone_ids(&self.devices[i].nodes);
            self.update_node_volumes_from_device(&ids, volume, muted);
        }
        Ok(changed)
    }

    /// Applies a device-level property parameter: a volume that moved by more
    /// than a thousandth, and a changed mute, are taken and handed on to the
    /// device's nodes. Returns whether anything changed.
    pub fn parse_device_props_volume(&mut self, device_id: u32, props: &PropsParam) -> (r: Result<bool, GraphError>)
        requires
            old(self).wf(),
        ensures
            final(self).wf(),
            !device_in(old(self).devices@, device_id) ==> r == Err::<bool, GraphError>(GraphError::DeviceNotFound(device_id))
                && *final(self) == *old(self),
            device_in(old(self).devices@, device_id) ==> ({
                let i = device_index(old(self).devices@, device_id);
                let o = old(self).devices@[i];
                let v = match props.volume {
                    Some(x) => if volume_moved(o.volume, x) { x } else { o.volume },
                    None => o.volume,
                };
                let m = match props.mute {
                    Some(x) => x,
                    None => o.muted,
                };
                let changed = v != o.volume || m != o.muted;
                &&& 0 <= i < old(self).devices@.len() && o.id == device_id
                &&& r == Ok::<bool, GraphError>(changed)
                &&& if changed {
                    &&& final(self).devices@ == old(self).devices@.update(i, Device { volume: v, muted: m, ..o })
                    &&& *final(self) == (Store { nodes: final(self).nodes, devices: final(self).devices, ..*old(self) })
                    &&& nodes_took_volume(old(self).nodes@, final(self).nodes@, o.nodes@, Volume { linear: v, muted: m })
                } else {
                    *final(self) == *old(self)
                }
            }),
    {
        let i = match self.find_device(device_id) {
            Some(i) => i,
            None => {
                return Err(GraphError::DeviceNotFound(device_id));
            },
        };
        proof {
            lemma_device_index(self.devices@, i as int);
        }
        let old_volume = self.devices[i].volume;
        let old_muted = self.devices[i].muted;
        let mut volume = old_volume;
        let mut muted = old_muted;
        if let Some(x) = props.volume {
            if abs_diff_exceeds(old_volume, x) {
                volume = x;
            }
        }
        if let Some(x) = props.mute {
            muted = x;
        }
        if volume == old_volume && muted == old_muted {
            return Ok(false);
        }
        self.devices[i].volume = volume;
        self.devices[i].muted = muted;
        proof {
            assert(self.devices@ =~= old(self).devices@.update(i as int, self.devices@[i as int]));
            assert(device_profiles_sorted(self.devices@));
        }
        let ids = crate::model::clone_ids(&self.devices[i].nodes);
        self.update_node_volumes_from_device(&ids, volume, muted);
        Ok(true)
    }

    /// Adds or replaces (by index) one profile of the device's list, keeping
    /// the list ordered by descending priority.
    pub fn handle_device_profile_list(&mut self, device_id: u32, profile: Profile) -> (r: Result<bool, GraphError>)
        requires
            old(self).wf(),
        ensures
            final(self).wf(),
            !device_in(old(self).devices@, device_id) ==> r == Err::<bool, GraphError>(GraphError::DeviceNotFound(device_id))
                && *final(self) == *old(self),
            device_in(old(self).devices@, device_id) ==> ({
                let i = device_index(old(self).devices@, device_id);
                let o = old(self).devices@[i];
                let f = final(self).devices@[i];
                &&& r == Ok::<bool, GraphError>(true)
                &&& *final(self) == (Store { devices: final(self).devices, ..*old(self) })
                &&& final(self).devices@ == old(self).devices@.update(i, f)
                &&& f == Device { profiles: f.profiles, ..o }
                &&& profiles_sorted(f.profiles@)
                &&& forall|q: Profile| #[trigger] f.profiles@.contains(q) <==> (q == profile || (o.profiles@.contains(q)
                    && q.index != profile.index))
            }),
    {
        let i = match self.find_device(device_id) {
            Some(i) => i,
            None => {
                return Err(GraphError::DeviceNotFound(device_id));
            },
        };
        proof {
            lemma_device_index(self.devices@, i as int);
        }
        let index = profile.index;
        drop_profile_index(&mut self.devices[i].profiles, index);
        insert_by_priority(&mut self.devices[i].profiles, profile);
        proof {
            assert(self.devices@ =~= old(self).devices@.update(i as int, self.devices@[i as int]));
            assert(device_profiles_sorted(self.devices@));
        }
        Ok(true)
    }

    /// Takes the device's current profile index. A negative index is refused;
    /// returns whether it changed.
    pub fn handle_device_current_profile(&mut self, device_id: u32, index: Option<i32>) -> (r: Result<bool, GraphError>)
        requires
            old(self).wf(),
        ensures
            final(self).wf(),
            !device_in(old(self).devices@, device_id) ==> r == Err::<bool, GraphError>(GraphError::DeviceNotFound(device_id))
                && *final(self) == *old(self),
            device_in(old(self).devices@, device_id) ==> ({
                let i = device_index(old(self).devices@, device_id);
                let o = old(self).devices@[i];
                match index {
                    None => r == Ok::<bool, GraphError>(false) && *final(self) == *old(self),
                    Some(x) => if x < 0 {
                        r == Err::<bool, GraphError>(GraphError::NegativeValue(x)) && *final(self) == *old(self)
                    } else if o.current_profile_index == Some(x as u32) {
                        r == Ok::<bool, GraphError>(false) && *final(self) == *old(self)
                    } else {
                        &&& r == Ok::<bool, GraphError>(true)
                        &&& *final(self) == (Store { devices: final(self).devices, ..*old(self) })
                        &&& final(self).devices@ == old(self).devices@.update(i, Device { current_profile_index: Some(x as u32), ..o })
                    },
                }
            }),
    {
        let i = match self.find_device(device_id) {
            Some(i) => i,
            None => {
                return Err(GraphError::DeviceNotFound(device_id));
            },
        };
        proof {
            lemma_device_index(self.devices@, i as int);
        }
        match index {
            None => Ok(false),
            Some(x) => {
                if x < 0 {
                    return Err(GraphError::NegativeValue(x));
                }
                if self.devices[i].current_profile_index == Some(x as u32) {
                    return Ok(false);
                }
                self.devices[i].current_profile_index = Some(x as u32);
                proof {
                    assert(self.devices@ =~= old(self).devices@.update(i as int, self.devices@[i as int]));
                    assert(device_profiles_sorted(self.devices@));
                }
                Ok(true)
            },
        }
    }

    /// The selectable profiles of the device (available and not "off"), in
    /// stored order; none when there is no such device.
    pub fn get_device_profiles(&self, device_id: u32) -> (r: Vec<Profile>)
        requires
            self.wf(),
        ensures
            r@ == spec_device_profiles(self.devices@, device_id),
    {
        match self.find_device(device_id) {
            Some(i) => {
                proof {
                    lemma_device_index(self.devices@, i as int);
                }
                self.devices[i].get_available_profiles()
            },
            None => Vec::new(),
        }
    }

    /// The device's current profile, when both are known.
    pub fn get_device_current_profile(&self, device_id: u32) -> (r: Option<Profile>)
        requires
            self.wf(),
        ensures
            !device_in(self.devices@, device_id) ==> r is None,
            device_in(self.devices@, device_id) ==> ({
                let d = self.devices@[device_index(self.devices@, device_id)];
                match (d.current_profile_index, r) {
                    (None, r) => r is None,
                    (Some(x), None) => forall|k: int| 0 <= k < d.profiles@.len() ==> d.profiles@[k].index != x,
                    (Some(x), Some(p)) => p.index == x && d.profiles@.contains(p),
                }
            }),
    {
        match self.find_device(device_id) {
            Some(i) => {
                proof {
                    lemma_device_index(self.devices@, i as int);
                }
                self.devices[i].get_current_profile()
            },
            None => None,
        }
    }

    /// What a profile switch request on the store answers.
    pub open spec fn switch_device_profile_spec(&self, device_id: u32, profile_index: u32) -> Result<(), GraphError> {
        if !device_in(self.devices@, device_id) {
            Err(GraphError::DeviceNotFound(device_id))
        } else {
            let d = self.devices@[device_index(self.devices@, device_id)];
            if exists|k: int| 0 <= k < d.profiles@.len() && d.profiles@[k].index == profile_index {
                Ok(())
            } else {
                Err(GraphError::ProfileNotFound(device_id, profile_index))
            }
        }
    }

    /// Checks a profile switch: the device must exist and advertise the
    /// profile index. The request itself is sent by the caller.
    pub fn switch_device_profile(&self, device_id: u32, profile_index: u32) -> (r: Result<(), GraphError>)
        requires
            self.wf(),
        ensures
            r == self.switch_device_profile_spec(device_id, profile_index),
    {
        match self.find_device(device_id) {
            Some(i) => {
                proof {
                    lemma_device_index(self.devices@, i as int);
                }
                match crate::model::find_profile(&self.devices[i].profiles, profile_index) {
                    Some(_) => Ok(()),
                    None => Err(GraphError::ProfileNotFound(device_id, profile_index)),
                }
            },
            None => Err(GraphError::DeviceNotFound(device_id)),
        }
    }

    /// The cached route for a device type.
    pub fn get_route_info(&self, device: &Device, device_type: DeviceType) -> (r: Result<(i32, i32), GraphError>)
        ensures
            r == spec_route_info(*device, device_type),
    {
        let route = match device_type {
            DeviceType::Sink => device.output_route,
            DeviceType::Source => device.input_route,
            DeviceType::Unknown => {
                return Err(GraphError::UnknownDeviceType(device.id));
            },
        };
        match (route.index, route.device) {
            (Some(index), Some(dev)) => Ok((index, dev)),
            _ => Err(GraphError::NoRouteInfo(device.id)),
        }
    }

    fn route_for(&self, device_id: u32, direction: Option<RouteDirection>) -> (r: Result<(i32, i32), GraphError>)
        requires
            self.wf(),
        ensures
            r == route_target(*self, device_id, direction),
    {
        let i = match self.find_device(device_id) {
            Some(i) => i,
            None => {
                return Err(GraphError::DeviceNotFound(device_id));
            },
        };
        proof {
            lemma_device_index(self.devices@, i as int);
        }
        let device = &self.devices[i];
        let t = match direction {
            Some(RouteDirection::Output) => DeviceType::Sink,
            Some(RouteDirection::Input) => DeviceType::Source,
            None => match self.determine_effective_device_type(device) {
                Ok(t) => t,
                Err(_) => {
                    return Err(GraphError::UnknownDeviceType(device_id));
                },
            },
        };
        self.get_route_info(device, t)
    }

    /// The route-level volume request for a device: the volume, clamped to
    /// unity gain, is turned back into hardware linear scale.
    pub fn set_device_volume(&self, device_id: u32, volume: u32, direction: Option<RouteDirection>) -> (r: Result<RouteCommand, GraphError>)
        requires
            self.wf(),
        ensures
            match route_target(*self, device_id, direction) {
                Err(e) => r == Err::<RouteCommand, GraphError>(e),
                Ok((index, dev)) => r == Ok::<RouteCommand, GraphError>(RouteCommand {
                    route_index: index,
                    route_device: dev,
                    raw_volume: Some(inverse_cubic(if volume > VOLUME_UNIT { VOLUME_UNIT as int } else { volume as int }) as u64),
                    mute: None,
                }),
            },
    {
        let (index, dev) = match self.route_for(device_id, direction) {
            Ok(t) => t,
            Err(e) => {
                return Err(e);
            },
        };
        let clamped = if volume > VOLUME_UNIT {
            VOLUME_UNIT
        } else {
            volume
        };
        let raw = VolumeResolver::apply_inverse_cubic_scaling(clamped);
        Ok(RouteCommand { route_index: index, route_device: dev, raw_volume: Some(raw), mute: None })
    }

    /// The route-level mute request for a device.
    pub fn set_device_mute(&self, device_id: u32, mute: bool, direction: Option<RouteDirection>) -> (r: Result<RouteCommand, GraphError>)
        requires
            self.wf(),
        ensures
            match route_target(*self, device_id, direction) {
                Err(e) => r == Err::<RouteCommand, GraphError>(e),
                Ok((index, dev)) => r == Ok::<RouteCommand, GraphError>(RouteCommand {
                    route_index: index,
                    route_device: dev,
                    raw_volume: None,
                    mute: Some(mute),
                }),
            },
    {
        let (index, dev) = match self.route_for(device_id, direction) {
            Ok(t) => t,
            Err(e) => {
                return Err(e);
            },
        };
        Ok(RouteCommand { route_index: index, route_device: dev, raw_volume: None, mute: Some(mute) })
    }

    /// (id, name) of every device of the given type, in stored order.
    pub fn devices_of_type(&self, t: DeviceType) -> (r: Vec<(u32, String)>)
        ensures
            listed_as(r@, typed_devices(self.devices@, t)),
    {
        let ghost p = of_type(t);
        let mut r: Vec<(u32, String)> = Vec::new();
        let mut i: usize = 0;
        while i < self.devices.len()
            invariant
                0 <= i <= self.devices@.len(),
                p == of_type(t),
                listed_as(r@, self.devices@.subrange(0, i as int).filter(p)),
            decreases self.devices@.len() - i,
        {
            proof {
                reveal_with_fuel(Seq::filter, 1);
                assert(self.devices@.subrange(0, i + 1).drop_last() =~= self.devices@.subrange(0, i as int));
            }
            let ghost prev = r@;
            if self.devices[i].device_type == t {
                r.push((self.devices[i].id, self.devices[i].name.clone()));
                proof {
                    let f = self.devices@.subrange(0, i + 1).filter(p);
                    assert(f == self.devices@.subrange(0, i as int).filter(p).push(self.devices@[i as int]));
                    assert forall|k: int| 0 <= k < r@.len() implies r@[k].0 == f[k].id && r@[k].1 == f[k].name by {
                        if k < prev.len() {
                            assert(r@[k] == prev[k]);
                        }
                    }
                }
            }
            i = i + 1;
        }
        proof {
            assert(self.devices@.subrange(0, self.devices@.len() as int) =~= self.devices@);
        }
        r
    }

    pub fn get_output_devices(&self) -> (r: Vec<(u32, String)>)
        ensures
            listed_as(r@, typed_devices(self.devices@, DeviceType::Sink)),
    {
        self.devices_of_type(DeviceType::Sink)
    }

    pub fn get_input_devices(&self) -> (r: Vec<(u32, String)>)
        ensures
            listed_as(r@, typed_devices(self.devices@, DeviceType::Source)),
    {
        self.devices_of_type(DeviceType::Source)
    }

    /// Takes the bus and form-factor hints a device reports; returns whether
    /// they changed.
    pub fn set_device_hints(&mut self, device_id: u32, bus: Option<String>, form_factor: Option<String>) -> (r: bool)
        requires
            old(self).wf(),
        ensures
            final(self).wf(),
            !device_in(old(self).devices@, device_id) ==> !r && *final(self) == *old(self),
            device_in(old(self).devices@, device_id) ==> ({
                let i = device_index(old(self).devices@, device_id);
                let o = old(self).devices@[i];
                if crate::registry::opt_view(o.bus) == crate::registry::opt_view(bus)
                    && crate::registry::opt_view(o.form_factor) == crate::registry::opt_view(form_factor) {
                    !r && *final(self) == *old(self)
                } else {
                    &&& r
                    &&& *final(self) == (Store { devices: final(self).devices, ..*old(self) })
                    &&& final(self).devices@ == old(self).devices@.update(i, Device { bus, form_factor, ..o })
                }
            }),
    {
        let i = match self.find_device(device_id) {
            Some(i) => i,
            None => {
                return false;
            },
        };
        proof {
            lemma_device_index(self.devices@, i as int);
        }
        if opt_string_eq(&self.devices[i].bus, &bus) && opt_string_eq(&self.devices[i].form_factor, &form_factor) {
            return false;
        }
        self.devices[i].bus = bus;
        self.devices[i].form_factor = form_factor;
        proof {
            assert(self.devices@ =~= old(self).devices@.update(i as int, self.devices@[i as int]));
            assert(device_profiles_sorted(self.devices@));
        }
        true
    }
}

proof fn lemma_filter_keeps_order(s: Seq<Profile>, p: spec_fn(Profile) -> bool)
    requires
        profiles_sorted(s),
    ensures
        profiles_sorted(s.filter(p)),
        forall|x: Profile| s.filter(p).contains(x) ==> s.contains(x),
    decreases s.len(),
{
    reveal_with_fuel(Seq::filter, 1);
    if s.len() > 0 {
        let r = s.drop_last();
        assert(profiles_sorted(r));
        lemma_filter_keeps_order(r, p);
        assert forall|x: Profile| r.contains(x) implies s.contains(x) by {
            let m = choose|m: int| 0 <= m < r.len() && r[m] == x;
            assert(s[m] == x);
        }
        if p(s.last()) {
            let f = s.filter(p);
            assert(f == r.filter(p).push(s.last()));
            assert forall|i: int, j: int| 0 <= i < j < f.len() implies f[i].priority >= f[j].priority by {
                assert(r.filter(p)[i] == f[i]);
                if j == f.len() - 1 {
                    assert(r.filter(p).contains(f[i]));
                    assert(r.contains(f[i]));
                    let k = choose|k: int| 0 <= k < r.len() && r[k] == f[i];
                    assert(s[k] == r[k]);
                    assert(f[j] == s[s.len() - 1]);
                } else {
                    assert(r.filter(p)[j] == f[j]);
                }
            }
            assert forall|x: Profile| f.contains(x) implies s.contains(x) by {
                if x != s.last() {
                    let k = choose|k: int| 0 <= k < f.len() && f[k] == x;
                    assert(r.filter(p)[k] == x);
                    assert(r.filter(p).contains(x));
                } else {
                    assert(s[s.len() - 1] == x);
                }
            }
        } else {
            assert(s.filter(p) == r.filter(p));
        }
    }
}

/// The profiles offered for a device are all available and none is the "off"
/// profile, and they come in descending order of priority.
pub proof fn lemma_offered_profiles(s: Store, device_id: u32)
    requires
        s.wf(),
    ensures
        forall|k: int|
            0 <= k < spec_device_profiles(s.devices@, device_id).len() ==> profile_selectable(
                #[trigger] spec_device_profiles(s.devices@, device_id)[k],
            ),
        profiles_sorted(spec_device_profiles(s.devices@, device_id)),
{
    broadcast use group_filter_ensures;
    if device_in(s.devices@, device_id) {
        let i = device_index(s.devices@, device_id);
        assert(profiles_sorted(s.devices@[i].profiles@));
        lemma_filter_keeps_order(s.devices@[i].profiles@, |p: Profile| profile_selectable(p));
    }
}

} // verus!
