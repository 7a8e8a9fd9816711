//! The entities of the audio graph and their derived predicates.
use vstd::prelude::*;
use vstd::string::*;
use crate::volume::{VOLUME_UNIT, MAX_VOLUME};

verus! {

#[derive(Debug, Clone, Copy, PartialEq, Eq, Structural)]
pub enum NodeType {
    AudioSink,
    AudioSource,
    AudioDuplex,
    StreamOutputAudio,
    StreamInputAudio,
    AudioVirtual,
    Unknown,
}

#[derive(Debug, Clone, Copy, PartialEq, Eq, Structural)]
pub enum DeviceType {
    Sink,
    Source,
    Unknown,
}

#[derive(Debug, Clone, Copy, PartialEq, Eq, Structural)]
pub enum PortDirection {
    Input,
    Output,
}

#[derive(Debug, Clone, Copy, PartialEq, Eq, Structural)]
pub enum ConnectionStatus {
    Connected,
    Disconnected,
    Error,
}

impl Default for ConnectionStatus {
    fn default() -> (r: Self)
        ensures
            r == ConnectionStatus::Disconnected,
    {
        ConnectionStatus::Disconnected
    }
}

/// Why an operation on the graph was refused. Identifiers name the object
/// that the request referred to.
#[derive(Debug, Clone, Copy, PartialEq, Eq, Structural)]
pub enum GraphError {
    NodeNotFound(u32),
    DeviceNotFound(u32),
    NotASink(u32),
    NotASource(u32),
    ProfileNotFound(u32, u32),
    NoOutputPorts(u32),
    NoInputPorts(u32),
    NoMatchingPorts(u32, u32),
    NoNewLinks(u32, u32),
    MissingProperty(u32),
    InvalidProperty(u32),
    InvalidDirection(u32),
    NegativeValue(i32),
    UnknownDeviceType(u32),
    NoRouteInfo(u32),
    MetadataUnavailable,
}

/// A linear gain in millionths, with the mute flag.
#[derive(Debug, Clone, Copy, PartialEq, Eq, Structural)]
pub struct Volume {
    pub linear: u32,
    pub muted: bool,
}

pub open spec fn clamp_volume(v: u32) -> u32 {
    if v > MAX_VOLUME {
        MAX_VOLUME
    } else {
        v
    }
}

/// The volume as a whole percentage, rounded half up.
pub open spec fn spec_percent(linear: u32) -> int {
    let p = (linear as int + 5_000) / 10_000;
    if p > 255 {
        255
    } else {
        p
    }
}

impl Volume {
    pub fn new(linear: u32, muted: bool) -> (r: Self)
        ensures
            r.linear == clamp_volume(linear),
            r.muted == muted,
    {
        let l = if linear > MAX_VOLUME {
            MAX_VOLUME
        } else {
            linear
        };
        Volume { linear: l, muted }
    }

    pub fn percent(&self) -> (r: u8)
        ensures
            r as int == spec_percent(self.linear),
    {
        let p: u64 = (self.linear as u64 + 5_000) / 10_000;
        if p > 255 {
            255
        } else {
            p as u8
        }
    }
}

pub fn clone_opt_string(o: &Option<String>) -> (r: Option<String>)
    ensures
        r == *o,
{
    match o {
        Some(s) => Some(s.clone()),
        None => None,
    }
}

pub fn clone_ids(v: &Vec<u32>) -> (r: Vec<u32>)
    ensures
        r@ == v@,
{
    let mut r: Vec<u32> = Vec::new();
    let mut i: usize = 0;
    while i < v.len()
        invariant
            0 <= i <= v@.len(),
            r@ == v@.subrange(0, i as int),
        decreases v@.len() - i,
    {
        r.push(v[i]);
        i = i + 1;
        proof {
            assert(r@ =~= v@.subrange(0, i as int));
        }
    }
    proof {
        assert(v@.subrange(0, v@.len() as int) =~= v@);
    }
    r
}

/// A selectable configuration of a device.
#[derive(Debug)]
pub struct Profile {
    pub index: u32,
    pub name: String,
    pub description: String,
    pub priority: u32,
    pub available: String,
}

impl Clone for Profile {
    fn clone(&self) -> (r: Self)
        ensures
            r == *self,
    {
        Profile {
            index: self.index,
            name: self.name.clone(),
            description: self.description.clone(),
            priority: self.priority,
            available: self.available.clone(),
        }
    }
}

pub open spec fn profile_available(p: Profile) -> bool {
    p.available@ == "yes"@ || p.available@ == "unknown"@
}

pub open spec fn profile_off(p: Profile) -> bool {
    p.name@ == "off"@
}

/// A profile offered for selection: available and not the "off" profile.
pub open spec fn profile_selectable(p: Profile) -> bool {
    profile_available(p) && !profile_off(p)
}

impl Profile {
    pub fn is_available(&self) -> (r: bool)
        ensures
            r == profile_available(*self),
    {
        crate::text::str_eq(self.available.as_str(), "yes") || crate::text::str_eq(
            self.available.as_str(),
            "unknown",
        )
    }

    pub fn is_off(&self) -> (r: bool)
        ensures
            r == profile_off(*self),
    {
        crate::text::str_eq(self.name.as_str(), "off")
    }
}

pub fn clone_profiles(v: &Vec<Profile>) -> (r: Vec<Profile>)
    ensures
        r@ == v@,
{
    let mut r: Vec<Profile> = Vec::new();
    let mut i: usize = 0;
    while i < v.len()
        invariant
            0 <= i <= v@.len(),
            r@ == v@.subrange(0, i as int),
        decreases v@.len() - i,
    {
        r.push(v[i].clone());
        i = i + 1;
        proof {
            assert(r@ =~= v@.subrange(0, i as int));
        }
    }
    proof {
        assert(v@.subrange(0, v@.len() as int) =~= v@);
    }
    r
}

/// Per-direction route state of a device.
#[derive(Debug, Clone, Copy, PartialEq, Eq, Structural)]
pub struct RouteInfo {
    pub index: Option<i32>,
    pub device: Option<i32>,
    pub volume: u32,
    pub muted: bool,
}

impl RouteInfo {
    pub fn new() -> (r: Self)
        ensures
            r.index is None,
            r.device is None,
            r.volume == VOLUME_UNIT,
            !r.muted,
    {
        RouteInfo { index: None, device: None, volume: VOLUME_UNIT, muted: false }
    }

    /// Both the route index and the route device number are known.
    pub fn is_available(&self) -> (r: bool)
        ensures
            r == (self.index is Some && self.device is Some),
    {
        self.index.is_some() && self.device.is_some()
    }

    /// The last-known (volume, mute) of the route, once the route is known.
    pub fn get_volume_state(&self) -> (r: Option<(u32, bool)>)
        ensures
            r == (if self.index is Some && self.device is Some {
                Some((self.volume, self.muted))
            } else {
                None
            }),
    {
        if self.is_available() {
            Some((self.volume, self.muted))
        } else {
            None
        }
    }
}

#[derive(Debug)]
pub struct Device {
    pub id: u32,
    pub name: String,
    pub nick: Option<String>,
    pub description: Option<String>,
    pub device_type: DeviceType,
    pub bus: Option<String>,
    pub form_factor: Option<String>,
    pub nodes: Vec<u32>,
    pub profiles: Vec<Profile>,
    pub current_profile_index: Option<u32>,
    pub volume: u32,
    pub muted: bool,
    pub output_route: RouteInfo,
    pub input_route: RouteInfo,
    pub has_route_volume: bool,
}

/// Two devices hold the same values (vectors compared by their contents).
pub open spec fn device_eq(a: Device, b: Device) -> bool {
    a.id == b.id && a.name == b.name && a.nick == b.nick && a.description == b.description
        && a.device_type == b.device_type && a.bus == b.bus && a.form_factor == b.form_factor
        && a.nodes@ == b.nodes@ && a.profiles@ == b.profiles@ && a.current_profile_index
        == b.current_profile_index && a.volume == b.volume && a.muted == b.muted
        && a.output_route == b.output_route && a.input_route == b.input_route
        && a.has_route_volume == b.has_route_volume
}

impl Clone for Device {
    fn clone(&self) -> (r: Self)
        ensures
            device_eq(r, *self),
    {
        let nodes = clone_ids(&self.nodes);
        let profiles = clone_profiles(&self.profiles);
        Device {
            id: self.id,
            name: self.name.clone(),
            nick: clone_opt_string(&self.nick),
            description: clone_opt_string(&self.description),
            device_type: self.device_type,
            bus: clone_opt_string(&self.bus),
            form_factor: clone_opt_string(&self.form_factor),
            nodes,
            profiles,
            current_profile_index: self.current_profile_index,
            volume: self.volume,
            muted: self.muted,
            output_route: self.output_route,
            input_route: self.input_route,
            has_route_volume: self.has_route_volume,
        }
    }
}

impl Device {
    /// The profiles offered for selection, in stored order.
    pub fn get_available_profiles(&self) -> (r: Vec<Profile>)
        ensures
            r@ == self.profiles@.filter(|p: Profile| profile_selectable(p)),
    {
        select_profiles(&self.profiles)
    }

    /// The profile whose index is the current one, if both are known.
    pub fn get_current_profile(&self) -> (r: Option<Profile>)
        ensures
            self.current_profile_index is None ==> r is None,
            self.current_profile_index is Some ==> match r {
                Some(p) => exists|i: int|
                    0 <= i < self.profiles@.len() && self.profiles@[i] == p && p.index
                        == self.current_profile_index->0 && (forall|j: int|
                        0 <= j < i ==> self.profiles@[j].index != p.index),
                None => forall|i: int|
                    0 <= i < self.profiles@.len() ==> self.profiles@[i].index
                        != self.current_profile_index->0,
            },
    {
        match self.current_profile_index {
            None => None,
            Some(index) => {
                match find_profile(&self.profiles, index) {
                    Some(i) => Some(self.profiles[i].clone()),
                    None => None,
                }
            },
        }
    }
}

/// The position of the first profile with the given index.
pub fn find_profile(v: &Vec<Profile>, index: u32) -> (r: Option<usize>)
    ensures
        match r {
            Some(i) => i < v@.len() && v@[i as int].index == index && forall|j: int|
                0 <= j < i ==> v@[j].index != index,
            None => forall|j: int| 0 <= j < v@.len() ==> v@[j].index != index,
        },
{
    let mut i: usize = 0;
    while i < v.len()
        invariant
            0 <= i <= v@.len(),
            forall|j: int| 0 <= j < i ==> v@[j].index != index,
        decreases v@.len() - i,
    {
        if v[i].index == index {
            return Some(i);
        }
        i = i + 1;
    }
    None
}

/// The selectable profiles of `v`, in order.
pub fn select_profiles(v: &Vec<Profile>) -> (r: Vec<Profile>)
    ensures
        r@ == v@.filter(|p: Profile| profile_selectable(p)),
{
    let mut r: Vec<Profile> = Vec::new();
    let mut i: usize = 0;
    while i < v.len()
        invariant
            0 <= i <= v@.len(),
            r@ == v@.subrange(0, i as int).filter(|p: Profile| profile_selectable(p)),
        decreases v@.len() - i,
    {
        proof {
            reveal_with_fuel(Seq::filter, 1);
            assert(v@.subrange(0, i + 1).drop_last() =~= v@.subrange(0, i as int));
        }
        if v[i].is_available() && !v[i].is_off() {
            r.push(v[i].clone());
        }
        i = i + 1;
    }
    proof {
        assert(v@.subrange(0, v@.len() as int) =~= v@);
    }
    r
}

#[derive(Debug)]
pub struct Node {
    pub id: u32,
    pub name: String,
    pub nick: Option<String>,
    pub description: Option<String>,
    pub media_class: Option<String>,
    pub application_name: Option<String>,
    pub node_type: NodeType,
    pub volume: Volume,
    pub is_default: bool,
    pub device_id: Option<u32>,
    pub ports: Vec<u32>,
    pub media_name: Option<String>,
    pub has_received_params: bool,
}

/// Two nodes hold the same values (vectors compared by their contents).
pub open spec fn node_eq(a: Node, b: Node) -> bool {
    a.id == b.id && a.name == b.name && a.nick == b.nick && a.description == b.description
        && a.media_class == b.media_class && a.application_name == b.application_name
        && a.node_type == b.node_type && a.volume == b.volume && a.is_default == b.is_default
        && a.device_id == b.device_id && a.ports@ == b.ports@ && a.media_name == b.media_name
        && a.has_received_params == b.has_received_params
}

impl Clone for Node {
    fn clone(&self) -> (r: Self)
        ensures
            node_eq(r, *self),
    {
        let ports = clone_ids(&self.ports);
        Node {
            id: self.id,
            name: self.name.clone(),
            nick: clone_opt_string(&self.nick),
            description: clone_opt_string(&self.description),
            media_class: clone_opt_string(&self.media_class),
            application_name: clone_opt_string(&self.application_name),
            node_type: self.node_type,
            volume: self.volume,
            is_default: self.is_default,
            device_id: self.device_id,
            ports,
            media_name: clone_opt_string(&self.media_name),
            has_received_params: self.has_received_params,
        }
    }
}

#[derive(Debug)]
pub struct Port {
    pub id: u32,
    pub name: String,
    pub node_id: u32,
    pub direction: PortDirection,
    pub channel: String,
    pub links: Vec<u32>,
}

/// Two ports hold the same values (vectors compared by their contents).
pub open spec fn port_eq(a: Port, b: Port) -> bool {
    a.id == b.id && a.name == b.name && a.node_id == b.node_id && a.direction == b.direction
        && a.channel == b.channel && a.links@ == b.links@
}

impl Clone for Port {
    fn clone(&self) -> (r: Self)
        ensures
            port_eq(r, *self),
    {
        let links = clone_ids(&self.links);
        Port {
            id: self.id,
            name: self.name.clone(),
            node_id: self.node_id,
            direction: self.direction,
            channel: self.channel.clone(),
            links,
        }
    }
}

#[derive(Debug, Clone, Copy, PartialEq, Eq, Structural)]
pub struct Link {
    pub id: u32,
    pub output_node: u32,
    pub output_port: u32,
    pub input_node: u32,
    pub input_port: u32,
}

} // verus!
