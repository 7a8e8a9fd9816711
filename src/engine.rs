//! The decisions of the command/event bridge: what each queued command does
//! to the store and asks of the server, and when the waits for readiness and
//! for a profile switch end. The loop that services the server runs outside.
use vstd::prelude::*;
use crate::devices::RouteCommand;
use crate::graph::AudioGraph;
use crate::metadata::MetadataWrite;
use crate::model::{ConnectionStatus, GraphError};
use crate::store::{Store, node_in};
use crate::volume::RouteDirection;

verus! {

/// How long the wait for complete data lasts before going on with what is
/// there, in milliseconds.
pub const DATA_WAIT_MS: u64 = 2000;

/// How many times a profile switch is polled for confirmation.
pub const PROFILE_CONFIRM_POLLS: u32 = 20;

/// The interval between confirmation polls, in milliseconds.
pub const PROFILE_CONFIRM_INTERVAL_MS: u64 = 50;

/// The bounded wait for server events in one loop iteration, in milliseconds.
pub const ITERATE_TIMEOUT_MS: u64 = 100;

/// A request queued for the loop that owns the store.
#[derive(Debug)]
pub enum PwCommand {
    SetNodeVolume { node_id: u32, volume: u32 },
    SetNodeMute { node_id: u32, mute: bool },
    CreateLink { output_node: u32, input_node: u32 },
    RemoveLink { output_node: u32, input_node: u32 },
    SetDefaultSink { node_id: u32 },
    SetDefaultSource { node_id: u32 },
    SwitchDeviceProfile { device_id: u32, profile_index: u32 },
    SwitchDeviceProfileWithRestoration { device_id: u32, profile_index: u32 },
    SetDeviceVolume { device_id: u32, volume: u32, direction: Option<RouteDirection> },
    SetDeviceMute { device_id: u32, mute: bool, direction: Option<RouteDirection> },
    SetSampleRate { sample_rate: u32 },
    Exit,
}

/// What the loop must ask of the server after a command was applied.
#[derive(Debug)]
pub enum ServerAction {
    /// Set the node's volume property (millionths).
    NodeVolume { node_id: u32, volume: u32 },
    /// Set the node's mute property.
    NodeMute { node_id: u32, mute: bool },
    /// Create one link per (output port, input port) pair.
    CreateLinks { output_node: u32, input_node: u32, pairs: Vec<(u32, u32)> },
    /// Destroy these link objects.
    DestroyLinks { links: Vec<u32> },
    /// Write these properties on the default-device metadata object.
    DefaultMetadata { writes: Vec<MetadataWrite> },
    /// Write these properties on the settings metadata object.
    SettingsMetadata { writes: Vec<MetadataWrite> },
    /// Send a profile parameter {index, save} to the device and ask for the
    /// profile back.
    Profile { device_id: u32, profile_index: u32 },
    /// Send a route parameter to the device.
    Route { device_id: u32, command: RouteCommand },
    /// Leave the loop.
    Exit,
}

/// The first phase of readiness: connected and the registry walk done.
pub open spec fn spec_registry_ready(g: AudioGraph) -> bool {
    g.connection_status == ConnectionStatus::Connected && g.initial_sync_complete
}

pub fn registry_ready(g: &AudioGraph) -> (r: bool)
    ensures
        r == spec_registry_ready(*g),
{
    g.connection_status == ConnectionStatus::Connected && g.initial_sync_complete
}

/// What the wait for complete data does next.
#[derive(Debug, Clone, Copy, PartialEq, Eq, Structural)]
pub enum DataWait {
    /// The data is complete: ready.
    Complete,
    /// Time is up: ready with what is there.
    TimedOut,
    /// Wait for the next change, or a short while.
    Wait,
}

/// One step of the second phase of readiness, `elapsed_ms` after it began. It
/// never fails: when time is up it proceeds with best-effort data.
pub fn data_wait_step(data_complete: bool, elapsed_ms: u64) -> (r: DataWait)
    ensures
        r == (if data_complete {
            DataWait::Complete
        } else if elapsed_ms > DATA_WAIT_MS {
            DataWait::TimedOut
        } else {
            DataWait::Wait
        }),
{
    if data_complete {
        DataWait::Complete
    } else if elapsed_ms > DATA_WAIT_MS {
        DataWait::TimedOut
    } else {
        DataWait::Wait
    }
}

/// What the confirmation of a profile switch does next.
#[derive(Debug, Clone, Copy, PartialEq, Eq, Structural)]
pub enum ProfileWait {
    Confirmed,
    GaveUp,
    Poll,
}

/// One poll of a profile switch: confirmed once the device reports the
/// requested profile; given up (silently) after the last poll.
pub fn profile_confirm_step(current: Option<u32>, requested: u32, polls_done: u32) -> (r: ProfileWait)
    ensures
        r == (if current == Some(requested) {
            ProfileWait::Confirmed
        } else if polls_done >= PROFILE_CONFIRM_POLLS {
            ProfileWait::GaveUp
        } else {
            ProfileWait::Poll
        }),
{
    if current == Some(requested) {
        ProfileWait::Confirmed
    } else if polls_done >= PROFILE_CONFIRM_POLLS {
        ProfileWait::GaveUp
    } else {
        ProfileWait::Poll
    }
}

/// The current profile index that the snapshot reports for a device.
pub fn reported_profile(g: &AudioGraph, device_id: u32) -> (r: Option<u32>)
    ensures
        r == (if exists|i: int| 0 <= i < g.devices@.len() && g.devices@[i].id == device_id {
            g.devices@[choose|i: int| 0 <= i < g.devices@.len() && g.devices@[i].id == device_id && forall|j: int| 0 <= j < i ==> g.devices@[j].id != device_id].current_profile_index
        } else {
            None
        }),
{
    let mut i: usize = 0;
    while i < g.devices.len()
        invariant
            0 <= i <= g.devices@.len(),
            forall|j: int| 0 <= j < i ==> g.devices@[j].id != device_id,
        decreases g.devices@.len() - i,
    {
        if g.devices[i].id == device_id {
            proof {
                let c = choose|c: int| 0 <= c < g.devices@.len() && g.devices@[c].id == device_id && forall|j: int| 0 <= j < c ==> g.devices@[j].id != device_id;
                if c < i {
                } else if c > i {
                    assert(g.devices@[i as int].id == device_id);
                }
            }
            return g.devices[i].current_profile_index;
        }
        i = i + 1;
    }
    None
}

impl Store {
    /// Applies one queued command to the store and says what to ask of the
    /// server. Each command answers as the store operation it names.
    pub fn execute(&mut self, command: PwCommand, now: u64) -> (r: Result<ServerAction, GraphError>)
        requires
            old(self).wf(),
        ensures
            final(self).wf(),
            match command {
                PwCommand::SetNodeVolume { node_id, volume } => if node_in(old(self).nodes@, node_id) {
                    r matches Ok(ServerAction::NodeVolume { node_id: n, volume: v }) && n == node_id && v == crate::model::clamp_volume(volume)
                } else {
                    r == Err::<ServerAction, GraphError>(GraphError::NodeNotFound(node_id)) && *final(self) == *old(self)
                },
                PwCommand::SetNodeMute { node_id, mute } => if node_in(old(self).nodes@, node_id) {
                    r matches Ok(ServerAction::NodeMute { node_id: n, mute: m }) && n == node_id && m == mute
                } else {
                    r == Err::<ServerAction, GraphError>(GraphError::NodeNotFound(node_id)) && *final(self) == *old(self)
                },
                PwCommand::CreateLink { output_node, input_node } => match (r, crate::links::spec_create_link(*old(self), output_node, input_node)) {
                    (Ok(ServerAction::CreateLinks { output_node: o, input_node: i, pairs }), Ok(p)) => o == output_node && i == input_node && pairs@ == p,
                    (Err(e), Err(f)) => e == f,
                    _ => false,
                },
                PwCommand::RemoveLink { output_node, input_node } => {
                    &&& *final(self) == *old(self)
                    &&& if !node_in(old(self).nodes@, output_node) {
                        r == Err::<ServerAction, GraphError>(GraphError::NodeNotFound(output_node))
                    } else if !node_in(old(self).nodes@, input_node) {
                        r == Err::<ServerAction, GraphError>(GraphError::NodeNotFound(input_node))
                    } else {
                        r matches Ok(ServerAction::DestroyLinks { links }) && links@ == old(self).links@.filter(
                            crate::links::is_between(output_node, input_node),
                        ).map_values(|l: crate::model::Link| l.id)
                    }
                },
                PwCommand::SetDefaultSink { node_id } => if !node_in(old(self).nodes@, node_id) {
                    r == Err::<ServerAction, GraphError>(GraphError::NodeNotFound(node_id)) && *final(self) == *old(self)
                } else if old(self).nodes@[crate::nodes::node_index(old(self).nodes@, node_id)].node_type != crate::model::NodeType::AudioSink {
                    r == Err::<ServerAction, GraphError>(GraphError::NotASink(node_id)) && *final(self) == *old(self)
                } else {
                    r matches Ok(ServerAction::DefaultMetadata { writes }) && crate::nodes::default_set(
                        *old(self),
                        *final(self),
                        node_id,
                        crate::model::NodeType::AudioSink,
                        writes@,
                    )
                },
                PwCommand::SetDefaultSource { node_id } => if !node_in(old(self).nodes@, node_id) {
                    r == Err::<ServerAction, GraphError>(GraphError::NodeNotFound(node_id)) && *final(self) == *old(self)
                } else if old(self).nodes@[crate::nodes::node_index(old(self).nodes@, node_id)].node_type != crate::model::NodeType::AudioSource {
                    r == Err::<ServerAction, GraphError>(GraphError::NotASource(node_id)) && *final(self) == *old(self)
                } else {
                    r matches Ok(ServerAction::DefaultMetadata { writes }) && crate::nodes::default_set(
                        *old(self),
                        *final(self),
                        node_id,
                        crate::model::NodeType::AudioSource,
                        writes@,
                    )
                },
                PwCommand::SwitchDeviceProfile { device_id, profile_index } => {
                    &&& *final(self) == *old(self)
                    &&& match old(self).switch_device_profile_spec(device_id, profile_index) {
                        Ok(()) => r matches Ok(ServerAction::Profile { device_id: d, profile_index: p }) && d == device_id && p == profile_index,
                        Err(e) => r == Err::<ServerAction, GraphError>(e),
                    }
                },
                PwCommand::SwitchDeviceProfileWithRestoration { device_id, profile_index } => match old(self).switch_device_profile_spec(device_id, profile_index) {
                    Ok(()) => r matches Ok(ServerAction::Profile { device_id: d, profile_index: p }) && d == device_id && p == profile_index,
                    Err(e) => r == Err::<ServerAction, GraphError>(e),
                },
                PwCommand::SetDeviceVolume { device_id, volume, direction } => {
                    &&& *final(self) == *old(self)
                    &&& match crate::devices::route_target(*old(self), device_id, direction) {
                        Err(e) => r == Err::<ServerAction, GraphError>(e),
                        Ok((index, dev)) => r matches Ok(ServerAction::Route { device_id: d, command }) && d == device_id && command
                            == (RouteCommand {
                            route_index: index,
                            route_device: dev,
                            raw_volume: Some(crate::volume::inverse_cubic(if volume > crate::volume::VOLUME_UNIT {
                                crate::volume::VOLUME_UNIT as int
                            } else {
                                volume as int
                            }) as u64),
                            mute: None,
                        }),
                    }
                },
                PwCommand::SetDeviceMute { device_id, mute, direction } => {
                    &&& *final(self) == *old(self)
                    &&& match crate::devices::route_target(*old(self), device_id, direction) {
                        Err(e) => r == Err::<ServerAction, GraphError>(e),
                        Ok((index, dev)) => r matches Ok(ServerAction::Route { device_id: d, command }) && d == device_id && command
                            == (RouteCommand { route_index: index, route_device: dev, raw_volume: None, mute: Some(mute) }),
                    }
                },
                PwCommand::SetSampleRate { sample_rate } => {
                    &&& *final(self) == (Store { default_clock_rate: sample_rate, ..*old(self) })
                    &&& if old(self).metadata_manager.settings_available {
                        r matches Ok(ServerAction::SettingsMetadata { writes }) && crate::metadata::rate_writes(writes@, sample_rate)
                    } else {
                        r == Err::<ServerAction, GraphError>(GraphError::MetadataUnavailable)
                    }
                },
                PwCommand::Exit => r matches Ok(ServerAction::Exit) && *final(self) == *old(self),
            },
    {
        match command {
            PwCommand::SetNodeVolume { node_id, volume } => match self.set_node_volume(node_id, volume) {
                Ok(v) => Ok(ServerAction::NodeVolume { node_id, volume: v }),
                Err(e) => Err(e),
            },
            PwCommand::SetNodeMute { node_id, mute } => match self.set_node_mute(node_id, mute) {
                Ok(()) => Ok(ServerAction::NodeMute { node_id, mute }),
                Err(e) => Err(e),
            },
            PwCommand::CreateLink { output_node, input_node } => match self.create_link(output_node, input_node) {
                Ok(pairs) => Ok(ServerAction::CreateLinks { output_node, input_node, pairs }),
                Err(e) => Err(e),
            },
            PwCommand::RemoveLink { output_node, input_node } => match self.remove_link(output_node, input_node) {
                Ok(links) => Ok(ServerAction::DestroyLinks { links }),
                Err(e) => Err(e),
            },
            PwCommand::SetDefaultSink { node_id } => match self.set_default_sink(node_id) {
                Ok(writes) => Ok(ServerAction::DefaultMetadata { writes }),
                Err(e) => Err(e),
            },
            PwCommand::SetDefaultSource { node_id } => match self.set_default_source(node_id) {
                Ok(writes) => Ok(ServerAction::DefaultMetadata { writes }),
                Err(e) => Err(e),
            },
            PwCommand::SwitchDeviceProfile { device_id, profile_index } => match self.switch_device_profile(device_id, profile_index) {
                Ok(()) => Ok(ServerAction::Profile { device_id, profile_index }),
                Err(e) => Err(e),
            },
            PwCommand::SwitchDeviceProfileWithRestoration { device_id, profile_index } => match self.switch_device_profile_with_restoration(device_id, profile_index, now) {
                Ok(()) => Ok(ServerAction::Profile { device_id, profile_index }),
                Err(e) => Err(e),
            },
            PwCommand::SetDeviceVolume { device_id, volume, direction } => match self.set_device_volume(device_id, volume, direction) {
                Ok(command) => Ok(ServerAction::Route { device_id, command }),
                Err(e) => Err(e),
            },
            PwCommand::SetDeviceMute { device_id, mute, direction } => match self.set_device_mute(device_id, mute, direction) {
                Ok(command) => Ok(ServerAction::Route { device_id, command }),
                Err(e) => Err(e),
            },
            PwCommand::SetSampleRate { sample_rate } => match self.set_sample_rate(sample_rate) {
                Ok(writes) => Ok(ServerAction::SettingsMetadata { writes }),
                Err(e) => Err(e),
            },
            PwCommand::Exit => Ok(ServerAction::Exit),
        }
    }

    /// Shutdown: every collection is emptied.
    pub fn clear(&mut self)
        ensures
            final(self).wf() <== old(self).wf(),
            final(self).nodes@.len() == 0 && final(self).devices@.len() == 0,
            final(self).ports@.len() == 0 && final(self).links@.len() == 0,
    {
        self.nodes.clear();
        self.devices.clear();
        self.ports.clear();
        self.links.clear();
    }
}

} // verus!
