use pwmenu::graph::AudioGraph;
use pwmenu::model::{DeviceType, GraphError, NodeType, PortDirection, Profile};
use pwmenu::devices::ProfileParam;
use pwmenu::registry::{DeviceProps, LinkProps, NodeProps, ObjectKind, PortProps};
use pwmenu::store::Store;

fn s(v: &str) -> Option<String> {
    Some(v.to_string())
}

fn node(store: &mut Store, id: u32, name: &str, class: &str, device: Option<u32>) {
    let props = NodeProps {
        name: s(name),
        nick: None,
        description: None,
        application_name: None,
        media_class: s(class),
        device_id: device.map(|d| d.to_string()),
        media_name: None,
    };
    assert_eq!(store.add_object(id, ObjectKind::Node(props)), Ok(true));
}

fn port(store: &mut Store, id: u32, node_id: u32, dir: &str, channel: &str) {
    let props = PortProps { name: s("p"), node_id: Some(node_id.to_string()), direction: s(dir), channel: s(channel) };
    assert_eq!(store.add_object(id, ObjectKind::Port(props)), Ok(true));
}

fn link(store: &mut Store, id: u32, out_node: u32, out_port: u32, in_node: u32, in_port: u32) {
    let props = LinkProps {
        output_port: Some(out_port.to_string()),
        input_port: Some(in_port.to_string()),
        output_node: Some(out_node.to_string()),
        input_node: Some(in_node.to_string()),
    };
    assert_eq!(store.add_object(id, ObjectKind::Link(props)), Ok(true));
}

fn device(store: &mut Store, id: u32, name: &str, class: Option<&str>) {
    let props = DeviceProps { name: s(name), nick: None, description: None, media_class: class.map(|c| c.to_string()) };
    assert_eq!(store.add_object(id, ObjectKind::Device(props)), Ok(true));
}

fn profile(index: u32, name: &str, priority: u32, available: &str) -> Profile {
    Profile { index, name: name.to_string(), description: name.to_string(), priority, available: available.to_string() }
}

#[test]
fn port_removal_cascades_to_links() {
    let mut st = Store::new();
    node(&mut st, 10, "out", "Audio/Source", None);
    node(&mut st, 20, "in", "Audio/Sink", None);
    port(&mut st, 11, 10, "out", "FL");
    port(&mut st, 21, 20, "in", "FL");
    port(&mut st, 22, 20, "in", "FR");
    link(&mut st, 30, 10, 11, 20, 21);
    link(&mut st, 31, 10, 11, 20, 22);
    let p21 = st.ports.iter().find(|p| p.id == 21).unwrap();
    assert_eq!(p21.links, vec![30]);
    st.remove_object(11);
    assert!(st.links.is_empty());
    assert!(st.ports.iter().all(|p| p.links.is_empty()));
    assert!(st.ports.iter().all(|p| p.id != 11));
    let n10 = st.nodes.iter().find(|n| n.id == 10).unwrap();
    assert!(n10.ports.is_empty());
}

#[test]
fn link_removal_detaches_from_ports() {
    let mut st = Store::new();
    node(&mut st, 10, "out", "Audio/Source", None);
    node(&mut st, 20, "in", "Audio/Sink", None);
    port(&mut st, 11, 10, "out", "FL");
    port(&mut st, 21, 20, "in", "FL");
    link(&mut st, 30, 10, 11, 20, 21);
    st.remove_object(30);
    assert!(st.links.is_empty());
    assert!(st.ports.iter().all(|p| p.links.is_empty()));
}

#[test]
fn node_removal_clears_default_sink() {
    let mut st = Store::new();
    device(&mut st, 1, "card", Some("Audio/Device/Sink"));
    node(&mut st, 5, "speakers", "Audio/Sink", Some(1));
    assert!(st.set_default_sink(5).is_ok());
    assert_eq!(st.default_sink, Some(5));
    assert_eq!(st.devices[0].nodes, vec![5]);
    st.remove_object(5);
    assert_eq!(st.default_sink, None);
    assert!(st.devices[0].nodes.is_empty());
}

#[test]
fn node_removal_clears_default_source() {
    let mut st = Store::new();
    node(&mut st, 6, "mic", "Audio/Source", None);
    assert!(st.set_default_source(6).is_ok());
    st.remove_object(6);
    assert_eq!(st.default_source, None);
}

#[test]
fn add_port_errors() {
    let mut st = Store::new();
    let missing = PortProps { name: None, node_id: None, direction: s("in"), channel: None };
    assert_eq!(st.add_port(7, missing), Err(GraphError::MissingProperty(7)));
    let invalid = PortProps { name: None, node_id: s("x1"), direction: s("in"), channel: None };
    assert_eq!(st.add_port(7, invalid), Err(GraphError::InvalidProperty(7)));
    let dir = PortProps { name: None, node_id: s("3"), direction: s("sideways"), channel: None };
    assert_eq!(st.add_port(7, dir), Err(GraphError::InvalidDirection(7)));
    let ok = PortProps { name: None, node_id: s("+3"), direction: s("out"), channel: None };
    assert_eq!(st.add_port(7, ok), Ok(()));
    assert_eq!(st.ports[0].node_id, 3);
    assert_eq!(st.ports[0].name, "Unknown Port");
    assert_eq!(st.ports[0].channel, "unknown");
    assert_eq!(st.ports[0].direction, PortDirection::Output);
}

#[test]
fn add_link_errors() {
    let mut st = Store::new();
    let props = LinkProps { output_port: s("1"), input_port: None, output_node: s("2"), input_node: s("3") };
    assert_eq!(st.add_link(9, props), Err(GraphError::MissingProperty(9)));
    let props = LinkProps { output_port: s("1"), input_port: s("4294967296"), output_node: s("2"), input_node: s("3") };
    assert_eq!(st.add_link(9, props), Err(GraphError::InvalidProperty(9)));
    assert!(st.links.is_empty());
}

#[test]
fn node_and_device_back_references() {
    let mut st = Store::new();
    node(&mut st, 5, "speakers", "Audio/Sink", Some(1));
    device(&mut st, 1, "card", None);
    assert_eq!(st.devices[0].nodes, vec![5]);
    assert_eq!(st.devices[0].device_type, DeviceType::Unknown);
    node(&mut st, 6, "speakers2", "Audio/Sink", Some(1));
    assert_eq!(st.devices[0].nodes, vec![5, 6]);
    assert_eq!(st.devices[0].device_type, DeviceType::Sink);
    assert_eq!(st.nodes[0].node_type, NodeType::AudioSink);
    assert_eq!(st.nodes[0].volume.linear, 1_000_000);
}

#[test]
fn unknown_objects_are_ignored() {
    let mut st = Store::new();
    assert_eq!(st.add_object(3, ObjectKind::Other), Ok(false));
    assert!(st.nodes.is_empty());
}

#[test]
fn device_profiles_are_filtered_and_sorted() {
    let mut st = Store::new();
    device(&mut st, 1, "card", Some("Audio/Device/Sink"));
    assert_eq!(st.handle_device_profile_list(1, profile(0, "off", 0, "yes")), Ok(true));
    assert_eq!(st.handle_device_profile_list(1, profile(1, "low", 10, "yes")), Ok(true));
    assert_eq!(st.handle_device_profile_list(1, profile(2, "high", 90, "unknown")), Ok(true));
    assert_eq!(st.handle_device_profile_list(1, profile(3, "gone", 50, "no")), Ok(true));
    let prios: Vec<u32> = st.devices[0].profiles.iter().map(|p| p.priority).collect();
    assert_eq!(prios, vec![90, 50, 10, 0]);
    let offered = st.get_device_profiles(1);
    let names: Vec<&str> = offered.iter().map(|p| p.name.as_str()).collect();
    assert_eq!(names, vec!["high", "low"]);
    assert!(st.get_device_profiles(99).is_empty());
    assert_eq!(st.handle_device_profile_list(1, profile(1, "low", 95, "yes")), Ok(true));
    let prios: Vec<u32> = st.devices[0].profiles.iter().map(|p| p.priority).collect();
    assert_eq!(prios, vec![95, 90, 50, 0]);
    assert_eq!(st.handle_device_profile_list(9, profile(1, "x", 1, "yes")), Err(GraphError::DeviceNotFound(9)));
}

#[test]
fn profile_from_param_defaults_and_errors() {
    let p = Profile::from_param(ProfileParam { index: Some(3), name: None, description: None, priority: None, available: None }).unwrap();
    assert_eq!(p.index, 3);
    assert_eq!(p.available, "unknown");
    assert_eq!(p.priority, 0);
    let e = Profile::from_param(ProfileParam { index: Some(-1), name: None, description: None, priority: None, available: None });
    assert_eq!(e.err(), Some(GraphError::NegativeValue(-1)));
    let e = Profile::from_param(ProfileParam { index: Some(1), name: None, description: None, priority: Some(-4), available: None });
    assert_eq!(e.err(), Some(GraphError::NegativeValue(-4)));
}

#[test]
fn current_profile_and_switch() {
    let mut st = Store::new();
    device(&mut st, 1, "card", Some("Audio/Device/Sink"));
    st.handle_device_profile_list(1, profile(4, "stereo", 10, "yes")).unwrap();
    assert_eq!(st.handle_device_current_profile(1, Some(4)), Ok(true));
    assert_eq!(st.handle_device_current_profile(1, Some(4)), Ok(false));
    assert_eq!(st.handle_device_current_profile(1, Some(-2)), Err(GraphError::NegativeValue(-2)));
    assert_eq!(st.get_device_current_profile(1).unwrap().name, "stereo");
    assert_eq!(st.switch_device_profile(1, 4), Ok(()));
    assert_eq!(st.switch_device_profile(1, 7), Err(GraphError::ProfileNotFound(1, 7)));
    assert_eq!(st.switch_device_profile(2, 4), Err(GraphError::DeviceNotFound(2)));
}

#[test]
fn default_sink_requires_a_sink() {
    let mut st = Store::new();
    node(&mut st, 6, "mic", "Audio/Source", None);
    assert_eq!(st.set_default_sink(6).err(), Some(GraphError::NotASink(6)));
    assert_eq!(st.set_default_sink(8).err(), Some(GraphError::NodeNotFound(8)));
    assert_eq!(st.set_default_source(8).err(), Some(GraphError::NodeNotFound(8)));
}

#[test]
fn default_sink_moves_flags_and_writes_metadata() {
    let mut st = Store::new();
    node(&mut st, 5, "a", "Audio/Sink", None);
    node(&mut st, 6, "b", "Audio/Sink", None);
    st.metadata_manager.register_default_metadata();
    let w = st.set_default_sink(5).unwrap();
    assert_eq!(w.len(), 2);
    assert_eq!(w[0].key, "default.audio.sink");
    assert_eq!(w[1].key, "default.configured.audio.sink");
    assert_eq!(w[0].value.as_deref(), Some("{ \"name\": \"a\" }"));
    assert_eq!(w[0].value_type.as_deref(), Some("Spa:String:JSON"));
    let w = st.set_default_sink(6).unwrap();
    assert_eq!(w[0].value.as_deref(), Some("{ \"name\": \"b\" }"));
    assert!(!st.nodes[0].is_default);
    assert!(st.nodes[1].is_default);
    assert!(st.set_default_sink(6).unwrap().is_empty());
}

#[test]
fn completeness_with_lone_sink_sets_default() {
    let mut st = Store::new();
    device(&mut st, 1, "card", None);
    device(&mut st, 2, "webcam-ctl", None);
    node(&mut st, 5, "speakers", "Audio/Sink", Some(1));
    st.handle_device_profile_list(1, profile(0, "stereo", 1, "yes")).unwrap();
    st.handle_device_current_profile(1, Some(0)).unwrap();
    assert!(!st.check_data_completeness());
    assert!(st.update_node_param(5, &Vec::new()));
    assert!(st.check_data_completeness());
    assert_eq!(st.default_sink, Some(5));
    assert!(st.nodes[0].is_default);
    assert_eq!(st.devices[0].device_type, DeviceType::Sink);
}

#[test]
fn completeness_needs_profiles_of_typed_devices() {
    let mut st = Store::new();
    device(&mut st, 1, "card", Some("Audio/Device/Sink"));
    node(&mut st, 5, "speakers", "Audio/Sink", Some(1));
    st.update_node_param(5, &Vec::new());
    assert!(!st.check_data_completeness());
    assert_eq!(st.default_sink, None);
}

#[test]
fn snapshot_copies_the_store() {
    let mut st = Store::new();
    node(&mut st, 5, "speakers", "Audio/Sink", None);
    st.set_default_sink(5).unwrap();
    let g = st.to_graph();
    assert_eq!(g.nodes.len(), 1);
    assert_eq!(g.nodes[0].name, "speakers");
    assert_eq!(g.default_sink, Some(5));
    let empty = AudioGraph::new();
    assert!(empty.nodes.is_empty());
}

#[test]
fn sync_done_marks_phases() {
    let mut st = Store::new();
    st.initial_sync_seq = Some(3);
    st.params_sync_seq = Some(4);
    st.handle_sync_done(3);
    assert!(st.initial_sync_complete && !st.params_sync_complete);
    st.handle_sync_done(4);
    assert!(st.params_sync_complete);
}
