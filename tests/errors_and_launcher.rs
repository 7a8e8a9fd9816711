use pwmenu::launcher::{Launcher, LauncherCommand, LauncherError, LauncherType};
use pwmenu::model::GraphError;
use pwmenu::registry::{DeviceProps, NodeProps, ObjectKind, PortProps};
use pwmenu::store::Store;

fn s(v: &str) -> Option<String> {
    Some(v.to_string())
}

fn node(store: &mut Store, id: u32, class: &str, device: Option<u32>) {
    let props = NodeProps {
        name: s("n"),
        nick: None,
        description: None,
        application_name: None,
        media_class: s(class),
        device_id: device.map(|d| d.to_string()),
        media_name: None,
    };
    store.add_object(id, ObjectKind::Node(props)).unwrap();
}

#[test]
fn default_source_requires_a_source() {
    let mut st = Store::new();
    node(&mut st, 4, "Audio/Sink", None);
    assert_eq!(st.set_default_source(4).err(), Some(GraphError::NotASource(4)));
}

#[test]
fn link_needs_input_ports() {
    let mut st = Store::new();
    node(&mut st, 1, "Audio/Source", None);
    node(&mut st, 2, "Audio/Sink", None);
    let props = PortProps { name: None, node_id: s("1"), direction: s("out"), channel: s("FL") };
    st.add_object(10, ObjectKind::Port(props)).unwrap();
    assert_eq!(st.create_link(1, 2), Err(GraphError::NoInputPorts(2)));
    assert_eq!(st.remove_link(1, 3), Err(GraphError::NodeNotFound(3)));
}

#[test]
fn device_of_unknown_type_has_no_route() {
    let mut st = Store::new();
    let props = DeviceProps { name: None, nick: s("nick"), description: s("desc"), media_class: None };
    st.add_object(1, ObjectKind::Device(props)).unwrap();
    assert_eq!(st.devices[0].name, "nick");
    assert_eq!(st.set_device_volume(1, 10, None), Err(GraphError::UnknownDeviceType(1)));
    assert_eq!(st.set_device_mute(2, true, None), Err(GraphError::DeviceNotFound(2)));
}

#[test]
fn launcher_commands() {
    let cmd = Launcher::create_command(&LauncherType::Fuzzel, &None, "xdg", Some("p"), Some("")).unwrap();
    match cmd {
        LauncherCommand::Fuzzel { icon_type, placeholder } => {
            assert_eq!(icon_type, "xdg");
            assert_eq!(placeholder, None);
        }
        other => panic!("unexpected {:?}", other),
    }
    let err = Launcher::create_command(&LauncherType::Custom, &None, "font", None, None);
    assert_eq!(err.err().map(|_| LauncherError::NoCustomCommand), Some(LauncherError::NoCustomCommand));
    let cmd = Launcher::create_command(&LauncherType::Custom, &Some("menu {prompt}".to_string()), "font", Some("Out"), Some("Pick")).unwrap();
    match cmd {
        LauncherCommand::Custom { command, args } => {
            assert_eq!(command, "menu {prompt}");
            assert_eq!(args, vec![("prompt".to_string(), "Out".to_string()), ("placeholder".to_string(), "Pick".to_string())]);
        }
        other => panic!("unexpected {:?}", other),
    }
    match Launcher::create_command(&LauncherType::Dmenu, &None, "font", Some("Out"), None).unwrap() {
        LauncherCommand::Dmenu { prompt } => assert_eq!(prompt.as_deref(), Some("Out")),
        other => panic!("unexpected {:?}", other),
    }
}

#[test]
fn menu_output_cleaning() {
    let menu = pwmenu::menu::Menu::new(LauncherType::Dmenu, pwmenu::icons::Icons::new());
    assert_eq!(menu.clean_menu_output("  \u{f1120}  Speakers [40%] ", "font"), "Speakers [40%]");
    assert_eq!(menu.clean_menu_output(" Speakers \0icon\x1fx ", "xdg"), "Speakers");
    assert_eq!(menu.clean_menu_output("  plain ", "none"), "plain");
}

#[test]
fn stream_media_names_and_route_capable_devices() {
    let mut st = Store::new();
    node(&mut st, 1, "Stream/Output/Audio", None);
    node(&mut st, 2, "Audio/Sink", None);
    assert!(st.update_node_media_name(1, s("song")));
    assert!(!st.update_node_media_name(1, s("song")));
    assert!(!st.update_node_media_name(2, s("song")));
    assert_eq!(st.nodes[0].media_name.as_deref(), Some("song"));
    let props = DeviceProps { name: s("card"), nick: None, description: None, media_class: s("Audio/Device/Sink") };
    st.add_object(5, ObjectKind::Device(props)).unwrap();
    assert!(st.route_capable_devices().is_empty());
    let route = pwmenu::devices::RouteParam { direction: Some(1), index: Some(0), device: Some(0), channel_volumes: None, mute: None };
    st.parse_route_volume_data(5, &route).unwrap();
    assert_eq!(st.route_capable_devices(), vec![5]);
}

#[test]
fn usb_bus_counts_for_restoration() {
    let mut st = Store::new();
    let props = DeviceProps { name: s("alsa_card.pci-0000_00"), nick: None, description: None, media_class: s("Audio/Device/Sink") };
    st.add_object(1, ObjectKind::Device(props)).unwrap();
    node(&mut st, 3, "Audio/Sink", Some(1));
    st.set_default_sink(3).unwrap();
    assert_eq!(pwmenu::restoration::RestorationManager::should_capture_defaults(&st, 1), None);
    assert!(st.set_device_hints(1, s("usb"), None));
    assert!(!st.set_device_hints(1, s("usb"), None));
    let plan = pwmenu::restoration::RestorationManager::should_capture_defaults(&st, 1);
    assert_eq!(plan, Some(("alsa_card.pci-0000_00".to_string(), true, false)));
    assert_eq!(st.switch_device_profile_with_restoration(1, 9, 5), Err(GraphError::ProfileNotFound(1, 9)));
    assert_eq!(st.restoration_manager.pending.len(), 1);
    assert_eq!(st.restoration_manager.pending[0].target_profile_index, 9);
}
