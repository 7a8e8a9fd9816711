use pwmenu::controller::{extract_display_name_from_identifier, get_application_name, VolumeTarget};
use pwmenu::model::GraphError;
use pwmenu::volume::RouteDirection;
use pwmenu::graph::AudioGraph;
use pwmenu::model::{Device, DeviceType, Node, NodeType, RouteInfo, Volume};

fn node(id: u32, name: &str, desc: Option<&str>, default: bool, device: Option<u32>) -> Node {
    Node {
        id,
        name: name.to_string(),
        nick: None,
        description: desc.map(|d| d.to_string()),
        media_class: Some("Audio/Sink".to_string()),
        application_name: None,
        node_type: NodeType::AudioSink,
        volume: Volume { linear: 800_000, muted: true },
        is_default: default,
        device_id: device,
        ports: vec![],
        media_name: None,
        has_received_params: true,
    }
}

fn device(id: u32, form_factor: Option<&str>, bus: Option<&str>) -> Device {
    Device {
        id,
        name: format!("dev{id}"),
        nick: None,
        description: Some(format!("Device {id}")),
        device_type: DeviceType::Sink,
        bus: bus.map(|b| b.to_string()),
        form_factor: form_factor.map(|f| f.to_string()),
        nodes: vec![],
        profiles: vec![],
        current_profile_index: None,
        volume: 1_000_000,
        muted: false,
        output_route: RouteInfo { index: Some(1), device: Some(2), volume: 300_000, muted: false },
        input_route: RouteInfo::new(),
        has_route_volume: true,
    }
}

#[test]
fn identifier_display_names() {
    assert_eq!(extract_display_name_from_identifier("org.mozilla.firefox"), "firefox");
    assert_eq!(extract_display_name_from_identifier("mpv"), "mpv");
    let mut n = node(1, "raw", Some("a.b"), false, None);
    assert_eq!(get_application_name(&n), "b");
    n.application_name = Some("com.spotify.Client".to_string());
    assert_eq!(get_application_name(&n), "Client");
}

#[test]
fn route_volume_shown_for_device_nodes() {
    let mut g = AudioGraph::new();
    g.devices.push(device(7, Some("headphone"), Some("usb")));
    let n = node(1, "hp", None, false, Some(7));
    let shown = g.enhance_node_volume(&n);
    assert_eq!(shown.volume, Volume { linear: 300_000, muted: false });
    let lone = node(2, "x", None, false, None);
    assert_eq!(g.enhance_node_volume(&lone).volume, Volume { linear: 800_000, muted: true });
    assert_eq!(g.get_device_name(7), "Device 7");
    assert_eq!(g.get_device_name(8), "Unknown Device");
    let info = g.get_device_info(&n);
    assert_eq!(info.bus.as_deref(), Some("usb"));
    assert_eq!(g.get_node_base_name(&n), "hp");
}

#[test]
fn nodes_sorted_for_menus() {
    let mut g = AudioGraph::new();
    g.devices.push(device(1, Some("internal"), Some("pci")));
    g.devices.push(device(2, Some("headphone"), Some("usb")));
    g.devices.push(device(3, Some("internal"), Some("usb")));
    let nodes = vec![
        node(10, "z", None, false, Some(1)),
        node(11, "b", Some("Beta"), false, Some(1)),
        node(12, "hp", None, false, Some(2)),
        node(13, "usbcard", None, false, Some(3)),
        node(14, "def", None, true, Some(1)),
        node(15, "a", Some("Alpha"), false, Some(1)),
    ];
    let sorted = g.sort_nodes_by_priority(nodes);
    let ids: Vec<u32> = sorted.iter().map(|n| n.id).collect();
    assert_eq!(ids, vec![14, 12, 13, 15, 11, 10]);
}

#[test]
fn volume_requests_prefer_routes() {
    let mut g = AudioGraph::new();
    let mut d = device(7, None, None);
    g.devices.push(d.clone());
    g.nodes.push(node(1, "hp", None, false, Some(7)));
    let mut stream = node(2, "app", None, false, Some(7));
    stream.node_type = NodeType::StreamOutputAudio;
    g.nodes.push(stream);
    assert_eq!(g.volume_target(1), Ok(VolumeTarget::Route { device_id: 7, direction: RouteDirection::Output }));
    assert_eq!(g.mute_target(1), Ok(VolumeTarget::Route { device_id: 7, direction: RouteDirection::Output }));
    assert_eq!(g.volume_target(2), Ok(VolumeTarget::Node));
    assert_eq!(g.volume_target(3), Err(GraphError::NodeNotFound(3)));
    d.output_route = RouteInfo::new();
    g.devices[0] = d;
    assert_eq!(g.mute_target(1), Ok(VolumeTarget::Node));
    assert_eq!(g.volume_target(1), Ok(VolumeTarget::Route { device_id: 7, direction: RouteDirection::Output }));
}

#[test]
fn port_numbers_among_device_nodes() {
    use_port_numbers();
}

fn port(id: u32, node_id: u32) -> pwmenu::model::Port {
    pwmenu::model::Port { id, name: "p".to_string(), node_id, direction: pwmenu::model::PortDirection::Input, channel: "FL".to_string(), links: vec![] }
}

fn use_port_numbers() {
    let mut g = AudioGraph::new();
    g.devices.push(device(7, None, None));
    g.nodes.push(node(1, "a", None, false, Some(7)));
    g.nodes.push(node(2, "b", None, false, Some(7)));
    g.nodes.push(node(3, "c", None, false, Some(8)));
    g.ports.push(port(5, 1));
    g.ports.push(port(3, 2));
    g.ports.push(port(9, 1));
    g.ports.push(port(7, 2));
    g.ports.push(port(1, 3));
    assert_eq!(g.get_node_port_number(&g.nodes[0].clone()), Some(2));
    assert_eq!(g.get_node_port_number(&g.nodes[1].clone()), Some(1));
    assert_eq!(g.get_node_port_number(&g.nodes[2].clone()), None);
}

#[test]
fn node_shows_route_state_over_node_state() {
    let mut g = AudioGraph::new();
    g.devices.push(device(7, None, None));
    g.nodes.push(node(1, "hp", None, false, Some(7)));
    let n = g.get_node(1).unwrap();
    assert_eq!(n.volume, Volume { linear: 300_000, muted: false });
    assert!(g.get_node(2).is_none());
}
