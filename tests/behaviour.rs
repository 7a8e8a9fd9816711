use pwmenu::devices::{PropsParam, RouteCommand, RouteParam};
use pwmenu::engine::{data_wait_step, profile_confirm_step, DataWait, ProfileWait, PwCommand, ServerAction};
use pwmenu::icons::{DeviceInfo, IconDefinition, Icons};
use pwmenu::metadata::{is_default_audio_key, MetadataManager};
use pwmenu::model::{GraphError, NodeType, Volume};
use pwmenu::nodes::{ParamProp, PropKey};
use pwmenu::ports::{map_ports, PortKey};
use pwmenu::registry::{DeviceProps, NodeProps, ObjectKind, PortProps};
use pwmenu::restoration::{DefaultRestoration, RestorationManager};
use pwmenu::store::Store;
use pwmenu::volume::{ParamValue, RouteDirection, VolumeResolver};

fn key(id: u32, ch: &str) -> PortKey {
    PortKey { id, channel: ch.to_string() }
}

fn s(v: &str) -> Option<String> {
    Some(v.to_string())
}

fn node(store: &mut Store, id: u32, name: &str, class: &str, device: Option<u32>) {
    let props = NodeProps {
        name: s(name),
        nick: None,
        description: None,
        application_name: None,
        media_class: s(class),
        device_id: device.map(|d| d.to_string()),
        media_name: None,
    };
    store.add_object(id, ObjectKind::Node(props)).unwrap();
}

fn device(store: &mut Store, id: u32, name: &str, class: Option<&str>) {
    let props = DeviceProps { name: s(name), nick: None, description: None, media_class: class.map(|c| c.to_string()) };
    store.add_object(id, ObjectKind::Device(props)).unwrap();
}

#[test]
fn cubic_scaling_values() {
    assert_eq!(VolumeResolver::apply_cubic_scaling(0), 0);
    assert_eq!(VolumeResolver::apply_cubic_scaling(1_000_000), 1_000_000);
    assert_eq!(VolumeResolver::apply_cubic_scaling(125_000), 500_000);
    assert_eq!(VolumeResolver::apply_cubic_scaling(8_000_000), 2_000_000);
    assert_eq!(VolumeResolver::apply_inverse_cubic_scaling(500_000), 125_000);
    assert_eq!(VolumeResolver::apply_inverse_cubic_scaling(0), 0);
    assert_eq!(VolumeResolver::apply_inverse_cubic_scaling(2_000_000), 8_000_000);
}

#[test]
fn cubic_round_trip_within_tolerance() {
    for r in [1u32, 7, 999, 27_000, 333_333, 500_000, 640_000, 999_999, 1_000_000] {
        let back = VolumeResolver::apply_inverse_cubic_scaling(VolumeResolver::apply_cubic_scaling(r));
        assert!(back <= r as u64 && r as u64 - back <= 4, "r = {}", r);
    }
}

#[test]
fn route_volume_wins() {
    let r = VolumeResolver::resolve_effective_volume(Some(300_000), Some(false), 800_000, true, true);
    assert_eq!(r, (300_000, false));
    let r = VolumeResolver::resolve_effective_volume(Some(300_000), None, 800_000, true, true);
    assert_eq!(r, (800_000, true));
    let r = VolumeResolver::resolve_effective_volume(Some(300_000), Some(false), 800_000, true, false);
    assert_eq!(r, (800_000, true));
}

#[test]
fn neutral_sources_fall_through() {
    let r = VolumeResolver::resolve_volume(Some((1_000_000, false)), Some((400_000, true)), (800_000, false), true);
    assert_eq!(r, (400_000, true));
    let r = VolumeResolver::resolve_volume(Some((1_000_000, false)), Some((1_000_000, false)), (800_000, false), true);
    assert_eq!(r, (800_000, false));
    let r = VolumeResolver::resolve_volume(Some((300_000, false)), None, (800_000, true), true);
    assert_eq!(r, (300_000, false));
}

#[test]
fn channel_volume_extraction() {
    assert_eq!(VolumeResolver::extract_channel_volume(&ParamValue::FloatArray(vec![5, 6])), Some(5));
    assert_eq!(VolumeResolver::extract_channel_volume(&ParamValue::FloatArray(vec![])), None);
    assert_eq!(VolumeResolver::extract_channel_volume(&ParamValue::Float(9)), Some(9));
    assert_eq!(VolumeResolver::extract_channel_volume(&ParamValue::Bool(true)), None);
}

#[test]
fn volume_percent_and_clamp() {
    assert_eq!(Volume::new(3_000_000, false).linear, 2_000_000);
    assert_eq!(Volume::new(455_000, true).percent(), 46);
    assert_eq!(Volume::new(2_000_000, true).percent(), 200);
}

#[test]
fn mapper_fans_out_single_output() {
    let pairs = map_ports(&vec![key(1, "MONO")], &vec![key(10, "FL"), key(11, "FR"), key(12, "RL")]);
    assert_eq!(pairs, vec![(1, 10), (1, 11), (1, 12)]);
}

#[test]
fn mapper_matches_labels() {
    let pairs = map_ports(&vec![key(1, "FL"), key(2, "FR")], &vec![key(10, "FR"), key(11, "FL")]);
    assert_eq!(pairs, vec![(1, 11), (2, 10)]);
}

#[test]
fn mapper_falls_back_to_position() {
    let pairs = map_ports(&vec![key(1, "unknown"), key(2, "")], &vec![key(10, "unknown"), key(11, "X")]);
    assert_eq!(pairs, vec![(1, 10), (2, 11)]);
    let pairs = map_ports(&vec![key(1, "FL"), key(2, "AUX")], &vec![key(10, "FL"), key(11, "FR")]);
    assert_eq!(pairs, vec![(1, 10), (2, 11)]);
    assert!(map_ports(&vec![], &vec![key(10, "FL")]).is_empty());
}

#[test]
fn create_link_plans_new_pairs() {
    let mut st = Store::new();
    node(&mut st, 1, "src", "Stream/Output/Audio", None);
    node(&mut st, 2, "dst", "Audio/Sink", None);
    for (id, n, d, c) in [(11, 1, "out", "FL"), (12, 1, "out", "FR"), (21, 2, "in", "FR"), (22, 2, "in", "FL")] {
        let props = PortProps { name: None, node_id: Some(n.to_string()), direction: s(d), channel: s(c) };
        st.add_object(id, ObjectKind::Port(props)).unwrap();
    }
    assert_eq!(st.create_link(1, 2).unwrap(), vec![(11, 22), (12, 21)]);
    assert_eq!(st.create_link(2, 1), Err(GraphError::NoOutputPorts(2)));
    assert_eq!(st.create_link(1, 9), Err(GraphError::NodeNotFound(9)));
    let props = pwmenu::registry::LinkProps { output_port: s("11"), input_port: s("22"), output_node: s("1"), input_node: s("2") };
    st.add_link(40, props).unwrap();
    let props = pwmenu::registry::LinkProps { output_port: s("12"), input_port: s("21"), output_node: s("1"), input_node: s("2") };
    st.add_link(41, props).unwrap();
    assert_eq!(st.create_link(1, 2), Err(GraphError::NoNewLinks(1, 2)));
    assert_eq!(st.remove_link(1, 2).unwrap(), vec![40, 41]);
    assert_eq!(st.links.len(), 2);
    st.remove_object(40);
    st.remove_object(41);
    assert!(st.links.is_empty());
    assert!(st.ports.iter().all(|p| p.links.is_empty()));
}

#[test]
fn restoration_completes_when_new_sink_appears() {
    let mut st = Store::new();
    device(&mut st, 1, "alsa_card.usb-Focusrite", Some("Audio/Device/Sink"));
    node(&mut st, 5, "old-sink", "Audio/Sink", Some(1));
    st.set_default_sink(5).unwrap();
    assert!(RestorationManager::is_usb_device("alsa_card.usb-Focusrite"));
    assert!(!RestorationManager::is_usb_device("alsa_card.pci-0000"));
    let plan = RestorationManager::should_capture_defaults(&st, 1).unwrap();
    assert_eq!(plan, ("alsa_card.usb-Focusrite".to_string(), true, false));
    st.restoration_manager.capture_defaults(1, plan.0, plan.1, plan.2, 3, 100);
    st.remove_object(5);
    let (due, done) = st.restoration_manager.get_pending_restorations(&st, 101);
    assert!(due.is_empty() && done.is_empty());
    st.handle_device_profile_list(1, pwmenu::model::Profile {
        index: 3,
        name: "pro".to_string(),
        description: "pro".to_string(),
        priority: 1,
        available: "yes".to_string(),
    })
    .unwrap();
    st.handle_device_current_profile(1, Some(3)).unwrap();
    node(&mut st, 8, "new-sink", "Audio/Sink", Some(1));
    let (due, done) = st.restoration_manager.get_pending_restorations(&st, 102);
    assert_eq!(due, vec![(8, 0)]);
    assert_eq!(done, vec!["alsa_card.usb-Focusrite".to_string()]);
    st.restoration_manager.mark_completed(&done);
    assert!(st.restoration_manager.pending.is_empty());
}

#[test]
fn restoration_dropped_after_fifty_polls() {
    let mut st = Store::new();
    device(&mut st, 1, "USB headset", Some("Audio/Device/Sink"));
    let mut mgr = RestorationManager::new();
    mgr.capture_defaults(1, "USB headset".to_string(), true, false, 2, 0);
    for _ in 0..50 {
        let (due, _) = mgr.get_pending_restorations(&st, 1);
        assert!(due.is_empty());
        mgr.update_attempts_and_cleanup(1);
    }
    assert_eq!(mgr.pending.len(), 1);
    assert_eq!(mgr.pending[0].attempts, 50);
    let (due, _) = mgr.get_pending_restorations(&st, 1);
    assert!(due.is_empty());
    mgr.update_attempts_and_cleanup(1);
    assert!(mgr.pending.is_empty());
}

#[test]
fn restoration_expires_after_timeout() {
    let r = DefaultRestoration::new(1, "x".to_string(), true, false, 0, 10);
    assert!(!r.is_expired(40));
    assert!(r.is_expired(41));
    let mut mgr = RestorationManager::new();
    mgr.capture_defaults(1, "x".to_string(), true, false, 0, 10);
    mgr.cleanup_expired(41);
    assert!(mgr.pending.is_empty());
}

#[test]
fn metadata_default_names() {
    assert!(is_default_audio_key("default.audio.sink"));
    assert!(is_default_audio_key("default.configured.audio.source"));
    assert!(!is_default_audio_key("clock.rate"));
    let mut m = MetadataManager::new();
    assert!(m.handle_default_property(0, s("default.configured.audio.sink"), s("{\"name\":\"b\"}")));
    assert_eq!(m.get_default_sink(), Some("b".to_string()));
    assert!(m.handle_default_property(0, s("default.audio.sink"), s("{\"name\":\"a\"}")));
    assert_eq!(m.get_default_sink(), Some("a".to_string()));
    assert!(m.handle_default_property(0, s("default.audio.sink"), s("not json")));
    assert_eq!(m.get_default_sink(), Some("b".to_string()));
    assert!(!m.handle_default_property(7, s("default.audio.source"), s("{\"name\":\"z\"}")));
    assert_eq!(m.get_default_source(), None);
    assert!(m.handle_default_property(0, s("default.audio.sink"), None));
    assert!(!m.handle_default_property(0, s("other"), s("1")));
}

#[test]
fn metadata_sample_rate() {
    let mut m = MetadataManager::new();
    assert_eq!(m.set_sample_rate(44100).err(), Some(GraphError::MetadataUnavailable));
    m.register_settings_metadata();
    let w = m.set_sample_rate(44100).unwrap();
    assert_eq!(w[0].key, "clock.rate");
    assert_eq!(w[1].key, "clock.force-rate");
    assert_eq!(w[0].value.as_deref(), Some("44100"));
    assert!(m.handle_settings_property(0, s("clock.rate"), s("96000")));
    assert_eq!(m.get_sample_rate(), Some(96000));
    assert!(!m.handle_settings_property(0, s("clock.quantum"), s("1024")));
    assert!(m.set_default_sink("x").is_err());
}

#[test]
fn defaults_follow_metadata_names() {
    let mut st = Store::new();
    node(&mut st, 5, " speakers ", "Audio/Sink", None);
    node(&mut st, 6, "hdmi", "Audio/Sink", None);
    st.metadata_manager.handle_default_property(0, s("default.audio.sink"), s("{\"name\":\"speakers\"}"));
    st.update_defaults_from_metadata();
    assert_eq!(st.default_sink, Some(5));
    assert!(st.nodes[0].is_default && !st.nodes[1].is_default);
    st.metadata_manager.handle_default_property(0, s("default.audio.sink"), s("{\"name\":\"hdmi\"}"));
    st.update_defaults_from_metadata();
    assert_eq!(st.default_sink, Some(6));
    assert!(!st.nodes[0].is_default && st.nodes[1].is_default);
}

#[test]
fn lone_sink_taken_when_name_unknown() {
    let mut st = Store::new();
    node(&mut st, 5, "speakers", "Audio/Sink", None);
    st.metadata_manager.handle_default_property(0, s("default.audio.sink"), s("{\"name\":\"gone\"}"));
    st.update_defaults_from_metadata();
    assert_eq!(st.default_sink, Some(5));
}

#[test]
fn route_parameters_update_device_and_nodes() {
    let mut st = Store::new();
    device(&mut st, 1, "card", Some("Audio/Device/Sink"));
    node(&mut st, 5, "speakers", "Audio/Sink", Some(1));
    let route = RouteParam { direction: Some(1), index: Some(2), device: Some(3), channel_volumes: Some(ParamValue::FloatArray(vec![27_000, 27_000])), mute: Some(true) };
    assert_eq!(st.parse_route_volume_data(1, &route), Ok(true));
    assert_eq!(st.devices[0].volume, 300_000);
    assert!(st.devices[0].muted && st.devices[0].has_route_volume);
    assert_eq!(st.devices[0].output_route.get_volume_state(), Some((300_000, true)));
    assert_eq!(st.nodes[0].volume, Volume { linear: 300_000, muted: true });
    assert_eq!(st.parse_route_volume_data(1, &route), Ok(false));
    assert_eq!(st.parse_route_volume_data(9, &route), Err(GraphError::DeviceNotFound(9)));
    let cmd = st.set_device_volume(1, 500_000, None).unwrap();
    assert_eq!(cmd, RouteCommand { route_index: 2, route_device: 3, raw_volume: Some(125_000), mute: None });
    assert_eq!(st.set_device_mute(1, false, Some(RouteDirection::Input)), Err(GraphError::NoRouteInfo(1)));
    let props = PropsParam { volume: Some(300_500), mute: None };
    assert_eq!(st.parse_device_props_volume(1, &props), Ok(false));
}

#[test]
fn node_parameters_update_volume() {
    let mut st = Store::new();
    node(&mut st, 5, "speakers", "Audio/Sink", None);
    let props = vec![
        ParamProp { key: PropKey::ChannelVolumes, value: ParamValue::FloatArray(vec![125_000]) },
        ParamProp { key: PropKey::Mute, value: ParamValue::Bool(true) },
    ];
    assert!(st.update_node_param(5, &props));
    assert_eq!(st.nodes[0].volume, Volume { linear: 500_000, muted: true });
    assert!(!st.update_node_param(5, &props));
    assert!(!st.update_node_param(9, &props));
    assert_eq!(st.set_node_volume(5, 2_500_000), Ok(2_000_000));
    assert_eq!(st.set_node_mute(9, true), Err(GraphError::NodeNotFound(9)));
}

#[test]
fn engine_decisions() {
    assert_eq!(data_wait_step(true, 5000), DataWait::Complete);
    assert_eq!(data_wait_step(false, 2001), DataWait::TimedOut);
    assert_eq!(data_wait_step(false, 100), DataWait::Wait);
    assert_eq!(profile_confirm_step(Some(2), 2, 0), ProfileWait::Confirmed);
    assert_eq!(profile_confirm_step(Some(1), 2, 20), ProfileWait::GaveUp);
    assert_eq!(profile_confirm_step(None, 2, 3), ProfileWait::Poll);
    let mut st = Store::new();
    assert!(matches!(st.execute(PwCommand::Exit, 0), Ok(ServerAction::Exit)));
    assert!(matches!(st.execute(PwCommand::SetNodeMute { node_id: 3, mute: true }, 0), Err(GraphError::NodeNotFound(3))));
    node(&mut st, 3, "n", "Audio/Sink", None);
    assert!(matches!(st.execute(PwCommand::SetNodeVolume { node_id: 3, volume: 7 }, 0), Ok(ServerAction::NodeVolume { node_id: 3, volume: 7 })));
}

#[test]
fn icons_lookup_and_format() {
    let icons = Icons::new();
    assert_eq!(icons.get_icon("output", "font"), "\u{f1120}");
    assert_eq!(icons.get_icon("monitor", "xdg"), "video-display-symbolic,monitor-symbolic");
    assert_eq!(icons.get_xdg_icon("monitor"), "video-display-symbolic");
    assert_eq!(icons.get_icon("default", "generic"), "\u{23FA}");
    assert_eq!(icons.get_icon("nope", "font"), "");
    assert_eq!(icons.get_icon("output", "other"), "");
    let items = vec![("output".to_string(), "Speakers".to_string()), ("input".to_string(), "Mic".to_string())];
    assert_eq!(icons.get_icon_text(&items, "font", 2), "\u{f1120}  Speakers\n\u{f036c}  Mic");
    assert_eq!(icons.get_icon_text(&items, "xdg", 2), "Speakers\0icon\x1faudio-speakers-symbolic\nMic\0icon\x1faudio-input-microphone-symbolic");
    assert_eq!(icons.get_icon_text(&items, "plain", 2), "Speakers\nMic");
    assert_eq!(Icons::format_with_spacing('x', 2, true), "  x");
    assert_eq!(Icons::format_with_spacing('x', 1, false), "x ");
    assert_eq!(icons.format_display_with_icon("N", "I", "generic", 1), "I N");
    assert_eq!(icons.format_display_with_icon("N", "I", "xdg", 1), "N\0icon\x1fI");
    let d = IconDefinition::with_fallbacks(None, " a-symbolic ,b");
    assert_eq!(d.single, "a-symbolic");
    let info = DeviceInfo { nick: None, form_factor: None, bus: Some("usb".to_string()), media_class: Some("Audio/Sink".to_string()), is_muted: false, node_type: NodeType::AudioSink };
    assert_eq!(icons.get_device_icon(&info, "font"), "\u{f11f0}");
    let info = DeviceInfo { nick: None, form_factor: None, bus: None, media_class: Some("Audio/Source/Virtual".to_string()), is_muted: false, node_type: NodeType::AudioSource };
    assert_eq!(icons.get_device_icon(&info, "xdg"), "applications-multimedia-symbolic");
    let info = DeviceInfo { nick: None, form_factor: None, bus: None, media_class: None, is_muted: false, node_type: NodeType::AudioSource };
    assert_eq!(icons.get_device_icon(&info, "xdg"), "audio-input-microphone-symbolic");
}

#[test]
fn neutral_route_state_falls_back_to_node() {
    let r = VolumeResolver::resolve_effective_volume(Some(1_000_000), Some(false), 800_000, true, true);
    assert_eq!(r, (800_000, true));
}

#[test]
fn icon_tables_hold_expected_entries() {
    let icons = Icons::new();
    assert_eq!(icons.get_xdg_icon("car"), "bluetooth-symbolic");
    assert_eq!(icons.get_icon("usb", "xdg"), "media-removable-symbolic,drive-removable-media-usb-symbolic");
}

#[test]
fn already_default_sink_keeps_its_flag() {
    let mut st = Store::new();
    node(&mut st, 5, "a", "Audio/Sink", None);
    st.set_default_sink(5).unwrap();
    st.nodes[0].is_default = false;
    assert!(st.set_default_sink(5).unwrap().is_empty());
    assert!(st.nodes[0].is_default);
}

#[test]
fn refresh_restores_default_and_reports_writes() {
    let mut st = Store::new();
    device(&mut st, 1, "USB dac", Some("Audio/Device/Sink"));
    node(&mut st, 5, "old", "Audio/Sink", Some(1));
    st.metadata_manager.register_default_metadata();
    st.set_default_sink(5).unwrap();
    st.switch_device_profile_with_restoration(1, 3, 0).ok();
    st.remove_object(5);
    st.handle_device_profile_list(1, pwmenu::model::Profile { index: 3, name: "p".to_string(), description: "p".to_string(), priority: 1, available: "yes".to_string() }).unwrap();
    st.handle_device_current_profile(1, Some(3)).unwrap();
    node(&mut st, 9, "new", "Audio/Sink", Some(1));
    let (graph, writes) = st.update_graph(1);
    assert_eq!(graph.default_sink, Some(9));
    assert_eq!(writes.len(), 2);
    assert_eq!(writes[0].value.as_deref(), Some("{ \"name\": \"new\" }"));
    assert!(st.restoration_manager.pending.is_empty());
}
