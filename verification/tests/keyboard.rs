use supervisor::capabilities::keyboard::layout::{
    parse_hyprland_devices, CompositorLink, HyprlandLink, LayoutSink, LayoutSwitch, NiriEvent, NiriLink,
};
use supervisor::capabilities::keyboard::KeyboardState;

fn sink() -> LayoutSink {
    LayoutSink { state: KeyboardState::default(), listening: false }
}

#[test]
fn parse_hyprland_devices_reads_the_first_keyboards_entry() {
    let json = r#"{"mice":[],"keyboards":[{"active_keymap":"Arabic (Egypt)","layout":"us,ara","active_layout_index":1}],"tablets":[]}"#;
    let keyboard = parse_hyprland_devices(json).expect("should parse");
    assert_eq!(keyboard.active_keymap, "Arabic (Egypt)");
    assert_eq!(keyboard.active_layout_index, 1);
}

#[test]
fn parse_hyprland_devices_prefers_the_main_keyboard_over_array_order() {
    // `main` moves to whichever keyboard was typed on last, so array order names the wrong one.
    let json = r#"{"keyboards":[
        {"active_keymap":"English (US)","layout":"us,ara","active_layout_index":0,"main":false},
        {"active_keymap":"Arabic (Egypt)","layout":"us,ara","active_layout_index":1,"main":true}
    ]}"#;
    let keyboard = parse_hyprland_devices(json).expect("should parse");
    assert_eq!(keyboard.active_layout_index, 1);
}

#[test]
fn parse_hyprland_devices_is_none_when_keyboards_is_empty() {
    let json = r#"{"keyboards":[]}"#;
    assert!(parse_hyprland_devices(json).is_none());
}

#[test]
fn parse_hyprland_devices_is_none_for_malformed_json() {
    assert!(parse_hyprland_devices("not json").is_none());
}

#[test]
fn parse_hyprland_devices_defaults_the_index_when_hyprland_omits_it() {
    let json = r#"{"keyboards":[{"active_keymap":"English (US)","layout":"us"}]}"#;
    assert_eq!(parse_hyprland_devices(json).expect("should parse").active_layout_index, 0);
}

#[test]
fn a_keyboard_entry_survives_an_index_hyprland_sends_in_an_unexpected_shape() {
    // `#[serde(default)]` covers an absent key only; a null or negative value must not fail
    // the whole entry and leave `KeyboardState` with no layout at all.
    for index in ["null", "-1", "1.5", "\"1\""] {
        let json = format!(
            r#"{{"keyboards":[{{"active_keymap":"English (US)","layout":"us,ara","active_layout_index":{index}}}]}}"#
        );
        let keyboard = parse_hyprland_devices(&json).unwrap_or_else(|| panic!("{index} dropped the entry"));
        assert_eq!(keyboard.active_layout_index, 0, "{index}");
        assert_eq!(keyboard.active_keymap, "English (US)", "{index}");
    }
}

#[test]
fn parse_hyprland_devices_skips_a_keyboard_whose_keymap_hyprland_left_unresolved() {
    // `wtype` registers a virtual keyboard that takes `main` for the keystrokes it injects.
    let json = r#"{"keyboards":[
        {"active_keymap":"Arabic (Egypt)","layout":"us,ara","active_layout_index":1,"main":false},
        {"active_keymap":"none","layout":"us,ara","active_layout_index":0,"main":true}
    ]}"#;
    assert_eq!(parse_hyprland_devices(json).expect("should parse").active_keymap, "Arabic (Egypt)");

    let json = r#"{"keyboards":[{"active_keymap":"error","layout":"us,ara","main":true}]}"#;
    assert!(parse_hyprland_devices(json).is_none(), "the last good layout stands instead");
}

#[test]
fn apply_hyprland_layout_counts_the_configured_layouts_and_keeps_the_reported_index() {
    let json = r#"{"keyboards":[{"active_keymap":"Arabic (Egypt)","layout":"us,ara","active_layout_index":1,"main":true}]}"#;
    let mut sink = sink();
    sink.apply_hyprland(parse_hyprland_devices(json).expect("should parse"));
    assert_eq!(
        (sink.state.active_layout.as_str(), sink.state.active_layout_index, sink.state.layout_count),
        ("Arabic (Egypt)", 1, 2)
    );
}

#[test]
fn a_niri_switch_names_its_layout_from_the_last_list_and_signals_once_keyboard_listens() {
    let mut sink = sink();
    let mut names = Vec::new();
    let layouts = NiriEvent::LayoutsChanged {
        names: vec!["English (US)".to_string(), "Arabic".to_string()],
        current_idx: 0,
    };
    assert_eq!(sink.apply_niri(&mut names, layouts), Some(false), "the write before `keyboard` started sent nothing");

    sink.listening = true;
    assert_eq!(sink.apply_niri(&mut names, NiriEvent::LayoutSwitched { idx: 1 }), Some(true));
    assert_eq!(sink.apply_niri(&mut names, NiriEvent::Other), None);

    assert_eq!(
        (sink.state.active_layout.as_str(), sink.state.active_layout_index, sink.state.layout_count),
        ("Arabic", 1, 2)
    );
}

#[test]
fn niri_switch_layout_index_validation_accepts_the_full_u8_range() {
    assert_eq!(NiriLink.switch_layout(0usize), LayoutSwitch::Niri(0));
    assert_eq!(NiriLink.switch_layout(255usize), LayoutSwitch::Niri(255));
    assert_eq!(u8::try_from(0usize), Ok(0));
    assert_eq!(u8::try_from(255usize), Ok(255));
}

#[test]
fn niri_switch_layout_index_validation_rejects_values_that_would_truncate() {
    assert_eq!(NiriLink.switch_layout(256usize), LayoutSwitch::Ignored);
    assert_eq!(NiriLink.switch_layout(usize::MAX), LayoutSwitch::Ignored);
    assert!(u8::try_from(256usize).is_err());
    assert!(u8::try_from(usize::MAX).is_err());
}

#[test]
fn hyprland_switches_the_main_keyboard_through_its_command_socket() {
    let link = HyprlandLink::new("/run/user/1000/hypr/x/.socket.sock".to_string());
    assert_eq!(
        link.switch_layout(300),
        LayoutSwitch::Hyprland {
            socket: "/run/user/1000/hypr/x/.socket.sock".to_string(),
            command: "switchxkblayout main 300".to_string(),
        }
    );
}

#[test]
fn an_unreadable_hyprland_reply_keeps_the_last_layout() {
    let mut sink = LayoutSink { state: KeyboardState::default(), listening: true };
    let reply = r#"{"keyboards":[{"active_keymap":"English (US)","layout":"us","main":true}]}"#;
    assert_eq!(sink.read_hyprland(&Ok(reply.to_string())), Some(true));
    assert_eq!(sink.read_hyprland(&Ok("not json".to_string())), None);
    assert_eq!(sink.read_hyprland(&Err("refused".to_string())), None);
    assert_eq!(sink.state.active_layout, "English (US)");
}
