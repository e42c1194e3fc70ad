use supervisor::capabilities::notifications::actions::{declares_action, parse_actions, ParsedActions};
use supervisor::capabilities::notifications::{
    desktop_entry_from_hint, dispatch, notifications_capabilities, reply_placeholder_from_hint,
    urgency_from_hint_byte, HintValue, Hints, Notification, NotificationAction, NotificationsAction,
    NotificationsCall, NotificationsState, Urgency, MAX_ACTIONS, MAX_ACTION_LABEL_BYTES, MAX_APP_NAME_BYTES,
    MAX_BODY_BYTES, MAX_DESKTOP_ENTRY_BYTES, MAX_REPLY_PLACEHOLDER_BYTES, MAX_SUMMARY_BYTES,
};
use supervisor::capabilities::truncate_utf8_bytes;

fn keys(actions: &Vec<String>, action_icons: bool) -> Vec<String> {
    parse_actions(actions, action_icons).actions.into_iter().map(|a| a.key).collect()
}

fn flat(pairs: &[(&str, &str)]) -> Vec<String> {
    pairs.iter().flat_map(|(key, label)| [key.to_string(), label.to_string()]).collect()
}

/// `default` activates the card and `inline-reply` is a text field, so neither is a button.
#[test]
fn default_and_inline_reply_become_flags_rather_than_buttons() {
    let parsed =
        parse_actions(&flat(&[("default", "Open"), ("inline-reply", "Reply"), ("archive", "Archive")]), false);
    assert!(parsed.has_default);
    assert!(parsed.has_reply);
    assert_eq!(parsed.actions.len(), 1);
    assert_eq!(parsed.actions[0].key, "archive");
    assert_eq!(parsed.actions[0].label, "Archive");
}

#[test]
fn an_array_with_neither_key_sets_neither_flag() {
    let parsed = parse_actions(&flat(&[("archive", "Archive")]), false);
    assert!(!parsed.has_default);
    assert!(!parsed.has_reply);
    assert_eq!(parse_actions(&vec![], false), ParsedActions::default());
}

/// Senders omit labels; the usually-readable key becomes the button label.
#[test]
fn an_empty_label_falls_back_to_the_key() {
    let parsed = parse_actions(&flat(&[("archive", "")]), false);
    assert_eq!(parsed.actions[0].label, "archive");
}

/// Preserve the base spec's odd key-without-label case rather than rejecting the notification.
#[test]
fn an_odd_length_array_still_yields_its_last_action() {
    assert_eq!(keys(&vec!["archive".to_string()], false), ["archive"]);
}

/// Under `action-icons`, carry a key as a theme name unless it contains `/`; `icon` also takes
/// paths, so the separator check blocks arbitrary file access.
#[test]
fn action_icons_carries_the_key_as_an_icon_name_but_never_as_a_path() {
    let parsed = parse_actions(&flat(&[("mail-archive", "")]), true);
    assert_eq!(parsed.actions[0].icon_name.as_deref(), Some("mail-archive"));

    let parsed = parse_actions(&flat(&[("/home/anas/.ssh/id_ed25519", "Archive")]), true);
    assert_eq!(parsed.actions[0].icon_name, None, "a path must not be carried as an icon name");

    let parsed = parse_actions(&flat(&[("mail-archive", "")]), false);
    assert_eq!(parsed.actions[0].icon_name, None, "without the hint the key is not an icon");
}

/// Drop actions with neither a label nor an icon instead of making blank buttons.
#[test]
fn an_action_with_nothing_to_draw_is_dropped() {
    let parsed = parse_actions(&flat(&[("", ""), ("", "Orphan label")]), true);
    assert!(parsed.actions.is_empty(), "got {:?}", parsed.actions);
}

#[test]
fn the_action_count_and_label_length_are_both_capped() {
    let many: Vec<(String, String)> = (0..20).map(|i| (format!("k{i}"), format!("l{i}"))).collect();
    let flattened: Vec<String> = many.iter().flat_map(|(k, l)| [k.clone(), l.clone()]).collect();
    assert_eq!(parse_actions(&flattened, false).actions.len(), MAX_ACTIONS);

    let long = "x".repeat(1000);
    let parsed = parse_actions(&vec!["k".to_string(), long], false);
    assert_eq!(parsed.actions[0].label.len(), MAX_ACTION_LABEL_BYTES);
}

/// Guards `ActionInvoked` to sender-declared keys; `"default"` counts outside the button list.
#[test]
fn declares_action_covers_the_buttons_and_the_default_activation() {
    let mut notification = Notification {
        id: 1,
        timestamp: 0,
        app_name: "app".to_string(),
        summary: "s".to_string(),
        body: Vec::new(),
        image_path: None,
        app_icon: None,
        urgency: Urgency::Normal,
        expired: false,
        transient: false,
        desktop_entry: None,
        has_reply: false,
        reply_placeholder: None,
        actions: vec![NotificationAction {
            key: "archive".to_string(),
            label: "Archive".to_string(),
            icon_name: None,
        }],
        has_default_action: false,
        resident: false,
        incarnation: 0,
    };
    assert!(declares_action(&notification, "archive"));
    assert!(!declares_action(&notification, "delete"));
    assert!(!declares_action(&notification, "default"));

    notification.has_default_action = true;
    assert!(declares_action(&notification, "default"));
}

#[test]
fn app_name_summary_body_caps_match_the_spec() {
    let long = "x".repeat(1000);
    assert_eq!(truncate_utf8_bytes(&long, MAX_APP_NAME_BYTES).len(), MAX_APP_NAME_BYTES);
    assert_eq!(truncate_utf8_bytes(&long, MAX_SUMMARY_BYTES).len(), MAX_SUMMARY_BYTES);
    assert_eq!(truncate_utf8_bytes(&long, MAX_BODY_BYTES).len(), MAX_BODY_BYTES);
}

#[test]
fn urgency_from_hint_byte_maps_the_three_defined_values() {
    assert_eq!(urgency_from_hint_byte(Some(0)), Urgency::Low);
    assert_eq!(urgency_from_hint_byte(Some(1)), Urgency::Normal);
    assert_eq!(urgency_from_hint_byte(Some(2)), Urgency::Critical);
}

#[test]
fn a_desktop_entry_hint_is_carried_unless_it_is_empty_or_looks_like_a_path() {
    assert_eq!(desktop_entry_from_hint(Some("org.telegram.desktop")), Some("org.telegram.desktop".to_string()));
    assert_eq!(desktop_entry_from_hint(Some("")), None);
    assert_eq!(desktop_entry_from_hint(Some("../../etc/passwd")), None);
    assert_eq!(desktop_entry_from_hint(Some("/usr/share/applications/x.desktop")), None);
    assert_eq!(desktop_entry_from_hint(None), None);
    assert_eq!(desktop_entry_from_hint(Some(&"a".repeat(500))).unwrap().len(), MAX_DESKTOP_ENTRY_BYTES);
}

#[test]
fn a_reply_placeholder_hint_is_carried_capped_and_never_empty() {
    assert_eq!(reply_placeholder_from_hint(Some("Reply to Alice")), Some("Reply to Alice".to_string()));
    assert_eq!(reply_placeholder_from_hint(Some("")), None);
    assert_eq!(reply_placeholder_from_hint(None), None);
    assert_eq!(reply_placeholder_from_hint(Some(&"é".repeat(100))).unwrap().len(), MAX_REPLY_PLACEHOLDER_BYTES);
}

#[test]
fn urgency_from_hint_byte_defaults_to_normal_when_absent_or_malformed() {
    assert_eq!(urgency_from_hint_byte(None), Urgency::Normal);
    assert_eq!(urgency_from_hint_byte(Some(99)), Urgency::Normal);
}

/// One hint with an off-spec type must cost that hint and nothing else.
#[test]
fn a_hint_typed_against_the_spec_drops_alone_and_the_rest_of_the_dict_still_decodes() {
    let mut decoded: Hints<Vec<u8>> = Hints::none();
    decoded.read("urgency", HintValue::Byte(2));
    // `transient` is a flag; this sender says a number.
    decoded.read("transient", HintValue::Other);
    decoded.read("desktop-entry", HintValue::Text("org.telegram.desktop".to_string()));
    decoded.read("image-data", HintValue::Picture(vec![0x11, 0x22, 0x33, 0x44]));
    // Never read: the bulk shape under an unnamed key.
    decoded.read("x-vendor-thumbnail", HintValue::Picture((0..64).collect()));

    assert_eq!(decoded.urgency, Some(2), "a well-typed hint beside a malformed one still decodes");
    assert_eq!(decoded.transient, None, "a number where the spec says a flag drops that hint, not the notification");
    assert_eq!(decoded.desktop_entry.as_deref(), Some("org.telegram.desktop"));
    assert_eq!(decoded.image_data, Some(vec![0x11, 0x22, 0x33, 0x44]));
}

#[test]
fn a_repeated_hint_key_keeps_the_last_instead_of_refusing_the_dict() {
    let mut decoded: Hints<Vec<u8>> = Hints::none();
    decoded.read("urgency", HintValue::Byte(0));
    decoded.read("urgency", HintValue::Byte(2));
    // A malformed first occurrence must not poison a well-typed second one.
    decoded.read("transient", HintValue::Other);
    decoded.read("transient", HintValue::Flag(true));

    assert_eq!(decoded.urgency, Some(2), "the last value of a repeated key wins, as a map insert did");
    assert_eq!(decoded.transient, Some(true));
}

/// `image-data` outranks `image_data`, but only when it is readable.
#[test]
fn a_malformed_picture_hint_falls_through_to_the_older_spelling() {
    let mut decoded: Hints<Vec<u8>> = Hints::none();
    decoded.read("image-data", HintValue::Text("not a picture".to_string()));
    decoded.read("image_data", HintValue::Picture(vec![0x11, 0x22, 0x33, 0x44]));

    assert!(decoded.image_data.is_none());
    assert!(decoded.image_data_deprecated.is_some(), "the readable spelling is still used");
}

#[test]
fn only_what_emits_signals_on_the_bus_runs_in_a_task() {
    assert_eq!(dispatch(&NotificationsAction::Dismiss { id: 1 }), NotificationsCall::Spawned);
    assert_eq!(
        dispatch(&NotificationsAction::InvokeAction { id: 1, key: "default".into() }),
        NotificationsCall::Spawned
    );
    assert_eq!(dispatch(&NotificationsAction::Reply { id: 1, text: "ok".into() }), NotificationsCall::Spawned);
    assert_eq!(dispatch(&NotificationsAction::SetDnd { enabled: true }), NotificationsCall::Inline);
    assert_eq!(dispatch(&NotificationsAction::HoldExpiry { seconds: 3 }), NotificationsCall::Inline);
}

#[test]
fn the_server_names_what_it_can_do() {
    let list = notifications_capabilities();
    assert_eq!(list.len(), 10);
    assert!(list.contains(&"inline-reply"));
    assert_eq!(NotificationsState::default(), NotificationsState { feed: Vec::new(), dnd: false });
    assert_eq!(Urgency::default(), Urgency::Normal);
}
