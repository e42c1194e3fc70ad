use supervisor::capabilities::tray::controller::{
    adoptable, adoption_step, is_item_bus_name, refetches, AdoptionStep, ItemEntry, TrayCall, TrayController,
};
use supervisor::capabilities::tray::item::{
    flatten_tooltip, item_id, resolve_display_name, resolve_variant, spooled, tray_item_base, variant_suffixes, IconSource,
    ItemProperties, Resolved, TrayItem, Variant,
};

#[test]
fn an_item_name_is_recognized_in_both_spellings() {
    assert!(is_item_bus_name("org.kde.StatusNotifierItem-1240273-1"));
    assert!(is_item_bus_name("org.freedesktop.StatusNotifierItem-1240273-1"));
}

#[test]
fn the_watcher_is_not_an_item() {
    // This Supervisor's own name; adopting it would register the watcher as an icon.
    assert!(!is_item_bus_name("org.kde.StatusNotifierWatcher"));
    assert!(!is_item_bus_name("org.kde.StatusNotifierHost-1234"));
}

#[test]
fn a_name_that_only_starts_the_same_way_is_not_an_item() {
    // The trailing `-` excludes these prefix-only names.
    assert!(!is_item_bus_name("org.kde.StatusNotifierItemRegistry"));
    assert!(!is_item_bus_name("org.kde.StatusNotifierItem"));
    assert!(!is_item_bus_name("com.example.org.kde.StatusNotifierItem-1-1"));
}

#[test]
fn resolve_display_name_prefers_title() {
    assert_eq!(resolve_display_name("Discord", "discord"), "Discord");
}

#[test]
fn resolve_display_name_falls_back_to_id_when_title_is_empty() {
    assert_eq!(resolve_display_name("", "discord"), "discord");
}

#[test]
fn flatten_tooltip_is_none_when_both_are_empty() {
    assert_eq!(flatten_tooltip("", ""), None);
}

#[test]
fn flatten_tooltip_uses_title_alone() {
    assert_eq!(flatten_tooltip("Battery", ""), Some("Battery".to_string()));
}

#[test]
fn flatten_tooltip_uses_text_alone() {
    assert_eq!(flatten_tooltip("", "80% charged"), Some("80% charged".to_string()));
}

#[test]
fn flatten_tooltip_joins_title_and_text() {
    assert_eq!(flatten_tooltip("Battery", "80% charged"), Some("Battery\n80% charged".to_string()));
}

#[test]
fn unchanged_pixels_reuse_the_spooled_png_instead_of_encoding_again() {
    let digest = 0xfeed;
    assert_eq!(
        resolve_variant(IconSource::Pixmap, Some(digest), Some(("/spool/stem.png", digest))),
        Resolved::Known(Variant { name: None, path: Some("/spool/stem.png".to_string()), digest: Some(digest) })
    );
    assert_eq!(
        resolve_variant(IconSource::Pixmap, Some(1), Some(("/spool/stem.png", digest))),
        Resolved::Spool { digest: 1 }
    );
    assert_eq!(spooled(1, Ok("/spool/stem.png".to_string())).path.as_deref(), Some("/spool/stem.png"));
    assert_eq!(spooled(1, Err("disk full".to_string())), Variant { name: None, path: None, digest: None });
}

#[test]
fn a_theme_name_needs_no_pixels() {
    assert_eq!(
        resolve_variant(IconSource::Name("discord".to_string()), Some(1), None),
        Resolved::Known(Variant { name: Some("discord".to_string()), path: None, digest: None })
    );
    assert_eq!(
        resolve_variant(IconSource::ThemePathFile("/opt/app/icon.png".to_string()), None, None),
        Resolved::Known(Variant { name: None, path: Some("/opt/app/icon.png".to_string()), digest: None })
    );
    assert_eq!(
        resolve_variant(IconSource::Absent, None, None),
        Resolved::Known(Variant { name: None, path: None, digest: None })
    );
    let (base, attention, overlay) = variant_suffixes();
    assert_eq!(base, "");
    assert_ne!(attention, overlay);
}

/// An item that is on the bus before the shell has no registration argument to read.
#[test]
fn adoption_finds_an_item_that_exports_only_the_chromium_path() {
    assert_eq!(adoption_step("/StatusNotifierItem", &vec![]), AdoptionStep::Try("/StatusNotifierItem".to_string()));
    assert_eq!(
        adoption_step("/StatusNotifierItem", &vec!["no such object"]),
        AdoptionStep::Try("/StatusNotifierItem/1".to_string())
    );
    assert_eq!(
        adoption_step("/StatusNotifierItem", &vec!["a", "b"]),
        AdoptionStep::Try("/org/chromium/StatusNotifierItem/1".to_string())
    );
    assert_eq!(
        adoption_step("/StatusNotifierItem", &vec!["a", "b", "c"]),
        AdoptionStep::GiveUp("a; b; c".to_string())
    );
    let names = vec!["org.kde.StatusNotifierWatcher".to_string(), "org.kde.StatusNotifierItem-1-1".to_string()];
    assert_eq!(adoptable(&names), vec!["org.kde.StatusNotifierItem-1-1".to_string()]);
}

fn nothing() -> Variant {
    Variant { name: None, path: None, digest: None }
}

fn item(id: &str, properties: ItemProperties) -> TrayItem<u32> {
    tray_item_base(id.to_string(), properties, 8, nothing(), nothing(), nothing())
}

#[test]
fn an_items_icon_names_are_capped_and_its_paths_are_not() {
    let named = |name: &str| Variant { name: Some(name.to_string()), path: None, digest: None };
    let spooled = Variant { name: None, path: Some("/run/icon.png".to_string()), digest: Some(7) };
    let none = ItemProperties { id: None, title: None, status: None, item_is_menu: None, tooltip: None };
    let built: TrayItem<u32> = tray_item_base("1.2/x".to_string(), none, 3, named("discord"), spooled, named("ab\u{e9}"));
    assert_eq!(built.icon_name.as_deref(), Some("dis"));
    assert_eq!(built.attention_icon_name, None);
    assert_eq!(built.attention_icon_path.as_deref(), Some("/run/icon.png"));
    assert_eq!(built.overlay_icon_name.as_deref(), Some("ab"), "a character is not split");
}

#[test]
fn an_items_id_is_its_bus_name_without_the_colon_and_its_path() {
    assert_eq!(item_id(":1.234", "/StatusNotifierItem"), "1.234/StatusNotifierItem");
    assert_eq!(item_id("org.kde.item", "/x"), "org.kde.item/x");
}

#[test]
fn an_items_texts_are_capped_and_defaulted() {
    let built = item(
        "1.2/StatusNotifierItem",
        ItemProperties {
            id: Some("discord".to_string()),
            title: Some("a long title".to_string()),
            status: None,
            item_is_menu: None,
            tooltip: Some(("Battery".to_string(), String::new())),
        },
    );
    assert_eq!(built.id, "1.2/StatusNotifierItem");
    assert_eq!(built.name, "a long t");
    assert_eq!(built.tooltip.as_deref(), Some("Battery"));
    assert!(!built.item_is_menu);
    assert_eq!(built.menu, None);
}

#[test]
fn a_call_reaches_the_item_with_its_id_and_a_menu_call_needs_a_menu() {
    let empty = || ItemProperties { id: None, title: None, status: None, item_is_menu: None, tooltip: None };
    let mut controller: TrayController<u32> = TrayController::inert();
    assert_eq!(controller.activate("a", 1, 2), TrayCall::Nothing);
    controller.register(ItemEntry { last_known: item("a", empty()), has_menu: false });
    controller.register(ItemEntry { last_known: item("b", empty()), has_menu: true });
    assert_eq!(controller.activate("a", 1, 2), TrayCall::Activate { x: 1, y: 2 });
    assert_eq!(controller.secondary_activate("b", 3, 4), TrayCall::SecondaryActivate { x: 3, y: 4 });
    assert_eq!(
        controller.scroll("a", -1, "vertical"),
        TrayCall::Scroll { delta: -1, orientation: "vertical".to_string() }
    );
    assert_eq!(controller.activate_menu_item("a", 7), TrayCall::Nothing);
    assert_eq!(controller.activate_menu_item("b", 7), TrayCall::MenuEvent { menu_item_id: 7 });
    assert_eq!(controller.menu_will_show("b", 7), TrayCall::AboutToShow { submenu_id: 7 });
    assert!(controller.menu_fetched("b", Ok(vec![1, 2])));
    assert!(!controller.menu_fetched("b", Err("gone".to_string())));
    assert!(controller.menu_fetched("c", Ok(vec![])), "a menu that was read is pushed, whoever is left");
    assert_eq!(controller.build_state()[1].last_known.menu, Some(vec![1, 2]));
    assert!(refetches(&Ok(true)));
    assert!(!refetches(&Ok(false)));
    assert!(refetches(&Err("no such method".to_string())));
}
