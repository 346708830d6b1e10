use breadknife::tray::menu::{menu_from_layout, MenuItemKind};
use breadknife::tray::testing::{
    demo_menu_path, demo_service, icon_message, menu_add_message, menu_message, menu_remove_message,
    menu_toggle_message, parse_demo_line, pixmap_message, status_message, status_word, tooltip_message,
    DemoItemConfig, DemoLine, DemoState,
};

#[test]
fn config_defaults() {
    let c = DemoItemConfig::default();
    assert_eq!(c.item_path, "/org/tray/demo/Item");
    assert!(c.menu);
    assert_eq!(demo_menu_path("/org/tray/demo/Item"), "/org/tray/demo/Item/menu");
    assert_eq!(demo_menu_path("/a//"), "/a/menu");
    assert_eq!(demo_service(":1.4", "/x"), ":1.4/x");
}

#[test]
fn initial_state() {
    let s = DemoState::default();
    assert_eq!(s.status_prop(), "Active");
    assert_eq!(s.icon_name_prop(), "demo");
    assert!(s.icon_pixmap_prop().is_empty());
    let (icon, pixmaps, title, description) = s.tool_tip_prop();
    assert_eq!((icon.as_str(), pixmaps.len(), title.as_str(), description.as_str()), ("", 0, "Demo tooltip", "From demo-item"));
    assert_eq!(s.menu_prop("/m"), "/m");
    assert_eq!(s.menu_items.len(), 1);
    assert_eq!(s.menu_items[0].label, "About demo");
    assert!(!DemoState::with_menu(false).menu_enabled);
}

#[test]
fn messages_drive_the_state() {
    let mut s = DemoState::default();
    assert_eq!(status_word("PASSIVE"), "Passive");
    assert_eq!(status_word("needs-attention"), "NeedsAttention");
    assert_eq!(status_word("whatever"), "Active");
    assert_eq!(status_message("passive"), "status Passive");
    s.apply(&status_message("passive"));
    assert_eq!(s.status, "Passive");
    s.apply(&pixmap_message(true));
    assert_eq!(s.icon_name_prop(), "");
    s.apply(&icon_message("net"));
    assert!(!s.use_pixmap);
    assert_eq!(s.icon_name_prop(), "net");
    let added = s.apply(&menu_add_message("Hello world"));
    assert_eq!(added.added_id, 2);
    assert!(added.menu_changed);
    assert_eq!(s.menu_items[1].label, "Hello world");
    assert_eq!(menu_toggle_message(2), "menu_toggle 2");
    s.apply(&menu_toggle_message(2));
    assert!(s.menu_items[1].toggleable && s.menu_items[1].toggled);
    s.apply(&menu_toggle_message(2));
    assert!(s.menu_items[1].toggleable && !s.menu_items[1].toggled);
    s.apply(&menu_remove_message(1));
    assert_eq!(s.menu_items.len(), 1);
    assert_eq!(s.menu_items[0].id, 2);
    s.apply(&tooltip_message("T", "D"));
    assert_eq!(s.tooltip, Some(("T".to_string(), "D".to_string())));
    s.apply(&tooltip_message("", ""));
    assert_eq!(s.tooltip, None);
    let r = s.apply(&menu_message(false));
    assert!(r.menu_changed && r.added_id == -1);
    assert_eq!(s.menu_prop("/m"), "/");
    let r = s.apply("nonsense");
    assert!(!r.menu_changed);
    s.apply("menu_toggle x");
    assert_eq!(s.menu_items.len(), 1);
}

#[test]
fn bitmap_is_a_checkerboard() {
    let mut s = DemoState::default();
    s.apply("pixmap on");
    let p = s.icon_pixmap_prop();
    assert_eq!(p.len(), 1);
    let (w, h, argb) = &p[0];
    assert_eq!((*w, *h), (4, 2));
    let mut want = Vec::new();
    for y in 0..2u32 {
        for x in 0..4u32 {
            let on = (x + y) % 2 == 0;
            want.extend_from_slice(&[255, if on { 220 } else { 30 }, 30, if on { 30 } else { 220 }]);
        }
    }
    assert_eq!(argb, &want);
}

#[test]
fn host_reads_the_demo_menu_back() {
    let mut s = DemoState::default();
    s.apply("menu_add _Save");
    s.apply("menu_toggle 2");
    let (rev, layout) = s.layout();
    assert_eq!(rev, 1);
    let m = menu_from_layout(rev, &layout, 8);
    assert_eq!(m.root.len(), 2);
    assert_eq!(m.root[0].label, "About demo");
    assert_eq!(m.root[0].toggled, None);
    assert_eq!(m.root[1].label, "Save");
    assert_eq!(m.root[1].toggled, Some(true));
    assert_eq!(m.root[1].kind, MenuItemKind::Standard);
    assert!(m.root.iter().all(|e| e.enabled && e.visible && e.children.is_empty()));
}

#[test]
fn clicks_and_activations_are_recorded() {
    let mut s = DemoState::default();
    s.record_activation();
    s.record_activation();
    assert_eq!(s.activations, 2);
    s.record_event(4, "hovered");
    assert_eq!(s.last_click, None);
    s.record_event(4, "clicked");
    assert_eq!(s.last_click, Some(4));
}

#[test]
fn typed_lines_are_read() {
    assert!(matches!(parse_demo_line("   "), DemoLine::Stop));
    assert!(matches!(parse_demo_line("remove"), DemoLine::Stop));
    match parse_demo_line("  status needs-attention \n") {
        DemoLine::Status(a) => assert_eq!(a, "needs-attention"),
        _ => panic!("status"),
    }
    assert!(matches!(parse_demo_line("pixmap"), DemoLine::Pixmap(true)));
    assert!(matches!(parse_demo_line("pixmap off"), DemoLine::Pixmap(false)));
    match parse_demo_line("tooltip Hello big world") {
        DemoLine::Tooltip(t, d) => {
            assert_eq!(t, "Hello");
            assert_eq!(d, "big world");
        }
        _ => panic!("tooltip"),
    }
    match parse_demo_line("menu add Open file") {
        DemoLine::MenuAdd(l) => assert_eq!(l, "Open file"),
        _ => panic!("menu add"),
    }
    assert!(matches!(parse_demo_line("menu toggle 3"), DemoLine::MenuToggle(3)));
    assert!(matches!(parse_demo_line("menu remove x"), DemoLine::MenuRemove(-1)));
    assert!(matches!(parse_demo_line("menu remove +7"), DemoLine::MenuRemove(7)));
    assert!(matches!(parse_demo_line("menu frob"), DemoLine::MenuUsage));
    assert!(matches!(parse_demo_line("toggle-menu"), DemoLine::ToggleMenu));
    match parse_demo_line(" dance now ") {
        DemoLine::Unknown(l) => assert_eq!(l, "dance now"),
        _ => panic!("unknown"),
    }
}
