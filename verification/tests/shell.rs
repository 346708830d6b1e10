use breadknife::shell::bar::{
    event_field, focused_monitor_event, window_title, workspace_names, workspace_of_event,
    WorkspaceLabels,
};
use breadknife::shell::daemon::{client_line, parse_command, startup_apps, Apps, Command, LoadOutcome};
use breadknife::shell::hyprland::{
    active_window_title, dispatch_workspace, event_socket, hyprland_dir, parse_event, EventBus, WorkspaceRule,
};
use breadknife::shell::icon::{argb_to_rgba, best_pixmap, icon_candidates, pixmap_rgba, IconCandidate};
use breadknife::shell::sni::{
    convert_pixmaps, discovered_id, discovery_candidate, parse_service, registration, worth_adding,
    FetchedProps, IconPixmap, Notice, SniEvent, SniHost, SniItemState, SniRequest, UpdateKind,
};
use breadknife::tray::value::DbusValue;

#[test]
fn socket_paths_and_dispatch_command() {
    assert_eq!(hyprland_dir("/run/user/1000", "abc"), "/run/user/1000/hypr/abc");
    assert_eq!(event_socket("/run/user/1000", "abc"), "/run/user/1000/hypr/abc/.socket2.sock");
    assert_eq!(dispatch_workspace("3"), vec!["dispatch".to_string(), "hl.dsp.focus({ workspace = \"3\" })".to_string()]);
}

#[test]
fn event_lines_split_at_first_arrows() {
    assert_eq!(parse_event("workspacev2>>2,2"), Some(("workspacev2".into(), "2,2".into())));
    assert_eq!(parse_event("a>>b>>c"), Some(("a".into(), "b>>c".into())));
    assert_eq!(parse_event(">>"), Some(("".into(), "".into())));
    assert_eq!(parse_event("no arrows>"), None);
}

#[test]
fn event_bus_dispatches_by_event_in_subscription_order() {
    let mut bus: EventBus<&str> = EventBus::new();
    let a = bus.subscribe("workspacev2", "a");
    let _b = bus.subscribe("activewindow", "b");
    let c = bus.subscribe("workspacev2", "c");
    assert_eq!((a.id, c.id), (0, 2));
    assert_eq!(bus.dispatch("workspacev2"), vec![0, 2]);
    assert_eq!(*bus.callback(2), "c");
    bus.unsubscribe(&a);
    assert_eq!(bus.dispatch("workspacev2"), vec![1]);
    assert_eq!(*bus.callback(1), "c");
    bus.unsubscribe(&c);
    assert!(bus.dispatch("workspacev2").is_empty());
    assert_eq!(bus.dispatch("activewindow"), vec![0]);
}

fn state(id: &str, menu: &str) -> SniItemState {
    let mut s = SniItemState::empty(id, "org.a", "/item");
    s.menu_path = menu.into();
    s
}

#[test]
fn host_table_follows_events() {
    let mut host: SniHost<u8, u8, u8> = SniHost::new();
    host.set_item_added_cb(1);
    host.set_item_removed_cb(2);
    host.set_item_updated_cb(3);
    assert_eq!((host.on_added, host.on_removed, host.on_updated), (Some(1), Some(2), Some(3)));
    assert!(matches!(host.handle_event(SniEvent::ItemAdded { id: "a".into(), state: state("a", "/m") }), Notice::Added(i) if i == "a"));
    assert!(matches!(host.handle_event(SniEvent::ItemAdded { id: "b".into(), state: state("b", "") }), Notice::Added(_)));
    let mut upd = state("a", "/m2");
    upd.title = "T".into();
    assert!(matches!(host.handle_event(SniEvent::ItemUpdated { id: "a".into(), kind: UpdateKind::Title, state: upd }), Notice::Updated(i, UpdateKind::Title) if i == "a"));
    assert_eq!(host.item_ids(), vec!["a".to_string(), "b".to_string()]);
    assert_eq!(host.get_item_state("a").unwrap().title, "T");
    assert!(matches!(host.handle_event(SniEvent::ItemRemoved { id: "b".into() }), Notice::Removed(i) if i == "b"));
    assert!(host.get_item_state("b").is_none());
    assert_eq!(host.item_ids(), vec!["a".to_string()]);
}

#[test]
fn host_requests_target_known_items() {
    let mut host: SniHost<(), (), ()> = SniHost::new();
    host.handle_event(SniEvent::ItemAdded { id: "a".into(), state: state("a", "/m") });
    host.handle_event(SniEvent::ItemAdded { id: "b".into(), state: state("b", "") });
    match host.activate_item("a", 1, 2) {
        Some(SniRequest::Activate { bus_name, object_path, x, y }) => {
            assert_eq!((bus_name.as_str(), object_path.as_str(), x, y), ("org.a", "/item", 1, 2));
        }
        _ => panic!("expected activate"),
    }
    assert!(matches!(host.secondary_activate_item("a", 0, 0), Some(SniRequest::SecondaryActivate { .. })));
    assert!(host.activate_item("zzz", 0, 0).is_none());
    let (tx, _rx) = std::sync::mpsc::channel();
    match host.request_menu("a", tx) {
        Some(SniRequest::Menu(m)) => assert_eq!((m.bus_name.as_str(), m.menu_path.as_str()), ("org.a", "/m")),
        _ => panic!("expected menu request"),
    }
    let (tx2, _rx2) = std::sync::mpsc::channel();
    assert!(host.request_menu("b", tx2).is_none());
}

#[test]
fn watcher_side_parsing() {
    assert_eq!(parse_service("org.x"), ("org.x".to_string(), "/StatusNotifierItem".to_string()));
    assert_eq!(parse_service(":1.2/a/b"), (":1.2".to_string(), "/a/b".to_string()));
    assert_eq!(parse_service("/org/ayatana/x"), ("".to_string(), "/org/ayatana/x".to_string()));
    assert_eq!(registration("/org/ayatana/x", ":1.9"), (":1.9/org/ayatana/x".into(), ":1.9".into(), "/org/ayatana/x".into()));
    assert_eq!(registration("org.x", ":1.9"), ("org.x/StatusNotifierItem".into(), "org.x".into(), "/StatusNotifierItem".into()));
    assert!(discovery_candidate("org.example.App"));
    assert!(!discovery_candidate(":1.4"));
    assert!(!discovery_candidate("org.kde.StatusNotifierWatcher"));
    assert!(!discovery_candidate("org.freedesktop.Notifications"));
    assert!(!discovery_candidate("org.gnome.Shell"));
    assert!(!discovery_candidate("ca.desrt.dconf"));
    assert_eq!(discovered_id("org.x"), "org.x/StatusNotifierItem");
}

#[test]
fn fetched_properties_become_a_snapshot() {
    let pix = DbusValue::Structure(vec![DbusValue::I32(2), DbusValue::I32(1), DbusValue::Variant(Box::new(DbusValue::Array(vec![DbusValue::U8(1), DbusValue::Bool(true), DbusValue::U8(2)])))]);
    let bad = DbusValue::Structure(vec![DbusValue::I32(2), DbusValue::U32(1), DbusValue::Array(vec![])]);
    let converted = convert_pixmaps(&vec![DbusValue::Variant(Box::new(pix)), bad]);
    assert_eq!(converted.len(), 1);
    assert_eq!((converted[0].width, converted[0].height, converted[0].bytes.clone()), (2, 1, vec![1, 2]));
    let f = FetchedProps {
        category: Some("Hardware".into()),
        title: None,
        status: Some("Active".into()),
        icon_name: Some("x".into()),
        icon_theme_path: None,
        attention_icon_name: None,
        overlay_icon_name: None,
        item_is_menu: None,
        menu: Some("/menu".into()),
        window_id: None,
        icon_pixmap: None,
        attention_icon_pixmap: None,
        overlay_icon_pixmap: None,
    };
    let s = SniItemState::from_fetched("org.a", "/item", f);
    assert_eq!(s.id, "org.a/item");
    assert_eq!((s.category.as_str(), s.title.as_str(), s.icon_name.as_str(), s.menu_path.as_str()), ("Hardware", "", "x", "/menu"));
    assert!(!s.item_is_menu);
    assert_eq!(s.window_id, 0);
    assert!(worth_adding(&s));
    assert!(!worth_adding(&SniItemState::empty("a", "b", "c")));
}

#[test]
fn icon_sources_in_order() {
    let mut s = SniItemState::empty("a", "b", "/c");
    s.icon_name = "/usr/share/x.png".into();
    let c = icon_candidates(&s);
    assert!(matches!(&c[..], [IconCandidate::File(f), IconCandidate::Themed(t)] if f == "/usr/share/x.png" && t == "/usr/share/x.png"));
    s.icon_name = "vol".into();
    s.icon_theme_path = "/th".into();
    s.icon_pixmaps = vec![
        IconPixmap { width: 64, height: 64, bytes: vec![] },
        IconPixmap { width: 22, height: 22, bytes: vec![] },
        IconPixmap { width: 26, height: 26, bytes: vec![] },
    ];
    let c = icon_candidates(&s);
    assert_eq!(c.len(), 5);
    assert!(matches!(&c[0], IconCandidate::Themed(t) if t == "vol"));
    assert!(matches!(&c[1], IconCandidate::File(f) if f == "/th/vol.png"));
    assert!(matches!(&c[2], IconCandidate::File(f) if f == "/th/vol.svg"));
    assert!(matches!(&c[3], IconCandidate::File(f) if f == "/th/vol.xpm"));
    assert!(matches!(&c[4], IconCandidate::Pixmap(1)));
    assert_eq!(best_pixmap(&s.icon_pixmaps), Some(1));
    assert_eq!(best_pixmap(&vec![]), None);
    let empty = SniItemState::empty("a", "b", "/c");
    assert!(icon_candidates(&empty).is_empty());
}

#[test]
fn bitmaps_turn_argb_into_rgba() {
    assert_eq!(argb_to_rgba(&vec![1, 2, 3, 4, 5, 6, 7, 8, 9], 8), vec![2, 3, 4, 1, 6, 7, 8, 5]);
    let pm = IconPixmap { width: 1, height: 2, bytes: vec![10, 20, 30, 40, 50, 60, 70, 80, 90] };
    assert_eq!(pixmap_rgba(&pm), Some(vec![20, 30, 40, 10, 60, 70, 80, 50]));
    let short = IconPixmap { width: 2, height: 2, bytes: vec![0; 15] };
    assert_eq!(pixmap_rgba(&short), None);
    let negative = IconPixmap { width: -1, height: 2, bytes: vec![] };
    assert_eq!(pixmap_rgba(&negative), None);
}

#[test]
fn control_lines() {
    assert!(matches!(parse_command("  list \n"), Command::List));
    assert!(matches!(parse_command("start  bar "), Command::Start(a) if a == "bar"));
    assert!(matches!(parse_command("stop bar"), Command::Stop(a) if a == "bar"));
    assert!(matches!(parse_command("exit"), Command::Exit));
    assert!(matches!(parse_command("start"), Command::Unknown(c) if c == "start"));
    assert!(matches!(parse_command("restart bar"), Command::Unknown(c) if c == "restart bar"));
    assert_eq!(client_line(&vec!["start".into(), "bar".into()]), "start bar");
    assert_eq!(client_line(&vec![]), "");
    assert_eq!(startup_apps(vec![]), vec!["bar".to_string()]);
    assert_eq!(startup_apps(vec!["x".into()]), vec!["x".to_string()]);
}

#[test]
fn apps_load_unload_and_follow_monitors() {
    let mut apps = Apps::new();
    assert_eq!(apps.load_app("bar", true, &vec![1, 2]), LoadOutcome::Loaded);
    assert_eq!(apps.load_app("bar", true, &vec![1, 2]), LoadOutcome::AlreadyLoaded);
    assert_eq!(apps.load_app("dock", false, &vec![1, 2]), LoadOutcome::Unknown);
    assert_eq!(apps.loaded, vec!["bar".to_string()]);
    assert_eq!(apps.instances.len(), 2);
    let plan = apps.hotplug(&vec![2, 3]);
    assert_eq!(plan.removed.len(), 1);
    assert_eq!(plan.removed[0].monitor, 1);
    assert_eq!(plan.removed[0].apps, vec!["bar".to_string()]);
    assert_eq!(plan.added.len(), 1);
    assert_eq!(plan.added[0].monitor, 3);
    assert_eq!(plan.added[0].apps, vec!["bar".to_string()]);
    assert_eq!(apps.instances.iter().map(|m| m.monitor).collect::<Vec<_>>(), vec![2, 3]);
    assert_eq!(apps.unload_app("bar"), 2);
    assert!(apps.loaded.is_empty());
    assert!(apps.instances.iter().all(|m| m.apps.is_empty()));
    assert_eq!(apps.unload_app("bar"), 0);
}

#[test]
fn stop_undoes_start() {
    let mut apps = Apps::new();
    assert_eq!(apps.load_app("bar", true, &vec![1]), LoadOutcome::Loaded);
    assert_eq!(apps.load_app("clock", true, &vec![1, 2]), LoadOutcome::Loaded);
    assert_eq!(apps.unload_app("clock"), 2);
    assert_eq!(apps.loaded, vec!["bar".to_string()]);
    assert_eq!(apps.instances.len(), 2);
    assert_eq!(apps.instances[0].monitor, 1);
    assert_eq!(apps.instances[0].apps, vec!["bar".to_string()]);
    assert_eq!(apps.instances[1].monitor, 2);
    assert!(apps.instances[1].apps.is_empty());
}

#[test]
fn event_fields() {
    assert_eq!(event_field("a,b,c", 1), "b");
    assert_eq!(event_field("a,b,c", 5), "");
    assert_eq!(event_field("", 0), "");
    assert_eq!(workspace_of_event("3,three"), "3");
    assert_eq!(focused_monitor_event("DP-1,4"), ("DP-1".to_string(), "4".to_string()));
    assert_eq!(window_title("kitty,~/src, a"), "~/src");
    assert_eq!(window_title("onlyclass"), "");
}

fn rule(ws: &str, mon: &str) -> WorkspaceRule {
    WorkspaceRule { workspace_string: ws.into(), monitor: mon.into() }
}

#[test]
fn workspace_labels_are_ordered_numerically_then_by_name() {
    let rules = vec![rule("10", "DP-1"), rule("2", "DP-1"), rule("b", "DP-1"), rule("a", "DP-1"), rule("2", "DP-1"), rule("1", "HDMI"), rule("-1", "DP-1")];
    assert_eq!(workspace_names(&rules, "DP-1"), vec!["-1", "2", "10", "a", "b"]);
    assert!(workspace_names(&rules, "none").is_empty());
}

#[test]
fn highlight_and_scroll() {
    let mut l = WorkspaceLabels { names: vec!["1".into(), "2".into(), "3".into()], active: Some("9".into()) };
    assert_eq!(l.highlighted(), None);
    assert!(l.update_active("9").is_none());
    let c = l.update_active("2").unwrap();
    assert_eq!((c.clear, c.set.as_str()), (None, "2"));
    let c = l.update_active("3").unwrap();
    assert_eq!((c.clear.as_deref(), c.set.as_str()), (Some("2"), "3"));
    assert_eq!(l.highlighted().as_deref(), Some("3"));
    assert_eq!(l.cycle("3", true).as_deref(), Some("1"));
    assert_eq!(l.cycle("1", false).as_deref(), Some("3"));
    assert_eq!(l.cycle("2", false).as_deref(), Some("1"));
    assert_eq!(l.cycle("zz", true).as_deref(), Some("2"));
    let empty = WorkspaceLabels { names: vec![], active: None };
    assert_eq!(empty.cycle("1", true), None);
}

#[test]
fn active_window_title_is_read_from_the_reply() {
    let reply = r#"{"address":"0x5a","class":"kitty","title":"~/src \u2014 vim","pid":7}"#;
    assert_eq!(active_window_title(reply), Some("~/src \u{2014} vim".to_string()));
    assert_eq!(active_window_title(r#"{"class":"kitty"}"#), None);
    assert_eq!(active_window_title(r#"{"title":3}"#), None);
    assert_eq!(active_window_title("{}"), None);
    assert_eq!(active_window_title(""), None);
    assert_eq!(active_window_title("not json"), None);
}

#[test]
fn item_ids_are_the_known_items() {
    let mut host: SniHost<fn(&str), fn(&str), fn(&str, UpdateKind)> = SniHost::new();
    host.handle_event(SniEvent::ItemAdded { id: "a/x".into(), state: SniItemState::empty("a/x", "a", "/x") });
    host.handle_event(SniEvent::ItemAdded { id: "b/y".into(), state: SniItemState::empty("b/y", "b", "/y") });
    host.handle_event(SniEvent::ItemAdded { id: "a/x".into(), state: SniItemState::empty("a/x", "a", "/x") });
    let ids = host.item_ids();
    assert_eq!(ids, vec!["a/x".to_string(), "b/y".to_string()]);
    for id in &ids {
        assert!(host.get_item_state(id).is_some());
    }
    assert!(host.get_item_state("c/z").is_none());
    host.handle_event(SniEvent::ItemRemoved { id: "a/x".into() });
    assert_eq!(host.item_ids(), vec!["b/y".to_string()]);
    assert!(host.get_item_state("a/x").is_none());
}
