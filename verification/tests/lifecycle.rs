//! The tray's whole event sequence for one demo item, driven through the
//! runtime core and the demo item's state without a bus: what the bus
//! layer would fetch is read from the demo state directly.

use breadknife::tray::config::TrayConfig;
use breadknife::tray::error::TrayError;
use breadknife::tray::event::{ItemField, TrayEvent};
use breadknife::tray::menu::menu_from_layout;
use breadknife::tray::model::{IconSource, TrayItemId, TrayStatus};
use breadknife::tray::runtime::{AddPlan, Cmd, MenuPlan, TrayCore};
use breadknife::tray::sni::{build_item, TrayItemSnapshot};
use breadknife::tray::testing::{
    demo_menu_path, demo_service, menu_add_message, menu_message, pixmap_message, status_message,
    DemoItemConfig, DemoState,
};
use breadknife::tray::value::DbusValue;
use breadknife::tray::WatcherState;

const UNIQUE: &str = ":1.42";

fn pixmaps(list: Vec<(i32, i32, Vec<u8>)>) -> DbusValue {
    DbusValue::Array(
        list.into_iter()
            .map(|(w, h, bytes)| {
                DbusValue::Structure(vec![
                    DbusValue::I32(w),
                    DbusValue::I32(h),
                    DbusValue::Array(bytes.into_iter().map(DbusValue::U8).collect()),
                ])
            })
            .collect(),
    )
}

/// The demo item's properties as `GetAll` reports them.
fn demo_props(st: &DemoState, menu_path: &str) -> Vec<(String, DbusValue)> {
    let (icon, pm, title, desc) = st.tool_tip_prop();
    let props = vec![
        ("Category", DbusValue::Str("ApplicationStatus".into())),
        ("Id", DbusValue::Str("demo".into())),
        ("Title", DbusValue::Str("Demo Item".into())),
        ("Status", DbusValue::Str(st.status_prop())),
        ("WindowId", DbusValue::I32(0)),
        ("IconName", DbusValue::Str(st.icon_name_prop())),
        ("IconPixmap", pixmaps(st.icon_pixmap_prop())),
        ("AttentionIconName", DbusValue::Str(String::new())),
        ("OverlayIconName", DbusValue::Str(String::new())),
        (
            "ToolTip",
            DbusValue::Structure(vec![
                DbusValue::Str(icon),
                pixmaps(pm),
                DbusValue::Str(title),
                DbusValue::Str(desc),
            ]),
        ),
        ("Menu", DbusValue::ObjectPath(st.menu_prop(menu_path))),
    ];
    props.into_iter().map(|(k, v)| (k.to_string(), v)).collect()
}

fn fetch(st: &DemoState, id: &TrayItemId, menu_path: &str) -> TrayItemSnapshot {
    build_item(id.clone(), &demo_props(st, menu_path))
}

#[test]
fn lifecycle_on_the_core() {
    let config = TrayConfig { timeout_ms: 1000, debounce_ms: 20, ..Default::default() };
    let mut core = TrayCore::new(config);

    // No watcher on a bare bus: we become the fallback watcher.
    match core.finish_setup(false, true) {
        TrayEvent::WatcherChanged(w) => assert_eq!(w, WatcherState::FallbackActive),
        _ => panic!("expected WatcherChanged"),
    }

    // The demo item registers with our watcher.
    let cfg = DemoItemConfig::default();
    let menu_path = demo_menu_path(&cfg.item_path);
    let mut demo = DemoState::with_menu(cfg.menu);
    let service = demo_service(UNIQUE, &cfg.item_path);
    assert!(core.register_item_service(&service));
    assert_eq!(core.registered_items(), vec![service.clone()]);
    let cmd = core.next_command().expect("registration queued");
    let registered = match cmd {
        Cmd::ItemRegistered(s) => s,
        _ => panic!("expected registration"),
    };
    let item_id = match core.add_plan(&registered) {
        AddPlan::Fetch(i) => i,
        _ => panic!("expected fetch"),
    };
    assert_eq!(item_id, TrayItemId { bus_name: UNIQUE.into(), path: cfg.item_path.clone() });
    let snap = fetch(&demo, &item_id, &menu_path);
    assert_eq!(snap.menu_path.as_deref(), Some(menu_path.as_str()));
    let (rev, layout) = demo.layout();
    let menu = menu_from_layout(rev, &layout, config.menu_max_depth);
    let added = match core.insert_item(UNIQUE.into(), snap, Some(menu)) {
        Some(TrayEvent::Added(item)) => item,
        _ => panic!("expected Added"),
    };
    core.finish_registration(&registered);
    assert_eq!(core.registered_items(), vec![service.clone()]);
    assert_eq!(added.id, item_id);
    assert_eq!(added.status, TrayStatus::Active);
    assert_eq!(added.icon, IconSource::Name("demo".into()));
    assert!(added.has_menu);
    assert_eq!(core.item(&item_id).unwrap().id, item_id);
    assert!(core.menu(&item_id).is_some());
    assert_eq!(core.items().len(), 1);

    // Status change -> Changed([Status]).
    demo.apply(&status_message("passive"));
    let out = core.apply_refetch(&item_id, fetch(&demo, &item_id, &menu_path)).unwrap();
    match out.event {
        Some(TrayEvent::Changed { changed, item, .. }) => {
            assert!(changed.contains(&ItemField::Status));
            assert_eq!(item.status, TrayStatus::Passive);
        }
        _ => panic!("expected Changed"),
    }

    // Menu change -> MenuChanged with the new entry readable.
    let hello = demo.apply(&menu_add_message("Hello")).added_id;
    let (rev, layout) = demo.layout();
    let fresh = menu_from_layout(rev, &layout, config.menu_max_depth);
    assert!(matches!(core.apply_menu(&item_id, fresh), Some(TrayEvent::MenuChanged(_))));
    let menu = core.menu(&item_id).expect("menu snapshot");
    let entry = menu.root.iter().find(|e| e.id == hello).expect("menu entry present");
    assert_eq!(entry.label, "Hello");

    // Menu activation is sent to the menu object.
    assert!(core.menu_activate(&item_id, hello).is_ok());
    match core.next_command() {
        Some(Cmd::MenuActivate { id, menu_item }) => match core.plan_menu_activate(&id, menu_item) {
            MenuPlan::Call { bus, menu_path: mp, menu_item } => {
                assert_eq!(bus, UNIQUE);
                assert_eq!(mp, menu_path);
                demo.record_event(menu_item, "clicked");
            }
            _ => panic!("expected a menu call"),
        },
        _ => panic!("expected MenuActivate"),
    }
    assert_eq!(demo.last_click, Some(hello));

    // Pixmap icon -> Icon change with the parsed 4x2 bitmap.
    demo.apply(&pixmap_message(true));
    let out = core.apply_refetch(&item_id, fetch(&demo, &item_id, &menu_path)).unwrap();
    match out.event {
        Some(TrayEvent::Changed { item, .. }) => match item.icon {
            IconSource::Pixmap(p) => {
                assert_eq!((p.width, p.height), (4, 2));
                assert_eq!(p.argb.len(), 32);
            }
            other => panic!("expected pixmap icon, got {other:?}"),
        },
        _ => panic!("expected Changed"),
    }

    // Menu unmounted -> HasMenu change; AboutToShow then fails cleanly.
    demo.apply(&menu_message(false));
    let out = core.apply_refetch(&item_id, fetch(&demo, &item_id, &menu_path)).unwrap();
    match out.event {
        Some(TrayEvent::Changed { changed, .. }) => assert!(changed.contains(&ItemField::HasMenu)),
        _ => panic!("expected Changed"),
    }
    assert!(core.about_to_show_target(&item_id).is_err());

    // Removal -> Removed.
    match core.remove_item(&item_id) {
        Some(TrayEvent::Removed(id)) => assert_eq!(id, item_id),
        _ => panic!("expected Removed"),
    }
    assert!(core.items().is_empty());

    // Shutdown stops the runtime; further calls fail with Stopped.
    core.shutdown();
    assert!(matches!(core.next_command(), Some(Cmd::Shutdown)));
    assert!(matches!(core.activate(&item_id, 0, 0), Err(TrayError::Stopped)));
}
