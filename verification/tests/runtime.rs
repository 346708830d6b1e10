use breadknife::tray::config::{FallbackPolicy, TrayConfig};
use breadknife::tray::error::TrayError;
use breadknife::tray::event::{ItemField, TrayEvent};
use breadknife::tray::menu::{MenuItem, MenuItemKind, MenuSnapshot};
use breadknife::tray::model::{IconSource, Orientation, TrayItemId, TrayStatus};
use breadknife::tray::runtime::{
    classify_owner_change, diff_fields, host_name_candidate, setup_plan, AddPlan, Cmd, InteractPlan,
    ItemCall, MenuPlan, NameReply, OwnerChange, Route, SetupPlan, TimerKind, TrayCore,
    WatcherDownAction,
};
use breadknife::tray::sni::{build_item, TrayItemSnapshot};
use breadknife::tray::value::DbusValue;
use breadknife::tray::{InteractionOp, WatcherState};

fn id(bus: &str, path: &str) -> TrayItemId {
    TrayItemId { bus_name: bus.to_string(), path: path.to_string() }
}

fn snapshot(i: &TrayItemId, props: Vec<(&str, DbusValue)>) -> TrayItemSnapshot {
    let props: Vec<(String, DbusValue)> = props.into_iter().map(|(k, v)| (k.to_string(), v)).collect();
    build_item(i.clone(), &props)
}

fn core_with(item: &TrayItemId, unique: &str, menu_path: Option<&str>) -> TrayCore {
    let mut core = TrayCore::new(TrayConfig::default());
    let mut props = vec![("Status", DbusValue::Str("Active".into()))];
    if let Some(p) = menu_path {
        props.push(("Menu", DbusValue::ObjectPath(p.into())));
    }
    let snap = snapshot(item, props);
    assert!(matches!(core.insert_item(unique.to_string(), snap, None), Some(TrayEvent::Added(_))));
    core
}

fn menu(rev: u32, labels: &[&str]) -> MenuSnapshot {
    MenuSnapshot {
        revision: rev,
        root: labels
            .iter()
            .enumerate()
            .map(|(n, l)| MenuItem {
                id: n as i32 + 1,
                kind: MenuItemKind::Standard,
                label: l.to_string(),
                enabled: true,
                visible: true,
                toggled: None,
                icon: None,
                children: Vec::new(),
            })
            .collect(),
    }
}

#[test]
fn new_core_is_empty_and_waits_for_watcher() {
    let core = TrayCore::new(TrayConfig::default());
    assert!(core.items().is_empty());
    assert_eq!(core.watcher, WatcherState::ExternalDown);
    assert!(!core.stopping);
    assert_eq!(core.host_id(), "");
}

#[test]
fn add_plan_fetches_new_and_refetches_known_items() {
    let core = TrayCore::new(TrayConfig::default());
    match core.add_plan(":1.7/org/x") {
        AddPlan::Fetch(i) => assert_eq!(i, id(":1.7", "/org/x")),
        _ => panic!("expected fetch"),
    }
    assert!(matches!(core.add_plan(""), AddPlan::Ignore));
    let item = id("org.a", "/StatusNotifierItem");
    let core = core_with(&item, ":1.9", None);
    match core.add_plan("org.a") {
        AddPlan::Refetch(i) => assert_eq!(i, item),
        _ => panic!("expected refetch"),
    }
}

#[test]
fn inserted_item_is_readable_and_removal_forgets_it() {
    let item = id("org.a", "/item");
    let mut core = core_with(&item, ":1.9", Some("/menu"));
    let got = core.item(&item).expect("tracked");
    assert_eq!(got.status, TrayStatus::Active);
    assert!(got.has_menu);
    assert_eq!(core.items().len(), 1);
    // A second insert of the same id is refused.
    let again = snapshot(&item, vec![]);
    assert!(core.insert_item(":1.9".into(), again, None).is_none());
    assert!(matches!(core.remove_item(&item), Some(TrayEvent::Removed(r)) if r == item));
    assert!(core.item(&item).is_none());
    assert!(core.remove_item(&item).is_none());
}

#[test]
fn menu_changes_only_when_content_differs() {
    let item = id("org.a", "/item");
    let mut core = core_with(&item, ":1.9", Some("/menu"));
    assert!(core.menu(&item).is_none());
    assert!(matches!(core.apply_menu(&item, menu(1, &["a"])), Some(TrayEvent::MenuChanged(_))));
    assert!(core.apply_menu(&item, menu(1, &["a"])).is_none());
    assert!(matches!(core.apply_menu(&item, menu(2, &["a", "b"])), Some(TrayEvent::MenuChanged(_))));
    assert_eq!(core.menu(&item).unwrap().root.len(), 2);
    assert_eq!(core.menu_target(&item), Some(("org.a".to_string(), "/menu".to_string())));
    let other = id("org.b", "/x");
    assert!(core.apply_menu(&other, menu(1, &[])).is_none());
}

#[test]
fn no_menu_is_stored_for_an_item_without_one() {
    let item = id("org.a", "/item");
    let mut core = core_with(&item, ":1.9", None);
    assert!(core.apply_menu(&item, menu(1, &["a"])).is_none());
    assert!(core.menu(&item).is_none());
    assert!(!core.item(&item).unwrap().has_menu);
    let ids: Vec<TrayItemId> = core.items().into_iter().map(|t| t.id).collect();
    assert_eq!(ids, vec![item]);
}

#[test]
fn about_to_show_needs_a_tracked_item_with_menu() {
    let item = id("org.a", "/item");
    let mut core = core_with(&item, ":1.9", None);
    assert!(matches!(core.about_to_show_target(&item), Err(TrayError::Protocol(m)) if m == "item has no menu"));
    let missing = id("org.z", "/z");
    assert!(matches!(core.about_to_show_target(&missing), Err(TrayError::ItemNotFound(m)) if m == "org.z/z"));
    core.fatal("gone".into());
    assert!(matches!(core.about_to_show_target(&item), Err(TrayError::Stopped)));
}

#[test]
fn interactions_queue_until_stopped() {
    let item = id("org.a", "/item");
    let mut core = TrayCore::new(TrayConfig::default());
    assert!(core.activate(&item, 3, 4).is_ok());
    assert!(core.scroll(&item, 5, Orientation::Vertical).is_ok());
    assert!(core.menu_activate(&item, 9).is_ok());
    assert_eq!(core.pending.len(), 3);
    match core.next_command() {
        Some(Cmd::Interact { op, x, y, .. }) => {
            assert_eq!(op, InteractionOp::Activate);
            assert_eq!((x, y), (3, 4));
        }
        _ => panic!("expected activate"),
    }
    core.shutdown();
    assert!(matches!(core.next_command(), Some(Cmd::Interact { op: InteractionOp::Scroll, .. })));
    assert!(matches!(core.next_command(), Some(Cmd::MenuActivate { menu_item: 9, .. })));
    assert!(matches!(core.next_command(), Some(Cmd::Shutdown)));
    assert!(core.stopping);
    assert!(core.next_command().is_none());
    assert!(matches!(core.activate(&item, 0, 0), Err(TrayError::Stopped)));
    assert!(matches!(core.secondary_activate(&item, 0, 0), Err(TrayError::Stopped)));
}

#[test]
fn fatal_is_the_last_word() {
    let mut core = TrayCore::new(TrayConfig::default());
    match core.fatal("bus gone".into()) {
        TrayEvent::Fatal(m) => assert_eq!(m, "bus gone"),
        _ => panic!("expected fatal"),
    }
    assert!(matches!(core.enqueue(Cmd::Shutdown), Err(TrayError::Stopped)));
    assert!(!core.register_item_service(&"org.a".to_string()));
}

#[test]
fn bursts_of_changes_leave_one_refetch_at_the_last_deadline() {
    let item = id("org.a", "/item");
    let mut core = core_with(&item, ":1.9", None);
    assert_eq!(core.schedule_refetch_item(100, &item), 150);
    assert_eq!(core.schedule_refetch_item(120, &item), 170);
    assert_eq!(core.schedule_refetch_menu(120, &item), 170);
    assert_eq!(core.timers.len(), 2);
    assert!(core.take_due_timers(160).is_empty());
    let due = core.take_due_timers(170);
    assert_eq!(due.len(), 2);
    assert!(matches!(&due[0], TimerKind::RefetchItem(i) if *i == item));
    assert!(matches!(&due[1], TimerKind::RefetchMenu(i) if *i == item));
    assert!(core.timers.is_empty());
}

#[test]
fn startup_follows_the_fallback_policy() {
    assert!(matches!(setup_plan(true, FallbackPolicy::Never), SetupPlan::RegisterHost));
    assert!(matches!(setup_plan(false, FallbackPolicy::Auto), SetupPlan::BecomeWatcher));
    assert!(matches!(setup_plan(false, FallbackPolicy::Never), SetupPlan::NoWatcher));
    let mut core = TrayCore::new(TrayConfig::default());
    assert!(matches!(core.finish_setup(false, true), TrayEvent::WatcherChanged(WatcherState::FallbackActive)));
    let mut core2 = TrayCore::new(TrayConfig::default());
    assert!(matches!(core2.finish_setup(false, false), TrayEvent::WatcherChanged(WatcherState::ExternalUp)));
    let never = TrayConfig { fallback: FallbackPolicy::Never, ..TrayConfig::default() };
    let mut core3 = TrayCore::new(never);
    assert!(matches!(core3.finish_setup(false, true), TrayEvent::WatcherChanged(WatcherState::ExternalDown)));
    assert!(core.watcher_up_needs_yield());
    assert!(matches!(core.external_watcher_registered(), TrayEvent::WatcherChanged(WatcherState::ExternalUp)));
    assert!(!core.watcher_up_needs_yield());
}

#[test]
fn watcher_loss_waits_twice_the_timeout_then_takes_over() {
    let mut core = TrayCore::new(TrayConfig::default());
    core.finish_setup(true, false);
    match core.on_watcher_down(1000) {
        WatcherDownAction::Respawn(at) => assert_eq!(at, 5000),
        _ => panic!("expected respawn"),
    }
    assert_eq!(core.watcher, WatcherState::ExternalDown);
    assert!(core.respawn_wanted());
    let due = core.take_due_timers(5000);
    assert!(matches!(due.as_slice(), [TimerKind::WatcherRespawn]));
    assert!(matches!(core.respawn_done(), Some(TrayEvent::WatcherChanged(WatcherState::FallbackActive))));
    assert!(core.respawn_done().is_none());
    // Not relying on an external watcher: nothing to do.
    assert!(matches!(core.on_watcher_down(0), WatcherDownAction::Nothing));

    let never = TrayConfig { fallback: FallbackPolicy::Never, ..TrayConfig::default() };
    let mut core2 = TrayCore::new(never);
    core2.finish_setup(true, false);
    assert!(matches!(core2.on_watcher_down(0), WatcherDownAction::Report(TrayEvent::WatcherChanged(WatcherState::ExternalDown))));
    assert!(!core2.respawn_wanted());
    assert!(core2.respawn_done().is_none());
}

#[test]
fn owner_changes_are_classified() {
    let w = "org.kde.StatusNotifierWatcher";
    assert!(matches!(classify_owner_change(w, "", ":1.5", ":1.5"), OwnerChange::Ignore));
    assert!(matches!(classify_owner_change(w, ":1.5", "", ":1.5"), OwnerChange::Ignore));
    assert!(matches!(classify_owner_change(w, ":1.3", "", ":1.5"), OwnerChange::WatcherDown));
    assert!(matches!(classify_owner_change(w, "", ":1.8", ":1.5"), OwnerChange::WatcherUp));
    assert!(matches!(classify_owner_change("org.a", "", ":1.8", ":1.5"), OwnerChange::Items));
}

#[test]
fn vanished_owner_removes_its_items_new_owner_refetches() {
    let a = id("org.a", "/item");
    let mut core = core_with(&a, ":1.9", None);
    let b = id(":1.20", "/x");
    core.insert_item(":1.20".into(), snapshot(&b, vec![]), None);
    let out = core.owner_changed_items(10, "org.a", ":1.30");
    assert!(out.removed.is_empty());
    assert_eq!(out.refetch_at, Some(60));
    assert_eq!(core.items.len(), 2);
    assert_eq!(core.items[0].unique, ":1.30");
    let out = core.owner_changed_items(10, ":1.20", "");
    assert_eq!(out.removed.len(), 1);
    assert!(matches!(&out.removed[0], TrayEvent::Removed(r) if *r == b));
    assert_eq!(core.items.len(), 1);
    let out = core.owner_changed_items(10, "org.none", "");
    assert!(out.removed.is_empty());
    assert_eq!(out.refetch_at, None);
}

#[test]
fn signals_are_routed_to_their_items() {
    let a = id("org.a", "/item");
    let core = core_with(&a, ":1.9", Some("/menu"));
    assert!(matches!(core.handle_message("org.freedesktop.DBus", "NameOwnerChanged", "", "", None), Route::OwnerChanged));
    assert!(matches!(
        core.handle_message("org.kde.StatusNotifierWatcher", "StatusNotifierItemRegistered", "", "", Some("org.b".into())),
        Route::AddItem(s) if s == "org.b"
    ));
    assert!(matches!(
        core.handle_message("org.kde.StatusNotifierWatcher", "StatusNotifierItemUnregistered", "", "", Some("org.a/item".into())),
        Route::RemoveItem(i) if i == a
    ));
    assert!(matches!(core.handle_message("org.kde.StatusNotifierItem", "NewIcon", ":1.9", "/item", None), Route::RefetchItem(i) if i == a));
    assert!(matches!(core.handle_message("org.kde.StatusNotifierItem", "NewIcon", ":1.1", "/item", None), Route::Nothing));
    assert!(matches!(
        core.handle_message("org.freedesktop.DBus.Properties", "PropertiesChanged", ":1.9", "/item", Some("org.kde.StatusNotifierItem".into())),
        Route::RefetchItem(i) if i == a
    ));
    assert!(matches!(
        core.handle_message("org.freedesktop.DBus.Properties", "PropertiesChanged", ":1.9", "/menu", Some("com.canonical.dbusmenu".into())),
        Route::RefetchMenu(i) if i == a
    ));
    assert!(matches!(core.handle_message("com.canonical.dbusmenu", "LayoutUpdated", ":1.9", "/menu", None), Route::RefetchMenu(i) if i == a));
    assert!(matches!(core.handle_message("com.canonical.dbusmenu", "LayoutUpdated", ":1.9", "/other", None), Route::Nothing));
    assert!(matches!(core.handle_message("org.example", "Anything", ":1.9", "/", None), Route::Nothing));
}

#[test]
fn refetch_reports_changed_fields_and_new_menu() {
    let a = id("org.a", "/item");
    let mut core = core_with(&a, ":1.9", None);
    assert_eq!(core.refetch_target(&a), Some("org.a".to_string()));
    let fresh = snapshot(&a, vec![("Status", DbusValue::Str("NeedsAttention".into())), ("Menu", DbusValue::ObjectPath("/m".into()))]);
    let out = core.apply_refetch(&a, fresh).expect("tracked");
    match out.event {
        Some(TrayEvent::Changed { changed, item, .. }) => {
            assert_eq!(changed, vec![ItemField::Status, ItemField::HasMenu]);
            assert_eq!(item.status, TrayStatus::NeedsAttention);
        }
        _ => panic!("expected changed"),
    }
    assert_eq!(out.menu_path.as_deref(), Some("/m"));
    let same = snapshot(&a, vec![("Status", DbusValue::Str("NeedsAttention".into())), ("Menu", DbusValue::ObjectPath("/m".into()))]);
    let out = core.apply_refetch(&a, same).unwrap();
    assert!(out.event.is_none());
    assert!(out.menu_path.is_none());
    assert!(core.apply_refetch(&id("x", "/y"), snapshot(&a, vec![])).is_none());
}

#[test]
fn diff_lists_fields_in_order() {
    let a = id("org.a", "/item");
    let old = snapshot(&a, vec![("Title", DbusValue::Str("t".into()))]).item;
    let new = snapshot(&a, vec![("Title", DbusValue::Str("u".into())), ("IconName", DbusValue::Str("x".into())), ("WindowId", DbusValue::I32(3))]).item;
    assert_eq!(diff_fields(&old, &new), vec![ItemField::Title, ItemField::Icon, ItemField::WindowId]);
    assert!(diff_fields(&new, &new).is_empty());
    assert_eq!(diff_fields(&new, &old), diff_fields(&old, &new));
    assert!(matches!(new.icon, IconSource::Name(ref n) if n == "x"));
}

#[test]
fn interaction_plans() {
    let a = id("org.a", "/item");
    let core = core_with(&a, ":1.9", Some("/menu"));
    match core.plan_interact(&a, InteractionOp::Scroll, 0, 0, 3, Orientation::Vertical) {
        InteractPlan::Call { bus, path, call: ItemCall::Scroll { delta, orientation } } => {
            assert_eq!((bus.as_str(), path.as_str(), delta, orientation), ("org.a", "/item", 3, "vertical"));
        }
        _ => panic!("expected call"),
    }
    match core.plan_interact(&id("x", "/y"), InteractionOp::Activate, 1, 2, 0, Orientation::Horizontal) {
        InteractPlan::Report(TrayEvent::InteractionResult { result: Err(m), .. }) => assert_eq!(m, "item not found"),
        _ => panic!("expected report"),
    }
    match core.plan_interact(&a, InteractionOp::MenuAboutToShow, 1, 2, 0, Orientation::Horizontal) {
        InteractPlan::Report(TrayEvent::InteractionResult { result: Err(m), .. }) => assert_eq!(m, "dbus call failed: unsupported op"),
        _ => panic!("expected report"),
    }
    match core.plan_menu_activate(&a, 4) {
        MenuPlan::Call { bus, menu_path, menu_item } => assert_eq!((bus.as_str(), menu_path.as_str(), menu_item), ("org.a", "/menu", 4)),
        _ => panic!("expected call"),
    }
    let plain = core_with(&a, ":1.9", None);
    match plain.plan_menu_activate(&a, 4) {
        MenuPlan::Report(TrayEvent::InteractionResult { op, result: Err(m), .. }) => {
            assert_eq!(op, InteractionOp::MenuActivate);
            assert_eq!(m, "item has no menu");
        }
        _ => panic!("expected report"),
    }
}

#[test]
fn fallback_registrations_are_listed_at_once() {
    let a = id("org.a", "/item");
    let mut core = core_with(&a, ":1.9", None);
    let s = "org.b/x".to_string();
    assert!(core.register_item_service(&s));
    assert!(core.register_item_service(&s));
    assert_eq!(core.registered_items(), vec!["org.a/item".to_string(), "org.b/x".to_string()]);
    assert_eq!(core.pending.len(), 2);
    core.finish_registration(&s);
    assert_eq!(core.registered_items(), vec!["org.a/item".to_string()]);
}

#[test]
fn host_names_and_name_replies() {
    assert_eq!(host_name_candidate(1234, 0), "_org.kde.StatusNotifierHost.1234-0");
    assert_eq!(host_name_candidate(7, 12), "_org.kde.StatusNotifierHost.7-12");
    assert!(NameReply::PrimaryOwner.owns());
    assert!(NameReply::AlreadyOwner.owns());
    assert!(!NameReply::InQueue.owns());
    assert!(!NameReply::Exists.owns());
    let mut core = TrayCore::new(TrayConfig::default());
    core.set_host_id("_org.kde.StatusNotifierHost.1-0".into());
    assert_eq!(core.host_id(), "_org.kde.StatusNotifierHost.1-0");
    core.finish_setup(false, true);
    assert!(core.cleanup());
    assert!(core.stopping);
}

#[test]
fn shutting_down_twice_runs_one_shutdown() {
    let mut core = TrayCore::new(TrayConfig::default());
    core.shutdown();
    core.shutdown();
    assert!(matches!(core.next_command(), Some(Cmd::Shutdown)));
    assert!(core.next_command().is_none());
    assert!(core.stopping);
    core.shutdown();
    assert!(core.next_command().is_none());
}

#[test]
fn an_item_is_added_once_while_tracked() {
    let a = id("org.a", "/item");
    let mut core = core_with(&a, ":1.9", None);
    let again = snapshot(&a, vec![("Status", DbusValue::Str("Passive".into()))]);
    assert!(core.insert_item(":1.9".into(), again, None).is_none());
    assert_eq!(core.items().len(), 1);
    assert!(matches!(core.remove_item(&a), Some(TrayEvent::Removed(_))));
    let back = snapshot(&a, vec![]);
    assert!(matches!(core.insert_item(":1.9".into(), back, None), Some(TrayEvent::Added(_))));
}
