use breadknife::tray::model::{IconSource, Pixmap, TrayCategory, TrayItemId, TrayStatus};
use breadknife::tray::sni::{build_item, icon_source, parse_pixmap_value, parse_service};
use breadknife::tray::value::DbusValue;

#[test]
fn parses_plain_service() {
    let parsed = parse_service("org.example.App").unwrap();
    assert_eq!(parsed.0, "org.example.App");
    assert_eq!(parsed.1, "/StatusNotifierItem");
}

#[test]
fn parses_unique_name_with_path() {
    let parsed = parse_service(":1.42/org/kde/item").unwrap();
    assert_eq!(parsed.0, ":1.42");
    assert_eq!(parsed.1, "/org/kde/item");
}

#[test]
fn rejects_bad_service() {
    assert!(parse_service("").is_none());
    assert!(parse_service("/only/path").is_none());
    assert!(parse_service("bus/").is_none());
}

#[test]
fn icon_rule_prefers_name_then_pixmap() {
    let p = Pixmap { width: 1, height: 1, argb: vec![0, 0, 0, 0] };
    assert_eq!(icon_source("foo".into(), Some(p.clone())), Some(IconSource::Name("foo".into())));
    assert_eq!(icon_source(String::new(), Some(p.clone())), Some(IconSource::Pixmap(p)));
    assert_eq!(icon_source(String::new(), None), None);
}

#[test]
fn builds_item_with_defaults() {
    let id = TrayItemId { bus_name: ":1.1".into(), path: "/StatusNotifierItem".into() };
    let props: Vec<(String, DbusValue)> = Vec::new();
    let snapshot = build_item(id.clone(), &props);
    assert_eq!(snapshot.item.id, id);
    assert_eq!(snapshot.item.status, TrayStatus::Active);
    assert_eq!(snapshot.item.category, TrayCategory::Application);
    assert!(!snapshot.item.has_menu);
    assert!(snapshot.menu_path.is_none());
}

#[test]
fn builds_item_with_menu_and_pixmap() {
    let id = TrayItemId { bus_name: "org.a".into(), path: "/item".into() };
    let pixmap_entry = DbusValue::Structure(vec![
        DbusValue::I32(4),
        DbusValue::I32(2),
        DbusValue::Array((0..32).map(|_| DbusValue::U8(1)).collect()),
    ]);
    let props = vec![
        ("Menu".to_string(), DbusValue::Str("/menu".into())),
        ("IconPixmap".to_string(), DbusValue::Array(vec![pixmap_entry])),
    ];
    let snapshot = build_item(id, &props);
    assert!(snapshot.item.has_menu);
    assert_eq!(snapshot.menu_path.as_deref(), Some("/menu"));
    match snapshot.item.icon {
        IconSource::Pixmap(p) => {
            assert_eq!((p.width, p.height), (4, 2));
            assert_eq!(p.argb.len(), 32);
        }
        other => panic!("expected pixmap, got {other:?}"),
    }
}

#[test]
fn service_is_trimmed_and_split_at_first_slash() {
    let parsed = parse_service("  org.b/a/b  ").unwrap();
    assert_eq!(parsed.0, "org.b");
    assert_eq!(parsed.1, "/a/b");
}

#[test]
fn largest_pixmap_wins_and_bytes_are_cut() {
    let entry = |w: i32, h: i32, n: usize| {
        DbusValue::Structure(vec![DbusValue::I32(w), DbusValue::I32(h), DbusValue::Array((0..n).map(|_| DbusValue::U8(7)).collect())])
    };
    let props = vec![(
        "IconPixmap".to_string(),
        DbusValue::Array(vec![entry(1, 1, 8), entry(2, 2, 20), entry(3, 3, 4), entry(0, 5, 100)]),
    )];
    let id = TrayItemId { bus_name: "b".into(), path: "/p".into() };
    let snap = build_item(id, &props);
    match snap.item.icon {
        IconSource::Pixmap(p) => {
            assert_eq!((p.width, p.height), (2, 2));
            assert_eq!(p.argb.len(), 16);
        }
        other => panic!("expected pixmap, got {other:?}"),
    }
}

#[test]
fn oversized_bitmaps_are_skipped() {
    let entry = |w: i32, h: i32, n: usize| {
        DbusValue::Structure(vec![
            DbusValue::I32(w),
            DbusValue::I32(h),
            DbusValue::Array((0..n).map(|_| DbusValue::U8(7)).collect()),
        ])
    };
    assert!(parse_pixmap_value(&DbusValue::Array(vec![entry(65536, 65536, 0)])).is_none());
    let p = parse_pixmap_value(&DbusValue::Array(vec![entry(65536, 65536, 0), entry(2, 1, 8)]))
        .expect("the small bitmap is kept");
    assert_eq!((p.width, p.height, p.argb.len()), (2, 1, 8));
}
