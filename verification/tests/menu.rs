use breadknife::tray::menu::{menu_from_layout, parse_mnemonic, parse_node, MenuItemKind};
use breadknife::tray::value::DbusValue;

fn s(x: &str) -> DbusValue {
    DbusValue::Str(x.to_string())
}

fn var(v: DbusValue) -> DbusValue {
    DbusValue::Variant(Box::new(v))
}

/// A property dictionary as a HashMap<String, Value> arrives: string keys,
/// values inside variants.
fn props(entries: Vec<(&str, DbusValue)>) -> DbusValue {
    DbusValue::Dict(entries.into_iter().map(|(k, v)| (s(k), var(v))).collect())
}

fn node(id: i32, p: DbusValue, children: Vec<DbusValue>) -> DbusValue {
    var(DbusValue::Structure(vec![DbusValue::I32(id), p, DbusValue::Array(children)]))
}

#[test]
fn mnemonics_are_resolved() {
    assert_eq!(parse_mnemonic("_File"), "File");
    assert_eq!(parse_mnemonic("Open__System"), "Open_System");
    assert_eq!(parse_mnemonic("trailing_"), "trailing");
    assert_eq!(parse_mnemonic("plain"), "plain");
}

#[test]
fn parses_nested_layout() {
    // Root: submenu with a standard entry and a separator.
    let std_item = node(2, props(vec![]), Vec::new());
    let sep_item = node(3, props(vec![("type", s("separator"))]), Vec::new());
    let root = DbusValue::Structure(vec![
        DbusValue::I32(0),
        props(vec![("label", s("_Root")), ("children-display", s("submenu"))]),
        DbusValue::Array(vec![std_item, sep_item]),
    ]);

    let root_node = parse_node(&root, 8).expect("root node parses");
    assert_eq!(root_node.label, "Root");
    assert_eq!(root_node.kind, MenuItemKind::Submenu);
    assert_eq!(root_node.children.len(), 2);
    assert_eq!(root_node.children[0].kind, MenuItemKind::Standard);
    assert_eq!(root_node.children[1].kind, MenuItemKind::Separator);
}

#[test]
fn toggled_follows_toggle_state() {
    let make = |toggle_type: Option<&str>, state: i32| -> DbusValue {
        let mut p = Vec::new();
        if let Some(t) = toggle_type {
            p.push(("toggle-type", s(t)));
            p.push(("toggle-state", DbusValue::I32(state)));
        }
        DbusValue::Structure(vec![DbusValue::I32(1), props(p), DbusValue::Array(Vec::new())])
    };
    let node = parse_node(&make(Some("checkmark"), 1), 2).unwrap();
    assert_eq!(node.toggled, Some(true));
    let node = parse_node(&make(Some("radio"), 0), 2).unwrap();
    assert_eq!(node.toggled, Some(false));
    let node = parse_node(&make(Some("checkmark"), -1), 2).unwrap();
    assert_eq!(node.toggled, None);
    let node = parse_node(&make(None, 1), 2).unwrap();
    assert_eq!(node.toggled, None);
}

#[test]
fn only_checkmark_and_radio_entries_have_a_check_state() {
    let make = |toggle_type: &str, state: i32| -> DbusValue {
        let p = vec![("toggle-type", s(toggle_type)), ("toggle-state", DbusValue::I32(state))];
        DbusValue::Structure(vec![DbusValue::I32(1), props(p), DbusValue::Array(Vec::new())])
    };
    assert_eq!(parse_node(&make("foo", 1), 2).unwrap().toggled, None);
    assert_eq!(parse_node(&make("", 1), 2).unwrap().toggled, None);
    assert_eq!(parse_node(&make("radio", 1), 2).unwrap().toggled, Some(true));
}

#[test]
fn layout_children_stop_at_max_depth() {
    let leaf = node(3, props(vec![("label", s("leaf"))]), Vec::new());
    let mid = node(2, props(vec![("label", s("mid"))]), vec![leaf]);
    let root = DbusValue::Structure(vec![
        DbusValue::I32(0),
        props(vec![]),
        DbusValue::Array(vec![mid]),
    ]);
    let deep = menu_from_layout(7, &root, 8);
    assert_eq!(deep.revision, 7);
    assert_eq!(deep.root.len(), 1);
    assert_eq!(deep.root[0].label, "mid");
    assert_eq!(deep.root[0].children.len(), 1);
    assert_eq!(deep.root[0].children[0].id, 3);
    let flat = menu_from_layout(7, &root, 0);
    assert_eq!(flat.root.len(), 1);
    assert!(flat.root[0].children.is_empty());
}

#[test]
fn entry_defaults_and_malformed_children() {
    // A child that is not a variant is skipped; defaults apply.
    let good = node(5, props(vec![("enabled", DbusValue::Bool(false)), ("icon-name", s("x"))]), vec![]);
    let bad = DbusValue::I32(9);
    let root = DbusValue::Structure(vec![DbusValue::I32(0), props(vec![]), DbusValue::Array(vec![bad, good])]);
    let m = menu_from_layout(1, &root, 2);
    assert_eq!(m.root.len(), 1);
    let e = &m.root[0];
    assert_eq!(e.id, 5);
    assert!(!e.enabled);
    assert!(e.visible);
    assert_eq!(e.icon.as_deref(), Some("x"));
    assert_eq!(e.label, "");
    assert_eq!(e.kind, MenuItemKind::Standard);
}
