use breadknife::tray::inspect::{
    activate_coords, dump_json, icon_json, item_json, json_string, list_row, menu_item_json,
    menu_json, menu_lines, opt_json, table_header, with_bus_path, USAGE,
};
use breadknife::tray::menu::{MenuItem, MenuItemKind, MenuSnapshot};
use breadknife::tray::model::{
    IconSource, Pixmap, ToolTip, TrayCategory, TrayItem, TrayItemId, TrayStatus,
};

fn entry(id: i32, kind: MenuItemKind, label: &str, children: Vec<MenuItem>) -> MenuItem {
    MenuItem { id, kind, label: label.into(), enabled: true, visible: true, toggled: None, icon: None, children }
}

fn item(has_menu: bool) -> TrayItem {
    TrayItem {
        id: TrayItemId { bus_name: ":1.5".into(), path: "/StatusNotifierItem".into() },
        category: TrayCategory::Hardware,
        status: TrayStatus::NeedsAttention,
        title: Some("Vol \"main\"".into()),
        description: None,
        window_id: -3,
        icon: IconSource::Name("audio".into()),
        overlay_icon: None,
        attention_icon: None,
        tooltip: Some(ToolTip { icon: None, title: "t".into(), description: "d\n".into() }),
        has_menu,
    }
}

#[test]
fn json_strings_escape_quotes_backslashes_and_controls() {
    assert_eq!(json_string("plain"), "\"plain\"");
    assert_eq!(json_string("a\"b\\c"), "\"a\\\"b\\\\c\"");
    assert_eq!(json_string("x\ny\r\tz"), "\"x\\ny\\r\\tz\"");
    assert_eq!(json_string("\u{1}\u{1f}"), "\"\\u0001\\u001f\"");
    assert_eq!(json_string("é"), "\"é\"");
    assert_eq!(opt_json(None), "null");
    assert_eq!(opt_json(Some("1".into())), "1");
}

#[test]
fn icons_render_name_or_bitmap_size() {
    assert_eq!(icon_json(&IconSource::Name("a".into())), "{\"name\":\"a\"}");
    let p = Pixmap { width: 2, height: 3, argb: vec![0; 24] };
    assert_eq!(icon_json(&IconSource::Pixmap(p)), "{\"pixmap\":{\"width\":2,\"height\":3,\"argb_len\":24}}");
}

#[test]
fn menu_entries_render_with_optional_fields() {
    let mut e = entry(7, MenuItemKind::Submenu, "Open", vec![entry(8, MenuItemKind::Separator, "", vec![])]);
    e.toggled = Some(true);
    e.icon = Some("doc".into());
    assert_eq!(
        menu_item_json(&e),
        "{\"id\":7,\"kind\":\"Submenu\",\"label\":\"Open\",\"enabled\":true,\"visible\":true,\"toggled\":true,\"icon\":\"doc\",\"children\":[{\"id\":8,\"kind\":\"Separator\",\"label\":\"\",\"enabled\":true,\"visible\":true}]}"
    );
    let m = MenuSnapshot { revision: 3, root: vec![entry(1, MenuItemKind::Standard, "a", vec![]), entry(-2, MenuItemKind::Standard, "b", vec![])] };
    assert_eq!(
        menu_json(&m),
        "{\"revision\":3,\"root\":[{\"id\":1,\"kind\":\"Standard\",\"label\":\"a\",\"enabled\":true,\"visible\":true},{\"id\":-2,\"kind\":\"Standard\",\"label\":\"b\",\"enabled\":true,\"visible\":true}]}"
    );
}

#[test]
fn items_render_with_menu_only_when_they_have_one() {
    let m = Some(MenuSnapshot { revision: 1, root: vec![] });
    let plain = "{\"id\":\":1.5/StatusNotifierItem\",\"category\":\"Hardware\",\"status\":\"NeedsAttention\",\"title\":\"Vol \\\"main\\\"\",\"description\":null,\"window_id\":-3,\"icon\":{\"name\":\"audio\"},\"tooltip\":{\"title\":\"t\",\"description\":\"d\\n\"},\"has_menu\":false}";
    assert_eq!(item_json(&item(false), &m), plain);
    let with_menu = "{\"id\":\":1.5/StatusNotifierItem\",\"category\":\"Hardware\",\"status\":\"NeedsAttention\",\"title\":\"Vol \\\"main\\\"\",\"description\":null,\"window_id\":-3,\"icon\":{\"name\":\"audio\"},\"tooltip\":{\"title\":\"t\",\"description\":\"d\\n\"},\"has_menu\":true,\"menu\":{\"revision\":1,\"root\":[]}}";
    assert_eq!(item_json(&item(true), &m), with_menu);
    let no_menu_yet = with_menu.replace(",\"menu\":{\"revision\":1,\"root\":[]}", "");
    assert_eq!(item_json(&item(true), &None), no_menu_yet);
    assert_eq!(dump_json(&vec![], &vec![]), "[]");
    assert_eq!(dump_json(&vec![item(false), item(false)], &vec![None, None]), format!("[{plain},{plain}]"));
}

#[test]
fn arguments_name_an_item_and_coordinates() {
    let args: Vec<String> = vec![":1.2".into(), "/x".into(), "5".into(), "y".into()];
    let id = with_bus_path(&args).unwrap();
    assert_eq!(id, TrayItemId { bus_name: ":1.2".into(), path: "/x".into() });
    assert_eq!(with_bus_path(&args[..1]).unwrap_err(), USAGE);
    assert_eq!(activate_coords(&args[2..]), (5, 0));
    assert_eq!(activate_coords(&args[3..]), (0, 0));
    let both: Vec<String> = vec!["-3".into(), "12".into()];
    assert_eq!(activate_coords(&both), (-3, 12));
}

#[test]
fn menu_tree_lists_marks_and_indentation() {
    let mut off = entry(2, MenuItemKind::Standard, "Off", vec![]);
    off.enabled = false;
    let mut on = entry(3, MenuItemKind::Standard, "On", vec![]);
    on.toggled = Some(true);
    let mut unchecked = entry(4, MenuItemKind::Standard, "No", vec![]);
    unchecked.toggled = Some(false);
    let sub = entry(1, MenuItemKind::Submenu, "More", vec![off, on, entry(5, MenuItemKind::Separator, "", vec![]), unchecked]);
    let lines = menu_lines(&vec![sub], 1);
    assert_eq!(
        lines,
        vec!["  #1 More >", "    #2 Off [disabled]", "    #3 On [x]", "    ---", "    #4 No [ ]"]
    );
}

#[test]
fn table_rows_pad_columns() {
    let header = table_header();
    assert_eq!(header, format!("{:<32} {:<15} {:<20} {:<24} menu", "ID", "STATUS", "TITLE", "ICON"));
    let mut it = item(true);
    it.title = None;
    it.icon = IconSource::Pixmap(Pixmap { width: 16, height: 8, argb: vec![] });
    assert_eq!(
        list_row(&it),
        format!("{:<32} {:<15} {:<20} {:<24} {}", ":1.5/StatusNotifierItem", "NeedsAttention", "-", "pixmap 16x8", "yes")
    );
}
