//! Text renderings used by the `tray-inspect` tool: JSON snapshots of items
//! and menus, the item table and the menu tree listing, and its argument
//! handling.

use vstd::prelude::*;

use crate::text;
use crate::tray::menu::{
    lemma_items_view_len, menu_item_view, menu_items_view, MenuItem, MenuItemKind, MenuItemView,
    MenuSnapshot, MenuSnapshotView,
};
use crate::tray::model::{
    id_text, IconSource, IconSourceView, ToolTipView, TrayCategory, TrayItem, TrayItemId,
    TrayItemIdView, TrayItemView, TrayStatus,
};

verus! {

/// Usage line of the tool.
pub const USAGE: &'static str = "usage: tray-inspect <list|watch|menu <bus> <path>|activate <bus> <path> [x y]|dump-json>";

// ── JSON strings ───────────────────────────────────────────────────────

/// Lower-case hexadecimal digit of `d` (0 to 15).
pub open spec fn hex_digit(d: int) -> char {
    if d < 10 {
        text::digit_char(d)
    } else if d == 10 {
        'a'
    } else if d == 11 {
        'b'
    } else if d == 12 {
        'c'
    } else if d == 13 {
        'd'
    } else if d == 14 {
        'e'
    } else {
        'f'
    }
}

/// JSON escape of one character: quote, backslash and the common control
/// characters by their short escapes, other control characters as
/// `\u00XX`, everything else as is.
pub open spec fn escape_char(c: char) -> Seq<char> {
    if c == '"' {
        seq!['\\', '"']
    } else if c == '\\' {
        seq!['\\', '\\']
    } else if c == '\n' {
        seq!['\\', 'n']
    } else if c == '\r' {
        seq!['\\', 'r']
    } else if c == '\t' {
        seq!['\\', 't']
    } else if (c as u32) < 0x20 {
        seq!['\\', 'u', '0', '0', hex_digit(((c as u32) / 16) as int), hex_digit(((c as u32) % 16) as int)]
    } else {
        seq![c]
    }
}

pub open spec fn escaped(s: Seq<char>) -> Seq<char>
    decreases s.len(),
{
    if s.len() == 0 {
        Seq::empty()
    } else {
        escaped(s.drop_last()) + escape_char(s.last())
    }
}

/// `s` as a JSON string literal.
pub open spec fn json_string_spec(s: Seq<char>) -> Seq<char> {
    seq!['"'] + escaped(s) + seq!['"']
}

fn hex(d: u32) -> (c: char)
    requires
        d < 16,
    ensures
        c == hex_digit(d as int),
{
    if d == 0 { '0' } else if d == 1 { '1' } else if d == 2 { '2' } else if d == 3 { '3' }
    else if d == 4 { '4' } else if d == 5 { '5' } else if d == 6 { '6' } else if d == 7 { '7' }
    else if d == 8 { '8' } else if d == 9 { '9' } else if d == 10 { 'a' } else if d == 11 { 'b' }
    else if d == 12 { 'c' } else if d == 13 { 'd' } else if d == 14 { 'e' } else { 'f' }
}

fn push_escaped(out: &mut String, c: char)
    ensures
        final(out)@ == old(out)@ + escape_char(c),
{
    let ghost o = out@;
    if c == '"' {
        out.push('\\');
        out.push('"');
    } else if c == '\\' {
        out.push('\\');
        out.push('\\');
    } else if c == '\n' {
        out.push('\\');
        out.push('n');
    } else if c == '\r' {
        out.push('\\');
        out.push('r');
    } else if c == '\t' {
        out.push('\\');
        out.push('t');
    } else if (c as u32) < 0x20 {
        let u = c as u32;
        out.push('\\');
        out.push('u');
        out.push('0');
        out.push('0');
        out.push(hex(u / 16));
        out.push(hex(u % 16));
    } else {
        out.push(c);
    }
    proof {
        assert(out@ =~= o + escape_char(c));
    }
}

/// Appends `s` as a JSON string literal to `out`.
pub fn push_json_string(out: &mut String, s: &str)
    ensures
        final(out)@ == old(out)@ + json_string_spec(s@),
{
    let cs = text::chars_of(s);
    let ghost o = out@;
    out.push('"');
    let mut i: usize = 0;
    while i < cs.len()
        invariant
            i <= cs@.len(),
            cs@ == s@,
            out@ == o + seq!['"'] + escaped(cs@.take(i as int)),
        decreases cs@.len() - i,
    {
        push_escaped(out, cs[i]);
        proof {
            assert(cs@.take(i + 1).drop_last() =~= cs@.take(i as int));
            assert(out@ =~= o + seq!['"'] + escaped(cs@.take(i + 1)));
        }
        i = i + 1;
    }
    out.push('"');
    proof {
        assert(cs@.take(cs@.len() as int) =~= s@);
        assert(out@ =~= o + json_string_spec(s@));
    }
}

/// `s` as a JSON string literal: quoted, with quote, backslash and control
/// characters escaped.
pub fn json_string(s: &str) -> (r: String)
    ensures
        r@ == json_string_spec(s@),
{
    let mut out = String::new();
    push_json_string(&mut out, s);
    proof {
        assert(Seq::<char>::empty() + json_string_spec(s@) =~= json_string_spec(s@));
    }
    out
}

/// A rendered JSON value, or `null`.
pub open spec fn opt_json_spec(v: Option<Seq<char>>) -> Seq<char> {
    match v {
        Some(s) => s,
        None => "null"@,
    }
}

/// A rendered JSON value, or `null` when absent.
pub fn opt_json(v: Option<String>) -> (r: String)
    ensures
        r@ == opt_json_spec(v.deep_view()),
{
    match v {
        Some(s) => s,
        None => String::from_str("null"),
    }
}

// ── names as `{:?}` prints them ────────────────────────────────────────

pub open spec fn bool_text(b: bool) -> Seq<char> {
    if b { "true"@ } else { "false"@ }
}

pub fn push_bool(out: &mut String, b: bool)
    ensures
        final(out)@ == old(out)@ + bool_text(b),
{
    if b {
        out.append("true");
    } else {
        out.append("false");
    }
}

pub open spec fn category_name(c: TrayCategory) -> Seq<char> {
    match c {
        TrayCategory::Application => "Application"@,
        TrayCategory::Communications => "Communications"@,
        TrayCategory::SystemServices => "SystemServices"@,
        TrayCategory::Hardware => "Hardware"@,
    }
}

/// Variant name of a category.
pub fn category_text(c: TrayCategory) -> (s: &'static str)
    ensures
        s@ == category_name(c),
{
    match c {
        TrayCategory::Application => "Application",
        TrayCategory::Communications => "Communications",
        TrayCategory::SystemServices => "SystemServices",
        TrayCategory::Hardware => "Hardware",
    }
}

pub open spec fn status_name(s: TrayStatus) -> Seq<char> {
    match s {
        TrayStatus::Passive => "Passive"@,
        TrayStatus::Active => "Active"@,
        TrayStatus::NeedsAttention => "NeedsAttention"@,
    }
}

/// Variant name of a status.
pub fn status_text(st: TrayStatus) -> (s: &'static str)
    ensures
        s@ == status_name(st),
{
    match st {
        TrayStatus::Passive => "Passive",
        TrayStatus::Active => "Active",
        TrayStatus::NeedsAttention => "NeedsAttention",
    }
}

pub open spec fn kind_name(k: MenuItemKind) -> Seq<char> {
    match k {
        MenuItemKind::Standard => "Standard"@,
        MenuItemKind::Separator => "Separator"@,
        MenuItemKind::Submenu => "Submenu"@,
    }
}

/// Variant name of a menu entry kind.
pub fn kind_text(k: MenuItemKind) -> (s: &'static str)
    ensures
        s@ == kind_name(k),
{
    match k {
        MenuItemKind::Standard => "Standard",
        MenuItemKind::Separator => "Separator",
        MenuItemKind::Submenu => "Submenu",
    }
}


// ── icons, menus, items ────────────────────────────────────────────────

pub open spec fn icon_json_spec(icon: IconSourceView) -> Seq<char> {
    match icon {
        IconSourceView::Name(n) => "{\"name\":"@ + json_string_spec(n) + "}"@,
        IconSourceView::Pixmap(p) => "{\"pixmap\":{\"width\":"@ + text::decimal(p.width as nat)
            + ",\"height\":"@ + text::decimal(p.height as nat) + ",\"argb_len\":"@ + text::decimal(
            p.argb.len(),
        ) + "}}"@,
    }
}

/// JSON object describing an icon: its theme name, or the bitmap's size and
/// byte count.
pub fn icon_json(icon: &IconSource) -> (r: String)
    ensures
        r@ == icon_json_spec(icon@),
{
    match icon {
        IconSource::Name(n) => {
            let mut out = String::from_str("{\"name\":");
            push_json_string(&mut out, n.as_str());
            out.append("}");
            out
        },
        IconSource::Pixmap(p) => {
            let mut out = String::from_str("{\"pixmap\":{\"width\":");
            text::push_decimal(&mut out, p.width as u64);
            out.append(",\"height\":");
            text::push_decimal(&mut out, p.height as u64);
            out.append(",\"argb_len\":");
            text::push_decimal(&mut out, p.argb.len() as u64);
            out.append("}}");
            out
        },
    }
}

pub open spec fn opt_piece(o: Option<Seq<char>>, key: Seq<char>) -> Seq<char> {
    match o {
        Some(x) => key + x,
        None => Seq::empty(),
    }
}

/// JSON object of a menu entry and its subtree.
pub open spec fn menu_item_json_spec(v: MenuItemView) -> Seq<char>
    decreases v,
{
    "{\"id\":"@ + text::signed_decimal(v.id as int) + ",\"kind\":\""@ + kind_name(v.kind)
        + "\",\"label\":"@ + json_string_spec(v.label) + ",\"enabled\":"@ + bool_text(v.enabled)
        + ",\"visible\":"@ + bool_text(v.visible) + opt_piece(
        match v.toggled {
            Some(t) => Some(bool_text(t)),
            None => None,
        },
        ",\"toggled\":"@,
    ) + opt_piece(
        match v.icon {
            Some(i) => Some(json_string_spec(i)),
            None => None,
        },
        ",\"icon\":"@,
    ) + (if v.children.len() > 0 {
        ",\"children\":["@ + menu_list_json(v.children) + "]"@
    } else {
        Seq::empty()
    }) + "}"@
}

/// JSON objects of a list of entries, separated by commas.
pub open spec fn menu_list_json(s: Seq<MenuItemView>) -> Seq<char>
    decreases s,
{
    if s.len() == 0 {
        Seq::empty()
    } else if s.len() == 1 {
        menu_item_json_spec(s[0])
    } else {
        menu_list_json(s.drop_last()) + ","@ + menu_item_json_spec(s.last())
    }
}

/// JSON object of a menu entry, with its children when it has any.
pub fn menu_item_json(it: &MenuItem) -> (r: String)
    ensures
        r@ == menu_item_json_spec(it@),
    decreases *it,
{
    let mut out = String::from_str("{\"id\":");
    text::push_signed_decimal(&mut out, it.id as i64);
    out.append(",\"kind\":\"");
    out.append(kind_text(it.kind));
    out.append("\",\"label\":");
    let label = json_string(it.label.as_str());
    out.append(label.as_str());
    out.append(",\"enabled\":");
    push_bool(&mut out, it.enabled);
    out.append(",\"visible\":");
    push_bool(&mut out, it.visible);
    let ghost base = out@;
    match it.toggled {
        Some(t) => {
            out.append(",\"toggled\":");
            push_bool(&mut out, t);
        },
        None => {},
    }
    proof {
        assert(out@ =~= base + opt_piece(
            match it@.toggled {
                Some(t) => Some(bool_text(t)),
                None => None,
            },
            ",\"toggled\":"@,
        ));
    }
    let ghost base2 = out@;
    match &it.icon {
        Some(i) => {
            out.append(",\"icon\":");
            let j = json_string(i.as_str());
            out.append(j.as_str());
        },
        None => {},
    }
    proof {
        assert(out@ =~= base2 + opt_piece(
            match it@.icon {
                Some(i) => Some(json_string_spec(i)),
                None => None,
            },
            ",\"icon\":"@,
        ));
    }
    let ghost base3 = out@;
    let ghost vs = it@.children;
    proof {
        lemma_items_view_len(it.children@);
    }
    if it.children.len() > 0 {
        let mut list = String::new();
        let mut i: usize = 0;
        while i < it.children.len()
            invariant
                i <= it.children@.len(),
                vs == menu_items_view(it.children@),
                vs.len() == it.children@.len(),
                forall|j: int| 0 <= j < vs.len() ==> vs[j] == menu_item_view(#[trigger] it.children@[j]),
                list@ == menu_list_json(vs.take(i as int)),
            decreases it.children@.len() - i,
        {
            proof {
                assert(decreases_to!(*it => it.children@[i as int]));
            }
            let child = menu_item_json(&it.children[i]);
            proof {
                let t = vs.take(i + 1);
                assert(t.drop_last() =~= vs.take(i as int));
                assert(t.last() == vs[i as int]);
            }
            if i == 0 {
                list = child;
                proof {
                    assert(vs.take(1)[0] == vs[0]);
                }
            } else {
                list.append(",");
                list.append(child.as_str());
            }
            i = i + 1;
        }
        proof {
            assert(vs.take(vs.len() as int) =~= vs);
        }
        out.append(",\"children\":[");
        out.append(list.as_str());
        out.append("]");
        proof {
            assert(out@ =~= base3 + (",\"children\":["@ + menu_list_json(vs) + "]"@));
        }
    } else {
        proof {
            assert(out@ =~= base3 + Seq::<char>::empty());
        }
    }
    out.append("}");
    out
}

pub open spec fn menu_json_spec(m: MenuSnapshotView) -> Seq<char> {
    "{\"revision\":"@ + text::decimal(m.revision as nat) + ",\"root\":["@ + menu_list_json(m.root)
        + "]}"@
}

/// JSON object of a menu snapshot: revision and top-level entries.
pub fn menu_json(menu: &MenuSnapshot) -> (r: String)
    ensures
        r@ == menu_json_spec(menu@),
{
    let ghost vs = menu@.root;
    proof {
        lemma_items_view_len(menu.root@);
    }
    let mut list = String::new();
    let mut i: usize = 0;
    while i < menu.root.len()
        invariant
            i <= menu.root@.len(),
            vs == menu_items_view(menu.root@),
            vs.len() == menu.root@.len(),
            forall|j: int| 0 <= j < vs.len() ==> vs[j] == menu_item_view(#[trigger] menu.root@[j]),
            list@ == menu_list_json(vs.take(i as int)),
        decreases menu.root@.len() - i,
    {
        let child = menu_item_json(&menu.root[i]);
        proof {
            let t = vs.take(i + 1);
            assert(t.drop_last() =~= vs.take(i as int));
            assert(t.last() == vs[i as int]);
        }
        if i == 0 {
            list = child;
            proof {
                assert(vs.take(1)[0] == vs[0]);
            }
        } else {
            list.append(",");
            list.append(child.as_str());
        }
        i = i + 1;
    }
    proof {
        assert(vs.take(vs.len() as int) =~= vs);
    }
    let mut out = String::from_str("{\"revision\":");
    text::push_decimal(&mut out, menu.revision as u64);
    out.append(",\"root\":[");
    out.append(list.as_str());
    out.append("]}");
    out
}

pub open spec fn tooltip_json_spec(t: ToolTipView) -> Seq<char> {
    "{\"title\":"@ + json_string_spec(t.title) + ",\"description\":"@ + json_string_spec(
        t.description,
    ) + "}"@
}

pub open spec fn opt_string_json(o: Option<Seq<char>>) -> Seq<char> {
    opt_json_spec(
        match o {
            Some(s) => Some(json_string_spec(s)),
            None => None,
        },
    )
}

/// JSON object of an item snapshot; `menu` is the item's menu snapshot, if
/// one has been fetched, and is included for items that have a menu.
pub open spec fn item_json_spec(v: TrayItemView, menu: Option<MenuSnapshotView>) -> Seq<char> {
    "{\"id\":"@ + json_string_spec(id_text(v.id)) + ",\"category\":\""@ + category_name(v.category)
        + "\",\"status\":\""@ + status_name(v.status) + "\","@ + "\"title\":"@ + opt_string_json(
        v.title,
    ) + ",\"description\":"@ + opt_string_json(v.description) + ",\"window_id\":"@
        + text::signed_decimal(v.window_id as int) + ","@ + "\"icon\":"@ + icon_json_spec(v.icon)
        + ","@ + "\"tooltip\":"@ + opt_json_spec(
        match v.tooltip {
            Some(t) => Some(tooltip_json_spec(t)),
            None => None,
        },
    ) + ",\"has_menu\":"@ + bool_text(v.has_menu) + (if v.has_menu && menu is Some {
        ",\"menu\":"@ + menu_json_spec(menu.unwrap())
    } else {
        Seq::empty()
    }) + "}"@
}

fn push_opt_string_json(out: &mut String, o: &Option<String>)
    ensures
        final(out)@ == old(out)@ + opt_string_json(o.deep_view()),
{
    match o {
        Some(s) => push_json_string(out, s.as_str()),
        None => out.append("null"),
    }
}

/// JSON object of an item snapshot, with its menu when the item has one and
/// `menu` holds it.
pub fn item_json(it: &TrayItem, menu: &Option<MenuSnapshot>) -> (r: String)
    ensures
        r@ == item_json_spec(it@, menu.deep_view()),
{
    let mut out = String::from_str("{\"id\":");
    let id = it.id.to_text();
    push_json_string(&mut out, id.as_str());
    out.append(",\"category\":\"");
    out.append(category_text(it.category));
    out.append("\",\"status\":\"");
    out.append(status_text(it.status));
    out.append("\",");
    out.append("\"title\":");
    push_opt_string_json(&mut out, &it.title);
    out.append(",\"description\":");
    push_opt_string_json(&mut out, &it.description);
    out.append(",\"window_id\":");
    text::push_signed_decimal(&mut out, it.window_id as i64);
    out.append(",");
    out.append("\"icon\":");
    let icon = icon_json(&it.icon);
    out.append(icon.as_str());
    out.append(",");
    out.append("\"tooltip\":");
    match &it.tooltip {
        Some(t) => {
            let ghost b = out@;
            out.append("{\"title\":");
            push_json_string(&mut out, t.title.as_str());
            out.append(",\"description\":");
            push_json_string(&mut out, t.description.as_str());
            out.append("}");
            proof {
                assert(out@ =~= b + tooltip_json_spec(t@));
            }
        },
        None => out.append("null"),
    }
    out.append(",\"has_menu\":");
    push_bool(&mut out, it.has_menu);
    let ghost b2 = out@;
    if it.has_menu {
        match menu {
            Some(m) => {
                out.append(",\"menu\":");
                let mj = menu_json(m);
                out.append(mj.as_str());
            },
            None => {},
        }
    }
    proof {
        assert(out@ =~= b2 + (if it@.has_menu && menu.deep_view() is Some {
            ",\"menu\":"@ + menu_json_spec(menu.deep_view().unwrap())
        } else {
            Seq::empty()
        }));
    }
    out.append("}");
    out
}


/// Items joined by commas, each with its menu.
pub open spec fn items_list_json(items: Seq<TrayItemView>, menus: Seq<Option<MenuSnapshotView>>) -> Seq<
    char,
>
    decreases items.len(),
{
    if items.len() == 0 {
        Seq::empty()
    } else if items.len() == 1 {
        item_json_spec(items[0], menus[0])
    } else {
        items_list_json(items.drop_last(), menus.take(items.len() - 1)) + ","@ + item_json_spec(
            items.last(),
            menus[items.len() - 1],
        )
    }
}

pub open spec fn item_views(items: Seq<TrayItem>) -> Seq<TrayItemView> {
    items.map_values(|t: TrayItem| t@)
}

/// Full snapshot as a JSON array: one object per item, `menus[i]` being the
/// menu snapshot of `items[i]`.
pub fn dump_json(items: &Vec<TrayItem>, menus: &Vec<Option<MenuSnapshot>>) -> (r: String)
    requires
        items@.len() == menus@.len(),
    ensures
        r@ == "["@ + items_list_json(item_views(items@), menus.deep_view()) + "]"@,
{
    let ghost iv = item_views(items@);
    let ghost mv = menus.deep_view();
    let mut list = String::new();
    let mut i: usize = 0;
    while i < items.len()
        invariant
            i <= items@.len(),
            items@.len() == menus@.len(),
            iv == item_views(items@),
            mv == menus.deep_view(),
            list@ == items_list_json(iv.take(i as int), mv.take(i as int)),
        decreases items@.len() - i,
    {
        let one = item_json(&items[i], &menus[i]);
        proof {
            assert(iv.take(i + 1).drop_last() =~= iv.take(i as int));
            assert(mv.take(i + 1).take(i as int) =~= mv.take(i as int));
            assert(iv.take(i + 1).last() == items@[i as int]@);
            assert(mv.take(i + 1)[i as int] == menus@[i as int].deep_view());
        }
        if i == 0 {
            list = one;
        } else {
            list.append(",");
            list.append(one.as_str());
        }
        i = i + 1;
    }
    proof {
        assert(iv.take(iv.len() as int) =~= iv);
        assert(mv.take(mv.len() as int) =~= mv);
    }
    let mut out = String::from_str("[");
    out.append(list.as_str());
    out.append("]");
    out
}

// ── arguments ──────────────────────────────────────────────────────────

/// The item named by the first two arguments (bus name, object path), or
/// the usage text when one is missing.
pub fn with_bus_path(args: &[String]) -> (r: Result<TrayItemId, String>)
    ensures
        args@.len() >= 2 ==> (r matches Ok(id) && id@ == (TrayItemIdView {
            bus_name: args@[0]@,
            path: args@[1]@,
        })),
        args@.len() < 2 ==> (r matches Err(e) && e@ == USAGE@),
{
    if args.len() < 2 {
        return Err(String::from_str(USAGE));
    }
    Ok(TrayItemId { bus_name: args[0].clone(), path: args[1].clone() })
}

/// Click coordinates from the arguments after the item: both given, each
/// parsed (0 where it is no integer), or (0, 0).
pub fn activate_coords(rest: &[String]) -> (r: (i32, i32))
    ensures
        rest@.len() >= 2 ==> r == (
            match text::i32_text(rest@[0]@) {
                Some(x) => x,
                None => 0,
            },
            match text::i32_text(rest@[1]@) {
                Some(y) => y,
                None => 0,
            },
        ),
        rest@.len() < 2 ==> r == (0i32, 0i32),
{
    if rest.len() < 2 {
        return (0, 0);
    }
    let x = match text::parse_i32(rest[0].as_str()) {
        Some(x) => x,
        None => 0,
    };
    let y = match text::parse_i32(rest[1].as_str()) {
        Some(y) => y,
        None => 0,
    };
    (x, y)
}

// ── menu tree listing ──────────────────────────────────────────────────

pub open spec fn marks_text(enabled: bool, toggled: Option<bool>) -> Seq<char> {
    if !enabled {
        " [disabled]"@
    } else {
        match toggled {
            Some(true) => " [x]"@,
            Some(false) => " [ ]"@,
            None => Seq::empty(),
        }
    }
}

/// Line of a non-separator entry: `#id label`, then its marks and ` >` for
/// submenus.
pub open spec fn entry_line(v: MenuItemView, pad: Seq<char>) -> Seq<char> {
    pad + "#"@ + text::signed_decimal(v.id as int) + " "@ + v.label + marks_text(v.enabled, v.toggled)
        + (if v.kind == MenuItemKind::Submenu { " >"@ } else { Seq::empty() })
}

/// Lines of an entry and its subtree; each level indents by two spaces.
pub open spec fn item_lines(v: MenuItemView, pad: Seq<char>) -> Seq<Seq<char>>
    decreases v,
{
    if v.kind == MenuItemKind::Separator {
        seq![pad + "---"@]
    } else {
        seq![entry_line(v, pad)] + list_lines(v.children, pad + "  "@)
    }
}

pub open spec fn list_lines(s: Seq<MenuItemView>, pad: Seq<char>) -> Seq<Seq<char>>
    decreases s,
{
    if s.len() == 0 {
        Seq::empty()
    } else {
        list_lines(s.drop_last(), pad) + item_lines(s.last(), pad)
    }
}

pub open spec fn strs(v: Seq<String>) -> Seq<Seq<char>> {
    v.map_values(|s: String| s@)
}

fn push_line(out: &mut Vec<String>, line: String)
    ensures
        strs(final(out)@) == strs(old(out)@).push(line@),
{
    out.push(line);
    proof {
        assert(strs(out@) =~= strs(old(out)@).push(line@));
    }
}

fn push_item_lines(out: &mut Vec<String>, it: &MenuItem, pad: &str)
    ensures
        strs(final(out)@) == strs(old(out)@) + item_lines(it@, pad@),
    decreases *it,
{
    let ghost o = strs(out@);
    if it.kind == MenuItemKind::Separator {
        let mut line = String::from_str(pad);
        line.append("---");
        push_line(out, line);
        proof {
            assert(strs(out@) =~= o + item_lines(it@, pad@));
        }
        return;
    }
    let mut line = String::from_str(pad);
    line.append("#");
    text::push_signed_decimal(&mut line, it.id as i64);
    line.append(" ");
    line.append(it.label.as_str());
    if !it.enabled {
        line.append(" [disabled]");
    } else {
        match it.toggled {
            Some(true) => line.append(" [x]"),
            Some(false) => line.append(" [ ]"),
            None => {},
        }
    }
    proof {
        assert(line@ =~= pad@ + "#"@ + text::signed_decimal(it.id as int) + " "@ + it.label@ + marks_text(
            it.enabled,
            it.toggled,
        ));
    }
    if it.kind == MenuItemKind::Submenu {
        line.append(" >");
    }
    proof {
        assert(line@ =~= entry_line(it@, pad@));
    }
    push_line(out, line);
    let mut child_pad = String::from_str(pad);
    child_pad.append("  ");
    let ghost vs = it@.children;
    let ghost o2 = strs(out@);
    proof {
        lemma_items_view_len(it.children@);
    }
    let mut i: usize = 0;
    while i < it.children.len()
        invariant
            i <= it.children@.len(),
            vs == menu_items_view(it.children@),
            vs.len() == it.children@.len(),
            forall|j: int| 0 <= j < vs.len() ==> vs[j] == menu_item_view(#[trigger] it.children@[j]),
            strs(out@) == o2 + list_lines(vs.take(i as int), child_pad@),
        decreases it.children@.len() - i,
    {
        proof {
            assert(decreases_to!(*it => it.children@[i as int]));
        }
        let ghost before = strs(out@);
        push_item_lines(out, &it.children[i], child_pad.as_str());
        proof {
            let t = vs.take(i + 1);
            assert(t.drop_last() =~= vs.take(i as int));
            assert(t.last() == vs[i as int]);
            assert(strs(out@) =~= o2 + list_lines(vs.take(i + 1), child_pad@));
        }
        i = i + 1;
    }
    proof {
        assert(vs.take(vs.len() as int) =~= vs);
        assert(strs(out@) =~= o + item_lines(it@, pad@));
    }
}

/// Indentation of `depth` levels.
pub open spec fn indent(depth: nat) -> Seq<char> {
    text::spaces(2 * depth)
}

/// The menu tree listing of `items` at `depth` levels of indentation, one
/// line per shown entry (separators as `---`).
pub fn menu_lines(items: &Vec<MenuItem>, depth: usize) -> (lines: Vec<String>)
    requires
        2 * depth <= usize::MAX,
    ensures
        strs(lines@) == list_lines(menu_items_view(items@), indent(depth as nat)),
{
    let mut pad = String::new();
    let mut k: usize = 0;
    while k < depth
        invariant
            k <= depth,
            pad@ == indent(k as nat),
        decreases depth - k,
    {
        pad.push(' ');
        pad.push(' ');
        proof {
            assert(pad@ =~= indent((k + 1) as nat));
        }
        k = k + 1;
    }
    let ghost vs = menu_items_view(items@);
    proof {
        lemma_items_view_len(items@);
    }
    let mut out: Vec<String> = Vec::new();
    let mut i: usize = 0;
    while i < items.len()
        invariant
            i <= items@.len(),
            vs == menu_items_view(items@),
            vs.len() == items@.len(),
            forall|j: int| 0 <= j < vs.len() ==> vs[j] == menu_item_view(#[trigger] items@[j]),
            strs(out@) == list_lines(vs.take(i as int), pad@),
        decreases items@.len() - i,
    {
        push_item_lines(&mut out, &items[i], pad.as_str());
        proof {
            let t = vs.take(i + 1);
            assert(t.drop_last() =~= vs.take(i as int));
            assert(t.last() == vs[i as int]);
        }
        i = i + 1;
    }
    proof {
        assert(vs.take(vs.len() as int) =~= vs);
    }
    out
}

// ── item table ─────────────────────────────────────────────────────────

/// One table row: four left-aligned columns of 32, 15, 20 and 24
/// characters, then the last column.
pub open spec fn table_row(a: Seq<char>, b: Seq<char>, c: Seq<char>, d: Seq<char>, e: Seq<char>) -> Seq<
    char,
> {
    text::pad_right_spec(a, 32) + " "@ + text::pad_right_spec(b, 15) + " "@ + text::pad_right_spec(c, 20)
        + " "@ + text::pad_right_spec(d, 24) + " "@ + e
}

fn row(a: &str, b: &str, c: &str, d: &str, e: &str) -> (r: String)
    ensures
        r@ == table_row(a@, b@, c@, d@, e@),
{
    let mut out = String::new();
    text::push_padded(&mut out, a, 32);
    out.append(" ");
    text::push_padded(&mut out, b, 15);
    out.append(" ");
    text::push_padded(&mut out, c, 20);
    out.append(" ");
    text::push_padded(&mut out, d, 24);
    out.append(" ");
    out.append(e);
    proof {
        assert(out@ =~= table_row(a@, b@, c@, d@, e@));
    }
    out
}

/// Header line of the item table.
pub fn table_header() -> (r: String)
    ensures
        r@ == table_row("ID"@, "STATUS"@, "TITLE"@, "ICON"@, "menu"@),
{
    row("ID", "STATUS", "TITLE", "ICON", "menu")
}

pub open spec fn icon_cell(icon: IconSourceView) -> Seq<char> {
    match icon {
        IconSourceView::Name(n) => "name:"@ + n,
        IconSourceView::Pixmap(p) => "pixmap "@ + text::decimal(p.width as nat) + "x"@ + text::decimal(
            p.height as nat,
        ),
    }
}

pub open spec fn list_row_spec(v: TrayItemView) -> Seq<char> {
    table_row(
        id_text(v.id),
        status_name(v.status),
        match v.title {
            Some(t) => t,
            None => "-"@,
        },
        icon_cell(v.icon),
        if v.has_menu { "yes"@ } else { "no"@ },
    )
}

/// Table row of one item: id, status, title (`-` when absent), icon and
/// whether it has a menu.
pub fn list_row(it: &TrayItem) -> (r: String)
    ensures
        r@ == list_row_spec(it@),
{
    let id = it.id.to_text();
    let icon = match &it.icon {
        IconSource::Name(n) => {
            let mut s = String::from_str("name:");
            s.append(n.as_str());
            s
        },
        IconSource::Pixmap(p) => {
            let mut s = String::from_str("pixmap ");
            text::push_decimal(&mut s, p.width as u64);
            s.append("x");
            text::push_decimal(&mut s, p.height as u64);
            s
        },
    };
    let title: &str = match &it.title {
        Some(t) => t.as_str(),
        None => "-",
    };
    row(id.as_str(), status_text(it.status), title, icon.as_str(), if it.has_menu { "yes" } else { "no" })
}

/// Text of the TITLE column of an item's row: its title, or `-` when it
/// has none.
pub open spec fn title_cell(v: TrayItemView) -> Seq<char> {
    match v.title {
        Some(t) => t,
        None => "-"@,
    }
}

/// The third column of an item's table row shows the item's title (`-`
/// only when it has none): it starts right after the padded ID and STATUS
/// columns and their separating spaces, and is padded with spaces to 20
/// characters.
pub proof fn law_row_shows_title(v: TrayItemView)
    ensures
        ({
            let off = text::pad_right_spec(id_text(v.id), 32).len() + 1int + text::pad_right_spec(
                status_name(v.status),
                15,
            ).len() + 1int;
            let c = title_cell(v);
            &&& list_row_spec(v).len() >= off + c.len()
            &&& list_row_spec(v).subrange(off, off + c.len()) == c
            &&& forall|i: int|
                off + c.len() <= i < off + 20 ==> #[trigger] list_row_spec(v)[i] == ' '
        }),
{
    reveal_strlit(" ");
    let sp = " "@;
    let c = title_cell(v);
    let x = text::pad_right_spec(id_text(v.id), 32) + sp + text::pad_right_spec(status_name(v.status), 15)
        + sp;
    let p3 = text::pad_right_spec(c, 20);
    let rest = sp + text::pad_right_spec(icon_cell(v.icon), 24) + sp + (if v.has_menu {
        "yes"@
    } else {
        "no"@
    });
    assert(list_row_spec(v) =~= x + p3 + rest);
    assert((x + p3 + rest).subrange(x.len() as int, (x.len() + c.len()) as int) =~= c);
    assert forall|i: int| x.len() + c.len() <= i < x.len() + 20 implies #[trigger] (x + p3 + rest)[i] == ' ' by {
        assert((x + p3 + rest)[i] == p3[i - x.len()]);
    }
}

/// The row of an item does not depend on its description (`Id`): two items
/// that differ only there have the same row.
pub proof fn law_row_ignores_description(a: TrayItemView, b: TrayItemView)
    requires
        a.id == b.id,
        a.status == b.status,
        a.title == b.title,
        a.icon == b.icon,
        a.has_menu == b.has_menu,
    ensures
        list_row_spec(a) == list_row_spec(b),
{
}

} // verus!

