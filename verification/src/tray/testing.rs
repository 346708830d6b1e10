//! Programmable fake SNI item ("demo item") for development and CI: its
//! state, the control messages that change it, and the property values and
//! menu layout it exports. The bus objects serving them are set up by the
//! caller.

use vstd::prelude::*;

use crate::text;
use crate::tray::menu::{mnemonic, snapshot_spec, MenuItemKind, MenuItemView, PropValueView};
use crate::tray::value::DbusValue;

verus! {

/// Configuration of a demo item.
pub struct DemoItemConfig {
    /// Object path of the demo item. Default: `/org/tray/demo/Item`.
    pub item_path: String,
    /// Whether the item exposes a menu. Default: `true`.
    pub menu: bool,
}

impl Default for DemoItemConfig {
    fn default() -> (r: Self)
        ensures
            r.item_path@ == "/org/tray/demo/Item"@,
            r.menu,
    {
        DemoItemConfig { item_path: String::from_str("/org/tray/demo/Item"), menu: true }
    }
}

/// Object path of the demo item's menu: the item path without trailing
/// slashes, then `/menu`.
pub open spec fn demo_menu_path_spec(item_path: Seq<char>) -> Seq<char> {
    text::trim_end_slashes(item_path) + "/menu"@
}

pub fn demo_menu_path(item_path: &str) -> (r: String)
    ensures
        r@ == demo_menu_path_spec(item_path@),
{
    let cs = text::chars_of(item_path);
    let mut n: usize = cs.len();
    proof {
        assert(cs@.take(n as int) =~= cs@);
    }
    while n > 0 && cs[n - 1] == '/'
        invariant
            n <= cs@.len(),
            cs@ == item_path@,
            text::trim_end_slashes(item_path@) == text::trim_end_slashes(cs@.take(n as int)),
        decreases n,
    {
        proof {
            assert(cs@.take(n as int).drop_last() =~= cs@.take(n - 1));
        }
        n = n - 1;
    }
    proof {
        assert(text::trim_end_slashes(cs@.take(n as int)) == cs@.take(n as int));
    }
    let mut r = text::string_of_range(&cs, 0, n);
    r.append("/menu");
    proof {
        assert(cs@.subrange(0, n as int) =~= cs@.take(n as int));
    }
    r
}

/// One entry of the demo menu.
pub struct DemoMenuEntry {
    pub id: i32,
    pub label: String,
    pub toggleable: bool,
    pub toggled: bool,
}

pub struct DemoEntryView {
    pub id: i32,
    pub label: Seq<char>,
    pub toggleable: bool,
    pub toggled: bool,
}

impl View for DemoMenuEntry {
    type V = DemoEntryView;

    open spec fn view(&self) -> DemoEntryView {
        DemoEntryView {
            id: self.id,
            label: self.label@,
            toggleable: self.toggleable,
            toggled: self.toggled,
        }
    }
}

/// Mutable state of a demo item.
pub struct DemoState {
    pub status: String,
    pub icon_name: String,
    pub use_pixmap: bool,
    /// Tooltip title and description.
    pub tooltip: Option<(String, String)>,
    pub menu_enabled: bool,
    pub menu_items: Vec<DemoMenuEntry>,
    pub menu_revision: u32,
    pub next_menu_id: i32,
    /// Last menu entry clicked.
    pub last_click: Option<i32>,
    /// Number of `Activate`/`SecondaryActivate` calls received.
    pub activations: u32,
}

pub struct DemoStateView {
    pub status: Seq<char>,
    pub icon_name: Seq<char>,
    pub use_pixmap: bool,
    pub tooltip: Option<(Seq<char>, Seq<char>)>,
    pub menu_enabled: bool,
    pub menu_items: Seq<DemoEntryView>,
    pub menu_revision: u32,
    pub next_menu_id: i32,
    pub last_click: Option<i32>,
    pub activations: u32,
}

pub open spec fn entry_views(s: Seq<DemoMenuEntry>) -> Seq<DemoEntryView> {
    s.map_values(|e: DemoMenuEntry| e@)
}

impl View for DemoState {
    type V = DemoStateView;

    open spec fn view(&self) -> DemoStateView {
        DemoStateView {
            status: self.status@,
            icon_name: self.icon_name@,
            use_pixmap: self.use_pixmap,
            tooltip: match self.tooltip {
                Some((t, d)) => Some((t@, d@)),
                None => None,
            },
            menu_enabled: self.menu_enabled,
            menu_items: entry_views(self.menu_items@),
            menu_revision: self.menu_revision,
            next_menu_id: self.next_menu_id,
            last_click: self.last_click,
            activations: self.activations,
        }
    }
}

/// Initial state: active, icon `demo`, a tooltip, one menu entry
/// (`About demo`, id 1).
pub open spec fn initial_state(menu: bool) -> DemoStateView {
    DemoStateView {
        status: "Active"@,
        icon_name: "demo"@,
        use_pixmap: false,
        tooltip: Some(("Demo tooltip"@, "From demo-item"@)),
        menu_enabled: menu,
        menu_items: seq![
            DemoEntryView { id: 1, label: "About demo"@, toggleable: false, toggled: false },
        ],
        menu_revision: 1,
        next_menu_id: 2,
        last_click: None,
        activations: 0,
    }
}

impl Default for DemoState {
    fn default() -> (r: Self)
        ensures
            r@ == initial_state(true),
    {
        DemoState::with_menu(true)
    }
}

impl DemoState {
    /// Initial state, with the menu mounted or not.
    pub fn with_menu(menu: bool) -> (r: Self)
        ensures
            r@ == initial_state(menu),
    {
        let mut items: Vec<DemoMenuEntry> = Vec::new();
        items.push(
            DemoMenuEntry {
                id: 1,
                label: String::from_str("About demo"),
                toggleable: false,
                toggled: false,
            },
        );
        let r = DemoState {
            status: String::from_str("Active"),
            icon_name: String::from_str("demo"),
            use_pixmap: false,
            tooltip: Some((String::from_str("Demo tooltip"), String::from_str("From demo-item"))),
            menu_enabled: menu,
            menu_items: items,
            menu_revision: 1,
            next_menu_id: 2,
            last_click: None,
            activations: 0,
        };
        proof {
            assert(r@.menu_items =~= initial_state(menu).menu_items);
        }
        r
    }
}


// ── control messages ───────────────────────────────────────────────────

/// A control message `cmd arg` split at its first space (`arg` empty when
/// there is none).
pub open spec fn command_of(msg: Seq<char>) -> (Seq<char>, Seq<char>) {
    match text::split_once_spec(msg, ' ') {
        Some(p) => p,
        None => (msg, Seq::empty()),
    }
}

/// Whether the command changes the menu (and a `LayoutUpdated` signal is
/// due).
pub open spec fn touches_menu(cmd: Seq<char>) -> bool {
    cmd == "menu_add"@ || cmd == "menu_toggle"@ || cmd == "menu_remove"@ || cmd == "menu"@
}

/// Index of the first entry with the given id.
pub open spec fn entry_index_from(es: Seq<DemoEntryView>, id: i32, i: int) -> Option<int>
    decreases es.len() - i,
{
    if i < 0 || i >= es.len() {
        None
    } else if es[i].id == id {
        Some(i)
    } else {
        entry_index_from(es, id, i + 1)
    }
}

/// The first entry with the given id becomes toggleable and flips its
/// state; the others are unchanged.
pub open spec fn toggle_entry(es: Seq<DemoEntryView>, id: i32) -> Seq<DemoEntryView> {
    match entry_index_from(es, id, 0) {
        Some(i) => es.update(i, DemoEntryView { toggleable: true, toggled: !es[i].toggled, ..es[i] }),
        None => es,
    }
}

/// The entries without those carrying `id`.
pub open spec fn without_entry(es: Seq<DemoEntryView>, id: i32) -> Seq<DemoEntryView> {
    es.filter(|e: DemoEntryView| e.id != id)
}

pub open spec fn tooltip_arg(arg: Seq<char>) -> Option<(Seq<char>, Seq<char>)> {
    let (t, d) = match text::split_once_spec(arg, '|') {
        Some(p) => p,
        None => (Seq::empty(), Seq::empty()),
    };
    if t.len() == 0 && d.len() == 0 {
        None
    } else {
        Some((t, d))
    }
}

/// Effect of a control message: the new state and the id of an added menu
/// entry (-1 for other messages).
pub open spec fn apply_spec(s: DemoStateView, msg: Seq<char>) -> (DemoStateView, i32) {
    let (cmd, arg) = command_of(msg);
    if cmd == "status"@ {
        (DemoStateView { status: arg, ..s }, -1i32)
    } else if cmd == "icon"@ {
        (DemoStateView { icon_name: arg, use_pixmap: false, ..s }, -1i32)
    } else if cmd == "pixmap"@ {
        (DemoStateView { use_pixmap: arg == "on"@, ..s }, -1i32)
    } else if cmd == "tooltip"@ {
        (DemoStateView { tooltip: tooltip_arg(arg), ..s }, -1i32)
    } else if cmd == "menu_add"@ {
        (
            DemoStateView {
                menu_items: s.menu_items.push(
                    DemoEntryView { id: s.next_menu_id, label: arg, toggleable: false, toggled: false },
                ),
                next_menu_id: (s.next_menu_id + 1) as i32,
                ..s
            },
            s.next_menu_id,
        )
    } else if cmd == "menu_toggle"@ {
        match text::i32_text(arg) {
            Some(id) => (DemoStateView { menu_items: toggle_entry(s.menu_items, id), ..s }, -1i32),
            None => (s, -1i32),
        }
    } else if cmd == "menu_remove"@ {
        match text::i32_text(arg) {
            Some(id) => (
                DemoStateView {
                    menu_items: without_entry(s.menu_items, id),
                    ..s
                },
                -1i32,
            ),
            None => (s, -1i32),
        }
    } else if cmd == "menu"@ {
        (DemoStateView { menu_enabled: arg == "on"@, ..s }, -1i32)
    } else {
        (s, -1i32)
    }
}

/// Result of applying a control message.
pub struct Applied {
    /// Id of the entry a `menu_add` created, else -1.
    pub added_id: i32,
    /// Whether the menu layout changed kind of command was given.
    pub menu_changed: bool,
}

impl DemoState {
    fn toggle(&mut self, id: i32)
        ensures
            final(self)@ == (DemoStateView { menu_items: toggle_entry(old(self)@.menu_items, id), ..old(self)@ }),
    {
        let ghost es = self@.menu_items;
        let mut i: usize = 0;
        while i < self.menu_items.len()
            invariant
                i <= self.menu_items@.len(),
                self@ == old(self)@,
                es == self@.menu_items,
                entry_index_from(es, id, 0) == entry_index_from(es, id, i as int),
            decreases self.menu_items@.len() - i,
        {
            proof {
                assert(es[i as int] == self.menu_items@[i as int]@);
            }
            if self.menu_items[i].id == id {
                let e = DemoMenuEntry {
                    id,
                    label: self.menu_items[i].label.clone(),
                    toggleable: true,
                    toggled: !self.menu_items[i].toggled,
                };
                self.menu_items.set(i, e);
                proof {
                    assert(entry_views(self.menu_items@) =~= es.update(
                        i as int,
                        DemoEntryView { toggleable: true, toggled: !es[i as int].toggled, ..es[i as int] },
                    ));
                }
                return;
            }
            i = i + 1;
        }
    }

    fn remove_entries(&mut self, id: i32)
        ensures
            final(self)@ == (DemoStateView {
                menu_items: without_entry(old(self)@.menu_items, id),
                ..old(self)@
            }),
    {
        let ghost s0 = old(self)@.menu_items;
        let ghost f = |e: DemoEntryView| e.id != id;
        let len0 = self.menu_items.len();
        let mut i: usize = 0;
        let mut n: usize = 0;
        while i < self.menu_items.len()
            invariant
                i <= n <= s0.len(),
                s0.len() == len0,
                s0 == old(self)@.menu_items,
                entry_views(self.menu_items@) == s0.take(n as int).filter(f) + s0.skip(n as int),
                i == s0.take(n as int).filter(f).len(),
                f == (|e: DemoEntryView| e.id != id),
                self@ == (DemoStateView { menu_items: entry_views(self.menu_items@), ..old(self)@ }),
            decreases s0.len() - n,
        {
            proof {
                assert(entry_views(self.menu_items@).len() == self.menu_items@.len());
                assert(self.menu_items@.len() == i + (s0.len() - n));
                assert(n < len0);
                assert(entry_views(self.menu_items@)[i as int] == self.menu_items@[i as int]@);
                assert(s0.skip(n as int)[0] == s0[n as int]);
                assert(self.menu_items@[i as int]@ == s0[n as int]);
                assert(s0.take(n + 1).drop_last() =~= s0.take(n as int));
                reveal(Seq::filter);
            }
            let ghost before = self.menu_items@;
            if self.menu_items[i].id == id {
                let _gone = self.menu_items.remove(i);
                proof {
                    reveal(Seq::filter);
                    assert(s0.take(n + 1).filter(f) =~= s0.take(n as int).filter(f));
                    assert(entry_views(self.menu_items@) =~= entry_views(before).remove(i as int));
                    assert(entry_views(self.menu_items@) =~= s0.take(n + 1).filter(f) + s0.skip(n + 1));
                }
            } else {
                proof {
                    assert(s0.take(n + 1).filter(f) =~= s0.take(n as int).filter(f).push(s0[n as int]));
                    assert(entry_views(self.menu_items@) =~= s0.take(n + 1).filter(f) + s0.skip(n + 1));
                }
                i = i + 1;
            }
            n = n + 1;
        }
        proof {
            assert(entry_views(self.menu_items@).len() == self.menu_items@.len());
            assert(self.menu_items@.len() == i + (s0.len() - n));
            assert(s0.take(s0.len() as int) =~= s0);
            assert(entry_views(self.menu_items@) =~= s0.filter(f));
        }
    }

    /// Apply a control message (`status X`, `icon X`, `pixmap on|off`,
    /// `tooltip T|D`, `menu_add L`, `menu_toggle N`, `menu_remove N`,
    /// `menu on|off`); anything else changes nothing.
    pub fn apply(&mut self, msg: &str) -> (r: Applied)
        requires
            command_of(msg@).0 == "menu_add"@ ==> old(self).next_menu_id < i32::MAX,
        ensures
            (final(self)@, r.added_id) == apply_spec(old(self)@, msg@),
            r.menu_changed == touches_menu(command_of(msg@).0),
    {
        let (cmd, arg) = match text::split_once(msg, ' ') {
            Some(p) => p,
            None => (msg.to_owned(), String::new()),
        };
        let c = cmd.as_str();
        let menu_changed = text::same(c, "menu_add") || text::same(c, "menu_toggle") || text::same(
            c,
            "menu_remove",
        ) || text::same(c, "menu");
        let mut added_id: i32 = -1;
        if text::same(c, "status") {
            self.status = arg;
        } else if text::same(c, "icon") {
            self.icon_name = arg;
            self.use_pixmap = false;
        } else if text::same(c, "pixmap") {
            self.use_pixmap = text::same(arg.as_str(), "on");
        } else if text::same(c, "tooltip") {
            let (t, d) = match text::split_once(arg.as_str(), '|') {
                Some(p) => p,
                None => (String::new(), String::new()),
            };
            self.tooltip = if t.as_str().is_empty() && d.as_str().is_empty() {
                None
            } else {
                Some((t, d))
            };
        } else if text::same(c, "menu_add") {
            let id = self.next_menu_id;
            self.next_menu_id = id + 1;
            self.menu_items.push(DemoMenuEntry { id, label: arg, toggleable: false, toggled: false });
            added_id = id;
            proof {
                assert(self@.menu_items =~= old(self)@.menu_items.push(
                    DemoEntryView { id, label: command_of(msg@).1, toggleable: false, toggled: false },
                ));
            }
        } else if text::same(c, "menu_toggle") {
            match text::parse_i32(arg.as_str()) {
                Some(id) => self.toggle(id),
                None => {},
            }
        } else if text::same(c, "menu_remove") {
            match text::parse_i32(arg.as_str()) {
                Some(id) => self.remove_entries(id),
                None => {},
            }
        } else if text::same(c, "menu") {
            self.menu_enabled = text::same(arg.as_str(), "on");
        }
        Applied { added_id, menu_changed }
    }
}


// ── exported properties ────────────────────────────────────────────────

/// Whether pixel `px` of the 4x2 checkerboard is lit.
pub open spec fn checker_lit(px: int) -> bool {
    (px % 4 + px / 4) % 2 == 0
}

/// The 4x2 checkerboard bitmap, ARGB32 in network byte order: opaque red
/// on lit pixels, opaque blue on the others.
pub open spec fn checker_bytes() -> Seq<u8> {
    Seq::new(
        32,
        |k: int|
            {
                let lit = checker_lit(k / 4);
                let ch = k % 4;
                if ch == 0 {
                    255u8
                } else if ch == 1 {
                    if lit { 220u8 } else { 30u8 }
                } else if ch == 2 {
                    30u8
                } else {
                    if lit { 30u8 } else { 220u8 }
                }
            },
    )
}

/// A bitmap as exported on the bus: width, height, bytes.
pub type PixmapTuple = (i32, i32, Vec<u8>);

/// `v` is the string `s`.
pub open spec fn str_is(v: DbusValue, s: Seq<char>) -> bool {
    v matches DbusValue::Str(x) && x@ == s
}

pub open spec fn variant_str_is(v: DbusValue, s: Seq<char>) -> bool {
    v matches DbusValue::Variant(b) && str_is(*b, s)
}

pub open spec fn demo_props_ok(v: DbusValue, e: DemoEntryView) -> bool {
    match v {
        DbusValue::Dict(d) => {
            &&& d@.len() == (if e.toggleable { 5int } else { 3int })
            &&& str_is(d@[0].0, "label"@) && variant_str_is(d@[0].1, e.label)
            &&& str_is(d@[1].0, "enabled"@) && d@[1].1 == DbusValue::Variant(Box::new(DbusValue::Bool(true)))
            &&& str_is(d@[2].0, "visible"@) && d@[2].1 == DbusValue::Variant(Box::new(DbusValue::Bool(true)))
            &&& e.toggleable ==> {
                &&& str_is(d@[3].0, "toggle-type"@) && variant_str_is(d@[3].1, "checkmark"@)
                &&& str_is(d@[4].0, "toggle-state"@) && d@[4].1 == DbusValue::Variant(
                    Box::new(DbusValue::I32(if e.toggled { 1i32 } else { 0i32 })),
                )
            }
        },
        _ => false,
    }
}

pub open spec fn demo_child_ok(v: DbusValue, e: DemoEntryView) -> bool {
    match v {
        DbusValue::Variant(b) => match *b {
            DbusValue::Structure(f) => {
                &&& f@.len() == 3
                &&& f@[0] == DbusValue::I32(e.id)
                &&& demo_props_ok(f@[1], e)
                &&& f@[2] matches DbusValue::Array(a) && a@.len() == 0
            },
            _ => false,
        },
        _ => false,
    }
}

/// Layout of the demo menu's root node: entry `e` becomes a child node
/// (inside a variant) with id `e.id`, no children and the properties
/// `label`, `enabled` (true), `visible` (true), plus `toggle-type`
/// (`checkmark`) and `toggle-state` (1 or 0) when it is toggleable.
pub open spec fn demo_layout_ok(v: DbusValue, entries: Seq<DemoEntryView>) -> bool {
    match v {
        DbusValue::Structure(f) => {
            &&& f@.len() == 3
            &&& f@[0] == DbusValue::I32(0)
            &&& f@[1] matches DbusValue::Dict(d) && d@.len() == 0
            &&& f@[2] matches DbusValue::Array(cs) && cs@.len() == entries.len() && forall|i: int|
                0 <= i < entries.len() ==> demo_child_ok(#[trigger] cs@[i], entries[i])
        },
        _ => false,
    }
}

fn str_value(s: &str) -> (v: DbusValue)
    ensures
        str_is(v, s@),
{
    DbusValue::Str(s.to_owned())
}

fn entry_node(e: &DemoMenuEntry) -> (v: DbusValue)
    ensures
        demo_child_ok(v, e@),
{
    let mut props: Vec<(DbusValue, DbusValue)> = Vec::new();
    props.push((str_value("label"), DbusValue::Variant(Box::new(DbusValue::Str(e.label.clone())))));
    props.push((str_value("enabled"), DbusValue::Variant(Box::new(DbusValue::Bool(true)))));
    props.push((str_value("visible"), DbusValue::Variant(Box::new(DbusValue::Bool(true)))));
    if e.toggleable {
        props.push((str_value("toggle-type"), DbusValue::Variant(Box::new(str_value("checkmark")))));
        props.push(
            (
                str_value("toggle-state"),
                DbusValue::Variant(Box::new(DbusValue::I32(if e.toggled { 1 } else { 0 }))),
            ),
        );
    }
    let mut fields: Vec<DbusValue> = Vec::new();
    fields.push(DbusValue::I32(e.id));
    fields.push(DbusValue::Dict(props));
    fields.push(DbusValue::Array(Vec::new()));
    DbusValue::Variant(Box::new(DbusValue::Structure(fields)))
}

impl DemoState {
    /// `Status` property.
    pub fn status_prop(&self) -> (r: String)
        ensures
            r@ == self@.status,
    {
        self.status.clone()
    }

    /// `IconName` property: empty while the bitmap is shown.
    pub fn icon_name_prop(&self) -> (r: String)
        ensures
            r@ == (if self.use_pixmap { Seq::empty() } else { self@.icon_name }),
    {
        if self.use_pixmap {
            String::new()
        } else {
            self.icon_name.clone()
        }
    }

    /// `IconPixmap` property: the 4x2 checkerboard while the bitmap is
    /// shown, else nothing.
    pub fn icon_pixmap_prop(&self) -> (r: Vec<PixmapTuple>)
        ensures
            self.use_pixmap ==> r@.len() == 1 && r@[0].0 == 4 && r@[0].1 == 2 && r@[0].2@ == checker_bytes(),
            !self.use_pixmap ==> r@.len() == 0,
    {
        let mut out: Vec<PixmapTuple> = Vec::new();
        if self.use_pixmap {
            let mut argb: Vec<u8> = Vec::new();
            let mut px: usize = 0;
            while px < 8
                invariant
                    px <= 8,
                    argb@ == checker_bytes().take(4 * px as int),
                decreases 8 - px,
            {
                let x = px % 4;
                let y = px / 4;
                let lit = (x + y) % 2 == 0;
                let ghost before = argb@;
                argb.push(255);
                argb.push(if lit { 220 } else { 30 });
                argb.push(30);
                argb.push(if lit { 30 } else { 220 });
                proof {
                    let b = 4 * px as int;
                    assert(b / 4 == px && (b + 1) / 4 == px && (b + 2) / 4 == px && (b + 3) / 4 == px);
                    assert(b % 4 == 0 && (b + 1) % 4 == 1 && (b + 2) % 4 == 2 && (b + 3) % 4 == 3);
                    assert(checker_lit(px as int) == lit);
                    assert(argb@ =~= checker_bytes().take(4 * (px + 1)));
                }
                px = px + 1;
            }
            out.push((4, 2, argb));
        }
        out
    }

    /// `ToolTip` property: no icon, the title and description (empty when
    /// there is no tooltip).
    pub fn tool_tip_prop(&self) -> (r: (String, Vec<PixmapTuple>, String, String))
        ensures
            r.0@.len() == 0,
            r.1@.len() == 0,
            match self@.tooltip {
                Some((t, d)) => r.2@ == t && r.3@ == d,
                None => r.2@.len() == 0 && r.3@.len() == 0,
            },
    {
        match &self.tooltip {
            Some((t, d)) => (String::new(), Vec::new(), t.clone(), d.clone()),
            None => (String::new(), Vec::new(), String::new(), String::new()),
        }
    }

    /// `Menu` property: the menu object path while the menu is mounted,
    /// else `/`.
    pub fn menu_prop(&self, menu_path: &str) -> (r: String)
        ensures
            r@ == (if self.menu_enabled { menu_path@ } else { "/"@ }),
    {
        if self.menu_enabled {
            menu_path.to_owned()
        } else {
            String::from_str("/")
        }
    }

    /// An `Activate` or `SecondaryActivate` call arrived.
    pub fn record_activation(&mut self)
        requires
            old(self).activations < u32::MAX,
        ensures
            final(self)@ == (DemoStateView { activations: (old(self).activations + 1) as u32, ..old(self)@ }),
    {
        self.activations = self.activations + 1;
    }

    /// A dbusmenu `Event` arrived: `clicked` records the entry.
    pub fn record_event(&mut self, id: i32, event_id: &str)
        ensures
            event_id@ == "clicked"@ ==> final(self)@ == (DemoStateView { last_click: Some(id), ..old(self)@ }),
            event_id@ != "clicked"@ ==> final(self)@ == old(self)@,
    {
        if text::same(event_id, "clicked") {
            self.last_click = Some(id);
        }
    }

    /// `GetLayout` reply: the revision and the root node holding one child
    /// per entry, in order.
    pub fn layout(&self) -> (r: (u32, DbusValue))
        ensures
            r.0 == self.menu_revision,
            demo_layout_ok(r.1, self@.menu_items),
    {
        let mut children: Vec<DbusValue> = Vec::new();
        let mut i: usize = 0;
        while i < self.menu_items.len()
            invariant
                i <= self.menu_items@.len(),
                children@.len() == i,
                forall|j: int| 0 <= j < i ==> demo_child_ok(#[trigger] children@[j], self@.menu_items[j]),
            decreases self.menu_items@.len() - i,
        {
            children.push(entry_node(&self.menu_items[i]));
            i = i + 1;
        }
        let mut fields: Vec<DbusValue> = Vec::new();
        fields.push(DbusValue::I32(0));
        fields.push(DbusValue::Dict(Vec::new()));
        fields.push(DbusValue::Array(children));
        (self.menu_revision, DbusValue::Structure(fields))
    }
}


// ── messages sent by the demo item's handle ────────────────────────────

pub open spec fn lower_char(c: char) -> char {
    if 'A' <= c && c <= 'Z' {
        ((c as u32) + 32) as char
    } else {
        c
    }
}

/// ASCII lower-casing (`to_ascii_lowercase`).
pub open spec fn ascii_lower(s: Seq<char>) -> Seq<char> {
    s.map_values(|c: char| lower_char(c))
}

/// Status word for a requested status: `passive` and `needs-attention`
/// (in any ASCII case) name those states, anything else is `Active`.
pub open spec fn status_word_spec(requested: Seq<char>) -> Seq<char> {
    if ascii_lower(requested) == "passive"@ {
        "Passive"@
    } else if ascii_lower(requested) == "needs-attention"@ {
        "NeedsAttention"@
    } else {
        "Active"@
    }
}

fn lowered(s: &str) -> (r: String)
    ensures
        r@ == ascii_lower(s@),
{
    let cs = text::chars_of(s);
    let mut out = String::new();
    let mut i: usize = 0;
    while i < cs.len()
        invariant
            i <= cs@.len(),
            cs@ == s@,
            out@ == ascii_lower(cs@.take(i as int)),
        decreases cs@.len() - i,
    {
        let c = cs[i];
        let l = if 'A' <= c && c <= 'Z' {
            ((c as u8) + 32) as char
        } else {
            c
        };
        proof {
            if 'A' <= c && c <= 'Z' {
                assert((c as u8) as u32 == c as u32);
            }
            assert(l == lower_char(c));
        }
        out.push(l);
        proof {
            assert(ascii_lower(cs@.take(i + 1)) =~= ascii_lower(cs@.take(i as int)).push(lower_char(c)));
        }
        i = i + 1;
    }
    proof {
        assert(cs@.take(cs@.len() as int) =~= s@);
    }
    out
}

/// The status word sent for a requested status.
pub fn status_word(requested: &str) -> (r: &'static str)
    ensures
        r@ == status_word_spec(requested@),
{
    let l = lowered(requested);
    if text::same(l.as_str(), "passive") {
        "Passive"
    } else if text::same(l.as_str(), "needs-attention") {
        "NeedsAttention"
    } else {
        "Active"
    }
}

fn message_with(cmd: &str, arg: &str) -> (r: String)
    ensures
        r@ == cmd@ + " "@ + arg@,
{
    let mut m = cmd.to_owned();
    m.append(" ");
    m.append(arg);
    m
}

/// Message switching the status (`passive`, `active`, `needs-attention`).
pub fn status_message(status: &str) -> (r: String)
    ensures
        r@ == "status"@ + " "@ + status_word_spec(status@),
{
    message_with("status", status_word(status))
}

/// Message switching to a theme icon name.
pub fn icon_message(name: &str) -> (r: String)
    ensures
        r@ == "icon"@ + " "@ + name@,
{
    message_with("icon", name)
}

/// Message toggling between theme icon and embedded bitmap.
pub fn pixmap_message(on: bool) -> (r: String)
    ensures
        r@ == "pixmap"@ + " "@ + (if on { "on"@ } else { "off"@ }),
{
    message_with("pixmap", if on { "on" } else { "off" })
}

/// Message setting the tooltip (both empty clears it).
pub fn tooltip_message(title: &str, description: &str) -> (r: String)
    ensures
        r@ == "tooltip"@ + " "@ + (title@ + "|"@ + description@),
{
    let mut arg = title.to_owned();
    arg.append("|");
    arg.append(description);
    message_with("tooltip", arg.as_str())
}

/// Message appending a menu entry.
pub fn menu_add_message(label: &str) -> (r: String)
    ensures
        r@ == "menu_add"@ + " "@ + label@,
{
    message_with("menu_add", label)
}

/// Message making an entry toggleable and flipping it.
pub fn menu_toggle_message(id: i32) -> (r: String)
    ensures
        r@ == "menu_toggle"@ + " "@ + text::signed_decimal(id as int),
{
    let mut n = String::new();
    text::push_signed_decimal(&mut n, id as i64);
    proof {
        assert(Seq::<char>::empty() + text::signed_decimal(id as int) =~= text::signed_decimal(id as int));
    }
    message_with("menu_toggle", n.as_str())
}

/// Message removing a menu entry.
pub fn menu_remove_message(id: i32) -> (r: String)
    ensures
        r@ == "menu_remove"@ + " "@ + text::signed_decimal(id as int),
{
    let mut n = String::new();
    text::push_signed_decimal(&mut n, id as i64);
    proof {
        assert(Seq::<char>::empty() + text::signed_decimal(id as int) =~= text::signed_decimal(id as int));
    }
    message_with("menu_remove", n.as_str())
}

/// Message mounting or unmounting the menu.
pub fn menu_message(on: bool) -> (r: String)
    ensures
        r@ == "menu"@ + " "@ + (if on { "on"@ } else { "off"@ }),
{
    message_with("menu", if on { "on" } else { "off" })
}

/// Service string of a demo item as watchers see it: its unique bus name
/// followed by the item path.
pub fn demo_service(unique: &str, item_path: &str) -> (r: String)
    ensures
        r@ == unique@ + item_path@,
{
    let mut s = unique.to_owned();
    s.append(item_path);
    s
}


// ── laws ───────────────────────────────────────────────────────────────

proof fn lemma_command_split(word: Seq<char>, arg: Seq<char>)
    requires
        forall|i: int| 0 <= i < word.len() ==> word[i] != ' ',
    ensures
        command_of(word + " "@ + arg) == (word, arg),
{
    reveal_strlit(" ");
    let m = word + " "@ + arg;
    assert forall|j: int| 0 <= j < word.len() implies m[j] != ' ' by {
        assert(m[j] == word[j]);
    }
    text::lemma_index_of(m, ' ', word.len() as int);
    assert(m.take(word.len() as int) =~= word);
    assert(m.skip(word.len() as int + 1) =~= arg);
}

/// The status message sets the status to its word.
pub proof fn law_status_message(s: DemoStateView, word: Seq<char>)
    ensures
        apply_spec(s, "status"@ + " "@ + word) == (DemoStateView { status: word, ..s }, -1i32),
{
    reveal_strlit("status");
    lemma_command_split("status"@, word);
}

/// The icon message shows the named theme icon (leaving the bitmap).
pub proof fn law_icon_message(s: DemoStateView, name: Seq<char>)
    ensures
        apply_spec(s, "icon"@ + " "@ + name) == (DemoStateView { icon_name: name, use_pixmap: false, ..s }, -1i32),
{
    reveal_strlit("status");
    reveal_strlit("icon");
    reveal_strlit("pixmap");
    reveal_strlit("tooltip");
    reveal_strlit("menu_add");
    reveal_strlit("menu_toggle");
    reveal_strlit("menu_remove");
    reveal_strlit("menu");
    lemma_command_split("icon"@, name);
}

/// The menu-add message appends an entry under the next id and reports it.
pub proof fn law_menu_add_message(s: DemoStateView, label: Seq<char>)
    ensures
        apply_spec(s, "menu_add"@ + " "@ + label) == (
            DemoStateView {
                menu_items: s.menu_items.push(
                    DemoEntryView { id: s.next_menu_id, label, toggleable: false, toggled: false },
                ),
                next_menu_id: (s.next_menu_id + 1) as i32,
                ..s
            },
            s.next_menu_id,
        ),
{
    reveal_strlit("status");
    reveal_strlit("icon");
    reveal_strlit("pixmap");
    reveal_strlit("tooltip");
    reveal_strlit("menu_add");
    reveal_strlit("menu_toggle");
    reveal_strlit("menu_remove");
    reveal_strlit("menu");
    lemma_command_split("menu_add"@, label);
}

/// The toggle message toggles exactly the entry whose id it names: the
/// id survives its rendering as text.
pub proof fn law_menu_toggle_message(s: DemoStateView, id: i32)
    ensures
        apply_spec(s, "menu_toggle"@ + " "@ + text::signed_decimal(id as int)) == (
            DemoStateView { menu_items: toggle_entry(s.menu_items, id), ..s },
            -1i32,
        ),
{
    reveal_strlit("status");
    reveal_strlit("icon");
    reveal_strlit("pixmap");
    reveal_strlit("tooltip");
    reveal_strlit("menu_add");
    reveal_strlit("menu_toggle");
    reveal_strlit("menu_remove");
    reveal_strlit("menu");
    lemma_command_split("menu_toggle"@, text::signed_decimal(id as int));
    text::lemma_i32_text_of_decimal(id);
}

/// The remove message drops the entries with the id it names.
pub proof fn law_menu_remove_message(s: DemoStateView, id: i32)
    ensures
        apply_spec(s, "menu_remove"@ + " "@ + text::signed_decimal(id as int)) == (
            DemoStateView { menu_items: without_entry(s.menu_items, id), ..s },
            -1i32,
        ),
{
    reveal_strlit("status");
    reveal_strlit("icon");
    reveal_strlit("pixmap");
    reveal_strlit("tooltip");
    reveal_strlit("menu_add");
    reveal_strlit("menu_toggle");
    reveal_strlit("menu_remove");
    reveal_strlit("menu");
    lemma_command_split("menu_remove"@, text::signed_decimal(id as int));
    text::lemma_i32_text_of_decimal(id);
    assert(command_of("menu_remove"@ + " "@ + text::signed_decimal(id as int)).0 == "menu_remove"@);
    assert("menu_remove"@[5] != "menu_toggle"@[5]);
}

/// The tooltip message sets title and description (a title without `|`),
/// or clears the tooltip when both are empty.
pub proof fn law_tooltip_message(s: DemoStateView, title: Seq<char>, description: Seq<char>)
    requires
        forall|i: int| 0 <= i < title.len() ==> title[i] != '|',
    ensures
        apply_spec(s, "tooltip"@ + " "@ + (title + "|"@ + description)) == (
            DemoStateView {
                tooltip: if title.len() == 0 && description.len() == 0 {
                    None
                } else {
                    Some((title, description))
                },
                ..s
            },
            -1i32,
        ),
{
    reveal_strlit("status");
    reveal_strlit("icon");
    reveal_strlit("pixmap");
    reveal_strlit("tooltip");
    reveal_strlit("menu_add");
    reveal_strlit("menu_toggle");
    reveal_strlit("menu_remove");
    reveal_strlit("menu");
    reveal_strlit("|");
    lemma_command_split("tooltip"@, title + "|"@ + description);
    let a = title + "|"@ + description;
    assert forall|j: int| 0 <= j < title.len() implies a[j] != '|' by {
        assert(a[j] == title[j]);
    }
    text::lemma_index_of(a, '|', title.len() as int);
    assert(a.take(title.len() as int) =~= title);
    assert(a.skip(title.len() as int + 1) =~= description);
}

/// What a host reads from the demo menu: one entry per demo entry, in
/// order, labelled with mnemonics resolved, enabled and visible, with a
/// check state exactly when toggleable, without icon or children.
pub open spec fn demo_entry_read(e: DemoEntryView) -> MenuItemView {
    MenuItemView {
        id: e.id,
        kind: MenuItemKind::Standard,
        label: mnemonic(e.label),
        enabled: true,
        visible: true,
        toggled: if e.toggleable { Some(e.toggled) } else { None },
        icon: None,
        children: Seq::empty(),
    }
}

proof fn lemma_key_texts()
    ensures
        "label"@ != "type"@,
        "label"@ != "children-display"@,
        "label"@ != "toggle-type"@,
        "label"@ != "icon-name"@,
        "toggle-type"@ != "type"@,
        "toggle-type"@ != "children-display"@,
        "toggle-type"@ != "label"@,
        "toggle-type"@ != "icon-name"@,
        "enabled"@ != "visible"@,
        "visible"@ != "enabled"@,
        "toggle-state"@ != "enabled"@,
        "toggle-state"@ != "visible"@,
        "enabled"@.len() > 0,
        "checkmark"@.len() == 9,
{
    reveal_strlit("label");
    reveal_strlit("enabled");
    reveal_strlit("visible");
    reveal_strlit("toggle-type");
    reveal_strlit("toggle-state");
    reveal_strlit("type");
    reveal_strlit("children-display");
    reveal_strlit("icon-name");
    reveal_strlit("checkmark");
    assert("label"@.len() == 5);
    assert("enabled"@.len() == 7);
    assert("visible"@.len() == 7);
    assert("toggle-type"@.len() == 11);
    assert("toggle-state"@.len() == 12);
    assert("type"@.len() == 4);
    assert("children-display"@.len() == 16);
    assert("icon-name"@.len() == 9);
    assert("enabled"@[0] != "visible"@[0]);
    assert("checkmark"@.len() == 9);
}

proof fn lemma_child_reads_back(v: DbusValue, e: DemoEntryView, depth: int)
    requires
        demo_child_ok(v, e),
        depth >= 0,
    ensures
        v matches DbusValue::Variant(inner) && crate::tray::menu::node_spec(*inner, depth) == Some(
            demo_entry_read(e),
        ),
{
    lemma_key_texts();
    if let DbusValue::Variant(b) = v {
        if let DbusValue::Structure(f) = *b {
            if let DbusValue::Dict(d) = f@[1] {
                let dv = d@;
                let p = crate::tray::menu::props_of(f@[1]);
                reveal_with_fuel(crate::tray::menu::props_of_seq, 6);
                let p3 = seq![
                    ("label"@, PropValueView::Str(e.label)),
                    ("enabled"@, PropValueView::Bool(true)),
                    ("visible"@, PropValueView::Bool(true)),
                ];
                let p5 = p3 + seq![
                    ("toggle-type"@, PropValueView::Str("checkmark"@)),
                    ("toggle-state"@, PropValueView::Int(if e.toggled { 1i32 } else { 0i32 })),
                ];
                assert(dv.take(1).drop_last() =~= dv.take(0));
                assert(dv.take(2).drop_last() =~= dv.take(1));
                assert(dv.take(3).drop_last() =~= dv.take(2));
                assert(crate::tray::menu::props_of_seq(dv.take(3)) =~= p3);
                if e.toggleable {
                    assert(dv.take(4).drop_last() =~= dv.take(3));
                    assert(dv.drop_last() =~= dv.take(4));
                    assert(dv.take(5) =~= dv);
                    assert(p =~= p5);
                    reveal_with_fuel(crate::tray::menu::first_str, 6);
                    reveal_with_fuel(crate::tray::menu::first_bool, 6);
                    reveal_with_fuel(crate::tray::menu::first_int, 6);
                    assert(crate::tray::menu::first_str(p, "type"@) is None);
                    assert(crate::tray::menu::first_str(p, "children-display"@) is None);
                    assert(crate::tray::menu::first_str(p, "label"@) == Some(e.label));
                    assert(crate::tray::menu::first_bool(p, "enabled"@) == Some(true));
                    assert(crate::tray::menu::first_bool(p, "visible"@) == Some(true));
                    assert(crate::tray::menu::first_str(p, "toggle-type"@) == Some("checkmark"@));
                    assert(crate::tray::menu::first_int(p, "toggle-state"@) == Some(if e.toggled { 1i32 } else { 0i32 }));
                    assert(crate::tray::menu::first_str(p, "icon-name"@) is None);
                } else {
                    assert(dv.take(3) =~= dv);
                    assert(p =~= p3);
                    reveal_with_fuel(crate::tray::menu::first_str, 4);
                    reveal_with_fuel(crate::tray::menu::first_bool, 4);
                    reveal_with_fuel(crate::tray::menu::first_int, 4);
                    assert(crate::tray::menu::first_str(p, "type"@) is None);
                    assert(crate::tray::menu::first_str(p, "children-display"@) is None);
                    assert(crate::tray::menu::first_str(p, "label"@) == Some(e.label));
                    assert(crate::tray::menu::first_bool(p, "enabled"@) == Some(true));
                    assert(crate::tray::menu::first_bool(p, "visible"@) == Some(true));
                    assert(crate::tray::menu::first_str(p, "toggle-type"@) is None);
                    assert(crate::tray::menu::first_str(p, "icon-name"@) is None);
                }
                assert(crate::tray::menu::children_spec(f@[2], depth - 1) =~= Seq::<MenuItemView>::empty());
                assert(crate::tray::menu::node_spec(*b, depth) == Some(demo_entry_read(e)));
            }
        }
    }
}

/// The menu a host reads from the demo item's layout (at any depth) lists
/// the demo entries as they are.
pub proof fn law_demo_menu_reads_back(entries: Seq<DemoEntryView>, layout: DbusValue, revision: u32, max_depth: u8)
    requires
        demo_layout_ok(layout, entries),
    ensures
        snapshot_spec(revision, layout, max_depth).root == entries.map_values(
            |e: DemoEntryView| demo_entry_read(e),
        ),
{
    if let DbusValue::Structure(f) = layout {
        if let DbusValue::Array(cs) = f@[2] {
            lemma_children_read_back(cs@, entries, max_depth as int, cs@.len() as int);
            assert(cs@.take(cs@.len() as int) =~= cs@);
            let want = entries.map_values(|e: DemoEntryView| demo_entry_read(e));
            assert(want.take(want.len() as int) =~= want);
        }
    }
}

proof fn lemma_children_read_back(cs: Seq<DbusValue>, entries: Seq<DemoEntryView>, depth: int, k: int)
    requires
        0 <= k <= cs.len(),
        cs.len() == entries.len(),
        forall|i: int| 0 <= i < entries.len() ==> demo_child_ok(#[trigger] cs[i], entries[i]),
        depth >= 0,
    ensures
        crate::tray::menu::items_spec(cs.take(k), depth) == entries.map_values(
            |e: DemoEntryView| demo_entry_read(e),
        ).take(k),
    decreases k,
{
    let want = entries.map_values(|e: DemoEntryView| demo_entry_read(e));
    if k == 0 {
        assert(want.take(0) =~= Seq::<MenuItemView>::empty());
    } else {
        lemma_children_read_back(cs, entries, depth, k - 1);
        lemma_child_reads_back(cs[k - 1], entries[k - 1], depth);
        assert(cs.take(k).drop_last() =~= cs.take(k - 1));
        assert(cs.take(k).last() == cs[k - 1]);
        assert(want.take(k) =~= want.take(k - 1).push(want[k - 1]));
    }
}


// ── interactive driver ─────────────────────────────────────────────────

/// One line typed at the interactive demo item.
pub enum DemoLine {
    /// Empty line or `remove`: unregister and quit.
    Stop,
    Status(String),
    Icon(String),
    Pixmap(bool),
    Tooltip(String, String),
    MenuAdd(String),
    MenuToggle(i32),
    MenuRemove(i32),
    /// `menu` with an unknown sub-command.
    MenuUsage,
    ToggleMenu,
    /// Anything else (the trimmed line).
    Unknown(String),
}

pub enum DemoLineView {
    Stop,
    Status(Seq<char>),
    Icon(Seq<char>),
    Pixmap(bool),
    Tooltip(Seq<char>, Seq<char>),
    MenuAdd(Seq<char>),
    MenuToggle(i32),
    MenuRemove(i32),
    MenuUsage,
    ToggleMenu,
    Unknown(Seq<char>),
}

impl View for DemoLine {
    type V = DemoLineView;

    open spec fn view(&self) -> DemoLineView {
        match self {
            DemoLine::Stop => DemoLineView::Stop,
            DemoLine::Status(a) => DemoLineView::Status(a@),
            DemoLine::Icon(a) => DemoLineView::Icon(a@),
            DemoLine::Pixmap(b) => DemoLineView::Pixmap(*b),
            DemoLine::Tooltip(t, d) => DemoLineView::Tooltip(t@, d@),
            DemoLine::MenuAdd(l) => DemoLineView::MenuAdd(l@),
            DemoLine::MenuToggle(i) => DemoLineView::MenuToggle(*i),
            DemoLine::MenuRemove(i) => DemoLineView::MenuRemove(*i),
            DemoLine::MenuUsage => DemoLineView::MenuUsage,
            DemoLine::ToggleMenu => DemoLineView::ToggleMenu,
            DemoLine::Unknown(l) => DemoLineView::Unknown(l@),
        }
    }
}

/// Text split at its first space (the rest empty when there is none).
pub open spec fn first_word(s: Seq<char>) -> (Seq<char>, Seq<char>) {
    match text::split_once_spec(s, ' ') {
        Some(p) => p,
        None => (s, Seq::empty()),
    }
}

/// An entry id typed by the user, -1 when it is no integer.
pub open spec fn typed_id(s: Seq<char>) -> i32 {
    match text::i32_text(s) {
        Some(i) => i,
        None => -1i32,
    }
}

/// Meaning of a typed line (trimmed first).
pub open spec fn demo_line_spec(raw: Seq<char>) -> DemoLineView {
    let line = text::trimmed(raw);
    let (cmd, rest) = first_word(line);
    if line.len() == 0 {
        DemoLineView::Stop
    } else if cmd == "status"@ {
        DemoLineView::Status(rest)
    } else if cmd == "icon"@ {
        DemoLineView::Icon(rest)
    } else if cmd == "pixmap"@ {
        DemoLineView::Pixmap(rest != "off"@)
    } else if cmd == "tooltip"@ {
        DemoLineView::Tooltip(first_word(rest).0, first_word(rest).1)
    } else if cmd == "menu"@ {
        let (sub, arg) = first_word(rest);
        if sub == "add"@ {
            DemoLineView::MenuAdd(arg)
        } else if sub == "toggle"@ {
            DemoLineView::MenuToggle(typed_id(arg))
        } else if sub == "remove"@ {
            DemoLineView::MenuRemove(typed_id(arg))
        } else {
            DemoLineView::MenuUsage
        }
    } else if cmd == "toggle-menu"@ {
        DemoLineView::ToggleMenu
    } else if cmd == "remove"@ {
        DemoLineView::Stop
    } else {
        DemoLineView::Unknown(line)
    }
}

fn split_word(s: &str) -> (r: (String, String))
    ensures
        (r.0@, r.1@) == first_word(s@),
{
    match text::split_once(s, ' ') {
        Some(p) => p,
        None => (s.to_owned(), String::new()),
    }
}

fn typed(s: &str) -> (r: i32)
    ensures
        r == typed_id(s@),
{
    match text::parse_i32(s) {
        Some(i) => i,
        None => -1,
    }
}

/// Read a line typed at the interactive demo item.
pub fn parse_demo_line(raw: &str) -> (r: DemoLine)
    ensures
        r@ == demo_line_spec(raw@),
{
    let cs = text::chars_of(raw);
    let t = text::trim_chars(cs.as_slice());
    let line = text::string_of(t.as_slice());
    if t.len() == 0 {
        return DemoLine::Stop;
    }
    let (cmd, rest) = split_word(line.as_str());
    let c = cmd.as_str();
    if text::same(c, "status") {
        DemoLine::Status(rest)
    } else if text::same(c, "icon") {
        DemoLine::Icon(rest)
    } else if text::same(c, "pixmap") {
        DemoLine::Pixmap(!text::same(rest.as_str(), "off"))
    } else if text::same(c, "tooltip") {
        let (a, b) = split_word(rest.as_str());
        DemoLine::Tooltip(a, b)
    } else if text::same(c, "menu") {
        let (sub, arg) = split_word(rest.as_str());
        if text::same(sub.as_str(), "add") {
            DemoLine::MenuAdd(arg)
        } else if text::same(sub.as_str(), "toggle") {
            DemoLine::MenuToggle(typed(arg.as_str()))
        } else if text::same(sub.as_str(), "remove") {
            DemoLine::MenuRemove(typed(arg.as_str()))
        } else {
            DemoLine::MenuUsage
        }
    } else if text::same(c, "toggle-menu") {
        DemoLine::ToggleMenu
    } else if text::same(c, "remove") {
        DemoLine::Stop
    } else {
        DemoLine::Unknown(line)
    }
}

} // verus!

