//! DBusMenu client (`com.canonical.dbusmenu`): read-only menu snapshots built
//! from `GetLayout` replies.

use vstd::prelude::*;

use crate::text;
use crate::tray::value::DbusValue;

verus! {

/// Kind of a menu entry.
#[derive(Debug, Clone, Copy, PartialEq, Eq, Structural)]
pub enum MenuItemKind {
    /// Regular action entry.
    Standard,
    /// Visual separator.
    Separator,
    /// Container with children.
    Submenu,
}

impl Default for MenuItemKind {
    fn default() -> (r: Self)
        ensures
            r == MenuItemKind::Standard,
    {
        MenuItemKind::Standard
    }
}

/// One entry of a menu snapshot.
#[derive(Debug, PartialEq)]
pub struct MenuItem {
    /// dbusmenu item id (needed for activation).
    pub id: i32,
    /// Kind of the entry.
    pub kind: MenuItemKind,
    /// Label with mnemonic underscores resolved (`_File` -> `File`).
    pub label: String,
    /// Whether the entry is enabled (false = greyed out).
    pub enabled: bool,
    /// Whether the entry is visible.
    pub visible: bool,
    /// Check/radio state, if the entry is toggleable.
    pub toggled: Option<bool>,
    /// Optional icon (theme name).
    pub icon: Option<String>,
    /// Child entries (empty beyond the configured depth).
    pub children: Vec<MenuItem>,
}

/// Mathematical value of a [`MenuItem`] (and its subtree).
pub struct MenuItemView {
    pub id: i32,
    pub kind: MenuItemKind,
    pub label: Seq<char>,
    pub enabled: bool,
    pub visible: bool,
    pub toggled: Option<bool>,
    pub icon: Option<Seq<char>>,
    pub children: Seq<MenuItemView>,
}

pub open spec fn menu_item_view(m: MenuItem) -> MenuItemView
    decreases m,
{
    MenuItemView {
        id: m.id,
        kind: m.kind,
        label: m.label@,
        enabled: m.enabled,
        visible: m.visible,
        toggled: m.toggled,
        icon: m.icon.deep_view(),
        children: menu_items_view(m.children@),
    }
}

pub open spec fn menu_items_view(s: Seq<MenuItem>) -> Seq<MenuItemView>
    decreases s,
{
    if s.len() == 0 {
        Seq::empty()
    } else {
        menu_items_view(s.drop_last()).push(menu_item_view(s.last()))
    }
}

impl View for MenuItem {
    type V = MenuItemView;

    open spec fn view(&self) -> MenuItemView {
        menu_item_view(*self)
    }
}

/// A read-only snapshot of a tray item's menu.
#[derive(Debug, PartialEq)]
pub struct MenuSnapshot {
    /// Menu revision as reported by the item.
    pub revision: u32,
    /// Top-level entries, truncated at the configured maximum depth.
    pub root: Vec<MenuItem>,
}

pub struct MenuSnapshotView {
    pub revision: u32,
    pub root: Seq<MenuItemView>,
}

impl View for MenuSnapshot {
    type V = MenuSnapshotView;

    open spec fn view(&self) -> MenuSnapshotView {
        MenuSnapshotView { revision: self.revision, root: menu_items_view(self.root@) }
    }
}

impl DeepView for MenuSnapshot {
    type V = MenuSnapshotView;

    open spec fn deep_view(&self) -> MenuSnapshotView {
        self@
    }
}

/// The view of a list of entries has one view per entry, in order.
pub proof fn lemma_items_view_len(s: Seq<MenuItem>)
    ensures
        menu_items_view(s).len() == s.len(),
        forall|i: int| 0 <= i < s.len() ==> menu_items_view(s)[i] == menu_item_view(#[trigger] s[i]),
    decreases s.len(),
{
    if s.len() > 0 {
        lemma_items_view_len(s.drop_last());
        assert forall|i: int| 0 <= i < s.len() implies menu_items_view(s)[i] == menu_item_view(
            #[trigger] s[i],
        ) by {
            if i < s.len() - 1 {
                assert(s.drop_last()[i] == s[i]);
            }
        }
    }
}

/// Two item sequences have equal views iff they agree entry by entry.
proof fn lemma_items_view_ext(a: Seq<MenuItem>, b: Seq<MenuItem>)
    ensures
        (menu_items_view(a) == menu_items_view(b)) == (a.len() == b.len() && forall|i: int|
            0 <= i < a.len() ==> menu_item_view(#[trigger] a[i]) == menu_item_view(b[i])),
{
    lemma_items_view_len(a);
    lemma_items_view_len(b);
    if a.len() == b.len() && forall|i: int|
        0 <= i < a.len() ==> menu_item_view(#[trigger] a[i]) == menu_item_view(b[i]) {
        assert forall|i: int| 0 <= i < a.len() implies menu_items_view(a)[i] == menu_items_view(
            b,
        )[i] by {
            assert(menu_items_view(a)[i] == menu_item_view(a[i]));
            assert(menu_items_view(b)[i] == menu_item_view(b[i]));
        }
        assert(menu_items_view(a) =~= menu_items_view(b));
    }
    if menu_items_view(a) == menu_items_view(b) {
        assert forall|i: int| 0 <= i < a.len() implies menu_item_view(#[trigger] a[i])
            == menu_item_view(b[i]) by {
            assert(menu_items_view(a)[i] == menu_items_view(b)[i]);
        }
    }
}

impl MenuItem {
    /// An independent copy of this entry and its subtree.
    pub fn duplicate(&self) -> (r: MenuItem)
        ensures
            r@ == self@,
        decreases *self,
    {
        let mut children: Vec<MenuItem> = Vec::new();
        let mut i: usize = 0;
        while i < self.children.len()
            invariant
                i <= self.children@.len(),
                children@.len() == i,
                forall|j: int| 0 <= j < i ==> menu_item_view(#[trigger] children@[j])
                    == menu_item_view(self.children@[j]),
            decreases self.children@.len() - i,
        {
            proof {
                assert(decreases_to!(*self => self.children@[i as int]));
            }
            let c = self.children[i].duplicate();
            children.push(c);
            i = i + 1;
        }
        proof {
            lemma_items_view_ext(children@, self.children@);
        }
        MenuItem {
            id: self.id,
            kind: self.kind,
            label: self.label.clone(),
            enabled: self.enabled,
            visible: self.visible,
            toggled: self.toggled,
            icon: match &self.icon {
                Some(s) => Some(s.clone()),
                None => None,
            },
            children,
        }
    }

    /// Whether both entries (and their subtrees) are identical.
    pub fn same_as(&self, other: &MenuItem) -> (r: bool)
        ensures
            r == (self@ == other@),
        decreases *self,
    {
        proof {
            lemma_items_view_ext(self.children@, other.children@);
        }
        if self.id != other.id || self.kind != other.kind || self.label != other.label
            || self.enabled != other.enabled || self.visible != other.visible || self.toggled
            != other.toggled {
            return false;
        }
        let same_icon = match (&self.icon, &other.icon) {
            (Some(a), Some(b)) => *a == *b,
            (None, None) => true,
            _ => false,
        };
        if !same_icon {
            return false;
        }
        if self.children.len() != other.children.len() {
            return false;
        }
        let mut i: usize = 0;
        while i < self.children.len()
            invariant
                i <= self.children@.len(),
                self.children@.len() == other.children@.len(),
                forall|j: int| 0 <= j < i ==> menu_item_view(#[trigger] self.children@[j])
                    == menu_item_view(other.children@[j]),
            decreases self.children@.len() - i,
        {
            proof {
                assert(decreases_to!(*self => self.children@[i as int]));
            }
            if !self.children[i].same_as(&other.children[i]) {
                proof {
                    lemma_items_view_ext(self.children@, other.children@);
                }
                return false;
            }
            i = i + 1;
        }
        true
    }
}

impl MenuSnapshot {
    /// An independent copy of the snapshot.
    pub fn duplicate(&self) -> (r: MenuSnapshot)
        ensures
            r@ == self@,
    {
        let mut root: Vec<MenuItem> = Vec::new();
        let mut i: usize = 0;
        while i < self.root.len()
            invariant
                i <= self.root@.len(),
                root@.len() == i,
                forall|j: int| 0 <= j < i ==> menu_item_view(#[trigger] root@[j]) == menu_item_view(
                    self.root@[j],
                ),
            decreases self.root@.len() - i,
        {
            root.push(self.root[i].duplicate());
            i = i + 1;
        }
        proof {
            lemma_items_view_ext(root@, self.root@);
        }
        MenuSnapshot { revision: self.revision, root }
    }

    /// Whether both snapshots are identical.
    pub fn same_as(&self, other: &MenuSnapshot) -> (r: bool)
        ensures
            r == (self@ == other@),
    {
        proof {
            lemma_items_view_ext(self.root@, other.root@);
        }
        if self.revision != other.revision || self.root.len() != other.root.len() {
            return false;
        }
        let mut i: usize = 0;
        while i < self.root.len()
            invariant
                i <= self.root@.len(),
                self.root@.len() == other.root@.len(),
                forall|j: int| 0 <= j < i ==> menu_item_view(#[trigger] self.root@[j])
                    == menu_item_view(other.root@[j]),
            decreases self.root@.len() - i,
        {
            if !self.root[i].same_as(&other.root[i]) {
                proof {
                    lemma_items_view_ext(self.root@, other.root@);
                }
                return false;
            }
            i = i + 1;
        }
        true
    }
}

// ── property bag ────────────────────────────────────────────────────────

/// A menu entry property value the parser understands.
#[derive(Debug)]
pub enum PropValue {
    Str(String),
    Bool(bool),
    Int(i32),
}

pub enum PropValueView {
    Str(Seq<char>),
    Bool(bool),
    Int(i32),
}

impl View for PropValue {
    type V = PropValueView;

    open spec fn view(&self) -> PropValueView {
        match self {
            PropValue::Str(s) => PropValueView::Str(s@),
            PropValue::Bool(b) => PropValueView::Bool(*b),
            PropValue::Int(i) => PropValueView::Int(*i),
        }
    }
}

/// Properties of one menu entry, in wire order.
pub type PropMap = Vec<(String, PropValue)>;

pub open spec fn prop_map_view(m: Seq<(String, PropValue)>) -> Seq<(Seq<char>, PropValueView)> {
    m.map_values(|e: (String, PropValue)| (e.0@, e.1@))
}

/// The entry a dictionary pair contributes: string keys only; variant
/// values are unwrapped; strings, booleans, `i32` and `u32` (reinterpreted
/// as `i32`) are kept.
pub open spec fn prop_entry(k: DbusValue, v: DbusValue) -> Option<(Seq<char>, PropValueView)> {
    match k {
        DbusValue::Str(key) => {
            let inner = match v {
                DbusValue::Variant(b) => *b,
                other => other,
            };
            match inner {
                DbusValue::Str(s) => Some((key@, PropValueView::Str(s@))),
                DbusValue::Bool(b) => Some((key@, PropValueView::Bool(b))),
                DbusValue::I32(i) => Some((key@, PropValueView::Int(i))),
                DbusValue::U32(u) => Some((key@, PropValueView::Int(u as i32))),
                _ => None,
            }
        },
        _ => None,
    }
}

pub open spec fn props_of_seq(d: Seq<(DbusValue, DbusValue)>) -> Seq<(Seq<char>, PropValueView)>
    decreases d.len(),
{
    if d.len() == 0 {
        Seq::empty()
    } else {
        let rest = props_of_seq(d.drop_last());
        match prop_entry(d.last().0, d.last().1) {
            Some(e) => rest.push(e),
            None => rest,
        }
    }
}

/// The property bag of a layout node's `a{sv}` field (empty if not a dict).
pub open spec fn props_of(v: DbusValue) -> Seq<(Seq<char>, PropValueView)> {
    match v {
        DbusValue::Dict(d) => props_of_seq(d@),
        _ => Seq::empty(),
    }
}

/// Collect the property bag of an `a{sv}` value.
pub fn prop_lookup(value: &DbusValue) -> (out: PropMap)
    ensures
        prop_map_view(out@) == props_of(*value),
{
    let mut out: PropMap = Vec::new();
    match value {
        DbusValue::Dict(dict) => {
            let mut i: usize = 0;
            while i < dict.len()
                invariant
                    i <= dict@.len(),
                    props_of(*value) == props_of_seq(dict@),
                    prop_map_view(out@) == props_of_seq(dict@.take(i as int)),
                decreases dict@.len() - i,
            {
                proof {
                    assert(dict@.take(i + 1).drop_last() == dict@.take(i as int));
                }
                let (k, v) = &dict[i];
                if let DbusValue::Str(key) = k {
                    let inner: &DbusValue = match v {
                        DbusValue::Variant(b) => &**b,
                        other => other,
                    };
                    let prop = match inner {
                        DbusValue::Str(s) => Some(PropValue::Str(s.clone())),
                        DbusValue::Bool(b) => Some(PropValue::Bool(*b)),
                        DbusValue::I32(n) => Some(PropValue::Int(*n)),
                        DbusValue::U32(u) => Some(PropValue::Int(*u as i32)),
                        _ => None,
                    };
                    if let Some(p) = prop {
                        out.push((key.clone(), p));
                    }
                }
                proof {
                    assert(prop_map_view(out@) =~= props_of_seq(dict@.take(i + 1)));
                }
                i = i + 1;
            }
            proof {
                assert(dict@.take(dict@.len() as int) == dict@);
            }
        },
        _ => {
            proof {
                assert(prop_map_view(out@) =~= Seq::<(Seq<char>, PropValueView)>::empty());
            }
        },
    }
    out
}

/// First string property named `key`.
pub open spec fn first_str(m: Seq<(Seq<char>, PropValueView)>, key: Seq<char>) -> Option<Seq<char>>
    decreases m.len(),
{
    if m.len() == 0 {
        None
    } else {
        match m[0].1 {
            PropValueView::Str(s) => if m[0].0 == key {
                Some(s)
            } else {
                first_str(m.drop_first(), key)
            },
            _ => first_str(m.drop_first(), key),
        }
    }
}

/// First boolean property named `key`.
pub open spec fn first_bool(m: Seq<(Seq<char>, PropValueView)>, key: Seq<char>) -> Option<bool>
    decreases m.len(),
{
    if m.len() == 0 {
        None
    } else {
        match m[0].1 {
            PropValueView::Bool(b) => if m[0].0 == key {
                Some(b)
            } else {
                first_bool(m.drop_first(), key)
            },
            _ => first_bool(m.drop_first(), key),
        }
    }
}

/// First integer property named `key`.
pub open spec fn first_int(m: Seq<(Seq<char>, PropValueView)>, key: Seq<char>) -> Option<i32>
    decreases m.len(),
{
    if m.len() == 0 {
        None
    } else {
        match m[0].1 {
            PropValueView::Int(i) => if m[0].0 == key {
                Some(i)
            } else {
                first_int(m.drop_first(), key)
            },
            _ => first_int(m.drop_first(), key),
        }
    }
}

pub fn prop_str(props: &PropMap, key: &str) -> (r: Option<String>)
    ensures
        r.deep_view() == first_str(prop_map_view(props@), key@),
{
    let ghost m = prop_map_view(props@);
    let mut i: usize = 0;
    proof {
        assert(m.skip(0) =~= m);
    }
    while i < props.len()
        invariant
            i <= props@.len(),
            m == prop_map_view(props@),
            first_str(m, key@) == first_str(m.skip(i as int), key@),
        decreases props@.len() - i,
    {
        proof {
            assert(m.skip(i as int).drop_first() =~= m.skip(i + 1));
            assert(m.skip(i as int)[0] == m[i as int]);
        }
        let (k, v) = &props[i];
        if let PropValue::Str(s) = v {
            if text::same(k.as_str(), key) {
                return Some(s.clone());
            }
        }
        i = i + 1;
    }
    None
}

pub fn prop_bool(props: &PropMap, key: &str) -> (r: Option<bool>)
    ensures
        r == first_bool(prop_map_view(props@), key@),
{
    let ghost m = prop_map_view(props@);
    let mut i: usize = 0;
    proof {
        assert(m.skip(0) =~= m);
    }
    while i < props.len()
        invariant
            i <= props@.len(),
            m == prop_map_view(props@),
            first_bool(m, key@) == first_bool(m.skip(i as int), key@),
        decreases props@.len() - i,
    {
        proof {
            assert(m.skip(i as int).drop_first() =~= m.skip(i + 1));
            assert(m.skip(i as int)[0] == m[i as int]);
        }
        let (k, v) = &props[i];
        if let PropValue::Bool(b) = v {
            if text::same(k.as_str(), key) {
                return Some(*b);
            }
        }
        i = i + 1;
    }
    None
}

pub fn prop_i32(props: &PropMap, key: &str) -> (r: Option<i32>)
    ensures
        r == first_int(prop_map_view(props@), key@),
{
    let ghost m = prop_map_view(props@);
    let mut i: usize = 0;
    proof {
        assert(m.skip(0) =~= m);
    }
    while i < props.len()
        invariant
            i <= props@.len(),
            m == prop_map_view(props@),
            first_int(m, key@) == first_int(m.skip(i as int), key@),
        decreases props@.len() - i,
    {
        proof {
            assert(m.skip(i as int).drop_first() =~= m.skip(i + 1));
            assert(m.skip(i as int)[0] == m[i as int]);
        }
        let (k, v) = &props[i];
        if let PropValue::Int(n) = v {
            if text::same(k.as_str(), key) {
                return Some(*n);
            }
        }
        i = i + 1;
    }
    None
}

// ── mnemonics ───────────────────────────────────────────────────────────

/// dbusmenu label mnemonics resolved: `__` is a literal underscore, `_X`
/// marks the mnemonic `X` (kept as plain `X`), a trailing `_` is dropped.
pub open spec fn mnemonic(s: Seq<char>) -> Seq<char>
    decreases s.len(),
{
    if s.len() == 0 {
        Seq::empty()
    } else if s[0] == '_' {
        if s.len() == 1 {
            Seq::empty()
        } else {
            seq![s[1]] + mnemonic(s.subrange(2, s.len() as int))
        }
    } else {
        seq![s[0]] + mnemonic(s.drop_first())
    }
}

/// Resolve dbusmenu label mnemonics: `__` is a literal underscore, `_X`
/// marks the mnemonic `X` (dropped in plain-text labels).
pub fn parse_mnemonic(label: &str) -> (out: String)
    ensures
        out@ == mnemonic(label@),
{
    let v = text::chars_of(label);
    let n = v.len();
    let mut out = String::new();
    let mut i: usize = 0;
    proof {
        assert(v@.skip(0) =~= v@);
        assert(out@ + mnemonic(v@.skip(0)) =~= mnemonic(v@));
    }
    while i < n
        invariant
            n == v@.len(),
            v@ == label@,
            i <= n,
            out@ + mnemonic(v@.skip(i as int)) == mnemonic(label@),
        decreases n - i,
    {
        let ghost rest = v@.skip(i as int);
        let ghost before = out@;
        if v[i] == '_' {
            if i + 1 < n {
                out.push(v[i + 1]);
                proof {
                    assert(rest.subrange(2, rest.len() as int) =~= v@.skip(i + 2));
                    assert(rest[1] == v@[i + 1]);
                    assert(out@ + mnemonic(v@.skip(i + 2)) =~= before + mnemonic(rest));
                }
                i = i + 2;
            } else {
                proof {
                    assert(rest.len() == 1);
                    assert(v@.skip(i + 1).len() == 0);
                    assert(out@ + mnemonic(v@.skip(i + 1)) =~= before + mnemonic(rest));
                }
                i = i + 1;
            }
        } else {
            out.push(v[i]);
            proof {
                assert(rest.drop_first() =~= v@.skip(i + 1));
                assert(out@ + mnemonic(v@.skip(i + 1)) =~= before + mnemonic(rest));
            }
            i = i + 1;
        }
    }
    proof {
        assert(v@.skip(i as int).len() == 0);
        assert(out@ + mnemonic(v@.skip(i as int)) =~= out@);
    }
    out
}


// ── layout parsing ──────────────────────────────────────────────────────

/// Entry kind from its properties: `type = "separator"` wins, then
/// `children-display = "submenu"`, else a standard entry.
pub open spec fn kind_of(props: Seq<(Seq<char>, PropValueView)>) -> MenuItemKind {
    if first_str(props, "type"@) == Some("separator"@) {
        MenuItemKind::Separator
    } else if first_str(props, "children-display"@) == Some("submenu"@) {
        MenuItemKind::Submenu
    } else {
        MenuItemKind::Standard
    }
}

/// Check state: only entries whose `toggle-type` is `checkmark` or `radio`
/// have one; a negative `toggle-state` means indeterminate (none), 1 means
/// on.
pub open spec fn toggled_of(props: Seq<(Seq<char>, PropValueView)>) -> Option<bool> {
    let toggle_type = match first_str(props, "toggle-type"@) {
        Some(t) => t,
        None => Seq::empty(),
    };
    if toggle_type != "checkmark"@ && toggle_type != "radio"@ {
        None
    } else {
        match first_int(props, "toggle-state"@) {
            Some(st) => if st >= 0 { Some(st == 1) } else { None },
            None => None,
        }
    }
}

/// The entry built from an id, its property bag and its parsed children.
pub open spec fn entry_of(
    id: i32,
    props: Seq<(Seq<char>, PropValueView)>,
    children: Seq<MenuItemView>,
) -> MenuItemView {
    MenuItemView {
        id,
        kind: kind_of(props),
        label: mnemonic(
            match first_str(props, "label"@) {
                Some(l) => l,
                None => Seq::empty(),
            },
        ),
        enabled: match first_bool(props, "enabled"@) {
            Some(b) => b,
            None => true,
        },
        visible: match first_bool(props, "visible"@) {
            Some(b) => b,
            None => true,
        },
        toggled: toggled_of(props),
        icon: first_str(props, "icon-name"@),
        children,
    }
}

/// One `(ia{sv}av)` layout node; children are parsed only while `depth > 0`.
pub open spec fn node_spec(v: DbusValue, depth: int) -> Option<MenuItemView>
    decreases v,
{
    match v {
        DbusValue::Structure(fields) => if fields@.len() == 3 {
            match fields@[0] {
                DbusValue::I32(id) => Some(
                    entry_of(
                        id,
                        props_of(fields@[1]),
                        if depth > 0 {
                            children_spec(fields@[2], depth - 1)
                        } else {
                            Seq::empty()
                        },
                    ),
                ),
                _ => None,
            }
        } else {
            None
        },
        _ => None,
    }
}

/// The `av` children of a layout node; nothing below depth 0.
pub open spec fn children_spec(layout: DbusValue, depth: int) -> Seq<MenuItemView>
    decreases layout,
{
    if depth < 0 {
        Seq::empty()
    } else {
        match layout {
            DbusValue::Array(items) => items_spec(items@, depth),
            _ => Seq::empty(),
        }
    }
}

/// Entries of a child array: variants holding well-formed nodes, in order;
/// anything else is skipped.
pub open spec fn items_spec(items: Seq<DbusValue>, depth: int) -> Seq<MenuItemView>
    decreases items,
{
    if items.len() == 0 {
        Seq::empty()
    } else {
        let rest = items_spec(items.drop_last(), depth);
        match items.last() {
            DbusValue::Variant(inner) => match node_spec(*inner, depth) {
                Some(e) => rest.push(e),
                None => rest,
            },
            _ => rest,
        }
    }
}

/// Parse the `av` items of a layout node into menu entries.
pub fn parse_children(layout: &DbusValue, depth: i32) -> (out: Vec<MenuItem>)
    ensures
        menu_items_view(out@) == children_spec(*layout, depth as int),
    decreases *layout,
{
    let mut out: Vec<MenuItem> = Vec::new();
    if depth < 0 {
        proof {
            assert(menu_items_view(out@) =~= Seq::<MenuItemView>::empty());
        }
        return out;
    }
    match layout {
        DbusValue::Array(items) => {
            let mut i: usize = 0;
            while i < items.len()
                invariant
                    i <= items@.len(),
                    depth >= 0,
                    children_spec(*layout, depth as int) == items_spec(items@, depth as int),
                    *layout == DbusValue::Array(*items),
                    menu_items_view(out@) == items_spec(items@.take(i as int), depth as int),
                decreases items@.len() - i,
            {
                proof {
                    assert(items@.take(i + 1).drop_last() == items@.take(i as int));
                    assert(items@.take(i + 1).last() == items@[i as int]);
                }
                let ghost before = out@;
                match &items[i] {
                    DbusValue::Variant(inner) => {
                        proof {
                            assert(decreases_to!(*layout => items@[i as int]));
                        }
                        match parse_node(&**inner, depth) {
                            Some(e) => {
                                out.push(e);
                                proof {
                                    assert(out@.drop_last() == before);
                                }
                            },
                            None => {},
                        }
                    },
                    _ => {},
                }
                i = i + 1;
            }
            proof {
                assert(items@.take(items@.len() as int) == items@);
            }
        },
        _ => {
            proof {
                assert(menu_items_view(out@) =~= Seq::<MenuItemView>::empty());
            }
        },
    }
    out
}

/// Parse one `(ia{sv}av)` layout node.
pub fn parse_node(value: &DbusValue, depth: i32) -> (r: Option<MenuItem>)
    ensures
        match r {
            Some(m) => node_spec(*value, depth as int) == Some(m@),
            None => node_spec(*value, depth as int) is None,
        },
    decreases *value,
{
    let fields = match value {
        DbusValue::Structure(f) => f,
        _ => return None,
    };
    if fields.len() != 3 {
        return None;
    }
    let id = match &fields[0] {
        DbusValue::I32(id) => *id,
        _ => return None,
    };
    let props = prop_lookup(&fields[1]);
    let kind = if match prop_str(&props, "type") {
        Some(t) => text::same(t.as_str(), "separator"),
        None => false,
    } {
        MenuItemKind::Separator
    } else if match prop_str(&props, "children-display") {
        Some(t) => text::same(t.as_str(), "submenu"),
        None => false,
    } {
        MenuItemKind::Submenu
    } else {
        MenuItemKind::Standard
    };
    let label_raw = match prop_str(&props, "label") {
        Some(l) => l,
        None => String::new(),
    };
    let label = parse_mnemonic(label_raw.as_str());
    let enabled = match prop_bool(&props, "enabled") {
        Some(b) => b,
        None => true,
    };
    let visible = match prop_bool(&props, "visible") {
        Some(b) => b,
        None => true,
    };
    let toggle_type = match prop_str(&props, "toggle-type") {
        Some(t) => t,
        None => String::new(),
    };
    let toggle_state = prop_i32(&props, "toggle-state");
    let toggled = if !text::same(toggle_type.as_str(), "checkmark") && !text::same(
        toggle_type.as_str(),
        "radio",
    ) {
        None
    } else {
        match toggle_state {
            Some(st) => if st >= 0 {
                Some(st == 1)
            } else {
                None
            },
            None => None,
        }
    };
    let children = if depth > 0 {
        proof {
            assert(decreases_to!(*value => fields@[2]));
        }
        parse_children(&fields[2], depth - 1)
    } else {
        Vec::new()
    };
    let icon = prop_str(&props, "icon-name");
    let item = MenuItem { id, kind, label, enabled, visible, toggled, icon, children };
    proof {
        assert(menu_items_view(item.children@) == (if depth > 0 {
            children_spec(fields@[2], depth - 1)
        } else {
            Seq::<MenuItemView>::empty()
        }));
    }
    Some(item)
}

/// Snapshot from a `GetLayout` reply: the root node's children, parsed down
/// to `max_depth`.
pub open spec fn snapshot_spec(revision: u32, layout: DbusValue, max_depth: u8) -> MenuSnapshotView {
    MenuSnapshotView {
        revision,
        root: match layout {
            DbusValue::Structure(fields) => if fields@.len() == 3 {
                children_spec(fields@[2], max_depth as int)
            } else {
                Seq::empty()
            },
            _ => Seq::empty(),
        },
    }
}

/// Assemble the snapshot from a `GetLayout` reply (`revision`, root node).
pub fn menu_from_layout(revision: u32, layout: &DbusValue, max_depth: u8) -> (m: MenuSnapshot)
    ensures
        m@ == snapshot_spec(revision, *layout, max_depth),
{
    let root = match layout {
        DbusValue::Structure(fields) => if fields.len() == 3 {
            parse_children(&fields[2], max_depth as i32)
        } else {
            Vec::new()
        },
        _ => Vec::new(),
    };
    proof {
        assert(menu_items_view(Seq::<MenuItem>::empty()) =~= Seq::<MenuItemView>::empty());
    }
    MenuSnapshot { revision, root }
}

/// A layout node always gives an entry, and the entry is visible exactly
/// when the node's first boolean `visible` property is not `false`: a
/// hidden node is reported hidden, and a node that does not say is shown.
pub proof fn law_entry_visibility(fields: Vec<DbusValue>, id: i32, depth: int)
    requires
        fields@.len() == 3,
        fields@[0] == DbusValue::I32(id),
    ensures
        node_spec(DbusValue::Structure(fields), depth) is Some,
        node_spec(DbusValue::Structure(fields), depth)->0.id == id,
        node_spec(DbusValue::Structure(fields), depth)->0.visible
            == (first_bool(props_of(fields@[1]), "visible"@) != Some(false)),
{
}

proof fn lemma_props_first(d: Seq<(DbusValue, DbusValue)>, e: (Seq<char>, PropValueView))
    requires
        d.len() > 0,
        prop_entry(d[0].0, d[0].1) == Some(e),
    ensures
        props_of_seq(d).len() > 0,
        props_of_seq(d)[0] == e,
    decreases d.len(),
{
    if d.len() > 1 {
        assert(d.drop_last()[0] == d[0]);
        lemma_props_first(d.drop_last(), e);
        let rest = props_of_seq(d.drop_last());
        assert(rest[0] == e);
        match prop_entry(d.last().0, d.last().1) {
            Some(x) => assert(rest.push(x)[0] == e),
            None => {},
        }
    } else {
        assert(d.last() == d[0]);
        assert(props_of_seq(d.drop_last()) =~= Seq::<(Seq<char>, PropValueView)>::empty());
        assert(Seq::<(Seq<char>, PropValueView)>::empty().push(e)[0] == e);
    }
}

/// A node whose first property is `visible` = `<b>` is reported with
/// `visible == b`, whatever properties follow: `(5, {"visible": <false>,
/// ...}, [])` is a hidden entry.
pub proof fn law_visible_property_is_kept(
    fields: Vec<DbusValue>,
    id: i32,
    dict: Vec<(DbusValue, DbusValue)>,
    key: String,
    b: bool,
    depth: int,
)
    requires
        fields@.len() == 3,
        fields@[0] == DbusValue::I32(id),
        fields@[1] == DbusValue::Dict(dict),
        key@ == "visible"@,
        dict@.len() > 0,
        dict@[0] == (DbusValue::Str(key), DbusValue::Variant(Box::new(DbusValue::Bool(b)))),
    ensures
        node_spec(DbusValue::Structure(fields), depth) matches Some(m) && m.id == id && m.visible == b,
{
    lemma_props_first(dict@, ("visible"@, PropValueView::Bool(b)));
}

} // verus!
