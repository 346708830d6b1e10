//! The shell's status-notifier host: item snapshots, the item table kept on
//! the UI thread, the requests sent to the bus thread, and what the watcher
//! does with registrations and discovered names.

use vstd::prelude::*;

use crate::text;
use crate::tray::value::DbusValue;

verus! {

/// `std::sync::mpsc::Sender`, carried through requests as is.
#[verifier::external_type_specification]
#[verifier::external_body]
#[verifier::reject_recursive_types(T)]
pub struct ExSender<T>(std::sync::mpsc::Sender<T>);

// ── item snapshots ─────────────────────────────────────────────────────

/// A bitmap icon as the item exports it.
pub struct IconPixmap {
    pub width: i32,
    pub height: i32,
    /// ARGB32 bytes, network byte order.
    pub bytes: Vec<u8>,
}

pub struct IconPixmapView {
    pub width: i32,
    pub height: i32,
    pub bytes: Seq<u8>,
}

impl View for IconPixmap {
    type V = IconPixmapView;

    open spec fn view(&self) -> IconPixmapView {
        IconPixmapView { width: self.width, height: self.height, bytes: self.bytes@ }
    }
}

pub open spec fn pixmap_views(s: Seq<IconPixmap>) -> Seq<IconPixmapView> {
    s.map_values(|p: IconPixmap| p@)
}

impl IconPixmap {
    pub fn duplicate(&self) -> (r: IconPixmap)
        ensures
            r@ == self@,
    {
        IconPixmap { width: self.width, height: self.height, bytes: self.bytes.clone() }
    }
}

fn copy_pixmaps(v: &Vec<IconPixmap>) -> (r: Vec<IconPixmap>)
    ensures
        pixmap_views(r@) == pixmap_views(v@),
{
    let mut out: Vec<IconPixmap> = Vec::new();
    let mut i: usize = 0;
    while i < v.len()
        invariant
            i <= v@.len(),
            pixmap_views(out@) == pixmap_views(v@.take(i as int)),
        decreases v@.len() - i,
    {
        out.push(v[i].duplicate());
        proof {
            assert(pixmap_views(v@.take(i + 1)) =~= pixmap_views(v@.take(i as int)).push(v@[i as int]@));
            assert(pixmap_views(out@) =~= pixmap_views(v@.take(i + 1)));
        }
        i = i + 1;
    }
    proof {
        assert(v@.take(v@.len() as int) =~= v@);
    }
    out
}

/// Which aspect of an item changed.
#[derive(Debug, Clone, Copy, PartialEq, Eq, Structural)]
pub enum UpdateKind {
    Icon,
    ToolTip,
    Status,
    Title,
}

/// Snapshot of an item's properties at a point in time.
pub struct SniItemState {
    pub id: String,
    pub bus_name: String,
    pub object_path: String,
    pub category: String,
    pub title: String,
    pub status: String,
    pub icon_name: String,
    pub icon_theme_path: String,
    pub icon_pixmaps: Vec<IconPixmap>,
    pub attention_icon_name: String,
    pub attention_icon_pixmaps: Vec<IconPixmap>,
    pub overlay_icon_name: String,
    pub overlay_icon_pixmaps: Vec<IconPixmap>,
    pub item_is_menu: bool,
    pub menu_path: String,
    pub window_id: u32,
}

pub struct SniItemStateView {
    pub id: Seq<char>,
    pub bus_name: Seq<char>,
    pub object_path: Seq<char>,
    pub category: Seq<char>,
    pub title: Seq<char>,
    pub status: Seq<char>,
    pub icon_name: Seq<char>,
    pub icon_theme_path: Seq<char>,
    pub icon_pixmaps: Seq<IconPixmapView>,
    pub attention_icon_name: Seq<char>,
    pub attention_icon_pixmaps: Seq<IconPixmapView>,
    pub overlay_icon_name: Seq<char>,
    pub overlay_icon_pixmaps: Seq<IconPixmapView>,
    pub item_is_menu: bool,
    pub menu_path: Seq<char>,
    pub window_id: u32,
}

impl View for SniItemState {
    type V = SniItemStateView;

    open spec fn view(&self) -> SniItemStateView {
        SniItemStateView {
            id: self.id@,
            bus_name: self.bus_name@,
            object_path: self.object_path@,
            category: self.category@,
            title: self.title@,
            status: self.status@,
            icon_name: self.icon_name@,
            icon_theme_path: self.icon_theme_path@,
            icon_pixmaps: pixmap_views(self.icon_pixmaps@),
            attention_icon_name: self.attention_icon_name@,
            attention_icon_pixmaps: pixmap_views(self.attention_icon_pixmaps@),
            overlay_icon_name: self.overlay_icon_name@,
            overlay_icon_pixmaps: pixmap_views(self.overlay_icon_pixmaps@),
            item_is_menu: self.item_is_menu,
            menu_path: self.menu_path@,
            window_id: self.window_id,
        }
    }
}

/// A snapshot with identity only: every property empty, false or zero.
pub open spec fn empty_state(id: Seq<char>, bus_name: Seq<char>, object_path: Seq<char>) -> SniItemStateView {
    SniItemStateView {
        id,
        bus_name,
        object_path,
        category: Seq::empty(),
        title: Seq::empty(),
        status: Seq::empty(),
        icon_name: Seq::empty(),
        icon_theme_path: Seq::empty(),
        icon_pixmaps: Seq::empty(),
        attention_icon_name: Seq::empty(),
        attention_icon_pixmaps: Seq::empty(),
        overlay_icon_name: Seq::empty(),
        overlay_icon_pixmaps: Seq::empty(),
        item_is_menu: false,
        menu_path: Seq::empty(),
        window_id: 0,
    }
}

impl SniItemState {
    /// A snapshot with identity only.
    pub fn empty(id: &str, bus_name: &str, object_path: &str) -> (r: Self)
        ensures
            r@ == empty_state(id@, bus_name@, object_path@),
    {
        let r = SniItemState {
            id: id.to_owned(),
            bus_name: bus_name.to_owned(),
            object_path: object_path.to_owned(),
            category: String::new(),
            title: String::new(),
            status: String::new(),
            icon_name: String::new(),
            icon_theme_path: String::new(),
            icon_pixmaps: Vec::new(),
            attention_icon_name: String::new(),
            attention_icon_pixmaps: Vec::new(),
            overlay_icon_name: String::new(),
            overlay_icon_pixmaps: Vec::new(),
            item_is_menu: false,
            menu_path: String::new(),
            window_id: 0,
        };
        proof {
            assert(pixmap_views(r.icon_pixmaps@) =~= Seq::<IconPixmapView>::empty());
            assert(pixmap_views(r.attention_icon_pixmaps@) =~= Seq::<IconPixmapView>::empty());
            assert(pixmap_views(r.overlay_icon_pixmaps@) =~= Seq::<IconPixmapView>::empty());
        }
        r
    }

    /// An independent copy.
    pub fn duplicate(&self) -> (r: Self)
        ensures
            r@ == self@,
    {
        SniItemState {
            id: self.id.clone(),
            bus_name: self.bus_name.clone(),
            object_path: self.object_path.clone(),
            category: self.category.clone(),
            title: self.title.clone(),
            status: self.status.clone(),
            icon_name: self.icon_name.clone(),
            icon_theme_path: self.icon_theme_path.clone(),
            icon_pixmaps: copy_pixmaps(&self.icon_pixmaps),
            attention_icon_name: self.attention_icon_name.clone(),
            attention_icon_pixmaps: copy_pixmaps(&self.attention_icon_pixmaps),
            overlay_icon_name: self.overlay_icon_name.clone(),
            overlay_icon_pixmaps: copy_pixmaps(&self.overlay_icon_pixmaps),
            item_is_menu: self.item_is_menu,
            menu_path: self.menu_path.clone(),
            window_id: self.window_id,
        }
    }
}

/// What the bus thread reports to the UI thread.
pub enum SniEvent {
    ItemAdded { id: String, state: SniItemState },
    ItemRemoved { id: String },
    ItemUpdated { id: String, kind: UpdateKind, state: SniItemState },
}

// ── requests and menus ─────────────────────────────────────────────────

/// An entry of a fetched menu.
pub struct MenuItem {
    pub id: i32,
    pub label: String,
    pub enabled: bool,
    pub is_separator: bool,
    pub is_submenu: bool,
    pub children: Vec<MenuItem>,
    pub toggle_state: i32,
    pub action: String,
}

/// A fetched menu.
pub struct MenuResult {
    pub items: Vec<MenuItem>,
}

/// Menu fetch request: where the menu lives and where to send it.
pub struct MenuRequest {
    pub bus_name: String,
    pub menu_path: String,
    pub reply: std::sync::mpsc::Sender<MenuResult>,
}

/// Requests sent from the UI thread to the bus thread.
pub enum SniRequest {
    Activate { bus_name: String, object_path: String, x: i32, y: i32 },
    SecondaryActivate { bus_name: String, object_path: String, x: i32, y: i32 },
    Menu(MenuRequest),
}


// ── the item table ─────────────────────────────────────────────────────

pub open spec fn table_view(t: Seq<(String, SniItemState)>) -> Seq<(Seq<char>, SniItemStateView)> {
    t.map_values(|e: (String, SniItemState)| (e.0@, e.1@))
}

/// Index of the first entry at or after `i` keyed `k`.
pub open spec fn key_index(t: Seq<(Seq<char>, SniItemStateView)>, k: Seq<char>, i: int) -> Option<int>
    decreases t.len() - i,
{
    if i < 0 || i >= t.len() {
        None
    } else if t[i].0 == k {
        Some(i)
    } else {
        key_index(t, k, i + 1)
    }
}

/// The state stored under `k`.
pub open spec fn table_get(t: Seq<(Seq<char>, SniItemStateView)>, k: Seq<char>) -> Option<SniItemStateView> {
    match key_index(t, k, 0) {
        Some(i) => Some(t[i].1),
        None => None,
    }
}

/// Store `v` under `k`: replaces the entry keyed `k` in place, or appends.
pub open spec fn table_insert(
    t: Seq<(Seq<char>, SniItemStateView)>,
    k: Seq<char>,
    v: SniItemStateView,
) -> Seq<(Seq<char>, SniItemStateView)> {
    match key_index(t, k, 0) {
        Some(i) => t.update(i, (k, v)),
        None => t.push((k, v)),
    }
}

/// Drop the entry keyed `k`, if any.
pub open spec fn table_remove(t: Seq<(Seq<char>, SniItemStateView)>, k: Seq<char>) -> Seq<
    (Seq<char>, SniItemStateView),
> {
    match key_index(t, k, 0) {
        Some(i) => t.remove(i),
        None => t,
    }
}

/// No key occurs twice.
/// The keys of a table, in order.
pub open spec fn table_keys(t: Seq<(Seq<char>, SniItemStateView)>) -> Seq<Seq<char>> {
    t.map_values(|e: (Seq<char>, SniItemStateView)| e.0)
}

pub open spec fn keys_unique(t: Seq<(Seq<char>, SniItemStateView)>) -> bool {
    forall|i: int, j: int| 0 <= i < t.len() && 0 <= j < t.len() && i != j ==> t[i].0 != t[j].0
}

proof fn lemma_key_index(t: Seq<(Seq<char>, SniItemStateView)>, k: Seq<char>, i: int)
    requires
        0 <= i <= t.len(),
    ensures
        match key_index(t, k, i) {
            Some(j) => i <= j < t.len() && t[j].0 == k && forall|m: int| i <= m < j ==> t[m].0 != k,
            None => forall|m: int| i <= m < t.len() ==> t[m].0 != k,
        },
    decreases t.len() - i,
{
    if i < t.len() && t[i].0 != k {
        lemma_key_index(t, k, i + 1);
    }
}

/// What the UI should be told after an event: the callback to run.
pub enum Notice {
    Added(String),
    Removed(String),
    Updated(String, UpdateKind),
}

/// Items known to the UI thread, keyed by id (bus name + object path), and
/// the callbacks registered for changes.
pub struct SniHost<A, R, U> {
    pub items: Vec<(String, SniItemState)>,
    pub on_added: Option<A>,
    pub on_removed: Option<R>,
    pub on_updated: Option<U>,
}

impl<A, R, U> SniHost<A, R, U> {
    pub open spec fn table(&self) -> Seq<(Seq<char>, SniItemStateView)> {
        table_view(self.items@)
    }

    pub open spec fn wf(&self) -> bool {
        keys_unique(self.table())
    }

    pub fn new() -> (h: Self)
        ensures
            h.wf(),
            h.table().len() == 0,
            h.on_added is None,
            h.on_removed is None,
            h.on_updated is None,
    {
        let h = SniHost { items: Vec::new(), on_added: None, on_removed: None, on_updated: None };
        proof {
            assert(h.table() =~= Seq::<(Seq<char>, SniItemStateView)>::empty());
        }
        h
    }

    /// Callback for new items (replaces an earlier one).
    pub fn set_item_added_cb(&mut self, cb: A)
        ensures
            final(self).on_added == Some(cb),
            final(self).items@ == old(self).items@,
            final(self).on_removed == old(self).on_removed,
            final(self).on_updated == old(self).on_updated,
    {
        self.on_added = Some(cb);
    }

    /// Callback for removed items (replaces an earlier one).
    pub fn set_item_removed_cb(&mut self, cb: R)
        ensures
            final(self).on_removed == Some(cb),
            final(self).items@ == old(self).items@,
            final(self).on_added == old(self).on_added,
            final(self).on_updated == old(self).on_updated,
    {
        self.on_removed = Some(cb);
    }

    /// Callback for updated items (replaces an earlier one).
    pub fn set_item_updated_cb(&mut self, cb: U)
        ensures
            final(self).on_updated == Some(cb),
            final(self).items@ == old(self).items@,
            final(self).on_added == old(self).on_added,
            final(self).on_removed == old(self).on_removed,
    {
        self.on_updated = Some(cb);
    }

    fn find(&self, id: &str) -> (r: Option<usize>)
        ensures
            match r {
                Some(i) => key_index(self.table(), id@, 0) == Some(i as int),
                None => key_index(self.table(), id@, 0) is None,
            },
    {
        let mut i: usize = 0;
        while i < self.items.len()
            invariant
                i <= self.items@.len(),
                key_index(self.table(), id@, 0) == key_index(self.table(), id@, i as int),
            decreases self.items@.len() - i,
        {
            proof {
                assert(self.table()[i as int].0 == self.items@[i as int].0@);
            }
            if text::same(self.items[i].0.as_str(), id) {
                return Some(i);
            }
            i = i + 1;
        }
        None
    }

    fn insert(&mut self, id: String, state: SniItemState)
        requires
            old(self).wf(),
        ensures
            final(self).wf(),
            final(self).table() == table_insert(old(self).table(), id@, state@),
            final(self).on_added == old(self).on_added,
            final(self).on_removed == old(self).on_removed,
            final(self).on_updated == old(self).on_updated,
    {
        let ghost t0 = self.table();
        proof {
            lemma_key_index(t0, id@, 0);
        }
        match self.find(id.as_str()) {
            Some(i) => {
                self.items.set(i, (id, state));
                proof {
                    assert(self.table() =~= t0.update(i as int, (self.items@[i as int].0@, self.items@[i as int].1@)));
                }
            },
            None => {
                self.items.push((id, state));
                proof {
                    assert(self.table() =~= t0.push((self.items@.last().0@, self.items@.last().1@)));
                }
            },
        }
    }

    fn remove(&mut self, id: &str)
        requires
            old(self).wf(),
        ensures
            final(self).wf(),
            final(self).table() == table_remove(old(self).table(), id@),
            final(self).on_added == old(self).on_added,
            final(self).on_removed == old(self).on_removed,
            final(self).on_updated == old(self).on_updated,
    {
        let ghost t0 = self.table();
        proof {
            lemma_key_index(t0, id@, 0);
        }
        match self.find(id) {
            Some(i) => {
                let _gone = self.items.remove(i);
                proof {
                    assert(self.table() =~= t0.remove(i as int));
                    assert forall|a: int, b: int|
                        0 <= a < self.table().len() && 0 <= b < self.table().len() && a != b implies self.table()[a].0
                            != self.table()[b].0 by {
                        let a0 = if a < i { a } else { a + 1 };
                        let b0 = if b < i { b } else { b + 1 };
                        assert(self.table()[a] == t0[a0]);
                        assert(self.table()[b] == t0[b0]);
                    }
                }
            },
            None => {},
        }
    }

    /// Record an event from the bus thread and say which callback is due:
    /// added and updated items are stored under their id, removed ones
    /// dropped.
    pub fn handle_event(&mut self, event: SniEvent) -> (n: Notice)
        requires
            old(self).wf(),
        ensures
            final(self).wf(),
            final(self).on_added == old(self).on_added,
            final(self).on_removed == old(self).on_removed,
            final(self).on_updated == old(self).on_updated,
            match event {
                SniEvent::ItemAdded { id, state } => final(self).table() == table_insert(
                    old(self).table(),
                    id@,
                    state@,
                ) && (n matches Notice::Added(nid) && nid@ == id@),
                SniEvent::ItemRemoved { id } => final(self).table() == table_remove(old(self).table(), id@)
                    && (n matches Notice::Removed(nid) && nid@ == id@),
                SniEvent::ItemUpdated { id, kind, state } => final(self).table() == table_insert(
                    old(self).table(),
                    id@,
                    state@,
                ) && (n matches Notice::Updated(nid, k) && nid@ == id@ && k == kind),
            },
    {
        match event {
            SniEvent::ItemAdded { id, state } => {
                let n = Notice::Added(id.clone());
                self.insert(id, state);
                n
            },
            SniEvent::ItemRemoved { id } => {
                self.remove(id.as_str());
                Notice::Removed(id)
            },
            SniEvent::ItemUpdated { id, kind, state } => {
                let n = Notice::Updated(id.clone(), kind);
                self.insert(id, state);
                n
            },
        }
    }

    /// Snapshot of one item.
    pub fn get_item_state(&self, id: &str) -> (r: Option<SniItemState>)
        ensures
            match table_get(self.table(), id@) {
                Some(v) => r matches Some(st) && st@ == v,
                None => r is None,
            },
    {
        proof {
            lemma_key_index(self.table(), id@, 0);
        }
        match self.find(id) {
            Some(i) => {
                proof {
                    assert(self.table()[i as int].1 == self.items@[i as int].1@);
                }
                Some(self.items[i].1.duplicate())
            },
            None => None,
        }
    }

    /// Ids of all known items.
    pub fn item_ids(&self) -> (r: Vec<String>)
        ensures
            r@.map_values(|s: String| s@) == table_keys(self.table()),
    {
        let mut out: Vec<String> = Vec::new();
        let mut i: usize = 0;
        while i < self.items.len()
            invariant
                i <= self.items@.len(),
                out@.map_values(|s: String| s@) == self.table().take(i as int).map_values(
                    |e: (Seq<char>, SniItemStateView)| e.0,
                ),
            decreases self.items@.len() - i,
        {
            out.push(self.items[i].0.clone());
            proof {
                assert(self.table().take(i + 1).map_values(|e: (Seq<char>, SniItemStateView)| e.0)
                    =~= self.table().take(i as int).map_values(|e: (Seq<char>, SniItemStateView)| e.0).push(
                    self.items@[i as int].0@,
                ));
                assert(out@.map_values(|s: String| s@) =~= self.table().take(i + 1).map_values(
                    |e: (Seq<char>, SniItemStateView)| e.0,
                ));
            }
            i = i + 1;
        }
        proof {
            assert(self.table().take(self.table().len() as int) =~= self.table());
        }
        out
    }

    /// `Activate` request for a known item (fire and forget), or nothing.
    pub fn activate_item(&self, id: &str, x: i32, y: i32) -> (r: Option<SniRequest>)
        ensures
            match table_get(self.table(), id@) {
                Some(v) => r matches Some(SniRequest::Activate { bus_name, object_path, x: rx, y: ry })
                    && bus_name@ == v.bus_name && object_path@ == v.object_path && rx == x && ry == y,
                None => r is None,
            },
    {
        match self.get_item_state(id) {
            Some(st) => Some(
                SniRequest::Activate { bus_name: st.bus_name, object_path: st.object_path, x, y },
            ),
            None => None,
        }
    }

    /// `SecondaryActivate` request for a known item, or nothing.
    pub fn secondary_activate_item(&self, id: &str, x: i32, y: i32) -> (r: Option<SniRequest>)
        ensures
            match table_get(self.table(), id@) {
                Some(v) => r matches Some(
                    SniRequest::SecondaryActivate { bus_name, object_path, x: rx, y: ry },
                ) && bus_name@ == v.bus_name && object_path@ == v.object_path && rx == x && ry == y,
                None => r is None,
            },
    {
        match self.get_item_state(id) {
            Some(st) => Some(
                SniRequest::SecondaryActivate {
                    bus_name: st.bus_name,
                    object_path: st.object_path,
                    x,
                    y,
                },
            ),
            None => None,
        }
    }

    /// Menu request for a known item that has a menu, answered on `reply`;
    /// nothing for unknown items or items without a menu path.
    pub fn request_menu(&self, item_id: &str, reply: std::sync::mpsc::Sender<MenuResult>) -> (r: Option<
        SniRequest,
    >)
        ensures
            match table_get(self.table(), item_id@) {
                Some(v) => if v.menu_path.len() > 0 {
                    r matches Some(SniRequest::Menu(m)) && m.bus_name@ == v.bus_name && m.menu_path@
                        == v.menu_path && m.reply == reply
                } else {
                    r is None
                },
                None => r is None,
            },
    {
        let st = match self.get_item_state(item_id) {
            Some(s) => s,
            None => return None,
        };
        if st.menu_path.as_str().is_empty() {
            return None;
        }
        Some(SniRequest::Menu(MenuRequest { bus_name: st.bus_name, menu_path: st.menu_path, reply }))
    }
}


// ── watcher side ───────────────────────────────────────────────────────

/// Default object path of an item.
pub const DEFAULT_ITEM_PATH: &'static str = "/StatusNotifierItem";

/// A registered service split into bus name and object path: at the first
/// `/`, or the whole string with the default path when it has none.
pub open spec fn service_parts(service: Seq<char>) -> (Seq<char>, Seq<char>) {
    match text::index_of(service, '/') {
        Some(i) => (service.take(i), service.skip(i)),
        None => (service, DEFAULT_ITEM_PATH@),
    }
}

pub fn parse_service(service: &str) -> (r: (String, String))
    ensures
        (r.0@, r.1@) == service_parts(service@),
{
    let cs = text::chars_of(service);
    match text::find_char(&cs, '/') {
        Some(i) => {
            proof {
                text::lemma_index_of_props(cs@, '/');
            }
            let a = text::string_of_range(&cs, 0, i);
            let b = text::string_of_range(&cs, i, cs.len());
            proof {
                assert(a@ =~= service@.take(i as int));
                assert(b@ =~= service@.skip(i as int));
            }
            (a, b)
        },
        None => (service.to_owned(), String::from_str(DEFAULT_ITEM_PATH)),
    }
}

/// A registration: the item id (bus name followed by path), its bus name
/// and its object path. A service given as a bare path is attributed to
/// the sender of the registration call.
pub open spec fn registration_spec(service: Seq<char>, sender: Seq<char>) -> (Seq<char>, Seq<char>, Seq<char>) {
    let (bus0, path) = service_parts(service);
    let bus = if bus0.len() == 0 { sender } else { bus0 };
    (bus + path, bus, path)
}

pub fn registration(service: &str, sender: &str) -> (r: (String, String, String))
    ensures
        (r.0@, r.1@, r.2@) == registration_spec(service@, sender@),
{
    let (bus0, path) = parse_service(service);
    let bus = if bus0.as_str().is_empty() {
        sender.to_owned()
    } else {
        bus0
    };
    let mut id = bus.clone();
    id.append(path.as_str());
    (id, bus, path)
}

pub open spec fn starts_with(s: Seq<char>, p: Seq<char>) -> bool {
    p.len() <= s.len() && s.take(p.len() as int) == p
}

fn has_prefix(s: &str, p: &str) -> (r: bool)
    ensures
        r == starts_with(s@, p@),
{
    let cs = text::chars_of(s);
    let ps = text::chars_of(p);
    if ps.len() > cs.len() {
        return false;
    }
    let mut i: usize = 0;
    while i < ps.len()
        invariant
            i <= ps@.len() <= cs@.len(),
            cs@ == s@,
            ps@ == p@,
            forall|j: int| 0 <= j < i ==> cs@[j] == ps@[j],
        decreases ps@.len() - i,
    {
        if cs[i] != ps[i] {
            proof {
                assert(s@.take(p@.len() as int)[i as int] != p@[i as int]);
            }
            return false;
        }
        i = i + 1;
    }
    proof {
        assert(s@.take(p@.len() as int) =~= p@);
    }
    true
}

/// Whether a bus name found on the bus is probed for an item: not a unique
/// name, not the watcher or the bus itself, and not one of the desktop
/// service prefixes that never carry items.
pub open spec fn discovery_candidate_spec(name: Seq<char>) -> bool {
    !(starts_with(name, ":"@) || name == "org.kde.StatusNotifierWatcher"@ || name
        == "org.freedesktop.DBus"@) && !(starts_with(name, "org.freedesktop"@) || starts_with(
        name,
        "org.gtk"@,
    ) || starts_with(name, "org.gnome"@) || starts_with(name, "org.pulse"@) || starts_with(
        name,
        "org.pipe"@,
    ) || starts_with(name, "org.mpris"@) || starts_with(name, "ca.desrt"@) || starts_with(
        name,
        "org.a11y"@,
    ))
}

pub fn discovery_candidate(name: &str) -> (r: bool)
    ensures
        r == discovery_candidate_spec(name@),
{
    if has_prefix(name, ":") || text::same(name, "org.kde.StatusNotifierWatcher") || text::same(
        name,
        "org.freedesktop.DBus",
    ) {
        return false;
    }
    !(has_prefix(name, "org.freedesktop") || has_prefix(name, "org.gtk") || has_prefix(
        name,
        "org.gnome",
    ) || has_prefix(name, "org.pulse") || has_prefix(name, "org.pipe") || has_prefix(
        name,
        "org.mpris",
    ) || has_prefix(name, "ca.desrt") || has_prefix(name, "org.a11y"))
}

/// A discovered item is kept only when it shows something: an icon name,
/// a title or a bitmap.
pub fn worth_adding(state: &SniItemState) -> (r: bool)
    ensures
        r == !(state@.icon_name.len() == 0 && state@.title.len() == 0 && state@.icon_pixmaps.len() == 0),
{
    !(state.icon_name.as_str().is_empty() && state.title.as_str().is_empty()
        && state.icon_pixmaps.len() == 0)
}

/// Object path of a discovered item.
pub fn discovered_id(bus: &str) -> (r: String)
    ensures
        r@ == bus@ + DEFAULT_ITEM_PATH@,
{
    let mut s = bus.to_owned();
    s.append(DEFAULT_ITEM_PATH);
    s
}

// ── pixmaps ────────────────────────────────────────────────────────────

pub open spec fn unwrap_variant(v: DbusValue) -> DbusValue {
    match v {
        DbusValue::Variant(b) => *b,
        other => other,
    }
}

/// The bytes among `s`, in order (other values skipped).
pub open spec fn u8s_of(s: Seq<DbusValue>) -> Seq<u8>
    decreases s.len(),
{
    if s.len() == 0 {
        Seq::empty()
    } else {
        u8s_of(s.drop_last()) + match s.last() {
            DbusValue::U8(b) => seq![b],
            _ => Seq::empty(),
        }
    }
}

/// A bitmap read from a `(iiay)` structure (possibly inside a variant):
/// width and height must be `i32`, the third field an array (possibly in a
/// variant) whose bytes are taken.
pub open spec fn pixmap_of(v: DbusValue) -> Option<IconPixmapView> {
    match unwrap_variant(v) {
        DbusValue::Structure(f) => if f@.len() >= 3 {
            match (f@[0], f@[1], unwrap_variant(f@[2])) {
                (DbusValue::I32(w), DbusValue::I32(h), DbusValue::Array(a)) => Some(
                    IconPixmapView { width: w, height: h, bytes: u8s_of(a@) },
                ),
                _ => None,
            }
        } else {
            None
        },
        _ => None,
    }
}

/// Bitmaps of a pixmap property: the well-formed entries, in order.
pub open spec fn pixmaps_of(raw: Seq<DbusValue>) -> Seq<IconPixmapView>
    decreases raw.len(),
{
    if raw.len() == 0 {
        Seq::empty()
    } else {
        pixmaps_of(raw.drop_last()) + match pixmap_of(raw.last()) {
            Some(p) => seq![p],
            None => Seq::empty(),
        }
    }
}

fn bytes_in(a: &Vec<DbusValue>) -> (r: Vec<u8>)
    ensures
        r@ == u8s_of(a@),
{
    let mut out: Vec<u8> = Vec::new();
    let mut i: usize = 0;
    while i < a.len()
        invariant
            i <= a@.len(),
            out@ == u8s_of(a@.take(i as int)),
        decreases a@.len() - i,
    {
        proof {
            assert(a@.take(i + 1).drop_last() =~= a@.take(i as int));
        }
        match &a[i] {
            DbusValue::U8(b) => {
                out.push(*b);
                proof {
                    assert(out@ =~= u8s_of(a@.take(i + 1)));
                }
            },
            _ => {
                proof {
                    assert(u8s_of(a@.take(i + 1)) =~= u8s_of(a@.take(i as int)));
                }
            },
        }
        i = i + 1;
    }
    proof {
        assert(a@.take(a@.len() as int) =~= a@);
    }
    out
}

fn inner_of(v: &DbusValue) -> (r: &DbusValue)
    ensures
        *r == unwrap_variant(*v),
{
    match v {
        DbusValue::Variant(b) => &**b,
        other => other,
    }
}

fn pixmap_from(v: &DbusValue) -> (r: Option<IconPixmap>)
    ensures
        match r {
            Some(p) => pixmap_of(*v) == Some(p@),
            None => pixmap_of(*v) is None,
        },
{
    let f = match inner_of(v) {
        DbusValue::Structure(f) => f,
        _ => return None,
    };
    if f.len() < 3 {
        return None;
    }
    let w = match &f[0] {
        DbusValue::I32(w) => *w,
        _ => return None,
    };
    let h = match &f[1] {
        DbusValue::I32(h) => *h,
        _ => return None,
    };
    match inner_of(&f[2]) {
        DbusValue::Array(a) => Some(IconPixmap { width: w, height: h, bytes: bytes_in(a) }),
        _ => None,
    }
}

/// Convert a pixmap property into bitmaps, skipping malformed entries.
pub fn convert_pixmaps(raw: &Vec<DbusValue>) -> (r: Vec<IconPixmap>)
    ensures
        pixmap_views(r@) == pixmaps_of(raw@),
{
    let mut out: Vec<IconPixmap> = Vec::new();
    let mut i: usize = 0;
    while i < raw.len()
        invariant
            i <= raw@.len(),
            pixmap_views(out@) == pixmaps_of(raw@.take(i as int)),
        decreases raw@.len() - i,
    {
        proof {
            assert(raw@.take(i + 1).drop_last() =~= raw@.take(i as int));
        }
        match pixmap_from(&raw[i]) {
            Some(p) => {
                out.push(p);
                proof {
                    assert(pixmap_views(out@) =~= pixmaps_of(raw@.take(i + 1)));
                }
            },
            None => {
                proof {
                    assert(pixmaps_of(raw@.take(i + 1)) =~= pixmaps_of(raw@.take(i as int)));
                }
            },
        }
        i = i + 1;
    }
    proof {
        assert(raw@.take(raw@.len() as int) =~= raw@);
    }
    out
}

// ── property fetch ─────────────────────────────────────────────────────

/// Item properties as read from the bus; `None` where the read failed.
pub struct FetchedProps {
    pub category: Option<String>,
    pub title: Option<String>,
    pub status: Option<String>,
    pub icon_name: Option<String>,
    pub icon_theme_path: Option<String>,
    pub attention_icon_name: Option<String>,
    pub overlay_icon_name: Option<String>,
    pub item_is_menu: Option<bool>,
    /// The `Menu` object path, as text.
    pub menu: Option<String>,
    pub window_id: Option<u32>,
    pub icon_pixmap: Option<Vec<DbusValue>>,
    pub attention_icon_pixmap: Option<Vec<DbusValue>>,
    pub overlay_icon_pixmap: Option<Vec<DbusValue>>,
}

pub open spec fn or_empty(o: Option<String>) -> Seq<char> {
    match o {
        Some(s) => s@,
        None => Seq::empty(),
    }
}

pub open spec fn pixmaps_or_none(o: Option<Vec<DbusValue>>) -> Seq<IconPixmapView> {
    match o {
        Some(v) => pixmaps_of(v@),
        None => Seq::empty(),
    }
}

/// The snapshot built from fetched properties: failed reads leave the
/// property empty, false or zero; bitmaps are converted.
pub open spec fn state_from_spec(bus_name: Seq<char>, object_path: Seq<char>, f: FetchedProps) -> SniItemStateView {
    SniItemStateView {
        category: or_empty(f.category),
        title: or_empty(f.title),
        status: or_empty(f.status),
        icon_name: or_empty(f.icon_name),
        icon_theme_path: or_empty(f.icon_theme_path),
        attention_icon_name: or_empty(f.attention_icon_name),
        overlay_icon_name: or_empty(f.overlay_icon_name),
        item_is_menu: match f.item_is_menu {
            Some(b) => b,
            None => false,
        },
        menu_path: or_empty(f.menu),
        window_id: match f.window_id {
            Some(w) => w,
            None => 0,
        },
        icon_pixmaps: pixmaps_or_none(f.icon_pixmap),
        attention_icon_pixmaps: pixmaps_or_none(f.attention_icon_pixmap),
        overlay_icon_pixmaps: pixmaps_or_none(f.overlay_icon_pixmap),
        ..empty_state(bus_name + object_path, bus_name, object_path)
    }
}

fn take_or_empty(o: Option<String>) -> (r: String)
    ensures
        r@ == or_empty(o),
{
    match o {
        Some(s) => s,
        None => String::new(),
    }
}

fn convert_or_none(o: &Option<Vec<DbusValue>>) -> (r: Vec<IconPixmap>)
    ensures
        pixmap_views(r@) == pixmaps_or_none(*o),
{
    match o {
        Some(v) => convert_pixmaps(v),
        None => {
            let r: Vec<IconPixmap> = Vec::new();
            proof {
                assert(pixmap_views(r@) =~= Seq::<IconPixmapView>::empty());
            }
            r
        },
    }
}

impl SniItemState {
    /// Snapshot of the item at `bus_name` + `object_path` from the
    /// properties read there.
    pub fn from_fetched(bus_name: &str, object_path: &str, f: FetchedProps) -> (r: Self)
        ensures
            r@ == state_from_spec(bus_name@, object_path@, f),
    {
        let ghost f0 = f;
        let mut id = bus_name.to_owned();
        id.append(object_path);
        let icon_pixmaps = convert_or_none(&f.icon_pixmap);
        let attention_icon_pixmaps = convert_or_none(&f.attention_icon_pixmap);
        let overlay_icon_pixmaps = convert_or_none(&f.overlay_icon_pixmap);
        SniItemState {
            id,
            bus_name: bus_name.to_owned(),
            object_path: object_path.to_owned(),
            category: take_or_empty(f.category),
            title: take_or_empty(f.title),
            status: take_or_empty(f.status),
            icon_name: take_or_empty(f.icon_name),
            icon_theme_path: take_or_empty(f.icon_theme_path),
            icon_pixmaps,
            attention_icon_name: take_or_empty(f.attention_icon_name),
            attention_icon_pixmaps,
            overlay_icon_name: take_or_empty(f.overlay_icon_name),
            overlay_icon_pixmaps,
            item_is_menu: match f.item_is_menu {
                Some(b) => b,
                None => false,
            },
            menu_path: take_or_empty(f.menu),
            window_id: match f.window_id {
                Some(w) => w,
                None => 0,
            },
        }
    }
}

/// Reading an entry right after storing it gives what was stored; keys
/// stay unique.
pub proof fn law_table_read_after_write(t: Seq<(Seq<char>, SniItemStateView)>, k: Seq<char>, v: SniItemStateView)
    requires
        keys_unique(t),
    ensures
        keys_unique(table_insert(t, k, v)),
        table_get(table_insert(t, k, v), k) == Some(v),
{
    lemma_key_index(t, k, 0);
    let t2 = table_insert(t, k, v);
    match key_index(t, k, 0) {
        Some(i) => {
            assert forall|a: int, b: int|
                0 <= a < t2.len() && 0 <= b < t2.len() && a != b implies t2[a].0 != t2[b].0 by {
                if a == i {
                    assert(t2[b] == t[b]);
                } else if b == i {
                    assert(t2[a] == t[a]);
                } else {
                    assert(t2[a] == t[a] && t2[b] == t[b]);
                }
            }
            lemma_key_index(t2, k, 0);
            assert(t2[i].0 == k);
            match key_index(t2, k, 0) {
                Some(j) => {
                    if j < i {
                        assert(t2[j] == t[j]);
                    }
                },
                None => {},
            }
        },
        None => {
            assert forall|a: int, b: int|
                0 <= a < t2.len() && 0 <= b < t2.len() && a != b implies t2[a].0 != t2[b].0 by {
                if a < t.len() && b < t.len() {
                    assert(t2[a] == t[a] && t2[b] == t[b]);
                } else if a < t.len() {
                    assert(t2[a] == t[a]);
                } else {
                    assert(t2[b] == t[b]);
                }
            }
            lemma_key_index(t2, k, 0);
            assert(t2[t.len() as int].0 == k);
            match key_index(t2, k, 0) {
                Some(j) => {
                    if j < t.len() {
                        assert(t2[j] == t[j]);
                    }
                },
                None => {},
            }
        },
    }
}

/// After removal an entry is gone.
pub proof fn law_table_gone_after_remove(t: Seq<(Seq<char>, SniItemStateView)>, k: Seq<char>)
    requires
        keys_unique(t),
    ensures
        table_get(table_remove(t, k), k) is None,
{
    lemma_key_index(t, k, 0);
    let t2 = table_remove(t, k);
    lemma_key_index(t2, k, 0);
    match key_index(t, k, 0) {
        Some(i) => {
            match key_index(t2, k, 0) {
                Some(j) => {
                    if j < i {
                        assert(t2[j] == t[j]);
                    } else {
                        assert(t2[j] == t[j + 1]);
                    }
                },
                None => {},
            }
        },
        None => {},
    }
}


/// The listed item ids are exactly the ids that have a snapshot, each
/// listed once.
pub proof fn law_item_ids_are_the_items(t: Seq<(Seq<char>, SniItemStateView)>, k: Seq<char>)
    requires
        keys_unique(t),
    ensures
        table_keys(t).contains(k) <==> table_get(t, k) is Some,
        forall|i: int, j: int|
            0 <= i < table_keys(t).len() && 0 <= j < table_keys(t).len() && i != j ==> table_keys(t)[i]
                != table_keys(t)[j],
{
    lemma_key_index(t, k, 0);
    if table_keys(t).contains(k) {
        let j = choose|j: int| 0 <= j < table_keys(t).len() && table_keys(t)[j] == k;
        assert(t[j].0 == k);
    }
    if table_get(t, k) is Some {
        let j = key_index(t, k, 0)->0;
        assert(table_keys(t)[j] == k);
    }
}

} // verus!

