//! Decision core of the tray runtime: the item table, pending commands,
//! debounce timers and watcher state, with every transition the runtime
//! makes between bus calls. The bus plumbing performs the calls and feeds
//! their outcomes back in.

use vstd::prelude::*;

use crate::text;
use crate::tray::config::{FallbackPolicy, TrayConfig};
use crate::tray::error::TrayError;
use crate::tray::event::{ItemField, TrayEvent};
use crate::tray::menu::{MenuSnapshot, MenuSnapshotView};
use crate::tray::model::{
    id_text, IconSourceView, Orientation, TrayItem, TrayItemId, TrayItemIdView, TrayItemView,
};
use crate::tray::sni::{self, TrayItemSnapshot};
use crate::tray::{InteractionOp, WatcherState};

verus! {

/// One tracked item.
pub struct ItemEntry {
    /// Identity (registered bus name + object path).
    pub id: TrayItemId,
    /// Resolved unique bus name, used to attribute signals to items.
    pub unique: String,
    /// DBusMenu object path, if the item exports a menu.
    pub menu_path: Option<String>,
    /// Latest item snapshot.
    pub snapshot: TrayItem,
    /// Latest menu snapshot, once fetched.
    pub menu: Option<MenuSnapshot>,
}

pub struct ItemEntryView {
    pub id: TrayItemIdView,
    pub unique: Seq<char>,
    pub menu_path: Option<Seq<char>>,
    pub snapshot: TrayItemView,
    pub menu: Option<MenuSnapshotView>,
}

impl View for ItemEntry {
    type V = ItemEntryView;

    open spec fn view(&self) -> ItemEntryView {
        ItemEntryView {
            id: self.id@,
            unique: self.unique@,
            menu_path: self.menu_path.deep_view(),
            snapshot: self.snapshot@,
            menu: self.menu.deep_view(),
        }
    }
}

/// Deferred work, run when its deadline passes.
pub enum TimerKind {
    RefetchItem(TrayItemId),
    RefetchMenu(TrayItemId),
    WatcherRespawn,
}

pub enum TimerKindView {
    RefetchItem(TrayItemIdView),
    RefetchMenu(TrayItemIdView),
    WatcherRespawn,
}

impl View for TimerKind {
    type V = TimerKindView;

    open spec fn view(&self) -> TimerKindView {
        match self {
            TimerKind::RefetchItem(id) => TimerKindView::RefetchItem(id@),
            TimerKind::RefetchMenu(id) => TimerKindView::RefetchMenu(id@),
            TimerKind::WatcherRespawn => TimerKindView::WatcherRespawn,
        }
    }
}

impl TimerKind {
    pub fn duplicate(&self) -> (r: TimerKind)
        ensures
            r@ == self@,
    {
        match self {
            TimerKind::RefetchItem(id) => TimerKind::RefetchItem(id.duplicate()),
            TimerKind::RefetchMenu(id) => TimerKind::RefetchMenu(id.duplicate()),
            TimerKind::WatcherRespawn => TimerKind::WatcherRespawn,
        }
    }
}

/// Two timers do the same work (refetch of the same item, or of the same
/// item's menu); watcher respawns are never merged.
pub open spec fn same_target_spec(a: TimerKindView, b: TimerKindView) -> bool {
    match (a, b) {
        (TimerKindView::RefetchItem(x), TimerKindView::RefetchItem(y)) => x == y,
        (TimerKindView::RefetchMenu(x), TimerKindView::RefetchMenu(y)) => x == y,
        _ => false,
    }
}

pub fn same_target(a: &TimerKind, b: &TimerKind) -> (r: bool)
    ensures
        r == same_target_spec(a@, b@),
{
    match (a, b) {
        (TimerKind::RefetchItem(x), TimerKind::RefetchItem(y)) => x.same_as(y),
        (TimerKind::RefetchMenu(x), TimerKind::RefetchMenu(y)) => x.same_as(y),
        _ => false,
    }
}

/// A scheduled timer: deadline (milliseconds on the runtime clock) and work.
pub struct Timer {
    pub at: u64,
    pub kind: TimerKind,
}

pub struct TimerView {
    pub at: u64,
    pub kind: TimerKindView,
}

impl View for Timer {
    type V = TimerView;

    open spec fn view(&self) -> TimerView {
        TimerView { at: self.at, kind: self.kind@ }
    }
}

/// Work queued for the runtime worker.
pub enum Cmd {
    /// The fallback watcher accepted a registration for this service string.
    ItemRegistered(String),
    /// Activate / secondary activate / scroll an item.
    Interact { id: TrayItemId, op: InteractionOp, x: i32, y: i32, delta: i32, orient: Orientation },
    /// Click a menu entry.
    MenuActivate { id: TrayItemId, menu_item: i32 },
    /// Stop the runtime.
    Shutdown,
}

pub enum CmdView {
    ItemRegistered(Seq<char>),
    Interact {
        id: TrayItemIdView,
        op: InteractionOp,
        x: i32,
        y: i32,
        delta: i32,
        orient: Orientation,
    },
    MenuActivate { id: TrayItemIdView, menu_item: i32 },
    Shutdown,
}

impl View for Cmd {
    type V = CmdView;

    open spec fn view(&self) -> CmdView {
        match self {
            Cmd::ItemRegistered(s) => CmdView::ItemRegistered(s@),
            Cmd::Interact { id, op, x, y, delta, orient } => CmdView::Interact {
                id: id@,
                op: *op,
                x: *x,
                y: *y,
                delta: *delta,
                orient: *orient,
            },
            Cmd::MenuActivate { id, menu_item } => CmdView::MenuActivate {
                id: id@,
                menu_item: *menu_item,
            },
            Cmd::Shutdown => CmdView::Shutdown,
        }
    }
}

/// The runtime's shared state.
pub struct TrayCore {
    pub config: TrayConfig,
    /// Tracked items, each id at most once.
    pub items: Vec<ItemEntry>,
    pub watcher: WatcherState,
    /// Commands waiting for the worker, oldest first.
    pub pending: Vec<Cmd>,
    /// Registrations accepted by the fallback watcher whose items have not
    /// been materialized yet.
    pub pending_registered: Vec<String>,
    /// Deadlines of deferred work, at most one per refetch target.
    pub timers: Vec<Timer>,
    /// Set once the runtime stops; never cleared.
    pub stopping: bool,
    /// Bus name under which this host registered (empty until registered).
    pub host_id: String,
}

pub open spec fn entry_views(s: Seq<ItemEntry>) -> Seq<ItemEntryView> {
    s.map_values(|e: ItemEntry| e@)
}

pub open spec fn timer_views(s: Seq<Timer>) -> Seq<TimerView> {
    s.map_values(|t: Timer| t@)
}

pub open spec fn cmd_views(s: Seq<Cmd>) -> Seq<CmdView> {
    s.map_values(|c: Cmd| c@)
}

/// No id occurs twice.
pub open spec fn unique_ids(items: Seq<ItemEntryView>) -> bool {
    forall|i: int, j: int|
        0 <= i < items.len() && 0 <= j < items.len() && i != j ==> items[i].id != items[j].id
}

/// No two timers do the same work.
pub open spec fn unique_targets(timers: Seq<TimerView>) -> bool {
    forall|i: int, j: int|
        0 <= i < timers.len() && 0 <= j < timers.len() && i != j ==> !same_target_spec(
            timers[i].kind,
            timers[j].kind,
        )
}

/// Index of the entry with id `id`, if tracked.
pub open spec fn index_of_id(items: Seq<ItemEntryView>, id: TrayItemIdView) -> Option<int> {
    if exists|i: int| 0 <= i < items.len() && items[i].id == id {
        Some(choose|i: int| 0 <= i < items.len() && items[i].id == id)
    } else {
        None
    }
}

/// What an outside observer sees of the core.
pub struct TrayCoreView {
    pub config: TrayConfig,
    pub items: Seq<ItemEntryView>,
    pub watcher: WatcherState,
    pub pending: Seq<CmdView>,
    pub pending_registered: Seq<Seq<char>>,
    pub timers: Seq<TimerView>,
    pub stopping: bool,
    pub host_id: Seq<char>,
}

impl View for TrayCore {
    type V = TrayCoreView;

    open spec fn view(&self) -> TrayCoreView {
        TrayCoreView {
            config: self.config,
            items: entry_views(self.items@),
            watcher: self.watcher,
            pending: cmd_views(self.pending@),
            pending_registered: self.pending_registered@.map_values(|s: String| s@),
            timers: timer_views(self.timers@),
            stopping: self.stopping,
            host_id: self.host_id@,
        }
    }
}

/// An entry agrees with itself: its snapshot carries its id, the snapshot
/// says it has a menu exactly when there is a menu path, and a menu is
/// stored only for an item with a menu path.
pub open spec fn entry_ok(e: ItemEntryView) -> bool {
    &&& e.snapshot.id == e.id
    &&& e.snapshot.has_menu == (e.menu_path is Some)
    &&& (e.menu is Some ==> e.menu_path is Some)
}

pub open spec fn entries_ok(items: Seq<ItemEntryView>) -> bool {
    forall|i: int| 0 <= i < items.len() ==> entry_ok(#[trigger] items[i])
}

impl TrayCore {
    /// Well-formedness: unique item ids, entries that agree with themselves
    /// and at most one timer per target.
    pub open spec fn wf(&self) -> bool {
        &&& unique_ids(self@.items)
        &&& entries_ok(self@.items)
        &&& unique_targets(self@.timers)
    }

    /// Fresh state: no items, no watcher, nothing pending.
    pub fn new(config: TrayConfig) -> (c: TrayCore)
        ensures
            c.wf(),
            c@.config == config,
            c@.items.len() == 0,
            c@.watcher == WatcherState::ExternalDown,
            c@.pending.len() == 0,
            c@.pending_registered.len() == 0,
            c@.timers.len() == 0,
            !c@.stopping,
            c@.host_id.len() == 0,
    {
        let c = TrayCore {
            config,
            items: Vec::new(),
            watcher: WatcherState::ExternalDown,
            pending: Vec::new(),
            pending_registered: Vec::new(),
            timers: Vec::new(),
            stopping: false,
            host_id: String::new(),
        };
        proof {
            assert(c@.items =~= Seq::<ItemEntryView>::empty());
            assert(c@.timers =~= Seq::<TimerView>::empty());
            assert(c@.pending =~= Seq::<CmdView>::empty());
            assert(c@.pending_registered =~= Seq::<Seq<char>>::empty());
        }
        c
    }

    /// Position of the entry with this id.
    pub fn find(&self, id: &TrayItemId) -> (r: Option<usize>)
        requires
            self.wf(),
        ensures
            r == match index_of_id(self@.items, id@) {
                Some(i) => Some(i as usize),
                None => None::<usize>,
            },
            r matches Some(i) ==> i < self@.items.len() && self@.items[i as int].id == id@,
    {
        let mut i: usize = 0;
        while i < self.items.len()
            invariant
                self.wf(),
                i <= self.items@.len(),
                forall|j: int| 0 <= j < i ==> self@.items[j].id != id@,
            decreases self.items@.len() - i,
        {
            if self.items[i].id.same_as(id) {
                proof {
                    assert(self@.items[i as int].id == id@);
                    let k = choose|k: int| 0 <= k < self@.items.len() && self@.items[k].id == id@;
                    assert(k == i);
                }
                return Some(i);
            }
            i = i + 1;
        }
        None
    }

    /// Snapshot of all current items.
    /// One snapshot per tracked item, in table order; no two share an id,
    /// and each is what [`TrayCore::item`] gives for its id.
    pub fn items(&self) -> (v: Vec<TrayItem>)
        requires
            self.wf(),
        ensures
            v@.len() == self@.items.len(),
            forall|i: int| 0 <= i < v@.len() ==> #[trigger] v@[i]@ == self@.items[i].snapshot,
            forall|i: int| 0 <= i < v@.len() ==> #[trigger] v@[i].id@ == self@.items[i].id,
            forall|i: int, j: int| 0 <= i < v@.len() && 0 <= j < v@.len() && i != j ==> v@[i].id@
                != v@[j].id@,
            forall|i: int| 0 <= i < v@.len() ==> index_of_id(self@.items, #[trigger] v@[i].id@) == Some(i),
    {
        let mut v: Vec<TrayItem> = Vec::new();
        let mut i: usize = 0;
        while i < self.items.len()
            invariant
                i <= self.items@.len(),
                v@.len() == i,
                forall|j: int| 0 <= j < i ==> #[trigger] v@[j]@ == self@.items[j].snapshot,
            decreases self.items@.len() - i,
        {
            v.push(self.items[i].snapshot.duplicate());
            i = i + 1;
        }
        proof {
            assert forall|k: int| 0 <= k < v@.len() implies #[trigger] v@[k].id@ == self@.items[k].id by {
                assert(v@[k]@ == self@.items[k].snapshot);
                assert(entry_ok(self@.items[k]));
            }
            assert forall|k: int| 0 <= k < v@.len() implies index_of_id(self@.items, #[trigger] v@[k].id@)
                == Some(k) by {
                assert(v@[k].id@ == self@.items[k].id);
            }
        }
        v
    }

    /// Snapshot of one item.
    pub fn item(&self, id: &TrayItemId) -> (r: Option<TrayItem>)
        requires
            self.wf(),
        ensures
            match index_of_id(self@.items, id@) {
                Some(i) => r matches Some(t) && t@ == self@.items[i].snapshot,
                None => r is None,
            },
    {
        match self.find(id) {
            Some(i) => Some(self.items[i].snapshot.duplicate()),
            None => None,
        }
    }

    /// Menu snapshot of one item, if it has a menu and it has been fetched.
    pub fn menu(&self, id: &TrayItemId) -> (r: Option<MenuSnapshot>)
        requires
            self.wf(),
        ensures
            match index_of_id(self@.items, id@) {
                Some(i) => r.deep_view() == self@.items[i].menu,
                None => r is None,
            },
            r is Some ==> (index_of_id(self@.items, id@) matches Some(i) && self@.items[i].menu_path is Some
                && self@.items[i].snapshot.has_menu),
    {
        match self.find(id) {
            Some(i) => match &self.items[i].menu {
                Some(m) => Some(m.duplicate()),
                None => None,
            },
            None => None,
        }
    }
}


// ── change detection ────────────────────────────────────────────────────

pub open spec fn push_if(s: Seq<ItemField>, cond: bool, f: ItemField) -> Seq<ItemField> {
    if cond { s.push(f) } else { s }
}

/// The changed-field list for the given per-field difference flags, in
/// the fixed order Status, Title, Description, Icon, OverlayIcon,
/// AttentionIcon, Tooltip, WindowId, Category, HasMenu.
pub open spec fn fields_from_flags(c: spec_fn(ItemField) -> bool) -> Seq<ItemField> {
    let s0 = Seq::<ItemField>::empty();
    let s1 = push_if(s0, c(ItemField::Status), ItemField::Status);
    let s2 = push_if(s1, c(ItemField::Title), ItemField::Title);
    let s3 = push_if(s2, c(ItemField::Description), ItemField::Description);
    let s4 = push_if(s3, c(ItemField::Icon), ItemField::Icon);
    let s5 = push_if(s4, c(ItemField::OverlayIcon), ItemField::OverlayIcon);
    let s6 = push_if(s5, c(ItemField::AttentionIcon), ItemField::AttentionIcon);
    let s7 = push_if(s6, c(ItemField::Tooltip), ItemField::Tooltip);
    let s8 = push_if(s7, c(ItemField::WindowId), ItemField::WindowId);
    let s9 = push_if(s8, c(ItemField::Category), ItemField::Category);
    push_if(s9, c(ItemField::HasMenu), ItemField::HasMenu)
}

/// Fields that differ between two snapshots (the id is not compared).
pub open spec fn diff_spec(old: TrayItemView, new: TrayItemView) -> Seq<ItemField> {
    fields_from_flags(|f: ItemField| field_differs(old, new, f))
}

/// Fields that changed between two snapshots of an item.
pub fn diff_fields(old: &TrayItem, new: &TrayItem) -> (out: Vec<ItemField>)
    ensures
        out@ == diff_spec(old@, new@),
{
    let mut out: Vec<ItemField> = Vec::new();
    if old.status != new.status {
        out.push(ItemField::Status);
    }
    if !crate::tray::model::same_opt_string(&old.title, &new.title) {
        out.push(ItemField::Title);
    }
    if !crate::tray::model::same_opt_string(&old.description, &new.description) {
        out.push(ItemField::Description);
    }
    if !old.icon.same_as(&new.icon) {
        out.push(ItemField::Icon);
    }
    if !crate::tray::model::same_opt_icon(&old.overlay_icon, &new.overlay_icon) {
        out.push(ItemField::OverlayIcon);
    }
    if !crate::tray::model::same_opt_icon(&old.attention_icon, &new.attention_icon) {
        out.push(ItemField::AttentionIcon);
    }
    if !crate::tray::model::same_opt_tooltip(&old.tooltip, &new.tooltip) {
        out.push(ItemField::Tooltip);
    }
    if old.window_id != new.window_id {
        out.push(ItemField::WindowId);
    }
    if old.category != new.category {
        out.push(ItemField::Category);
    }
    if old.has_menu != new.has_menu {
        out.push(ItemField::HasMenu);
    }
    out
}

/// Whether the field `f` of the two snapshots differs.
pub open spec fn field_differs(old: TrayItemView, new: TrayItemView, f: ItemField) -> bool {
    match f {
        ItemField::Status => old.status != new.status,
        ItemField::Title => old.title != new.title,
        ItemField::Description => old.description != new.description,
        ItemField::Icon => old.icon != new.icon,
        ItemField::OverlayIcon => old.overlay_icon != new.overlay_icon,
        ItemField::AttentionIcon => old.attention_icon != new.attention_icon,
        ItemField::Tooltip => old.tooltip != new.tooltip,
        ItemField::WindowId => old.window_id != new.window_id,
        ItemField::Category => old.category != new.category,
        ItemField::HasMenu => old.has_menu != new.has_menu,
    }
}

proof fn lemma_push_if(s: Seq<ItemField>, c: bool, f: ItemField)
    ensures
        forall|g: ItemField| #[trigger] push_if(s, c, f).contains(g) <==> (s.contains(g) || (c && g == f)),
        s.no_duplicates() && !s.contains(f) ==> push_if(s, c, f).no_duplicates(),
{
    let t = push_if(s, c, f);
    if c {
        assert forall|g: ItemField| #[trigger] t.contains(g) <==> (s.contains(g) || g == f) by {
            if t.contains(g) {
                let i = choose|i: int| 0 <= i < t.len() && t[i] == g;
                if i < s.len() {
                    assert(s[i] == g);
                }
            }
            if s.contains(g) {
                let i = choose|i: int| 0 <= i < s.len() && s[i] == g;
                assert(t[i] == g);
            }
            if g == f {
                assert(t[s.len() as int] == g);
            }
        }
        if s.no_duplicates() && !s.contains(f) {
            assert forall|i: int, j: int| 0 <= i < t.len() && 0 <= j < t.len() && i != j implies t[i]
                != t[j] by {
                if i < s.len() && j < s.len() {
                } else if i < s.len() {
                    assert(s.contains(t[i]));
                } else if j < s.len() {
                    assert(s.contains(t[j]));
                }
            }
        }
    }
}

/// Every field, in report order.
pub open spec fn all_fields() -> Seq<ItemField> {
    seq![
        ItemField::Status,
        ItemField::Title,
        ItemField::Description,
        ItemField::Icon,
        ItemField::OverlayIcon,
        ItemField::AttentionIcon,
        ItemField::Tooltip,
        ItemField::WindowId,
        ItemField::Category,
        ItemField::HasMenu,
    ]
}

pub open spec fn keep_fields(s: Seq<ItemField>, c: spec_fn(ItemField) -> bool) -> Seq<ItemField>
    decreases s.len(),
{
    if s.len() == 0 {
        Seq::empty()
    } else {
        push_if(keep_fields(s.drop_last(), c), c(s.last()), s.last())
    }
}

proof fn lemma_keep_fields(s: Seq<ItemField>, c: spec_fn(ItemField) -> bool)
    requires
        s.no_duplicates(),
    ensures
        forall|f: ItemField| #[trigger] keep_fields(s, c).contains(f) <==> (s.contains(f) && c(f)),
        keep_fields(s, c).no_duplicates(),
    decreases s.len(),
{
    if s.len() > 0 {
        let init = s.drop_last();
        assert(init.no_duplicates());
        lemma_keep_fields(init, c);
        lemma_push_if(keep_fields(init, c), c(s.last()), s.last());
        assert(!init.contains(s.last()));
        assert forall|f: ItemField| #[trigger] s.contains(f) <==> (init.contains(f) || f == s.last()) by {
            if s.contains(f) {
                let i = choose|i: int| 0 <= i < s.len() && s[i] == f;
                if i < s.len() - 1 {
                    assert(init[i] == f);
                }
            }
            if init.contains(f) {
                let i = choose|i: int| 0 <= i < init.len() && init[i] == f;
                assert(s[i] == f);
            }
        }
    }
}

proof fn lemma_fields_from_flags(c: spec_fn(ItemField) -> bool)
    ensures
        forall|f: ItemField| #[trigger] fields_from_flags(c).contains(f) <==> c(f),
        fields_from_flags(c).no_duplicates(),
{
    let all = all_fields();
    assert(all.no_duplicates());
    reveal_with_fuel(keep_fields, 11);
    assert(all.drop_last().drop_last().drop_last().drop_last().drop_last().drop_last().drop_last().drop_last().drop_last().drop_last() =~= Seq::<ItemField>::empty());
    assert(fields_from_flags(c) =~= keep_fields(all, c));
    lemma_keep_fields(all, c);
    assert forall|f: ItemField| #[trigger] all.contains(f) by {
        match f {
            ItemField::Status => { assert(all[0] == f); },
            ItemField::Title => { assert(all[1] == f); },
            ItemField::Description => { assert(all[2] == f); },
            ItemField::Icon => { assert(all[3] == f); },
            ItemField::OverlayIcon => { assert(all[4] == f); },
            ItemField::AttentionIcon => { assert(all[5] == f); },
            ItemField::Tooltip => { assert(all[6] == f); },
            ItemField::WindowId => { assert(all[7] == f); },
            ItemField::Category => { assert(all[8] == f); },
            ItemField::HasMenu => { assert(all[9] == f); },
        }
    }
}

/// A field is reported as changed exactly when it differs, each at most
/// once; comparing a snapshot with itself reports nothing, and the
/// comparison is symmetric.
pub proof fn lemma_diff_fields(old: TrayItemView, new: TrayItemView)
    ensures
        forall|f: ItemField| diff_spec(old, new).contains(f) <==> field_differs(old, new, f),
        diff_spec(old, new).no_duplicates(),
        diff_spec(old, new) == diff_spec(new, old),
        diff_spec(old, old).len() == 0,
{
    let c = |f: ItemField| field_differs(old, new, f);
    lemma_fields_from_flags(c);
    assert forall|f: ItemField| diff_spec(old, new).contains(f) <==> field_differs(old, new, f) by {
        assert(c(f) == field_differs(old, new, f));
    }
    let c2 = |f: ItemField| field_differs(new, old, f);
    assert(c =~= c2);
    let c3 = |f: ItemField| field_differs(old, old, f);
    assert(c3 =~= |f: ItemField| false);
    lemma_fields_from_flags(c3);
    if diff_spec(old, old).len() > 0 {
        assert(diff_spec(old, old).contains(diff_spec(old, old)[0]));
    }
}


// ── commands ────────────────────────────────────────────────────────────

/// The state once the runtime stopped.
pub open spec fn stopped(s: TrayCoreView) -> TrayCoreView {
    TrayCoreView { stopping: true, ..s }
}

/// Queuing a command: the next state and whether it was accepted (not
/// once stopped).
pub open spec fn enqueue_spec(s: TrayCoreView, c: CmdView) -> (TrayCoreView, bool) {
    if s.stopping {
        (s, false)
    } else {
        (TrayCoreView { pending: s.pending.push(c), ..s }, true)
    }
}

/// Taking the next command: the next state and the command, oldest first;
/// nothing once stopped. Taking `Shutdown` stops the runtime.
pub open spec fn next_spec(s: TrayCoreView) -> (TrayCoreView, Option<CmdView>) {
    if s.stopping || s.pending.len() == 0 {
        (s, None)
    } else {
        (
            TrayCoreView { pending: s.pending.drop_first(), stopping: s.pending[0] is Shutdown, ..s },
            Some(s.pending[0]),
        )
    }
}

/// The commands the worker takes from `s`, oldest first, until the queue
/// is empty or the runtime stops.
pub open spec fn run_cmds(s: TrayCoreView) -> Seq<CmdView>
    decreases s.pending.len(),
{
    if s.stopping || s.pending.len() == 0 {
        Seq::empty()
    } else {
        seq![s.pending[0]] + run_cmds(
            TrayCoreView { pending: s.pending.drop_first(), stopping: s.pending[0] is Shutdown, ..s },
        )
    }
}

/// Whether taking the queued commands of `s` ends with the runtime stopped.
pub open spec fn run_stops(s: TrayCoreView) -> bool
    decreases s.pending.len(),
{
    if s.stopping {
        true
    } else if s.pending.len() == 0 {
        false
    } else {
        s.pending[0] is Shutdown || run_stops(
            TrayCoreView { pending: s.pending.drop_first(), ..s },
        )
    }
}

/// Adding an item entry: the next state and whether it was added (not when
/// its id is tracked already).
pub open spec fn insert_spec(s: TrayCoreView, e: ItemEntryView) -> (TrayCoreView, bool) {
    if index_of_id(s.items, e.id) is Some {
        (s, false)
    } else {
        (TrayCoreView { items: s.items.push(e), ..s }, true)
    }
}

impl TrayCore {
    /// Queue a command for the worker. Refused once the runtime stopped.
    pub fn enqueue(&mut self, cmd: Cmd) -> (r: Result<(), TrayError>)
        ensures
            (final(self)@, r is Ok) == enqueue_spec(old(self)@, cmd@),
            old(self).stopping ==> (r matches Err(TrayError::Stopped) && final(self)@ == old(self)@),
            !old(self).stopping ==> r is Ok && final(self)@ == (TrayCoreView {
                pending: old(self)@.pending.push(cmd@),
                ..old(self)@
            }),
    {
        if self.stopping {
            return Err(TrayError::Stopped);
        }
        let ghost before = self.pending@;
        self.pending.push(cmd);
        proof {
            assert(cmd_views(self.pending@) =~= cmd_views(before).push(cmd@));
        }
        Ok(())
    }

    /// Fire `Activate(x, y)` at the item (queued; the receipt arrives as
    /// an `InteractionResult` event).
    pub fn activate(&mut self, id: &TrayItemId, x: i32, y: i32) -> (r: Result<(), TrayError>)
        ensures
            old(self).stopping ==> (r matches Err(TrayError::Stopped) && final(self)@ == old(self)@),
            !old(self).stopping ==> r is Ok && final(self)@ == (TrayCoreView {
                pending: old(self)@.pending.push(
                    CmdView::Interact {
                        id: id@,
                        op: InteractionOp::Activate,
                        x,
                        y,
                        delta: 0,
                        orient: Orientation::Horizontal,
                    },
                ),
                ..old(self)@
            }),
    {
        self.enqueue(
            Cmd::Interact {
                id: id.duplicate(),
                op: InteractionOp::Activate,
                x,
                y,
                delta: 0,
                orient: Orientation::Horizontal,
            },
        )
    }

    /// Fire `SecondaryActivate(x, y)` (typically the right-click action).
    pub fn secondary_activate(&mut self, id: &TrayItemId, x: i32, y: i32) -> (r: Result<(), TrayError>)
        ensures
            old(self).stopping ==> (r matches Err(TrayError::Stopped) && final(self)@ == old(self)@),
            !old(self).stopping ==> r is Ok && final(self)@ == (TrayCoreView {
                pending: old(self)@.pending.push(
                    CmdView::Interact {
                        id: id@,
                        op: InteractionOp::SecondaryActivate,
                        x,
                        y,
                        delta: 0,
                        orient: Orientation::Horizontal,
                    },
                ),
                ..old(self)@
            }),
    {
        self.enqueue(
            Cmd::Interact {
                id: id.duplicate(),
                op: InteractionOp::SecondaryActivate,
                x,
                y,
                delta: 0,
                orient: Orientation::Horizontal,
            },
        )
    }

    /// Fire a scroll event at the item.
    pub fn scroll(&mut self, id: &TrayItemId, delta: i32, orient: Orientation) -> (r: Result<(), TrayError>)
        ensures
            old(self).stopping ==> (r matches Err(TrayError::Stopped) && final(self)@ == old(self)@),
            !old(self).stopping ==> r is Ok && final(self)@ == (TrayCoreView {
                pending: old(self)@.pending.push(
                    CmdView::Interact { id: id@, op: InteractionOp::Scroll, x: 0, y: 0, delta, orient },
                ),
                ..old(self)@
            }),
    {
        self.enqueue(
            Cmd::Interact { id: id.duplicate(), op: InteractionOp::Scroll, x: 0, y: 0, delta, orient },
        )
    }

    /// Trigger a menu entry (dbusmenu `Event(id, "clicked", ...)`).
    pub fn menu_activate(&mut self, id: &TrayItemId, menu_item_id: i32) -> (r: Result<(), TrayError>)
        ensures
            old(self).stopping ==> (r matches Err(TrayError::Stopped) && final(self)@ == old(self)@),
            !old(self).stopping ==> r is Ok && final(self)@ == (TrayCoreView {
                pending: old(self)@.pending.push(
                    CmdView::MenuActivate { id: id@, menu_item: menu_item_id },
                ),
                ..old(self)@
            }),
    {
        self.enqueue(Cmd::MenuActivate { id: id.duplicate(), menu_item: menu_item_id })
    }

    /// Graceful shutdown request: queue `Shutdown` (ignored once stopped).
    /// Idempotent.
    pub fn shutdown(&mut self)
        ensures
            final(self)@ == enqueue_spec(old(self)@, CmdView::Shutdown).0,
            old(self).stopping ==> final(self)@ == old(self)@,
            !old(self).stopping ==> final(self)@ == (TrayCoreView {
                pending: old(self)@.pending.push(CmdView::Shutdown),
                ..old(self)@
            }),
    {
        let _ = self.enqueue(Cmd::Shutdown);
    }

    /// Next command for the worker, oldest first; none once stopped. Taking
    /// `Shutdown` stops the runtime.
    pub fn next_command(&mut self) -> (r: Option<Cmd>)
        ensures
            next_spec(old(self)@) == (final(self)@, match r {
                Some(c) => Some(c@),
                None => None::<CmdView>,
            }),
            old(self).stopping || old(self)@.pending.len() == 0 ==> r is None && final(self)@
                == old(self)@,
            !old(self).stopping && old(self)@.pending.len() > 0 ==> (r matches Some(c) && c@
                == old(self)@.pending[0] && final(self)@ == (TrayCoreView {
                pending: old(self)@.pending.drop_first(),
                stopping: c@ is Shutdown,
                ..old(self)@
            })),
    {
        if self.stopping || self.pending.len() == 0 {
            return None;
        }
        let ghost before = self.pending@;
        let cmd = self.pending.remove(0);
        proof {
            assert(cmd_views(self.pending@) =~= cmd_views(before).drop_first());
        }
        if let Cmd::Shutdown = cmd {
            self.stopping = true;
        }
        Some(cmd)
    }

    /// Fatal error: the runtime stops; the returned `Fatal` event is the
    /// last one delivered.
    pub fn fatal(&mut self, message: String) -> (ev: TrayEvent)
        ensures
            final(self)@ == stopped(old(self)@),
            ev matches TrayEvent::Fatal(m) && m@ == message@,
    {
        self.stopping = true;
        TrayEvent::Fatal(message)
    }

    /// Final cleanup of the worker: stops the runtime and reports whether
    /// the fallback watcher must be released.
    pub fn cleanup(&mut self) -> (was_fallback: bool)
        ensures
            was_fallback == (old(self).watcher == WatcherState::FallbackActive),
            final(self)@ == stopped(old(self)@),
    {
        self.stopping = true;
        self.watcher == WatcherState::FallbackActive
    }

    // ── fallback watcher registrations ──────────────────────────────────

    /// `RegisterStatusNotifierItem` received by our watcher: remember the
    /// service (once) and queue its materialization. Returns whether it was
    /// accepted (not after stop).
    pub fn register_item_service(&mut self, service: &String) -> (accepted: bool)
        ensures
            accepted == !old(self).stopping,
            old(self).stopping ==> final(self)@ == old(self)@,
            !old(self).stopping ==> final(self)@ == (TrayCoreView {
                pending: old(self)@.pending.push(CmdView::ItemRegistered(service@)),
                pending_registered: if old(self)@.pending_registered.contains(service@) {
                    old(self)@.pending_registered
                } else {
                    old(self)@.pending_registered.push(service@)
                },
                ..old(self)@
            }),
    {
        if self.stopping {
            return false;
        }
        let ghost before_reg = self.pending_registered@;
        let ghost before_pending = self.pending@;
        let mut found = false;
        let mut i: usize = 0;
        while i < self.pending_registered.len()
            invariant
                i <= self.pending_registered@.len(),
                found == exists|j: int| 0 <= j < i && self.pending_registered@[j]@ == service@,
            decreases self.pending_registered@.len() - i,
        {
            if self.pending_registered[i] == *service {
                found = true;
            }
            i = i + 1;
        }
        let ghost regv = before_reg.map_values(|s: String| s@);
        proof {
            if found {
                let j = choose|j: int| 0 <= j < i && self.pending_registered@[j]@ == service@;
                assert(regv[j] == service@);
            }
            if regv.contains(service@) {
                let j = choose|j: int| 0 <= j < regv.len() && regv[j] == service@;
                assert(before_reg[j]@ == service@);
            }
        }
        if !found {
            self.pending_registered.push(service.clone());
            proof {
                assert(self.pending_registered@.map_values(|s: String| s@) =~= regv.push(service@));
            }
        }
        self.pending.push(Cmd::ItemRegistered(service.clone()));
        proof {
            assert(cmd_views(self.pending@) =~= cmd_views(before_pending).push(
                CmdView::ItemRegistered(service@),
            ));
        }
        true
    }

    /// The registration for `service` has been materialized (or dropped).
    pub fn finish_registration(&mut self, service: &String)
        ensures
            final(self)@ == (TrayCoreView {
                pending_registered: old(self)@.pending_registered.filter(|s: Seq<char>| s != service@),
                ..old(self)@
            }),
    {
        let ghost before = self.pending_registered@.map_values(|s: String| s@);
        let mut kept: Vec<String> = Vec::new();
        let mut i: usize = 0;
        while i < self.pending_registered.len()
            invariant
                i <= self.pending_registered@.len(),
                before == self.pending_registered@.map_values(|s: String| s@),
                kept@.map_values(|s: String| s@) == before.take(i as int).filter(
                    |s: Seq<char>| s != service@,
                ),
            decreases self.pending_registered@.len() - i,
        {
            proof {
                assert(before.take(i + 1).drop_last() =~= before.take(i as int));
                reveal(Seq::filter);
            }
            let ghost kv = kept@;
            if self.pending_registered[i] != *service {
                kept.push(self.pending_registered[i].clone());
                proof {
                    assert(kept@.map_values(|s: String| s@) =~= kv.map_values(|s: String| s@).push(
                        before[i as int],
                    ));
                }
            }
            i = i + 1;
        }
        proof {
            assert(before.take(before.len() as int) =~= before);
        }
        self.pending_registered = kept;
    }

    /// `RegisteredStatusNotifierItems` of our watcher: tracked items
    /// (`bus` + `path`) followed by accepted, not yet materialized
    /// registrations.
    pub fn registered_items(&self) -> (v: Vec<String>)
        ensures
            v@.map_values(|s: String| s@) == self@.items.map_values(|e: ItemEntryView| id_text(e.id))
                + self@.pending_registered,
    {
        let mut v: Vec<String> = Vec::new();
        let mut i: usize = 0;
        while i < self.items.len()
            invariant
                i <= self.items@.len(),
                v@.len() == i,
                forall|j: int| 0 <= j < i ==> #[trigger] v@[j]@ == id_text(self.items@[j].id@),
            decreases self.items@.len() - i,
        {
            v.push(self.items[i].id.to_text());
            i = i + 1;
        }
        let n = v.len();
        let mut k: usize = 0;
        while k < self.pending_registered.len()
            invariant
                k <= self.pending_registered@.len(),
                n == self@.items.len(),
                v@.len() == n + k,
                forall|j: int| 0 <= j < n ==> #[trigger] v@[j]@ == id_text(self.items@[j].id@),
                forall|j: int| 0 <= j < k ==> #[trigger] v@[n + j]@ == self.pending_registered@[j]@,
            decreases self.pending_registered@.len() - k,
        {
            v.push(self.pending_registered[k].clone());
            k = k + 1;
        }
        proof {
            let lhs = v@.map_values(|s: String| s@);
            let rhs = self@.items.map_values(|e: ItemEntryView| id_text(e.id))
                + self@.pending_registered;
            assert forall|j: int| 0 <= j < lhs.len() implies lhs[j] == rhs[j] by {
                if j < n {
                    assert(v@[j]@ == id_text(self.items@[j].id@));
                } else {
                    assert(v@[n + (j - n)]@ == self.pending_registered@[j - n]@);
                }
            }
            assert(lhs =~= rhs);
        }
        v
    }
}


/// Id of the first entry whose unique name is `u`.
pub open spec fn first_by_unique(items: Seq<ItemEntryView>, u: Seq<char>) -> Option<TrayItemIdView> {
    unique_from(items, u, 0)
}

/// Id of the first entry at or after `i` whose unique name is `u`.
pub open spec fn unique_from(items: Seq<ItemEntryView>, u: Seq<char>, i: int) -> Option<TrayItemIdView>
    decreases items.len() - i,
{
    if i < 0 || i >= items.len() {
        None
    } else if items[i].unique == u {
        Some(items[i].id)
    } else {
        unique_from(items, u, i + 1)
    }
}

/// Id of the first entry whose unique name is `u` and menu path `p`.
pub open spec fn first_by_menu(items: Seq<ItemEntryView>, u: Seq<char>, p: Seq<char>) -> Option<
    TrayItemIdView,
> {
    menu_from(items, u, p, 0)
}

/// Id of the first entry at or after `i` whose unique name is `u` and menu
/// path `p`.
pub open spec fn menu_from(items: Seq<ItemEntryView>, u: Seq<char>, p: Seq<char>, i: int) -> Option<
    TrayItemIdView,
>
    decreases items.len() - i,
{
    if i < 0 || i >= items.len() {
        None
    } else if items[i].unique == u && items[i].menu_path == Some(p) {
        Some(items[i].id)
    } else {
        menu_from(items, u, p, i + 1)
    }
}

// ── item table ──────────────────────────────────────────────────────────

/// What to do with a newly announced service.
pub enum AddPlan {
    /// Unparsable service string: nothing.
    Ignore,
    /// Already tracked: refetch its properties (debounced).
    Refetch(TrayItemId),
    /// New item: fetch its properties, then `insert_item`.
    Fetch(TrayItemId),
}

impl TrayCore {
    /// Decide how to handle a service announced by the watcher.
    pub fn add_plan(&self, service: &str) -> (p: AddPlan)
        requires
            self.wf(),
        ensures
            match sni::service_spec(service@) {
                None => p is Ignore,
                Some((bus, path)) => {
                    let id = TrayItemIdView { bus_name: bus, path };
                    if index_of_id(self@.items, id) is Some {
                        p matches AddPlan::Refetch(i) && i@ == id
                    } else {
                        p matches AddPlan::Fetch(i) && i@ == id
                    }
                },
            },
    {
        match sni::parse_service(service) {
            None => AddPlan::Ignore,
            Some((bus, path)) => {
                let id = TrayItemId { bus_name: bus, path };
                match self.find(&id) {
                    Some(_) => AddPlan::Refetch(id),
                    None => AddPlan::Fetch(id),
                }
            },
        }
    }

    /// Start tracking a freshly fetched item, unless it raced in meanwhile.
    /// Returns the `Added` event.
    pub fn insert_item(
        &mut self,
        unique: String,
        snap: TrayItemSnapshot,
        menu: Option<MenuSnapshot>,
    ) -> (r: Option<TrayEvent>)
        requires
            old(self).wf(),
            snap.item.has_menu == (snap.menu_path is Some),
            menu is Some ==> snap.menu_path is Some,
        ensures
            final(self).wf(),
            (final(self)@, r is Some) == insert_spec(
                old(self)@,
                ItemEntryView {
                    id: snap.item.id@,
                    unique: unique@,
                    menu_path: snap.menu_path.deep_view(),
                    snapshot: snap.item@,
                    menu: menu.deep_view(),
                },
            ),
            index_of_id(old(self)@.items, snap.item.id@) is Some ==> r is None && final(self)@
                == old(self)@,
            index_of_id(old(self)@.items, snap.item.id@) is None ==> (r matches Some(
                TrayEvent::Added(t),
            ) && t@ == snap.item@ && final(self)@ == (TrayCoreView {
                items: old(self)@.items.push(
                    ItemEntryView {
                        id: snap.item.id@,
                        unique: unique@,
                        menu_path: snap.menu_path.deep_view(),
                        snapshot: snap.item@,
                        menu: menu.deep_view(),
                    },
                ),
                ..old(self)@
            })),
    {
        if self.find(&snap.item.id).is_some() {
            return None;
        }
        let ghost before = self.items@;
        let added = snap.item.duplicate();
        let entry = ItemEntry {
            id: snap.item.id.duplicate(),
            unique,
            menu_path: snap.menu_path,
            snapshot: snap.item,
            menu,
        };
        self.items.push(entry);
        proof {
            assert(entry_views(self.items@) =~= entry_views(before).push(entry@));
            assert forall|i: int| 0 <= i < before.len() implies entry_views(before)[i].id
                != entry@.id by {}
        }
        Some(TrayEvent::Added(added))
    }

    /// Stop tracking an item. Returns the `Removed` event if it was tracked.
    pub fn remove_item(&mut self, id: &TrayItemId) -> (r: Option<TrayEvent>)
        requires
            old(self).wf(),
        ensures
            final(self).wf(),
            match index_of_id(old(self)@.items, id@) {
                Some(i) => (r matches Some(TrayEvent::Removed(rid)) && rid@ == id@) && final(self)@
                    == (TrayCoreView { items: old(self)@.items.remove(i), ..old(self)@ }),
                None => r is None && final(self)@ == old(self)@,
            },
            index_of_id(final(self)@.items, id@) is None,
    {
        match self.find(id) {
            Some(i) => {
                let ghost before = self.items@;
                let _gone = self.items.remove(i);
                proof {
                    assert(entry_views(self.items@) =~= entry_views(before).remove(i as int));
                    assert forall|k: int| 0 <= k < self@.items.len() implies self@.items[k].id
                        != id@ by {
                        if k < i {
                            assert(self@.items[k] == entry_views(before)[k]);
                        } else {
                            assert(self@.items[k] == entry_views(before)[k + 1]);
                        }
                    }
                }
                Some(TrayEvent::Removed(id.duplicate()))
            },
            None => None,
        }
    }

    /// Id of the first item whose unique bus name is `unique`.
    pub fn item_by_unique(&self, unique: &str) -> (r: Option<TrayItemId>)
        ensures
            r.deep_view() == first_by_unique(self@.items, unique@),
    {
        let u = unique.to_owned();
        let mut i: usize = 0;
        while i < self.items.len()
            invariant
                i <= self.items@.len(),
                u@ == unique@,
                first_by_unique(self@.items, unique@) == unique_from(self@.items, unique@, i as int),
            decreases self.items@.len() - i,
        {
            proof {
                assert(self@.items[i as int] == self.items@[i as int]@);
            }
            if self.items[i].unique == u {
                return Some(self.items[i].id.duplicate());
            }
            i = i + 1;
        }
        None
    }

    /// Id of the first item whose unique bus name is `unique` and whose menu
    /// lives at `path`.
    pub fn item_by_menu_signal(&self, unique: &str, path: &str) -> (r: Option<TrayItemId>)
        ensures
            r.deep_view() == first_by_menu(self@.items, unique@, path@),
    {
        let u = unique.to_owned();
        let p = path.to_owned();
        let mut i: usize = 0;
        while i < self.items.len()
            invariant
                i <= self.items@.len(),
                u@ == unique@,
                p@ == path@,
                first_by_menu(self@.items, unique@, path@) == menu_from(
                    self@.items,
                    unique@,
                    path@,
                    i as int,
                ),
            decreases self.items@.len() - i,
        {
            proof {
                assert(self@.items[i as int] == self.items@[i as int]@);
            }
            let hit = match &self.items[i].menu_path {
                Some(mp) => self.items[i].unique == u && *mp == p,
                None => false,
            };
            if hit {
                return Some(self.items[i].id.duplicate());
            }
            i = i + 1;
        }
        None
    }

    /// Where an item's menu lives: (bus name, menu path), if tracked and it
    /// has one.
    pub fn menu_target(&self, id: &TrayItemId) -> (r: Option<(String, String)>)
        requires
            self.wf(),
        ensures
            match index_of_id(self@.items, id@) {
                Some(i) => match self@.items[i].menu_path {
                    Some(mp) => r matches Some((b, p)) && b@ == id@.bus_name && p@ == mp,
                    None => r is None,
                },
                None => r is None,
            },
    {
        match self.find(id) {
            Some(i) => match &self.items[i].menu_path {
                Some(mp) => Some((self.items[i].id.bus_name.clone(), mp.clone())),
                None => None,
            },
            None => None,
        }
    }

    /// Checks made before `AboutToShow`: the runtime runs, the item is
    /// tracked and has a menu. Gives (bus name, menu path).
    pub fn about_to_show_target(&self, id: &TrayItemId) -> (r: Result<(String, String), TrayError>)
        requires
            self.wf(),
        ensures
            self.stopping ==> r matches Err(TrayError::Stopped),
            !self.stopping ==> match index_of_id(self@.items, id@) {
                None => r matches Err(TrayError::ItemNotFound(s)) && s@ == id_text(id@),
                Some(i) => match self@.items[i].menu_path {
                    Some(mp) => r matches Ok((b, p)) && b@ == id@.bus_name && p@ == mp,
                    None => r matches Err(TrayError::Protocol(s)) && s@ == "item has no menu"@,
                },
            },
    {
        if self.stopping {
            return Err(TrayError::Stopped);
        }
        match self.find(id) {
            None => Err(TrayError::item_not_found(id)),
            Some(i) => match &self.items[i].menu_path {
                Some(mp) => Ok((self.items[i].id.bus_name.clone(), mp.clone())),
                None => Err(TrayError::Protocol(String::from_str("item has no menu"))),
            },
        }
    }

    /// Store a freshly fetched menu. Returns `MenuChanged` when the item is
    /// still tracked, still has a menu path and its menu differs from the
    /// stored one.
    pub fn apply_menu(&mut self, id: &TrayItemId, fresh: MenuSnapshot) -> (r: Option<TrayEvent>)
        requires
            old(self).wf(),
        ensures
            final(self).wf(),
            match index_of_id(old(self)@.items, id@) {
                Some(i) => if old(self)@.items[i].menu_path is None || old(self)@.items[i].menu == Some(
                    fresh@,
                ) {
                    r is None && final(self)@ == old(self)@
                } else {
                    (r matches Some(TrayEvent::MenuChanged(mid)) && mid@ == id@) && final(self)@
                        == (TrayCoreView {
                        items: old(self)@.items.update(
                            i,
                            ItemEntryView { menu: Some(fresh@), ..old(self)@.items[i] },
                        ),
                        ..old(self)@
                    })
                },
                None => r is None && final(self)@ == old(self)@,
            },
    {
        let i = match self.find(id) {
            Some(i) => i,
            None => return None,
        };
        if self.items[i].menu_path.is_none() {
            return None;
        }
        let same = match &self.items[i].menu {
            Some(m) => m.same_as(&fresh),
            None => false,
        };
        if same {
            return None;
        }
        let ghost before = self.items@;
        let ghost fv = fresh@;
        self.items[i].menu = Some(fresh);
        proof {
            assert(entry_views(self.items@) =~= entry_views(before).update(
                i as int,
                ItemEntryView { menu: Some(fv), ..entry_views(before)[i as int] },
            ));
        }
        Some(TrayEvent::MenuChanged(id.duplicate()))
    }
}

// ── timers ──────────────────────────────────────────────────────────────

/// Timers left after dropping those doing the same work as `kind`.
pub open spec fn without_target(ts: Seq<TimerView>, kind: TimerKindView) -> Seq<TimerView> {
    ts.filter(|t: TimerView| !same_target_spec(t.kind, kind))
}

/// Timers whose deadline has not passed at `now`.
pub open spec fn future_timers(ts: Seq<TimerView>, now: u64) -> Seq<TimerView> {
    ts.filter(|t: TimerView| t.at > now)
}

/// Work of the timers due at `now`, in schedule order.
pub open spec fn due_kinds(ts: Seq<TimerView>, now: u64) -> Seq<TimerKindView> {
    ts.filter(|t: TimerView| t.at <= now).map_values(|t: TimerView| t.kind)
}

impl TrayCore {
    /// Schedule `kind` at `at`, replacing any pending timer for the same
    /// work (this coalesces bursts of change signals into one refetch).
    pub fn schedule_timer(&mut self, at: u64, kind: TimerKind)
        requires
            old(self).wf(),
        ensures
            final(self).wf(),
            final(self)@ == (TrayCoreView {
                timers: without_target(old(self)@.timers, kind@).push(TimerView { at, kind: kind@ }),
                ..old(self)@
            }),
    {
        let ghost old_ts = self@.timers;
        let mut kept: Vec<Timer> = Vec::new();
        let mut i: usize = 0;
        while i < self.timers.len()
            invariant
                i <= self.timers@.len(),
                old_ts == timer_views(self.timers@),
                unique_targets(old_ts),
                timer_views(kept@) == without_target(old_ts.take(i as int), kind@),
                unique_targets(timer_views(kept@)),
                forall|j: int| 0 <= j < kept@.len() ==> exists|m: int| 0 <= m < i && #[trigger] timer_views(kept@)[j] == old_ts[m],
            decreases self.timers@.len() - i,
        {
            proof {
                assert(old_ts.take(i + 1).drop_last() =~= old_ts.take(i as int));
                reveal(Seq::filter);
            }
            let ghost kv = timer_views(kept@);
            if !same_target(&self.timers[i].kind, &kind) {
                let t = Timer { at: self.timers[i].at, kind: self.timers[i].kind.duplicate() };
                kept.push(t);
                proof {
                    assert(timer_views(kept@) =~= kv.push(old_ts[i as int]));
                    assert forall|a: int, b: int|
                        0 <= a < timer_views(kept@).len() && 0 <= b < timer_views(kept@).len() && a
                            != b implies !same_target_spec(
                        timer_views(kept@)[a].kind,
                        timer_views(kept@)[b].kind,
                    ) by {
                        if a < kv.len() && b < kv.len() {
                        } else if a < kv.len() {
                            let m = choose|m: int| 0 <= m < i && #[trigger] kv[a] == old_ts[m];
                            assert(kv[a] == old_ts[m]);
                        } else {
                            let m = choose|m: int| 0 <= m < i && #[trigger] kv[b] == old_ts[m];
                            assert(kv[b] == old_ts[m]);
                        }
                    }
                    assert forall|j: int| 0 <= j < kept@.len() implies exists|m: int|
                        0 <= m < i + 1 && #[trigger] timer_views(kept@)[j] == old_ts[m] by {
                        if j < kv.len() {
                            let m = choose|m: int| 0 <= m < i && #[trigger] kv[j] == old_ts[m];
                            assert(timer_views(kept@)[j] == old_ts[m]);
                        } else {
                            assert(timer_views(kept@)[j] == old_ts[i as int]);
                        }
                    }
                }
            }
            i = i + 1;
        }
        proof {
            assert(old_ts.take(old_ts.len() as int) =~= old_ts);
        }
        let ghost kv = timer_views(kept@);
        let ghost kview = kind@;
        kept.push(Timer { at, kind });
        proof {
            assert(timer_views(kept@) =~= kv.push(TimerView { at, kind: kview }));
            let pred = |t: TimerView| !same_target_spec(t.kind, kview);
            assert(kv == old_ts.filter(pred));
            assert forall|j: int| 0 <= j < kv.len() implies !same_target_spec(kv[j].kind, kview) by {
                old_ts.lemma_filter_pred(pred, j);
            }
        }
        self.timers = kept;
    }

    /// Debounced property refetch of an item at `now + debounce_ms`.
    /// Returns the deadline.
    pub fn schedule_refetch_item(&mut self, now: u64, id: &TrayItemId) -> (at: u64)
        requires
            old(self).wf(),
            now + old(self).config.debounce_ms <= u64::MAX,
        ensures
            final(self).wf(),
            at == now + old(self).config.debounce_ms,
            final(self)@ == (TrayCoreView {
                timers: without_target(old(self)@.timers, TimerKindView::RefetchItem(id@)).push(
                    TimerView { at, kind: TimerKindView::RefetchItem(id@) },
                ),
                ..old(self)@
            }),
    {
        let at = now + self.config.debounce_ms;
        self.schedule_timer(at, TimerKind::RefetchItem(id.duplicate()));
        at
    }

    /// Debounced menu refetch of an item at `now + debounce_ms`.
    /// Returns the deadline.
    pub fn schedule_refetch_menu(&mut self, now: u64, id: &TrayItemId) -> (at: u64)
        requires
            old(self).wf(),
            now + old(self).config.debounce_ms <= u64::MAX,
        ensures
            final(self).wf(),
            at == now + old(self).config.debounce_ms,
            final(self)@ == (TrayCoreView {
                timers: without_target(old(self)@.timers, TimerKindView::RefetchMenu(id@)).push(
                    TimerView { at, kind: TimerKindView::RefetchMenu(id@) },
                ),
                ..old(self)@
            }),
    {
        let at = now + self.config.debounce_ms;
        self.schedule_timer(at, TimerKind::RefetchMenu(id.duplicate()));
        at
    }

    /// Remove and return the work of every timer due at `now` (in schedule
    /// order); later timers stay.
    pub fn take_due_timers(&mut self, now: u64) -> (due: Vec<TimerKind>)
        requires
            old(self).wf(),
        ensures
            final(self).wf(),
            due@.map_values(|k: TimerKind| k@) == due_kinds(old(self)@.timers, now),
            final(self)@ == (TrayCoreView {
                timers: future_timers(old(self)@.timers, now),
                ..old(self)@
            }),
    {
        let ghost old_ts = self@.timers;
        let mut kept: Vec<Timer> = Vec::new();
        let mut due: Vec<TimerKind> = Vec::new();
        let mut i: usize = 0;
        while i < self.timers.len()
            invariant
                i <= self.timers@.len(),
                old_ts == timer_views(self.timers@),
                unique_targets(old_ts),
                timer_views(kept@) == future_timers(old_ts.take(i as int), now),
                due@.map_values(|k: TimerKind| k@) == due_kinds(old_ts.take(i as int), now),
                unique_targets(timer_views(kept@)),
                forall|j: int| 0 <= j < kept@.len() ==> exists|m: int| 0 <= m < i && #[trigger] timer_views(kept@)[j] == old_ts[m],
            decreases self.timers@.len() - i,
        {
            proof {
                assert(old_ts.take(i + 1).drop_last() =~= old_ts.take(i as int));
                reveal(Seq::filter);
            }
            let ghost kv = timer_views(kept@);
            let ghost dv = due@.map_values(|k: TimerKind| k@);
            if self.timers[i].at <= now {
                due.push(self.timers[i].kind.duplicate());
                proof {
                    assert(due@.map_values(|k: TimerKind| k@) =~= dv.push(old_ts[i as int].kind));
                    assert(old_ts.take(i + 1).filter(|t: TimerView| t.at <= now) =~= old_ts.take(
                        i as int,
                    ).filter(|t: TimerView| t.at <= now).push(old_ts[i as int]));
                }
            } else {
                let t = Timer { at: self.timers[i].at, kind: self.timers[i].kind.duplicate() };
                kept.push(t);
                proof {
                    assert(timer_views(kept@) =~= kv.push(old_ts[i as int]));
                    assert forall|a: int, b: int|
                        0 <= a < timer_views(kept@).len() && 0 <= b < timer_views(kept@).len() && a
                            != b implies !same_target_spec(
                        timer_views(kept@)[a].kind,
                        timer_views(kept@)[b].kind,
                    ) by {
                        if a < kv.len() && b < kv.len() {
                        } else if a < kv.len() {
                            let m = choose|m: int| 0 <= m < i && #[trigger] kv[a] == old_ts[m];
                            assert(kv[a] == old_ts[m]);
                        } else {
                            let m = choose|m: int| 0 <= m < i && #[trigger] kv[b] == old_ts[m];
                            assert(kv[b] == old_ts[m]);
                        }
                    }
                    assert forall|j: int| 0 <= j < kept@.len() implies exists|m: int|
                        0 <= m < i + 1 && #[trigger] timer_views(kept@)[j] == old_ts[m] by {
                        if j < kv.len() {
                            let m = choose|m: int| 0 <= m < i && #[trigger] kv[j] == old_ts[m];
                            assert(timer_views(kept@)[j] == old_ts[m]);
                        } else {
                            assert(timer_views(kept@)[j] == old_ts[i as int]);
                        }
                    }
                }
            }
            i = i + 1;
        }
        proof {
            assert(old_ts.take(old_ts.len() as int) =~= old_ts);
        }
        self.timers = kept;
        due
    }
}


// ── watcher transitions ─────────────────────────────────────────────────

/// First step of start-up, given whether a watcher owns its bus name.
pub enum SetupPlan {
    /// A watcher exists: register as host with it.
    RegisterHost,
    /// No watcher and fallback allowed: try to become the watcher.
    BecomeWatcher,
    /// No watcher and fallback disabled.
    NoWatcher,
}

pub fn setup_plan(watcher_present: bool, fallback: FallbackPolicy) -> (p: SetupPlan)
    ensures
        watcher_present ==> p is RegisterHost,
        !watcher_present && fallback == FallbackPolicy::Auto ==> p is BecomeWatcher,
        !watcher_present && fallback == FallbackPolicy::Never ==> p is NoWatcher,
{
    if watcher_present {
        SetupPlan::RegisterHost
    } else {
        match fallback {
            FallbackPolicy::Auto => SetupPlan::BecomeWatcher,
            FallbackPolicy::Never => SetupPlan::NoWatcher,
        }
    }
}

/// Watcher state reached by start-up: an existing watcher is used; else we
/// become the watcher when allowed (losing the race to someone else means
/// an external watcher now exists); else there is none.
pub open spec fn setup_mode(watcher_present: bool, became: bool, fallback: FallbackPolicy) -> WatcherState {
    if watcher_present {
        WatcherState::ExternalUp
    } else {
        match fallback {
            FallbackPolicy::Auto => if became {
                WatcherState::FallbackActive
            } else {
                WatcherState::ExternalUp
            },
            FallbackPolicy::Never => WatcherState::ExternalDown,
        }
    }
}

/// What the worker does when the external watcher goes away.
pub enum WatcherDownAction {
    /// We were not relying on an external watcher.
    Nothing,
    /// Replace it at this deadline unless it comes back.
    Respawn(u64),
    /// Fallback disabled: report the loss.
    Report(TrayEvent),
}

/// What an owner change of a bus name means.
pub enum OwnerChange {
    /// Our own acquisition or release of the watcher name.
    Ignore,
    /// The watcher name lost its owner.
    WatcherDown,
    /// The watcher name got a (new) owner.
    WatcherUp,
    /// Another name changed owner: item lifecycle.
    Items,
}

pub open spec fn owner_change_spec(
    name: Seq<char>,
    old_owner: Seq<char>,
    new_owner: Seq<char>,
    ours: Seq<char>,
) -> OwnerChange {
    if name == "org.kde.StatusNotifierWatcher"@ {
        if new_owner == ours {
            OwnerChange::Ignore
        } else if old_owner == ours && new_owner.len() == 0 {
            OwnerChange::Ignore
        } else if new_owner.len() == 0 {
            OwnerChange::WatcherDown
        } else {
            OwnerChange::WatcherUp
        }
    } else {
        OwnerChange::Items
    }
}

/// Classify a `NameOwnerChanged(name, old, new)` signal; `ours` is our
/// own unique bus name.
pub fn classify_owner_change(name: &str, old_owner: &str, new_owner: &str, ours: &str) -> (c: OwnerChange)
    ensures
        c == owner_change_spec(name@, old_owner@, new_owner@, ours@),
{
    if text::same(name, sni::SNI_WATCHER) {
        if text::same(new_owner, ours) {
            OwnerChange::Ignore
        } else if text::same(old_owner, ours) && new_owner.is_empty() {
            OwnerChange::Ignore
        } else if new_owner.is_empty() {
            OwnerChange::WatcherDown
        } else {
            OwnerChange::WatcherUp
        }
    } else {
        OwnerChange::Items
    }
}

/// Entries concerned by an owner change of `name`.
pub open spec fn affected(e: ItemEntryView, name: Seq<char>) -> bool {
    e.id.bus_name == name || e.unique == name
}

/// Timers after scheduling a refetch of each of `ids` at `at`, in order.
pub open spec fn schedule_all(ts: Seq<TimerView>, ids: Seq<TrayItemIdView>, at: u64) -> Seq<TimerView>
    decreases ids.len(),
{
    if ids.len() == 0 {
        ts
    } else {
        let k = TimerKindView::RefetchItem(ids.last());
        without_target(schedule_all(ts, ids.drop_last(), at), k).push(TimerView { at, kind: k })
    }
}

/// Outcome of an owner change of item bus names.
pub struct OwnerItems {
    /// `Removed` events, one per dropped item, in table order.
    pub removed: Vec<TrayEvent>,
    /// Deadline of the scheduled refetches, if any were scheduled.
    pub refetch_at: Option<u64>,
}

impl TrayCore {
    /// Record the start-up outcome and report it.
    pub fn finish_setup(&mut self, watcher_present: bool, became: bool) -> (ev: TrayEvent)
        ensures
            final(self)@ == (TrayCoreView {
                watcher: setup_mode(watcher_present, became, old(self).config.fallback),
                ..old(self)@
            }),
            ev matches TrayEvent::WatcherChanged(w) && w == setup_mode(
                watcher_present,
                became,
                old(self).config.fallback,
            ),
    {
        let mode = if watcher_present {
            WatcherState::ExternalUp
        } else {
            match self.config.fallback {
                FallbackPolicy::Auto => if became {
                    WatcherState::FallbackActive
                } else {
                    WatcherState::ExternalUp
                },
                FallbackPolicy::Never => WatcherState::ExternalDown,
            }
        };
        self.watcher = mode;
        TrayEvent::WatcherChanged(mode)
    }

    /// The external watcher disappeared.
    pub fn on_watcher_down(&mut self, now: u64) -> (a: WatcherDownAction)
        requires
            old(self).wf(),
            now + 2 * old(self).config.timeout_ms <= u64::MAX,
        ensures
            final(self).wf(),
            old(self).watcher != WatcherState::ExternalUp ==> a is Nothing && final(self)@ == old(self)@,
            old(self).watcher == WatcherState::ExternalUp && old(self).config.fallback
                == FallbackPolicy::Auto ==> (a matches WatcherDownAction::Respawn(at) && at == now + 2
                * old(self).config.timeout_ms && final(self)@ == (TrayCoreView {
                watcher: WatcherState::ExternalDown,
                timers: without_target(old(self)@.timers, TimerKindView::WatcherRespawn).push(
                    TimerView { at, kind: TimerKindView::WatcherRespawn },
                ),
                ..old(self)@
            })),
            old(self).watcher == WatcherState::ExternalUp && old(self).config.fallback
                == FallbackPolicy::Never ==> (a matches WatcherDownAction::Report(
                TrayEvent::WatcherChanged(WatcherState::ExternalDown),
            ) && final(self)@ == (TrayCoreView { watcher: WatcherState::ExternalDown, ..old(self)@ })),
    {
        if self.watcher != WatcherState::ExternalUp {
            return WatcherDownAction::Nothing;
        }
        self.watcher = WatcherState::ExternalDown;
        match self.config.fallback {
            FallbackPolicy::Auto => {
                let at = now + 2 * self.config.timeout_ms;
                self.schedule_timer(at, TimerKind::WatcherRespawn);
                WatcherDownAction::Respawn(at)
            },
            FallbackPolicy::Never => WatcherDownAction::Report(
                TrayEvent::WatcherChanged(WatcherState::ExternalDown),
            ),
        }
    }

    /// A watcher appeared while we provide the fallback: ours must go.
    pub fn watcher_up_needs_yield(&self) -> (r: bool)
        ensures
            r == (self.watcher == WatcherState::FallbackActive),
    {
        self.watcher == WatcherState::FallbackActive
    }

    /// Host registration with the (new) external watcher succeeded.
    pub fn external_watcher_registered(&mut self) -> (ev: TrayEvent)
        ensures
            final(self)@ == (TrayCoreView { watcher: WatcherState::ExternalUp, ..old(self)@ }),
            ev matches TrayEvent::WatcherChanged(WatcherState::ExternalUp),
    {
        self.watcher = WatcherState::ExternalUp;
        TrayEvent::WatcherChanged(WatcherState::ExternalUp)
    }

    /// The respawn timer fired: replace the watcher only when fallback is
    /// allowed and no watcher is up.
    pub fn respawn_wanted(&self) -> (r: bool)
        ensures
            r == (self.config.fallback == FallbackPolicy::Auto && self.watcher
                == WatcherState::ExternalDown),
    {
        self.config.fallback == FallbackPolicy::Auto && self.watcher == WatcherState::ExternalDown
    }

    /// We took over the watcher name after the respawn delay.
    pub fn respawn_done(&mut self) -> (r: Option<TrayEvent>)
        ensures
            old(self).config.fallback == FallbackPolicy::Auto && old(self).watcher
                == WatcherState::ExternalDown ==> (r matches Some(
                TrayEvent::WatcherChanged(WatcherState::FallbackActive),
            ) && final(self)@ == (TrayCoreView {
                watcher: WatcherState::FallbackActive,
                ..old(self)@
            })),
            !(old(self).config.fallback == FallbackPolicy::Auto && old(self).watcher
                == WatcherState::ExternalDown) ==> r is None && final(self)@ == old(self)@,
    {
        if self.respawn_wanted() {
            self.watcher = WatcherState::FallbackActive;
            Some(TrayEvent::WatcherChanged(WatcherState::FallbackActive))
        } else {
            None
        }
    }

    /// Item bus name `name` changed owner to `new_owner`: drop the items
    /// it served when it vanished, else follow the new owner and refetch
    /// them (debounced).
    pub fn owner_changed_items(&mut self, now: u64, name: &str, new_owner: &str) -> (out: OwnerItems)
        requires
            old(self).wf(),
            now + old(self).config.debounce_ms <= u64::MAX,
        ensures
            final(self).wf(),
            new_owner@.len() == 0 ==> {
                &&& final(self)@ == (TrayCoreView {
                    items: old(self)@.items.filter(|e: ItemEntryView| !affected(e, name@)),
                    ..old(self)@
                })
                &&& out.refetch_at is None
                &&& out.removed@.len() == old(self)@.items.filter(
                    |e: ItemEntryView| affected(e, name@),
                ).len()
                &&& forall|k: int|
                    0 <= k < out.removed@.len() ==> (#[trigger] out.removed@[k] matches TrayEvent::Removed(
                        rid,
                    ) && rid@ == old(self)@.items.filter(|e: ItemEntryView| affected(e, name@))[k].id)
            },
            new_owner@.len() > 0 ==> {
                let hit = old(self)@.items.filter(|e: ItemEntryView| affected(e, name@));
                &&& out.removed@.len() == 0
                &&& hit.len() == 0 ==> out.refetch_at is None && final(self)@ == old(self)@
                &&& hit.len() > 0 ==> out.refetch_at == Some((now + old(self).config.debounce_ms) as u64)
                    && final(self)@ == (TrayCoreView {
                    items: old(self)@.items.map_values(
                        |e: ItemEntryView| if affected(e, name@) {
                            ItemEntryView { unique: new_owner@, ..e }
                        } else {
                            e
                        },
                    ),
                    timers: schedule_all(
                        old(self)@.timers,
                        hit.map_values(|e: ItemEntryView| e.id),
                        (now + old(self).config.debounce_ms) as u64,
                    ),
                    ..old(self)@
                })
            },
    {
        let ghost old_items = self@.items;
        let ghost hit = old_items.filter(|e: ItemEntryView| affected(e, name@));
        let n = name.to_owned();
        let mut removed: Vec<TrayEvent> = Vec::new();
        if new_owner.is_empty() {
            let mut kept: Vec<ItemEntry> = Vec::new();
            let mut old_vec: Vec<ItemEntry> = Vec::new();
            std::mem::swap(&mut old_vec, &mut self.items);
            let mut i: usize = 0;
            while i < old_vec.len()
                invariant
                    i <= old_vec@.len(),
                    old_items == entry_views(old_vec@),
                    unique_ids(old_items),
                    n@ == name@,
                    hit == old_items.filter(|e: ItemEntryView| affected(e, name@)),
                    entry_views(kept@) == old_items.take(i as int).filter(
                        |e: ItemEntryView| !affected(e, name@),
                    ),
                    removed@.len() == old_items.take(i as int).filter(
                        |e: ItemEntryView| affected(e, name@),
                    ).len(),
                    forall|k: int|
                        0 <= k < removed@.len() ==> (#[trigger] removed@[k] matches TrayEvent::Removed(
                            rid,
                        ) && rid@ == old_items.take(i as int).filter(
                            |e: ItemEntryView| affected(e, name@),
                        )[k].id),
                    unique_ids(entry_views(kept@)),
                    forall|j: int| 0 <= j < kept@.len() ==> exists|m: int| 0 <= m < i && #[trigger] entry_views(kept@)[j] == old_items[m],
                decreases old_vec@.len() - i,
            {
                proof {
                    assert(old_items.take(i + 1).drop_last() =~= old_items.take(i as int));
                    reveal(Seq::filter);
                }
                let ghost kv = entry_views(kept@);
                let ghost rv = removed@;
                let e = &old_vec[i];
                let hit_now = e.id.bus_name == n || e.unique == n;
                if hit_now {
                    removed.push(TrayEvent::Removed(e.id.duplicate()));
                    proof {
                        let f = |x: ItemEntryView| affected(x, name@);
                        assert(old_items.take(i + 1).filter(f) =~= old_items.take(i as int).filter(f).push(
                            old_items[i as int],
                        ));
                        assert forall|k: int| 0 <= k < removed@.len() implies (#[trigger] removed@[k] matches TrayEvent::Removed(
                            rid,
                        ) && rid@ == old_items.take(i + 1).filter(f)[k].id) by {
                            if k < rv.len() {
                                assert(removed@[k] == rv[k]);
                            }
                        }
                    }
                } else {
                    let copy = ItemEntry {
                        id: e.id.duplicate(),
                        unique: e.unique.clone(),
                        menu_path: crate::tray::model::copy_opt_string(&e.menu_path),
                        snapshot: e.snapshot.duplicate(),
                        menu: match &e.menu {
                            Some(m) => Some(m.duplicate()),
                            None => None,
                        },
                    };
                    kept.push(copy);
                    proof {
                        assert(entry_views(kept@) =~= kv.push(old_items[i as int]));
                        assert forall|a: int, b: int|
                            0 <= a < entry_views(kept@).len() && 0 <= b < entry_views(kept@).len() && a
                                != b implies entry_views(kept@)[a].id != entry_views(kept@)[b].id by {
                            if a < kv.len() && b < kv.len() {
                            } else if a < kv.len() {
                                let m = choose|m: int| 0 <= m < i && #[trigger] kv[a] == old_items[m];
                                assert(kv[a] == old_items[m]);
                            } else {
                                let m = choose|m: int| 0 <= m < i && #[trigger] kv[b] == old_items[m];
                                assert(kv[b] == old_items[m]);
                            }
                        }
                        assert forall|j: int| 0 <= j < kept@.len() implies exists|m: int|
                            0 <= m < i + 1 && #[trigger] entry_views(kept@)[j] == old_items[m] by {
                            if j < kv.len() {
                                let m = choose|m: int| 0 <= m < i && #[trigger] kv[j] == old_items[m];
                                assert(entry_views(kept@)[j] == old_items[m]);
                            } else {
                                assert(entry_views(kept@)[j] == old_items[i as int]);
                            }
                        }
                    }
                }
                i = i + 1;
            }
            proof {
                assert(old_items.take(old_items.len() as int) =~= old_items);
                assert forall|j: int| 0 <= j < entry_views(kept@).len() implies entry_ok(
                    #[trigger] entry_views(kept@)[j],
                ) by {
                    let m = choose|m: int| 0 <= m < old_items.len() && #[trigger] entry_views(kept@)[j]
                        == old_items[m];
                    assert(entry_ok(old_items[m]));
                }
            }
            self.items = kept;
            return OwnerItems { removed, refetch_at: None };
        }
        // New owner: follow it.
        let mut ids: Vec<TrayItemId> = Vec::new();
        let mut i: usize = 0;
        let ghost hit_ids = hit.map_values(|e: ItemEntryView| e.id);
        while i < self.items.len()
            invariant
                i <= self.items@.len(),
                self.items@.len() == old_items.len(),
                n@ == name@,
                unique_ids(entry_views(self.items@)),
                unique_targets(timer_views(self.timers@)),
                hit == old_items.filter(|e: ItemEntryView| affected(e, name@)),
                ids@.map_values(|d: TrayItemId| d@) == old_items.take(i as int).filter(
                    |e: ItemEntryView| affected(e, name@),
                ).map_values(|e: ItemEntryView| e.id),
                forall|j: int| #![trigger entry_views(self.items@)[j]]
                    0 <= j < i ==> entry_views(self.items@)[j] == (if affected(old_items[j], name@) {
                        ItemEntryView { unique: new_owner@, ..old_items[j] }
                    } else {
                        old_items[j]
                    }),
                forall|j: int| #![trigger entry_views(self.items@)[j]]
                    i <= j < old_items.len() ==> entry_views(self.items@)[j] == old_items[j],
                self.config == old(self).config,
                self.watcher == old(self).watcher,
                self.stopping == old(self).stopping,
                self.timers@ == old(self).timers@,
                self.pending@ == old(self).pending@,
                self.pending_registered@ == old(self).pending_registered@,
                self.host_id@ == old(self).host_id@,
                old_items == entry_views(old(self).items@),
            decreases self.items@.len() - i,
        {
            proof {
                assert(old_items.take(i + 1).drop_last() =~= old_items.take(i as int));
                reveal(Seq::filter);
            }
            let ghost before = self.items@;
            let ghost idv = ids@.map_values(|d: TrayItemId| d@);
            proof {
                assert(entry_views(self.items@)[i as int] == old_items[i as int]);
            }
            if self.items[i].id.bus_name == n || self.items[i].unique == n {
                ids.push(self.items[i].id.duplicate());
                self.items[i].unique = new_owner.to_owned();
                proof {
                    let f = |x: ItemEntryView| affected(x, name@);
                    assert(old_items.take(i + 1).filter(f) =~= old_items.take(i as int).filter(f).push(
                        old_items[i as int],
                    ));
                    assert(ids@.map_values(|d: TrayItemId| d@) =~= idv.push(old_items[i as int].id));
                    assert(entry_views(self.items@) =~= entry_views(before).update(
                        i as int,
                        ItemEntryView { unique: new_owner@, ..old_items[i as int] },
                    ));
                    assert forall|a: int, b: int|
                        0 <= a < self@.items.len() && 0 <= b < self@.items.len() && a != b implies self@.items[a].id
                            != self@.items[b].id by {
                        assert(self@.items[a].id == entry_views(before)[a].id);
                        assert(self@.items[b].id == entry_views(before)[b].id);
                    }
                }
            }
            i = i + 1;
        }
        proof {
            assert(old_items.take(old_items.len() as int) =~= old_items);
            assert(entry_views(self.items@) =~= old_items.map_values(
                |e: ItemEntryView| if affected(e, name@) {
                    ItemEntryView { unique: new_owner@, ..e }
                } else {
                    e
                },
            ));
        }
        if ids.len() == 0 {
            proof {
                let f = |x: ItemEntryView| affected(x, name@);
                assert forall|j: int| 0 <= j < old_items.len() implies !affected(old_items[j], name@) by {
                    if affected(old_items[j], name@) {
                        old_items.lemma_filter_contains(f, j);
                    }
                }
                assert(entry_views(self.items@) =~= old_items);
            }
            return OwnerItems { removed, refetch_at: None };
        }
        let at = now + self.config.debounce_ms;
        let mut k: usize = 0;
        let ghost ts0 = self@.timers;
        proof {
            assert forall|j: int| 0 <= j < self@.items.len() implies entry_ok(#[trigger] self@.items[j]) by {
                assert(entry_ok(old_items[j]));
            }
        }
        while k < ids.len()
            invariant
                k <= ids@.len(),
                unique_ids(self@.items),
                entries_ok(self@.items),
                unique_targets(self@.timers),
                self@.timers == schedule_all(ts0, ids@.map_values(|d: TrayItemId| d@).take(k as int), at),
                self@.items == old_items.map_values(
                    |e: ItemEntryView| if affected(e, name@) {
                        ItemEntryView { unique: new_owner@, ..e }
                    } else {
                        e
                    },
                ),
                self.config == old(self).config,
                self.watcher == old(self).watcher,
                self.stopping == old(self).stopping,
                self@.pending == old(self)@.pending,
                self@.pending_registered == old(self)@.pending_registered,
                self@.host_id == old(self)@.host_id,
            decreases ids@.len() - k,
        {
            proof {
                let iv = ids@.map_values(|d: TrayItemId| d@);
                assert(iv.take(k + 1).drop_last() =~= iv.take(k as int));
                assert(iv.take(k + 1).last() == ids@[k as int]@);
            }
            self.schedule_timer(at, TimerKind::RefetchItem(ids[k].duplicate()));
            k = k + 1;
        }
        proof {
            let iv = ids@.map_values(|d: TrayItemId| d@);
            assert(iv.take(iv.len() as int) =~= iv);
            assert(iv =~= hit_ids);
            assert(hit.len() > 0);
        }
        OwnerItems { removed, refetch_at: Some(at) }
    }
}


// ── signal routing ──────────────────────────────────────────────────────

/// What an incoming bus signal asks the worker to do.
pub enum Route {
    Nothing,
    /// `NameOwnerChanged`: decode and handle the owner change.
    OwnerChanged,
    /// A service registered with the watcher.
    AddItem(String),
    /// A service unregistered from the watcher.
    RemoveItem(TrayItemId),
    /// An item's properties changed: refetch them (debounced).
    RefetchItem(TrayItemId),
    /// An item's menu changed: refetch it (debounced).
    RefetchMenu(TrayItemId),
}

pub enum RouteView {
    Nothing,
    OwnerChanged,
    AddItem(Seq<char>),
    RemoveItem(TrayItemIdView),
    RefetchItem(TrayItemIdView),
    RefetchMenu(TrayItemIdView),
}

impl View for Route {
    type V = RouteView;

    open spec fn view(&self) -> RouteView {
        match self {
            Route::Nothing => RouteView::Nothing,
            Route::OwnerChanged => RouteView::OwnerChanged,
            Route::AddItem(s) => RouteView::AddItem(s@),
            Route::RemoveItem(id) => RouteView::RemoveItem(id@),
            Route::RefetchItem(id) => RouteView::RefetchItem(id@),
            Route::RefetchMenu(id) => RouteView::RefetchMenu(id@),
        }
    }
}

/// Legacy SNI change signals are named `New…` (`NewIcon`, `NewStatus`, …).
pub open spec fn is_legacy_change(member: Seq<char>) -> bool {
    member.len() >= 3 && member[0] == 'N' && member[1] == 'e' && member[2] == 'w'
}

pub open spec fn menu_signal(member: Seq<char>) -> bool {
    member == "LayoutUpdated"@ || member == "ItemsPropertiesUpdated"@ || member == "AboutToShow"@
}

pub open spec fn refetch_item_route(items: Seq<ItemEntryView>, sender: Seq<char>) -> RouteView {
    match first_by_unique(items, sender) {
        Some(id) => RouteView::RefetchItem(id),
        None => RouteView::Nothing,
    }
}

pub open spec fn refetch_menu_route(items: Seq<ItemEntryView>, sender: Seq<char>, path: Seq<char>) -> RouteView {
    match first_by_menu(items, sender, path) {
        Some(id) => RouteView::RefetchMenu(id),
        None => RouteView::Nothing,
    }
}

/// Routing of a signal by interface and member. `arg0` is the first
/// string argument where the signal has one and it decoded (the service
/// of watcher signals, the interface of `PropertiesChanged`).
pub open spec fn route_spec(
    items: Seq<ItemEntryView>,
    iface: Seq<char>,
    member: Seq<char>,
    sender: Seq<char>,
    path: Seq<char>,
    arg0: Option<Seq<char>>,
) -> RouteView {
    if iface == "org.freedesktop.DBus"@ {
        if member == "NameOwnerChanged"@ { RouteView::OwnerChanged } else { RouteView::Nothing }
    } else if iface == "org.kde.StatusNotifierWatcher"@ {
        if member == "StatusNotifierItemRegistered"@ {
            match arg0 {
                Some(s) => RouteView::AddItem(s),
                None => RouteView::Nothing,
            }
        } else if member == "StatusNotifierItemUnregistered"@ {
            match arg0 {
                Some(s) => match sni::service_spec(s) {
                    Some((bus, p)) => RouteView::RemoveItem(TrayItemIdView { bus_name: bus, path: p }),
                    None => RouteView::Nothing,
                },
                None => RouteView::Nothing,
            }
        } else {
            RouteView::Nothing
        }
    } else if iface == "org.freedesktop.DBus.Properties"@ {
        if member != "PropertiesChanged"@ {
            RouteView::Nothing
        } else {
            match arg0 {
                Some(a) => if a == "org.kde.StatusNotifierItem"@ {
                    refetch_item_route(items, sender)
                } else if a == "com.canonical.dbusmenu"@ {
                    refetch_menu_route(items, sender, path)
                } else {
                    RouteView::Nothing
                },
                None => RouteView::Nothing,
            }
        }
    } else if iface == "org.kde.StatusNotifierItem"@ {
        if is_legacy_change(member) { refetch_item_route(items, sender) } else { RouteView::Nothing }
    } else if iface == "com.canonical.dbusmenu"@ {
        if menu_signal(member) { refetch_menu_route(items, sender, path) } else { RouteView::Nothing }
    } else {
        RouteView::Nothing
    }
}

fn starts_with_new(member: &str) -> (r: bool)
    ensures
        r == is_legacy_change(member@),
{
    let m = text::chars_of(member);
    m.len() >= 3 && m[0] == 'N' && m[1] == 'e' && m[2] == 'w'
}

impl TrayCore {
    /// Decide what a received signal means (header fields and first string
    /// argument, already decoded).
    pub fn handle_message(
        &self,
        iface: &str,
        member: &str,
        sender: &str,
        path: &str,
        arg0: Option<String>,
    ) -> (r: Route)
        ensures
            r@ == route_spec(self@.items, iface@, member@, sender@, path@, arg0.deep_view()),
    {
        if text::same(iface, "org.freedesktop.DBus") {
            if text::same(member, "NameOwnerChanged") {
                Route::OwnerChanged
            } else {
                Route::Nothing
            }
        } else if text::same(iface, sni::SNI_WATCHER_IFACE) {
            if text::same(member, "StatusNotifierItemRegistered") {
                match arg0 {
                    Some(s) => Route::AddItem(s),
                    None => Route::Nothing,
                }
            } else if text::same(member, "StatusNotifierItemUnregistered") {
                match arg0 {
                    Some(s) => match sni::parse_service(s.as_str()) {
                        Some((bus, p)) => Route::RemoveItem(TrayItemId { bus_name: bus, path: p }),
                        None => Route::Nothing,
                    },
                    None => Route::Nothing,
                }
            } else {
                Route::Nothing
            }
        } else if text::same(iface, "org.freedesktop.DBus.Properties") {
            if !text::same(member, "PropertiesChanged") {
                return Route::Nothing;
            }
            match arg0 {
                Some(a) => if text::same(a.as_str(), sni::SNI_ITEM_IFACE) {
                    match self.item_by_unique(sender) {
                        Some(id) => Route::RefetchItem(id),
                        None => Route::Nothing,
                    }
                } else if text::same(a.as_str(), sni::MENU_IFACE) {
                    match self.item_by_menu_signal(sender, path) {
                        Some(id) => Route::RefetchMenu(id),
                        None => Route::Nothing,
                    }
                } else {
                    Route::Nothing
                },
                None => Route::Nothing,
            }
        } else if text::same(iface, sni::SNI_ITEM_IFACE) {
            if starts_with_new(member) {
                match self.item_by_unique(sender) {
                    Some(id) => Route::RefetchItem(id),
                    None => Route::Nothing,
                }
            } else {
                Route::Nothing
            }
        } else if text::same(iface, sni::MENU_IFACE) {
            if text::same(member, "LayoutUpdated") || text::same(member, "ItemsPropertiesUpdated")
                || text::same(member, "AboutToShow") {
                match self.item_by_menu_signal(sender, path) {
                    Some(id) => Route::RefetchMenu(id),
                    None => Route::Nothing,
                }
            } else {
                Route::Nothing
            }
        } else {
            Route::Nothing
        }
    }
}

// ── refetch results ─────────────────────────────────────────────────────

/// What follows a property refetch.
pub struct RefetchOutcome {
    /// `Changed` event, when some field differs.
    pub event: Option<TrayEvent>,
    /// Menu to fetch anew, when the menu path changed and points somewhere.
    pub menu_path: Option<String>,
}

impl TrayCore {
    /// Where to refetch an item's properties: its bus name, if tracked.
    pub fn refetch_target(&self, id: &TrayItemId) -> (r: Option<String>)
        requires
            self.wf(),
        ensures
            match index_of_id(self@.items, id@) {
                Some(_) => r matches Some(b) && b@ == id@.bus_name,
                None => r is None,
            },
    {
        match self.find(id) {
            Some(i) => Some(self.items[i].id.bus_name.clone()),
            None => None,
        }
    }

    /// Store a refetched snapshot. A menu path change forgets the old menu;
    /// the returned outcome carries the `Changed` event (if any field
    /// differs) and the menu to fetch.
    pub fn apply_refetch(&mut self, id: &TrayItemId, snap: TrayItemSnapshot) -> (r: Option<RefetchOutcome>)
        requires
            old(self).wf(),
            snap.item.id@ == id@,
            snap.item.has_menu == (snap.menu_path is Some),
        ensures
            final(self).wf(),
            match index_of_id(old(self)@.items, id@) {
                None => r is None && final(self)@ == old(self)@,
                Some(i) => {
                    let e = old(self)@.items[i];
                    let changed = diff_spec(e.snapshot, snap.item@);
                    let path_changed = e.snapshot.has_menu != snap.item@.has_menu || e.menu_path
                        != snap.menu_path.deep_view();
                    &&& r matches Some(out)
                    &&& (changed.len() == 0 ==> out.event is None)
                    &&& (changed.len() > 0 ==> (out.event matches Some(
                        TrayEvent::Changed { id: cid, changed: fields, item },
                    ) && cid@ == id@ && fields@ == changed && item@ == snap.item@))
                    &&& out.menu_path.deep_view() == (if path_changed {
                        snap.menu_path.deep_view()
                    } else {
                        None
                    })
                    &&& final(self)@ == (TrayCoreView {
                        items: old(self)@.items.update(
                            i,
                            if path_changed {
                                ItemEntryView {
                                    snapshot: snap.item@,
                                    menu_path: snap.menu_path.deep_view(),
                                    menu: None,
                                    ..e
                                }
                            } else {
                                ItemEntryView { snapshot: snap.item@, ..e }
                            },
                        ),
                        ..old(self)@
                    })
                },
            },
    {
        let i = match self.find(id) {
            Some(i) => i,
            None => return None,
        };
        let changed = diff_fields(&self.items[i].snapshot, &snap.item);
        let path_changed = self.items[i].snapshot.has_menu != snap.item.has_menu
            || !crate::tray::model::same_opt_string(&self.items[i].menu_path, &snap.menu_path);
        let ghost before = self.items@;
        let ghost e = entry_views(before)[i as int];
        let ghost sv = snap.item@;
        let ghost mv = snap.menu_path.deep_view();
        let fresh = snap.item.duplicate();
        self.items[i].snapshot = fresh;
        let menu_path = if path_changed {
            self.items[i].menu_path = crate::tray::model::copy_opt_string(&snap.menu_path);
            self.items[i].menu = None;
            snap.menu_path
        } else {
            None
        };
        proof {
            let ne = if path_changed {
                ItemEntryView { snapshot: sv, menu_path: mv, menu: None, ..e }
            } else {
                ItemEntryView { snapshot: sv, ..e }
            };
            assert(entry_views(self.items@) =~= entry_views(before).update(i as int, ne));
            assert forall|a: int, b: int|
                0 <= a < self@.items.len() && 0 <= b < self@.items.len() && a != b implies self@.items[a].id
                    != self@.items[b].id by {
                assert(self@.items[a].id == entry_views(before)[a].id);
                assert(self@.items[b].id == entry_views(before)[b].id);
            }
        }
        let event = if changed.len() > 0 {
            Some(TrayEvent::Changed { id: id.duplicate(), changed, item: snap.item })
        } else {
            None
        };
        Some(RefetchOutcome { event, menu_path })
    }
}

// ── interactions ────────────────────────────────────────────────────────

/// An SNI item method call.
pub enum ItemCall {
    Activate { x: i32, y: i32 },
    SecondaryActivate { x: i32, y: i32 },
    Scroll { delta: i32, orientation: &'static str },
}

/// What to do with a queued interaction.
pub enum InteractPlan {
    /// The runtime stopped: drop it silently.
    Skip,
    /// Answer at once with this receipt.
    Report(TrayEvent),
    /// Call `call` on the item at (`bus`, `path`), then report the outcome.
    Call { bus: String, path: String, call: ItemCall },
}

/// What to do with a queued menu click.
pub enum MenuPlan {
    Skip,
    Report(TrayEvent),
    /// Send dbusmenu `Event(menu_item, "clicked", 0, now)` to (`bus`, `menu_path`).
    Call { bus: String, menu_path: String, menu_item: i32 },
}

impl TrayCore {
    /// Plan an interaction command.
    pub fn plan_interact(
        &self,
        id: &TrayItemId,
        op: InteractionOp,
        x: i32,
        y: i32,
        delta: i32,
        orient: Orientation,
    ) -> (p: InteractPlan)
        requires
            self.wf(),
        ensures
            self.stopping ==> p is Skip,
            !self.stopping && index_of_id(self@.items, id@) is None ==> (p matches InteractPlan::Report(
                TrayEvent::InteractionResult { id: rid, op: rop, result: Err(msg) },
            ) && rid@ == id@ && rop == op && msg@ == "item not found"@),
            !self.stopping && index_of_id(self@.items, id@) is Some ==> match op {
                InteractionOp::Activate => p matches InteractPlan::Call {
                    bus,
                    path,
                    call: ItemCall::Activate { x: cx, y: cy },
                } && bus@ == id@.bus_name && path@ == id@.path && cx == x && cy == y,
                InteractionOp::SecondaryActivate => p matches InteractPlan::Call {
                    bus,
                    path,
                    call: ItemCall::SecondaryActivate { x: cx, y: cy },
                } && bus@ == id@.bus_name && path@ == id@.path && cx == x && cy == y,
                InteractionOp::Scroll => p matches InteractPlan::Call {
                    bus,
                    path,
                    call: ItemCall::Scroll { delta: d, orientation: o },
                } && bus@ == id@.bus_name && path@ == id@.path && d == delta && o@
                    == crate::tray::model::orientation_text(orient),
                _ => p matches InteractPlan::Report(
                    TrayEvent::InteractionResult { id: rid, op: rop, result: Err(msg) },
                ) && rid@ == id@ && rop == op && msg@ == "dbus call failed: unsupported op"@,
            },
    {
        if self.stopping {
            return InteractPlan::Skip;
        }
        let i = match self.find(id) {
            Some(i) => i,
            None => {
                return InteractPlan::Report(
                    TrayEvent::InteractionResult {
                        id: id.duplicate(),
                        op,
                        result: Err(String::from_str("item not found")),
                    },
                );
            },
        };
        let bus = self.items[i].id.bus_name.clone();
        let path = self.items[i].id.path.clone();
        match op {
            InteractionOp::Activate => InteractPlan::Call { bus, path, call: ItemCall::Activate { x, y } },
            InteractionOp::SecondaryActivate => InteractPlan::Call {
                bus,
                path,
                call: ItemCall::SecondaryActivate { x, y },
            },
            InteractionOp::Scroll => InteractPlan::Call {
                bus,
                path,
                call: ItemCall::Scroll { delta, orientation: orient.as_str() },
            },
            _ => InteractPlan::Report(
                TrayEvent::InteractionResult {
                    id: id.duplicate(),
                    op,
                    result: Err(String::from_str("dbus call failed: unsupported op")),
                },
            ),
        }
    }

    /// Plan a menu click command.
    pub fn plan_menu_activate(&self, id: &TrayItemId, menu_item: i32) -> (p: MenuPlan)
        requires
            self.wf(),
        ensures
            self.stopping ==> p is Skip,
            !self.stopping ==> match index_of_id(self@.items, id@) {
                Some(i) if self@.items[i].menu_path is Some => p matches MenuPlan::Call {
                    bus,
                    menu_path,
                    menu_item: m,
                } && bus@ == id@.bus_name && Some(menu_path@) == self@.items[i].menu_path && m
                    == menu_item,
                _ => p matches MenuPlan::Report(
                    TrayEvent::InteractionResult { id: rid, op, result: Err(msg) },
                ) && rid@ == id@ && op == InteractionOp::MenuActivate && msg@ == "item has no menu"@,
            },
    {
        if self.stopping {
            return MenuPlan::Skip;
        }
        match self.menu_target(id) {
            Some((bus, menu_path)) => MenuPlan::Call { bus, menu_path, menu_item },
            None => MenuPlan::Report(
                TrayEvent::InteractionResult {
                    id: id.duplicate(),
                    op: InteractionOp::MenuActivate,
                    result: Err(String::from_str("item has no menu")),
                },
            ),
        }
    }

    /// Host bus name in use (empty until registered).
    pub fn host_id(&self) -> (r: String)
        ensures
            r@ == self@.host_id,
    {
        self.host_id.clone()
    }

    /// Record the host bus name.
    pub fn set_host_id(&mut self, name: String)
        ensures
            final(self)@ == (TrayCoreView { host_id: name@, ..old(self)@ }),
    {
        self.host_id = name;
    }
}

/// Well-known host name requested on first registration:
/// `_org.kde.StatusNotifierHost.<pid>-<counter>`.
pub open spec fn host_name_spec(pid: u32, counter: u32) -> Seq<char> {
    "_org.kde.StatusNotifierHost."@ + text::decimal(pid as nat) + "-"@ + text::decimal(
        counter as nat,
    )
}

pub fn host_name_candidate(pid: u32, counter: u32) -> (s: String)
    ensures
        s@ == host_name_spec(pid, counter),
{
    let mut s = String::from_str(sni::SNI_HOST_PREFIX);
    text::push_decimal(&mut s, pid as u64);
    s.append("-");
    text::push_decimal(&mut s, counter as u64);
    s
}

/// The bus's answer to a name request.
#[derive(Debug, Clone, Copy, PartialEq, Eq, Structural)]
pub enum NameReply {
    PrimaryOwner,
    InQueue,
    Exists,
    AlreadyOwner,
}

impl NameReply {
    /// Whether the reply leaves us owning the name (taking the watcher role
    /// succeeded).
    pub fn owns(self) -> (r: bool)
        ensures
            r <==> (self == NameReply::PrimaryOwner || self == NameReply::AlreadyOwner),
    {
        match self {
            NameReply::PrimaryOwner | NameReply::AlreadyOwner => true,
            _ => false,
        }
    }
}

} // verus!
