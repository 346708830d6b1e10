//! Properties of the tray runtime that span several of its operations.

use vstd::prelude::*;

use crate::tray::config::FallbackPolicy;
use crate::tray::model::id_text;
use crate::tray::sni::service_spec;
use crate::tray::runtime::{
    due_kinds, enqueue_spec, first_by_menu, index_of_id, insert_spec, menu_from, next_spec, route_spec, run_cmds,
    run_stops, same_target_spec, setup_mode, stopped, unique_ids, unique_targets, without_target,
    CmdView, ItemEntryView, RouteView, TimerKindView, TimerView, TrayCoreView,
};
use crate::tray::model::TrayItemIdView;
use crate::tray::WatcherState;

verus! {

/// With `FallbackPolicy::Never` start-up never makes us the watcher,
/// whatever the bus looks like.
pub proof fn law_never_takes_watcher_role(watcher_present: bool, became: bool)
    ensures
        setup_mode(watcher_present, became, FallbackPolicy::Never) != WatcherState::FallbackActive,
{
}

/// A stopped runtime (after a fatal error, a shutdown or the final
/// cleanup) stays as it is: every command is refused and no queued command
/// is run any more, so nothing further is reported.
pub proof fn law_stopped_is_final(s: TrayCoreView, c: CmdView)
    ensures
        enqueue_spec(stopped(s), c) == (stopped(s), false),
        next_spec(stopped(s)) == (stopped(s), None::<CmdView>),
{
}

/// Taking a queued `Shutdown` stops the runtime, and commands queued behind
/// it are never run.
pub proof fn law_shutdown_stops(s: TrayCoreView)
    requires
        !s.stopping,
        s.pending.len() > 0,
        s.pending[0] is Shutdown,
    ensures
        next_spec(s).0.stopping,
        next_spec(next_spec(s).0).1 is None,
{
}

/// An item added to the table is found under its id, and every item that
/// was tracked before is found where it was.
pub proof fn law_found_after_insert(items: Seq<ItemEntryView>, e: ItemEntryView)
    requires
        unique_ids(items),
        index_of_id(items, e.id) is None,
    ensures
        unique_ids(items.push(e)),
        index_of_id(items.push(e), e.id) == Some(items.len() as int),
        forall|i: int| 0 <= i < items.len() ==> index_of_id(items.push(e), #[trigger] items[i].id) == Some(i),
{
    let t = items.push(e);
    assert forall|a: int, b: int| 0 <= a < t.len() && 0 <= b < t.len() && a != b implies t[a].id != t[b].id by {
        if a < items.len() && b < items.len() {
            assert(t[a] == items[a] && t[b] == items[b]);
        } else if a < items.len() {
            assert(t[a] == items[a]);
        } else {
            assert(t[b] == items[b]);
        }
    }
    assert(t[items.len() as int].id == e.id);
    assert forall|i: int| 0 <= i < items.len() implies index_of_id(t, #[trigger] items[i].id) == Some(i) by {
        assert(t[i] == items[i]);
    }
}

/// However many times work is scheduled, at most one timer does it: the
/// last scheduled, at the last deadline.
pub proof fn law_one_timer_per_target(ts: Seq<TimerView>, at: u64, kind: TimerKindView)
    requires
        unique_targets(ts),
    ensures
        unique_targets(without_target(ts, kind).push(TimerView { at, kind })),
        forall|i: int|
            0 <= i < without_target(ts, kind).len() ==> !same_target_spec(
                #[trigger] without_target(ts, kind)[i].kind,
                kind,
            ),
{
    let f = |t: TimerView| !same_target_spec(t.kind, kind);
    let w = ts.filter(f);
    let r = w.push(TimerView { at, kind });
    ts.filter_lemma(f);
    assert forall|i: int| 0 <= i < w.len() implies !same_target_spec(#[trigger] w[i].kind, kind) by {
        assert(f(w[i]));
    }
    assert forall|a: int, b: int| 0 <= a < r.len() && 0 <= b < r.len() && a != b implies !same_target_spec(
        r[a].kind,
        r[b].kind,
    ) by {
        if a < w.len() && b < w.len() {
            assert(w.contains(w[a]) && w.contains(w[b]));
            ts.lemma_filter_contains_rev(f, w[a]);
            ts.lemma_filter_contains_rev(f, w[b]);
            let ia = choose|ia: int| 0 <= ia < ts.len() && ts[ia] == w[a];
            let ib = choose|ib: int| 0 <= ib < ts.len() && ts[ib] == w[b];
            if ia == ib {
                lemma_filter_distinct(ts, f, a, b);
            }
        } else if a < w.len() {
            assert(r[a] == w[a]);
            same_target_symmetric(r[b].kind, r[a].kind);
        } else {
            assert(r[b] == w[b]);
        }
    }
}

proof fn same_target_symmetric(a: TimerKindView, b: TimerKindView)
    ensures
        same_target_spec(a, b) == same_target_spec(b, a),
{
}

/// Two positions of a filtered sequence come from two positions of the
/// original.
proof fn lemma_filter_distinct(s: Seq<TimerView>, f: spec_fn(TimerView) -> bool, a: int, b: int)
    requires
        0 <= a < s.filter(f).len(),
        0 <= b < s.filter(f).len(),
        a != b,
    ensures
        exists|ia: int, ib: int|
            0 <= ia < s.len() && 0 <= ib < s.len() && ia != ib && s[ia] == s.filter(f)[a] && s[ib]
                == s.filter(f)[b],
    decreases s.len(),
{
    reveal(Seq::filter);
    if s.len() > 0 {
        let d = s.drop_last();
        let fd = d.filter(f);
        if f(s.last()) {
            assert(s.filter(f) == fd.push(s.last()));
            if a < fd.len() && b < fd.len() {
                lemma_filter_distinct(d, f, a, b);
                let (ia, ib) = choose|ia: int, ib: int|
                    0 <= ia < d.len() && 0 <= ib < d.len() && ia != ib && d[ia] == fd[a] && d[ib] == fd[b];
                assert(s[ia] == d[ia] && s[ib] == d[ib]);
            } else if a < fd.len() {
                d.filter_lemma(f);
                assert(fd.contains(fd[a]));
                d.lemma_filter_contains_rev(f, fd[a]);
                let ia = choose|ia: int| 0 <= ia < d.len() && d[ia] == fd[a];
                assert(s[ia] == d[ia]);
                assert(s[s.len() - 1] == s.filter(f)[b]);
            } else {
                d.filter_lemma(f);
                assert(fd.contains(fd[b]));
                d.lemma_filter_contains_rev(f, fd[b]);
                let ib = choose|ib: int| 0 <= ib < d.len() && d[ib] == fd[b];
                assert(s[ib] == d[ib]);
                assert(s[s.len() - 1] == s.filter(f)[a]);
            }
        } else {
            assert(s.filter(f) == fd);
            lemma_filter_distinct(d, f, a, b);
            let (ia, ib) = choose|ia: int, ib: int|
                0 <= ia < d.len() && 0 <= ib < d.len() && ia != ib && d[ia] == fd[a] && d[ib] == fd[b];
            assert(s[ia] == d[ia] && s[ib] == d[ib]);
        }
    }
}

/// `RegisteredStatusNotifierItems` lists a service as soon as its
/// registration was accepted, whether or not it was pending already.
pub proof fn law_registration_listed(items: Seq<ItemEntryView>, pending: Seq<Seq<char>>, service: Seq<char>)
    ensures
        (items.map_values(|e: ItemEntryView| id_text(e.id)) + (if pending.contains(service) {
            pending
        } else {
            pending.push(service)
        })).contains(service),
{
    let l = items.map_values(|e: ItemEntryView| id_text(e.id));
    let p2 = if pending.contains(service) { pending } else { pending.push(service) };
    if pending.contains(service) {
        let k = choose|k: int| 0 <= k < pending.len() && pending[k] == service;
        assert((l + p2)[l.len() + k] == service);
    } else {
        assert((l + p2)[l.len() + pending.len() as int] == service);
    }
}


/// Queuing `x` behind a queue whose run already stops changes neither the
/// commands run nor the stop.
proof fn lemma_run_ignores_tail(s: TrayCoreView, x: CmdView)
    requires
        run_stops(s),
    ensures
        run_cmds(TrayCoreView { pending: s.pending.push(x), ..s }) == run_cmds(s),
        run_stops(TrayCoreView { pending: s.pending.push(x), ..s }),
    decreases s.pending.len(),
{
    let t = TrayCoreView { pending: s.pending.push(x), ..s };
    if !s.stopping {
        assert(t.pending[0] == s.pending[0]);
        let s1 = TrayCoreView { pending: s.pending.drop_first(), stopping: s.pending[0] is Shutdown, ..s };
        let t1 = TrayCoreView { pending: t.pending.drop_first(), stopping: t.pending[0] is Shutdown, ..t };
        assert(t.pending.drop_first() =~= s.pending.drop_first().push(x));
        if s.pending[0] is Shutdown {
            assert(run_cmds(s1) == Seq::<CmdView>::empty());
            assert(run_cmds(t1) == Seq::<CmdView>::empty());
        } else {
            let s2 = TrayCoreView { pending: s.pending.drop_first(), ..s };
            assert(s1 == s2);
            lemma_run_ignores_tail(s2, x);
            assert(t1 == TrayCoreView { pending: s2.pending.push(x), ..s2 });
        }
    }
}

/// A running core whose queue ends with `Shutdown` stops once it is run.
proof fn lemma_run_reaches_shutdown(s: TrayCoreView)
    requires
        !s.stopping,
        s.pending.len() > 0,
        s.pending.last() is Shutdown,
    ensures
        run_stops(s),
    decreases s.pending.len(),
{
    if !(s.pending[0] is Shutdown) {
        let s2 = TrayCoreView { pending: s.pending.drop_first(), ..s };
        assert(s.pending.len() > 1);
        assert(s2.pending.last() == s.pending.last());
        lemma_run_reaches_shutdown(s2);
    }
}

/// Asking for shutdown twice does what asking once does: the worker runs
/// the same commands, and either way the runtime ends stopped.
pub proof fn law_shutdown_twice_is_once(s: TrayCoreView)
    ensures
        run_cmds(enqueue_spec(enqueue_spec(s, CmdView::Shutdown).0, CmdView::Shutdown).0) == run_cmds(
            enqueue_spec(s, CmdView::Shutdown).0,
        ),
        run_stops(enqueue_spec(s, CmdView::Shutdown).0),
        run_stops(enqueue_spec(enqueue_spec(s, CmdView::Shutdown).0, CmdView::Shutdown).0),
{
    if !s.stopping {
        let a = enqueue_spec(s, CmdView::Shutdown).0;
        assert(a.pending.last() == CmdView::Shutdown);
        lemma_run_reaches_shutdown(a);
        lemma_run_ignores_tail(a, CmdView::Shutdown);
    }
}

/// An item is announced at most once while it stays tracked: after it was
/// added under an id, adding under that id again adds nothing.
pub proof fn law_added_once(s: TrayCoreView, e1: ItemEntryView, e2: ItemEntryView)
    requires
        e1.id == e2.id,
    ensures
        !(insert_spec(s, e1).1 && insert_spec(insert_spec(s, e1).0, e2).1),
{
    if insert_spec(s, e1).1 {
        let t = s.items.push(e1);
        assert(t[s.items.len() as int].id == e2.id);
    }
}


/// A service announced again while its item is tracked is not announced a
/// second time: the plan for it is a refetch, and adding its entry changes
/// nothing and reports nothing.
pub proof fn law_known_service_adds_nothing(s: TrayCoreView, service: Seq<char>, e: ItemEntryView)
    requires
        service_spec(service) == Some((e.id.bus_name, e.id.path)),
        index_of_id(s.items, e.id) is Some,
    ensures
        insert_spec(s, e) == (s, false),
{
}


/// Scheduling work for one target never drops the pending work of another:
/// a refetch of item `y` keeps every pending refetch of a different item
/// `x`, every pending menu refetch, and the watcher respawn; and likewise a
/// menu refetch of `y` keeps the menu refetches of other items and every
/// item refetch. Only the same item's (or the same menu's) earlier timer is
/// replaced.
pub proof fn law_refetches_of_other_items_stay(
    ts: Seq<TimerView>,
    at: u64,
    x: TrayItemIdView,
    y: TrayItemIdView,
    i: int,
)
    requires
        0 <= i < ts.len(),
        x != y,
    ensures
        ts[i].kind == TimerKindView::RefetchItem(x) ==> without_target(ts, TimerKindView::RefetchItem(y)).push(
            TimerView { at, kind: TimerKindView::RefetchItem(y) },
        ).contains(ts[i]),
        ts[i].kind == TimerKindView::RefetchMenu(x) ==> without_target(ts, TimerKindView::RefetchMenu(y)).push(
            TimerView { at, kind: TimerKindView::RefetchMenu(y) },
        ).contains(ts[i]),
        !(ts[i].kind is RefetchItem) ==> without_target(ts, TimerKindView::RefetchItem(y)).contains(ts[i]),
        !(ts[i].kind is RefetchMenu) ==> without_target(ts, TimerKindView::RefetchMenu(y)).contains(ts[i]),
{
    let fi = |t: TimerView| !same_target_spec(t.kind, TimerKindView::RefetchItem(y));
    let fm = |t: TimerView| !same_target_spec(t.kind, TimerKindView::RefetchMenu(y));
    if !same_target_spec(ts[i].kind, TimerKindView::RefetchItem(y)) {
        ts.lemma_filter_contains(fi, i);
        let w = without_target(ts, TimerKindView::RefetchItem(y));
        let j = choose|j: int| 0 <= j < w.len() && w[j] == ts[i];
        assert(w.push(TimerView { at, kind: TimerKindView::RefetchItem(y) })[j] == ts[i]);
    }
    if !same_target_spec(ts[i].kind, TimerKindView::RefetchMenu(y)) {
        ts.lemma_filter_contains(fm, i);
        let w = without_target(ts, TimerKindView::RefetchMenu(y));
        let j = choose|j: int| 0 <= j < w.len() && w[j] == ts[i];
        assert(w.push(TimerView { at, kind: TimerKindView::RefetchMenu(y) })[j] == ts[i]);
    }
}

/// Two items that change within one debounce window are both refetched:
/// when the refetch of `x` is pending and due at `now`, scheduling a
/// refetch of another item `y` (due by `now` too) leaves both in the work
/// that falls due at `now`.
pub proof fn law_both_changed_items_are_refetched(
    ts: Seq<TimerView>,
    at: u64,
    now: u64,
    x: TrayItemIdView,
    y: TrayItemIdView,
    i: int,
)
    requires
        0 <= i < ts.len(),
        x != y,
        ts[i].kind == TimerKindView::RefetchItem(x),
        ts[i].at <= now,
        at <= now,
    ensures
        ({
            let after = without_target(ts, TimerKindView::RefetchItem(y)).push(
                TimerView { at, kind: TimerKindView::RefetchItem(y) },
            );
            &&& due_kinds(after, now).contains(TimerKindView::RefetchItem(x))
            &&& due_kinds(after, now).contains(TimerKindView::RefetchItem(y))
        }),
{
    law_refetches_of_other_items_stay(ts, at, x, y, i);
    let after = without_target(ts, TimerKindView::RefetchItem(y)).push(
        TimerView { at, kind: TimerKindView::RefetchItem(y) },
    );
    let f = |t: TimerView| t.at <= now;
    let j = choose|j: int| 0 <= j < after.len() && after[j] == ts[i];
    after.lemma_filter_contains(f, j);
    let due = after.filter(f);
    let k = choose|k: int| 0 <= k < due.len() && due[k] == ts[i];
    assert(due.map_values(|t: TimerView| t.kind)[k] == TimerKindView::RefetchItem(x));
    let last = after.len() - 1;
    after.lemma_filter_contains(f, last);
    let k2 = choose|k: int| 0 <= k < due.len() && due[k] == after[last];
    assert(due.map_values(|t: TimerView| t.kind)[k2] == TimerKindView::RefetchItem(y));
}

proof fn lemma_menu_from_finds(items: Seq<ItemEntryView>, u: Seq<char>, p: Seq<char>, k: int, i: int)
    requires
        0 <= i <= k < items.len(),
        items[k].unique == u,
        items[k].menu_path == Some(p),
        forall|j: int| 0 <= j < k ==> !(items[j].unique == u && items[j].menu_path == Some(p)),
    ensures
        menu_from(items, u, p, i) == Some(items[k].id),
    decreases k - i,
{
    if i < k {
        lemma_menu_from_finds(items, u, p, k, i + 1);
    }
}

/// The dbusmenu change signals of a menu (`LayoutUpdated`,
/// `ItemsPropertiesUpdated` and `AboutToShow`) all ask for a refetch of the
/// menu of the first tracked item whose unique bus name sent it and whose
/// menu lives at the signal's path, whatever the first argument.
pub proof fn law_menu_signals_refetch_the_menu(
    items: Seq<ItemEntryView>,
    sender: Seq<char>,
    path: Seq<char>,
    arg0: Option<Seq<char>>,
    k: int,
)
    requires
        0 <= k < items.len(),
        items[k].unique == sender,
        items[k].menu_path == Some(path),
        forall|j: int| 0 <= j < k ==> !(items[j].unique == sender && items[j].menu_path == Some(path)),
    ensures
        route_spec(items, "com.canonical.dbusmenu"@, "LayoutUpdated"@, sender, path, arg0)
            == RouteView::RefetchMenu(items[k].id),
        route_spec(items, "com.canonical.dbusmenu"@, "ItemsPropertiesUpdated"@, sender, path, arg0)
            == RouteView::RefetchMenu(items[k].id),
        route_spec(items, "com.canonical.dbusmenu"@, "AboutToShow"@, sender, path, arg0)
            == RouteView::RefetchMenu(items[k].id),
{
    lemma_menu_from_finds(items, sender, path, k, 0);
    assert(first_by_menu(items, sender, path) == Some(items[k].id));
    reveal_strlit("com.canonical.dbusmenu");
    reveal_strlit("org.freedesktop.DBus");
    reveal_strlit("org.kde.StatusNotifierWatcher");
    reveal_strlit("org.freedesktop.DBus.Properties");
    reveal_strlit("org.kde.StatusNotifierItem");
    assert("com.canonical.dbusmenu"@[0] != "org.freedesktop.DBus"@[0]);
    assert("com.canonical.dbusmenu"@[0] != "org.kde.StatusNotifierWatcher"@[0]);
    assert("com.canonical.dbusmenu"@ != "org.freedesktop.DBus.Properties"@);
    assert("com.canonical.dbusmenu"@ != "org.kde.StatusNotifierItem"@);
}

} // verus!
