//! Hyprland IPC: socket paths, the `hyprctl` dispatch command, parsing of
//! event-socket lines and the subscriber table of the event bus.

use vstd::prelude::*;

use crate::text;

verus! {

/// The active workspace as reported by `hyprctl -j activeworkspace`.
pub struct ActiveWorkspace {
    pub id: i64,
    pub name: String,
}

/// A workspace rule as reported by `hyprctl -j workspacerules`.
pub struct WorkspaceRule {
    /// `workspaceString`: the workspace the rule is for.
    pub workspace_string: String,
    /// Connector of the monitor the workspace is bound to.
    pub monitor: String,
}

// ── socket paths ───────────────────────────────────────────────────────

/// `$XDG_RUNTIME_DIR/hypr/$HYPRLAND_INSTANCE_SIGNATURE`.
pub open spec fn hyprland_dir_spec(runtime_dir: Seq<char>, signature: Seq<char>) -> Seq<char> {
    runtime_dir + "/hypr/"@ + signature
}

pub fn hyprland_dir(runtime_dir: &str, signature: &str) -> (r: String)
    ensures
        r@ == hyprland_dir_spec(runtime_dir@, signature@),
{
    let mut s = runtime_dir.to_owned();
    s.append("/hypr/");
    s.append(signature);
    s
}

/// Path of the event socket (`.socket2.sock`) in the instance directory.
pub fn event_socket(runtime_dir: &str, signature: &str) -> (r: String)
    ensures
        r@ == hyprland_dir_spec(runtime_dir@, signature@) + "/.socket2.sock"@,
{
    let mut s = hyprland_dir(runtime_dir, signature);
    s.append("/.socket2.sock");
    s
}

// ── the active window ──────────────────────────────────────────────────

/// The string under `"title"` in the JSON reply of `hyprctl -j
/// activewindow`, as serde_json reads it (none when the reply is no JSON
/// object or has no string `title`).
pub uninterp spec fn json_title(reply: Seq<char>) -> Option<Seq<char>>;

/// serde_json's `from_str::<Value>` on the reply, then its `"title"` member
/// as a string. The contract names the result (a function of the reply
/// alone); it says nothing of how JSON is read.
#[verifier::external_body]
fn read_json_title(reply: &str) -> (r: Option<String>)
    ensures
        match r {
            Some(t) => json_title(reply@) == Some(t@),
            None => json_title(reply@) is None,
        },
{
    let v: serde_json::Value = serde_json::from_str(reply).ok()?;
    v.get("title")?.as_str().map(|s| s.to_string())
}

/// Title of the active window, from the reply of `hyprctl -j activewindow`.
pub fn active_window_title(reply: &str) -> (r: Option<String>)
    ensures
        match r {
            Some(t) => json_title(reply@) == Some(t@),
            None => json_title(reply@) is None,
        },
{
    read_json_title(reply)
}

// ── commands ───────────────────────────────────────────────────────────

/// Arguments of the `hyprctl` call that focuses workspace `name`:
/// `dispatch` and `hl.dsp.focus({ workspace = "NAME" })`.
pub fn dispatch_workspace(name: &str) -> (args: Vec<String>)
    ensures
        args@.len() == 2,
        args@[0]@ == "dispatch"@,
        args@[1]@ == "hl.dsp.focus({ workspace = \""@ + name@ + "\" })"@,
{
    let mut cmd = String::from_str("hl.dsp.focus({ workspace = \"");
    cmd.append(name);
    cmd.append("\" })");
    let mut args: Vec<String> = Vec::new();
    args.push(String::from_str("dispatch"));
    args.push(cmd);
    args
}

// ── event lines ────────────────────────────────────────────────────────

/// Index of the first `>>` in `s` at or after `i`.
pub open spec fn arrows_from(s: Seq<char>, i: int) -> Option<int>
    decreases s.len() - i,
{
    if i < 0 || i + 1 >= s.len() {
        None
    } else if s[i] == '>' && s[i + 1] == '>' {
        Some(i)
    } else {
        arrows_from(s, i + 1)
    }
}

/// An event line `EVENT>>DATA` split at its first `>>`.
pub open spec fn event_spec(line: Seq<char>) -> Option<(Seq<char>, Seq<char>)> {
    match arrows_from(line, 0) {
        Some(i) => Some((line.take(i), line.skip(i + 2))),
        None => None,
    }
}

/// Split an event-socket line into event name and data.
pub fn parse_event(line: &str) -> (r: Option<(String, String)>)
    ensures
        match r {
            Some((e, d)) => event_spec(line@) == Some((e@, d@)),
            None => event_spec(line@) is None,
        },
{
    let cs = text::chars_of(line);
    let mut i: usize = 0;
    while i < cs.len() && i + 1 < cs.len()
        invariant
            cs@ == line@,
            i <= cs@.len(),
            arrows_from(line@, 0) == arrows_from(line@, i as int),
        decreases cs@.len() - i,
    {
        if cs[i] == '>' && cs[i + 1] == '>' {
            let e = text::string_of_range(&cs, 0, i);
            let d = text::string_of_range(&cs, i + 2, cs.len());
            proof {
                assert(e@ =~= line@.take(i as int));
                assert(d@ =~= line@.skip(i + 2));
            }
            return Some((e, d));
        }
        i = i + 1;
    }
    None
}

// ── subscribers ────────────────────────────────────────────────────────

/// A callback subscribed to one event.
pub struct Handler<C> {
    pub id: u64,
    pub event: String,
    pub callback: C,
}

/// Subscriber table of the event bus: handlers in subscription order.
pub struct EventBus<C> {
    pub handlers: Vec<Handler<C>>,
    /// Number the next subscription gets.
    pub next_id: u64,
}

/// A live subscription; handing it back to [`EventBus::unsubscribe`] ends it.
pub struct Subscription {
    pub id: u64,
    pub event: String,
}

/// Indices of the handlers (among the first `n`) subscribed to `event`,
/// ascending.
pub open spec fn handlers_for<C>(hs: Seq<Handler<C>>, event: Seq<char>, n: int) -> Seq<int>
    decreases n,
{
    if n <= 0 {
        Seq::empty()
    } else if hs[n - 1].event@ == event {
        handlers_for(hs, event, n - 1).push(n - 1)
    } else {
        handlers_for(hs, event, n - 1)
    }
}

/// The handlers other than the one with this id and event.
pub open spec fn without_handler<C>(hs: Seq<Handler<C>>, id: u64, event: Seq<char>) -> Seq<Handler<C>> {
    hs.filter(|h: Handler<C>| !(h.id == id && h.event@ == event))
}

impl<C> EventBus<C> {
    /// Handler ids are below `next_id` and increase along the table.
    pub open spec fn wf(&self) -> bool {
        &&& forall|i: int| 0 <= i < self.handlers@.len() ==> self.handlers@[i].id < self.next_id
        &&& forall|i: int, j: int|
            0 <= i < j < self.handlers@.len() ==> self.handlers@[i].id < self.handlers@[j].id
    }

    pub fn new() -> (b: EventBus<C>)
        ensures
            b.wf(),
            b.handlers@.len() == 0,
            b.next_id == 0,
    {
        EventBus { handlers: Vec::new(), next_id: 0 }
    }

    /// Subscribe `f` to `event`; the subscription carries a fresh id.
    pub fn subscribe(&mut self, event: &str, f: C) -> (s: Subscription)
        requires
            old(self).wf(),
            old(self).next_id < u64::MAX,
        ensures
            final(self).wf(),
            s.id == old(self).next_id,
            s.event@ == event@,
            final(self).next_id == old(self).next_id + 1,
            final(self).handlers@.len() == old(self).handlers@.len() + 1,
            final(self).handlers@.take(old(self).handlers@.len() as int) == old(self).handlers@,
            final(self).handlers@.last().id == s.id,
            final(self).handlers@.last().event@ == event@,
            final(self).handlers@.last().callback == f,
    {
        let id = self.next_id;
        self.handlers.push(Handler { id, event: event.to_owned(), callback: f });
        self.next_id = id + 1;
        proof {
            assert(self.handlers@.take(old(self).handlers@.len() as int) =~= old(self).handlers@);
        }
        Subscription { id, event: event.to_owned() }
    }

    /// End a subscription: its handler leaves the table, the others stay in
    /// order.
    pub fn unsubscribe(&mut self, sub: &Subscription)
        requires
            old(self).wf(),
        ensures
            final(self).wf(),
            final(self).next_id == old(self).next_id,
            final(self).handlers@ == without_handler(old(self).handlers@, sub.id, sub.event@),
    {
        let ghost s0 = old(self).handlers@;
        let ghost f = |h: Handler<C>| !(h.id == sub.id && h.event@ == sub.event@);
        let len0 = self.handlers.len();
        let mut i: usize = 0;
        let mut n: usize = 0;
        while i < self.handlers.len()
            invariant
                i <= n <= s0.len(),
                s0.len() == len0,
                s0 == old(self).handlers@,
                old(self).wf(),
                self.next_id == old(self).next_id,
                self.handlers@ == s0.take(n as int).filter(f) + s0.skip(n as int),
                i == s0.take(n as int).filter(f).len(),
                f == (|h: Handler<C>| !(h.id == sub.id && h.event@ == sub.event@)),
                forall|a: int| 0 <= a < i ==> exists|m: int| 0 <= m < n && #[trigger] self.handlers@[a] == s0[m],
                forall|a: int, b: int| 0 <= a < b < i ==> self.handlers@[a].id < self.handlers@[b].id,
            decreases s0.len() - n,
        {
            proof {
                assert(self.handlers@.len() == i + (s0.len() - n));
                assert(n < len0);
                assert(self.handlers@[i as int] == s0[n as int]);
                assert(s0.take(n + 1).drop_last() =~= s0.take(n as int));
                reveal(Seq::filter);
            }
            let ghost before = self.handlers@;
            if self.handlers[i].id == sub.id && text::same(self.handlers[i].event.as_str(), sub.event.as_str()) {
                let _gone = self.handlers.remove(i);
                proof {
                    assert(s0.take(n + 1).filter(f) =~= s0.take(n as int).filter(f));
                    assert(self.handlers@ =~= s0.take(n + 1).filter(f) + s0.skip(n + 1));
                    assert forall|a: int| 0 <= a < i implies exists|m: int|
                        0 <= m < n + 1 && #[trigger] self.handlers@[a] == s0[m] by {
                        assert(self.handlers@[a] == before[a]);
                    }
                }
            } else {
                proof {
                    assert(s0.take(n + 1).filter(f) =~= s0.take(n as int).filter(f).push(s0[n as int]));
                    assert(self.handlers@ =~= s0.take(n + 1).filter(f) + s0.skip(n + 1));
                    assert forall|a: int| 0 <= a < i + 1 implies exists|m: int|
                        0 <= m < n + 1 && #[trigger] self.handlers@[a] == s0[m] by {
                        if a == i {
                            assert(self.handlers@[a] == s0[n as int]);
                        }
                    }
                    assert forall|a: int, b: int| 0 <= a < b < i + 1 implies self.handlers@[a].id
                        < self.handlers@[b].id by {
                        if b == i {
                            let ma = choose|m: int| 0 <= m < n && #[trigger] self.handlers@[a] == s0[m];
                            assert(s0[ma].id < s0[n as int].id);
                        }
                    }
                }
                i = i + 1;
            }
            n = n + 1;
        }
        proof {
            assert(self.handlers@.len() == i + (s0.len() - n));
            assert(n == s0.len());
            assert(i == self.handlers@.len());
            assert(s0.take(s0.len() as int) =~= s0);
            assert(self.handlers@ =~= s0.filter(f));
            assert forall|a: int| 0 <= a < self.handlers@.len() implies self.handlers@[a].id < self.next_id by {
                let ma = choose|m: int| 0 <= m < n && #[trigger] self.handlers@[a] == s0[m];
                assert(s0[ma].id < self.next_id);
            }
        }
    }

    /// Indices of the handlers to call for `event`, in subscription order.
    pub fn dispatch(&self, event: &str) -> (r: Vec<usize>)
        ensures
            r@.map_values(|i: usize| i as int) == handlers_for(self.handlers@, event@, self.handlers@.len() as int),
    {
        let mut out: Vec<usize> = Vec::new();
        let mut i: usize = 0;
        while i < self.handlers.len()
            invariant
                i <= self.handlers@.len(),
                out@.map_values(|k: usize| k as int) == handlers_for(self.handlers@, event@, i as int),
            decreases self.handlers@.len() - i,
        {
            if text::same(self.handlers[i].event.as_str(), event) {
                out.push(i);
                proof {
                    let ghost prev = out@.drop_last();
                    assert(out@.map_values(|k: usize| k as int) =~= prev.map_values(|k: usize| k as int).push(
                        i as int,
                    ));
                }
            }
            i = i + 1;
        }
        out
    }

    /// The callback of handler `i`.
    pub fn callback(&self, i: usize) -> (c: &C)
        requires
            i < self.handlers@.len(),
        ensures
            *c == self.handlers@[i as int].callback,
    {
        &self.handlers[i].callback
    }
}

/// Ending a subscription right after taking it leaves the handler table as
/// it was.
pub proof fn law_unsubscribe_undoes_subscribe<C>(hs: Seq<Handler<C>>, next_id: u64, h: Handler<C>)
    requires
        forall|i: int| 0 <= i < hs.len() ==> hs[i].id < next_id,
        h.id == next_id,
    ensures
        without_handler(hs.push(h), h.id, h.event@) == hs,
{
    let f = |x: Handler<C>| !(x.id == h.id && x.event@ == h.event@);
    reveal(Seq::filter);
    assert(hs.push(h).drop_last() =~= hs);
    assert(!f(h));
    lemma_filter_all(hs, f);
}

proof fn lemma_filter_all<C>(hs: Seq<Handler<C>>, f: spec_fn(Handler<C>) -> bool)
    requires
        forall|i: int| 0 <= i < hs.len() ==> f(#[trigger] hs[i]),
    ensures
        hs.filter(f) == hs,
    decreases hs.len(),
{
    reveal(Seq::filter);
    if hs.len() > 0 {
        lemma_filter_all(hs.drop_last(), f);
        assert(hs.drop_last().push(hs.last()) =~= hs);
    } else {
        assert(hs.filter(f) =~= hs);
    }
}


proof fn lemma_handlers_for_prefix<C>(hs: Seq<Handler<C>>, h: Handler<C>, e: Seq<char>, n: int)
    requires
        0 <= n <= hs.len(),
    ensures
        handlers_for(hs.push(h), e, n) == handlers_for(hs, e, n),
    decreases n,
{
    if n > 0 {
        lemma_handlers_for_prefix(hs, h, e, n - 1);
        assert(hs.push(h)[n - 1] == hs[n - 1]);
    }
}

/// A subscription gets an id no current handler has. Afterwards,
/// dispatching its event calls the handlers subscribed to it before, in
/// order, and then the new one; dispatching any other event calls exactly
/// the handlers it called before.
pub proof fn law_subscribe_dispatch<C>(hs: Seq<Handler<C>>, next_id: u64, h: Handler<C>, e: Seq<char>)
    requires
        forall|i: int| 0 <= i < hs.len() ==> hs[i].id < next_id,
        h.id == next_id,
    ensures
        forall|i: int| 0 <= i < hs.len() ==> #[trigger] hs[i].id != h.id,
        h.event@ == e ==> handlers_for(hs.push(h), e, hs.len() + 1int) == handlers_for(hs, e, hs.len() as int).push(
            hs.len() as int,
        ),
        h.event@ != e ==> handlers_for(hs.push(h), e, hs.len() + 1int) == handlers_for(hs, e, hs.len() as int),
{
    lemma_handlers_for_prefix(hs, h, e, hs.len() as int);
    assert(hs.push(h)[hs.len() as int] == h);
}

} // verus!

