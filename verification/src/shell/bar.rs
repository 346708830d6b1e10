//! Logic of the bar's widgets: reading Hyprland event data, the order of a
//! monitor's workspace labels, which label is highlighted, and scrolling
//! through workspaces. The widgets themselves follow what these say.

use vstd::prelude::*;

use crate::shell::hyprland::WorkspaceRule;
use crate::text;

verus! {

// ── event data ─────────────────────────────────────────────────────────

/// Field `n` of comma-separated text (`s.split(',').nth(n)`).
pub open spec fn nth_field(s: Seq<char>, n: nat) -> Option<Seq<char>>
    decreases n,
{
    match text::split_once_spec(s, ',') {
        Some((a, b)) => if n == 0 {
            Some(a)
        } else {
            nth_field(b, (n - 1) as nat)
        },
        None => if n == 0 {
            Some(s)
        } else {
            None
        },
    }
}

/// Field `n` of comma-separated event data, or empty when there are fewer
/// fields.
pub open spec fn field_spec(data: Seq<char>, n: nat) -> Seq<char> {
    match nth_field(data, n) {
        Some(f) => f,
        None => Seq::empty(),
    }
}

pub fn event_field(data: &str, n: usize) -> (r: String)
    ensures
        r@ == field_spec(data@, n as nat),
{
    let mut rest = data.to_owned();
    let mut k: usize = 0;
    while k < n
        invariant
            k <= n,
            nth_field(data@, n as nat) == nth_field(rest@, (n - k) as nat),
        decreases n - k,
    {
        match text::split_once(rest.as_str(), ',') {
            Some((_a, b)) => {
                rest = b;
            },
            None => {
                return String::new();
            },
        }
        k = k + 1;
    }
    match text::split_once(rest.as_str(), ',') {
        Some((a, _b)) => a,
        None => rest,
    }
}

/// Workspace named by a `workspacev2` event (`ID,NAME`): its first field.
pub fn workspace_of_event(data: &str) -> (r: String)
    ensures
        r@ == field_spec(data@, 0),
{
    event_field(data, 0)
}

/// Monitor and workspace of a `focusedmonv2` event (`MONNAME,WORKSPACEID`).
pub fn focused_monitor_event(data: &str) -> (r: (String, String))
    ensures
        r.0@ == field_spec(data@, 0),
        r.1@ == field_spec(data@, 1),
{
    (event_field(data, 0), event_field(data, 1))
}

/// Window title carried by `activewindow` (`CLASS,TITLE`) and
/// `windowtitlev2` (`ADDRESS,TITLE`) events: the second field.
pub fn window_title(data: &str) -> (r: String)
    ensures
        r@ == field_spec(data@, 1),
{
    event_field(data, 1)
}


// ── workspace labels ───────────────────────────────────────────────────

/// Lexicographic order of texts by character code (the order of `str`).
pub open spec fn text_less(a: Seq<char>, b: Seq<char>) -> bool
    decreases a.len(),
{
    if a.len() == 0 {
        b.len() > 0
    } else if b.len() == 0 {
        false
    } else if a[0] < b[0] {
        true
    } else if a[0] > b[0] {
        false
    } else {
        text_less(a.drop_first(), b.drop_first())
    }
}

/// Sort key of a workspace name: its value as an `i64`, names that are no
/// number last.
pub open spec fn numeric_key(s: Seq<char>) -> int {
    match text::i64_text(s) {
        Some(v) => v as int,
        None => i64::MAX as int,
    }
}

/// Display order of workspace labels: by numeric key, then by name.
pub open spec fn ws_before(a: Seq<char>, b: Seq<char>) -> bool {
    numeric_key(a) < numeric_key(b) || (numeric_key(a) == numeric_key(b) && text_less(a, b))
}

proof fn lemma_text_less_total(a: Seq<char>, b: Seq<char>)
    ensures
        a != b ==> text_less(a, b) || text_less(b, a),
        !(text_less(a, b) && text_less(b, a)),
        !text_less(a, a),
    decreases a.len(),
{
    if a.len() > 0 && b.len() > 0 {
        lemma_text_less_total(a.drop_first(), b.drop_first());
        if a != b && a[0] == b[0] {
            if a.drop_first() == b.drop_first() {
                assert(a =~= seq![a[0]] + a.drop_first());
                assert(b =~= seq![b[0]] + b.drop_first());
            }
        }
    } else if a.len() == 0 && b.len() == 0 {
        assert(a =~= b);
    }
    if a.len() > 0 {
        lemma_text_less_total(a.drop_first(), a.drop_first());
    }
}

proof fn lemma_text_less_trans(a: Seq<char>, b: Seq<char>, c: Seq<char>)
    requires
        text_less(a, b),
        text_less(b, c),
    ensures
        text_less(a, c),
    decreases a.len(),
{
    if a.len() > 0 && b.len() > 0 && c.len() > 0 {
        if a[0] == b[0] && b[0] == c[0] {
            lemma_text_less_trans(a.drop_first(), b.drop_first(), c.drop_first());
        }
    }
}

proof fn lemma_ws_order(a: Seq<char>, b: Seq<char>, c: Seq<char>)
    ensures
        a != b ==> ws_before(a, b) || ws_before(b, a),
        !(ws_before(a, b) && ws_before(b, a)),
        !ws_before(a, a),
        ws_before(a, b) && ws_before(b, c) ==> ws_before(a, c),
{
    lemma_text_less_total(a, b);
    lemma_text_less_total(a, a);
    if ws_before(a, b) && ws_before(b, c) && numeric_key(a) == numeric_key(b) && numeric_key(b)
        == numeric_key(c) {
        lemma_text_less_trans(a, b, c);
    }
}

/// Strictly ascending in display order (so without repeats).
pub open spec fn in_display_order(s: Seq<Seq<char>>) -> bool {
    forall|i: int, j: int| 0 <= i < j < s.len() ==> ws_before(s[i], s[j])
}

pub open spec fn strs(v: Seq<String>) -> Seq<Seq<char>> {
    v.map_values(|s: String| s@)
}

/// Workspaces bound to monitor `connector` by the rules.
pub open spec fn bound_names(rules: Seq<WorkspaceRule>, connector: Seq<char>) -> Set<Seq<char>> {
    Set::new(
        |n: Seq<char>|
            exists|i: int|
                0 <= i < rules.len() && rules[i].monitor@ == connector && #[trigger] rules[i].workspace_string@
                    == n,
    )
}

fn key_of(s: &str) -> (k: i64)
    ensures
        k as int == numeric_key(s@),
{
    match text::parse_i64(s) {
        Some(v) => v,
        None => i64::MAX,
    }
}

fn less_text(a: &str, b: &str) -> (r: bool)
    ensures
        r == text_less(a@, b@),
{
    let x = text::chars_of(a);
    let y = text::chars_of(b);
    let mut i: usize = 0;
    proof {
        assert(x@.skip(0) =~= x@);
        assert(y@.skip(0) =~= y@);
    }
    while i < x.len() && i < y.len()
        invariant
            i <= x@.len(),
            i <= y@.len(),
            x@ == a@,
            y@ == b@,
            text_less(a@, b@) == text_less(x@.skip(i as int), y@.skip(i as int)),
        decreases x@.len() - i,
    {
        proof {
            assert(x@.skip(i as int)[0] == x@[i as int]);
            assert(y@.skip(i as int)[0] == y@[i as int]);
            assert(x@.skip(i as int).drop_first() =~= x@.skip(i + 1));
            assert(y@.skip(i as int).drop_first() =~= y@.skip(i + 1));
        }
        if x[i] < y[i] {
            return true;
        }
        if x[i] > y[i] {
            return false;
        }
        i = i + 1;
    }
    proof {
        if i == x@.len() {
            assert(x@.skip(i as int).len() == 0);
        } else {
            assert(y@.skip(i as int).len() == 0);
        }
    }
    i == x.len() && i < y.len()
}

fn before(a: &str, b: &str) -> (r: bool)
    ensures
        r == ws_before(a@, b@),
{
    let ka = key_of(a);
    let kb = key_of(b);
    ka < kb || (ka == kb && less_text(a, b))
}

fn contains_text(v: &Vec<String>, s: &str) -> (r: bool)
    ensures
        r == strs(v@).contains(s@),
{
    let mut i: usize = 0;
    while i < v.len()
        invariant
            i <= v@.len(),
            forall|j: int| 0 <= j < i ==> v@[j]@ != s@,
        decreases v@.len() - i,
    {
        if text::same(v[i].as_str(), s) {
            proof {
                assert(strs(v@)[i as int] == s@);
            }
            return true;
        }
        i = i + 1;
    }
    proof {
        if strs(v@).contains(s@) {
            let j = choose|j: int| 0 <= j < strs(v@).len() && strs(v@)[j] == s@;
            assert(v@[j]@ == s@);
        }
    }
    false
}

/// The labels for monitor `connector`: every workspace the rules bind to
/// it, once, in display order.
pub fn workspace_names(rules: &Vec<WorkspaceRule>, connector: &str) -> (names: Vec<String>)
    ensures
        in_display_order(strs(names@)),
        strs(names@).to_set() == bound_names(rules@, connector@),
{
    let mut out: Vec<String> = Vec::new();
    let mut i: usize = 0;
    while i < rules.len()
        invariant
            i <= rules@.len(),
            in_display_order(strs(out@)),
            strs(out@).to_set() == bound_names(rules@.take(i as int), connector@),
        decreases rules@.len() - i,
    {
        let ghost bn = bound_names(rules@.take(i as int), connector@);
        let ghost b1 = bound_names(rules@.take(i + 1), connector@);
        let ghost target = if rules@[i as int].monitor@ == connector@ {
            bn.insert(rules@[i as int].workspace_string@)
        } else {
            bn
        };
        proof {
            assert forall|n: Seq<char>| #[trigger] b1.contains(n) implies target.contains(n) by {
                let k = choose|k: int|
                    0 <= k < i + 1 && rules@.take(i + 1)[k].monitor@ == connector@
                        && #[trigger] rules@.take(i + 1)[k].workspace_string@ == n;
                if k < i {
                    assert(rules@.take(i as int)[k] == rules@.take(i + 1)[k]);
                }
            }
            assert forall|n: Seq<char>| #[trigger] target.contains(n) implies b1.contains(n) by {
                if bn.contains(n) {
                    let k = choose|k: int|
                        0 <= k < i && rules@.take(i as int)[k].monitor@ == connector@
                            && #[trigger] rules@.take(i as int)[k].workspace_string@ == n;
                    assert(rules@.take(i + 1)[k] == rules@.take(i as int)[k]);
                } else {
                    assert(rules@.take(i + 1)[i as int] == rules@[i as int]);
                }
            }
            assert(b1 =~= target);
        }
        if text::same(rules[i].monitor.as_str(), connector) {
            let name = rules[i].workspace_string.as_str();
            if !contains_text(&out, name) {
                let ghost o = strs(out@);
                let mut p: usize = 0;
                while p < out.len() && !before(name, out[p].as_str())
                    invariant
                        p <= out@.len(),
                        o == strs(out@),
                        forall|q: int| 0 <= q < p ==> !ws_before(name@, o[q]),
                    decreases out@.len() - p,
                {
                    p = p + 1;
                }
                out.insert(p, name.to_owned());
                proof {
                    assert(strs(out@) =~= o.insert(p as int, name@));
                    assert forall|a: int, b: int| 0 <= a < b < strs(out@).len() implies ws_before(
                        strs(out@)[a],
                        strs(out@)[b],
                    ) by {
                        let s2 = strs(out@);
                        if a < p && b == p {
                            lemma_ws_order(o[a], name@, name@);
                            assert(o[a] != name@) by {
                                assert(o.contains(o[a]));
                            }
                        } else if a < p && b > p {
                            assert(s2[b] == o[b - 1]);
                        } else if a == p && b > p {
                            assert(s2[b] == o[b - 1]);
                            if b - 1 > p {
                                assert(ws_before(o[p as int], o[b - 1]));
                                lemma_ws_order(name@, o[p as int], o[b - 1]);
                            }
                        } else if a > p {
                            assert(s2[a] == o[a - 1]);
                            assert(s2[b] == o[b - 1]);
                        }
                    }
                    assert forall|z: Seq<char>| #[trigger] strs(out@).to_set().contains(z) == o.to_set().insert(
                        name@,
                    ).contains(z) by {
                        let s2 = strs(out@);
                        if s2.contains(z) {
                            let k = choose|k: int| 0 <= k < s2.len() && s2[k] == z;
                            if k < p {
                                assert(o[k] == z);
                            } else if k > p {
                                assert(o[k - 1] == z);
                            }
                        }
                        if o.contains(z) {
                            let k = choose|k: int| 0 <= k < o.len() && o[k] == z;
                            if k < p {
                                assert(s2[k] == z);
                            } else {
                                assert(s2[k + 1] == z);
                            }
                        }
                        if z == name@ {
                            assert(s2[p as int] == z);
                        }
                    }
                    assert(strs(out@).to_set() =~= o.to_set().insert(name@));
                }
            }
        }
        i = i + 1;
    }
    proof {
        assert(rules@.take(rules@.len() as int) =~= rules@);
    }
    out
}


/// A monitor's workspace labels and the active workspace.
pub struct WorkspaceLabels {
    /// Label names in display order.
    pub names: Vec<String>,
    /// Active workspace, as last reported (it may be on another monitor).
    pub active: Option<String>,
}

/// Highlight change after a workspace switch.
pub struct ActiveChange {
    /// Label to un-highlight.
    pub clear: Option<String>,
    /// Label to highlight.
    pub set: String,
}

impl WorkspaceLabels {
    pub open spec fn names_view(&self) -> Seq<Seq<char>> {
        strs(self.names@)
    }

    pub open spec fn active_view(&self) -> Option<Seq<char>> {
        match self.active {
            Some(a) => Some(a@),
            None => None,
        }
    }

    /// The label to highlight: the active workspace, when it has a label
    /// here.
    pub fn highlighted(&self) -> (r: Option<String>)
        ensures
            match self.active_view() {
                Some(a) => if self.names_view().contains(a) {
                    r matches Some(h) && h@ == a
                } else {
                    r is None
                },
                None => r is None,
            },
    {
        match &self.active {
            Some(a) => if contains_text(&self.names, a.as_str()) {
                Some(a.clone())
            } else {
                None
            },
            None => None,
        }
    }

    /// Workspace `key` became active. Workspaces without a label here
    /// change nothing; otherwise the previous highlight (if it has a label)
    /// is cleared and `key` highlighted.
    pub fn update_active(&mut self, key: &str) -> (r: Option<ActiveChange>)
        ensures
            final(self).names@ == old(self).names@,
            !old(self).names_view().contains(key@) ==> r is None && final(self).active_view() == old(
                self,
            ).active_view(),
            old(self).names_view().contains(key@) ==> final(self).active_view() == Some(key@) && (
            r matches Some(c) && c.set@ == key@ && match old(self).active_view() {
                Some(a) => if old(self).names_view().contains(a) {
                    c.clear matches Some(x) && x@ == a
                } else {
                    c.clear is None
                },
                None => c.clear is None,
            }),
    {
        if !contains_text(&self.names, key) {
            return None;
        }
        let clear = self.highlighted();
        self.active = Some(key.to_owned());
        Some(ActiveChange { clear, set: key.to_owned() })
    }

    /// Workspace to switch to when scrolling over label `current`: the next
    /// one (`forward`) or the previous one, wrapping around; a name without
    /// a label counts as the first.
    pub fn cycle(&self, current: &str, forward: bool) -> (r: Option<String>)
        ensures
            self.names_view().len() == 0 ==> r is None,
            self.names_view().len() > 0 ==> (r matches Some(t) && t@ == self.names_view()[cycle_target(
                self.names_view().len() as int,
                label_index(self.names_view(), current@, 0),
                forward,
            )]),
    {
        let n = self.names.len();
        if n == 0 {
            return None;
        }
        let mut cur: usize = 0;
        let mut found = false;
        let mut i: usize = 0;
        while i < n && !found
            invariant
                n == self.names@.len(),
                i <= n,
                !found ==> cur == 0 && label_index(self.names_view(), current@, 0) == label_index(
                    self.names_view(),
                    current@,
                    i as int,
                ),
                found ==> cur < n && label_index(self.names_view(), current@, 0) == cur,
            decreases n - i,
        {
            proof {
                assert(self.names_view()[i as int] == self.names@[i as int]@);
            }
            if text::same(self.names[i].as_str(), current) {
                cur = i;
                found = true;
            }
            i = i + 1;
        }
        let next = if forward {
            (cur + 1) % n
        } else if cur == 0 {
            n - 1
        } else {
            cur - 1
        };
        proof {
            let c = cur as int;
            let len = n as int;
            if !forward {
                if c == 0 {
                    assert((len - 1) % len == len - 1) by (nonlinear_arith)
                        requires
                            len >= 1,
                    ;
                } else {
                    assert((c + len - 1) % len == c - 1) by (nonlinear_arith)
                        requires
                            1 <= c < len,
                    ;
                }
            }
            assert(next as int == cycle_target(len, c, forward));
        }
        Some(self.names[next].clone())
    }
}

/// Position of the first label named `cur` at or after `i`, or 0 when
/// there is none.
pub open spec fn label_index(names: Seq<Seq<char>>, cur: Seq<char>, i: int) -> int
    decreases names.len() - i,
{
    if i < 0 || i >= names.len() {
        0
    } else if names[i] == cur {
        i
    } else {
        label_index(names, cur, i + 1)
    }
}

/// Index `n` labels away from `cur`: one forward or one back, wrapping.
pub open spec fn cycle_target(n: int, cur: int, forward: bool) -> int {
    if forward {
        (cur + 1) % n
    } else {
        (cur + n - 1) % n
    }
}

} // verus!

