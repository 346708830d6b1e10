//! The daemon's control protocol and app bookkeeping: which app modules are
//! loaded, which instance runs on which monitor, and what a monitor hotplug
//! or a control command changes. Windows are created and closed by the
//! caller as the returned plans say.

use vstd::prelude::*;

use crate::text;

verus! {

/// A control command, one per line on the daemon socket.
pub enum Command {
    /// Report the loaded apps.
    List,
    /// Load an app module on every monitor.
    Start(String),
    /// Unload an app module from all monitors.
    Stop(String),
    /// Unload everything and quit.
    Exit,
    /// Anything else (the trimmed line).
    Unknown(String),
}

pub enum CommandView {
    List,
    Start(Seq<char>),
    Stop(Seq<char>),
    Exit,
    Unknown(Seq<char>),
}

impl View for Command {
    type V = CommandView;

    open spec fn view(&self) -> CommandView {
        match self {
            Command::List => CommandView::List,
            Command::Start(a) => CommandView::Start(a@),
            Command::Stop(a) => CommandView::Stop(a@),
            Command::Exit => CommandView::Exit,
            Command::Unknown(c) => CommandView::Unknown(c@),
        }
    }
}

pub open spec fn has_prefix(s: Seq<char>, p: Seq<char>) -> bool {
    p.len() <= s.len() && s.take(p.len() as int) == p
}

/// Meaning of a control line: trimmed, `list` and `exit` exactly,
/// `start NAME` and `stop NAME` with the name trimmed.
pub open spec fn command_spec(line: Seq<char>) -> CommandView {
    let cmd = text::trimmed(line);
    if cmd == "list"@ {
        CommandView::List
    } else if has_prefix(cmd, "start "@) {
        CommandView::Start(text::trimmed(cmd.skip(6)))
    } else if has_prefix(cmd, "stop "@) {
        CommandView::Stop(text::trimmed(cmd.skip(5)))
    } else if cmd == "exit"@ {
        CommandView::Exit
    } else {
        CommandView::Unknown(cmd)
    }
}

fn starts(cs: &Vec<char>, p: &str) -> (r: bool)
    ensures
        r == has_prefix(cs@, p@),
{
    let ps = text::chars_of(p);
    if ps.len() > cs.len() {
        return false;
    }
    let mut i: usize = 0;
    while i < ps.len()
        invariant
            i <= ps@.len() <= cs@.len(),
            ps@ == p@,
            forall|j: int| 0 <= j < i ==> cs@[j] == ps@[j],
        decreases ps@.len() - i,
    {
        if cs[i] != ps[i] {
            proof {
                assert(cs@.take(p@.len() as int)[i as int] != p@[i as int]);
            }
            return false;
        }
        i = i + 1;
    }
    proof {
        assert(cs@.take(p@.len() as int) =~= p@);
    }
    true
}

/// Read a control line.
pub fn parse_command(line: &str) -> (c: Command)
    ensures
        c@ == command_spec(line@),
{
    let all = text::chars_of(line);
    let cs = text::trim_chars(all.as_slice());
    let cmd = text::string_of(cs.as_slice());
    if text::same(cmd.as_str(), "list") {
        return Command::List;
    }
    if starts(&cs, "start ") {
        proof {
            reveal_strlit("start ");
        }
        let rest = text::trim_chars(&cs.as_slice()[6..cs.len()]);
        proof {
            assert(cs@.subrange(6, cs@.len() as int) =~= cs@.skip(6));
        }
        return Command::Start(text::string_of(rest.as_slice()));
    }
    if starts(&cs, "stop ") {
        proof {
            reveal_strlit("stop ");
        }
        let rest = text::trim_chars(&cs.as_slice()[5..cs.len()]);
        proof {
            assert(cs@.subrange(5, cs@.len() as int) =~= cs@.skip(5));
        }
        return Command::Stop(text::string_of(rest.as_slice()));
    }
    if text::same(cmd.as_str(), "exit") {
        return Command::Exit;
    }
    Command::Unknown(cmd)
}

// ── app instances ──────────────────────────────────────────────────────

/// The apps running on one monitor.
pub struct MonitorApps {
    /// The caller's handle for the monitor.
    pub monitor: u64,
    pub apps: Vec<String>,
}

pub open spec fn strs(v: Seq<String>) -> Seq<Seq<char>> {
    v.map_values(|s: String| s@)
}

pub open spec fn monitor_views(v: Seq<MonitorApps>) -> Seq<(u64, Seq<Seq<char>>)> {
    v.map_values(|m: MonitorApps| (m.monitor, strs(m.apps@)))
}

/// Loaded app modules and the monitors they run on.
pub struct Apps {
    /// Loaded app ids, in load order.
    pub loaded: Vec<String>,
    /// Tracked monitors and their app instances.
    pub instances: Vec<MonitorApps>,
}

/// Outcome of a load request.
#[derive(Debug, Clone, Copy, PartialEq, Eq, Structural)]
pub enum LoadOutcome {
    /// Already loaded: nothing changes.
    AlreadyLoaded,
    /// No such app module: nothing changes.
    Unknown,
    /// Loaded: an instance was created on each monitor.
    Loaded,
}

/// Monitors gone and monitors new after a hotplug, each with the apps to
/// close or to create there.
pub struct HotplugPlan {
    pub removed: Vec<MonitorApps>,
    pub added: Vec<MonitorApps>,
}

pub open spec fn monitor_index(t: Seq<(u64, Seq<Seq<char>>)>, m: u64) -> Option<int>
    decreases t.len(),
{
    if t.len() == 0 {
        None
    } else if t.last().0 == m {
        Some(t.len() - 1)
    } else {
        monitor_index(t.drop_last(), m)
    }
}

/// `id` added to the apps of monitor `m` (the monitor appended when new).
pub open spec fn with_instance(t: Seq<(u64, Seq<Seq<char>>)>, m: u64, id: Seq<char>) -> Seq<
    (u64, Seq<Seq<char>>),
> {
    match monitor_index(t, m) {
        Some(i) => if t[i].1.contains(id) {
            t
        } else {
            t.update(i, (m, t[i].1.push(id)))
        },
        None => t.push((m, seq![id])),
    }
}

/// `id` started on each of `ms`, in order.
pub open spec fn with_instances(t: Seq<(u64, Seq<Seq<char>>)>, ms: Seq<u64>, id: Seq<char>) -> Seq<
    (u64, Seq<Seq<char>>),
>
    decreases ms.len(),
{
    if ms.len() == 0 {
        t
    } else {
        with_instance(with_instances(t, ms.drop_last(), id), ms.last(), id)
    }
}

/// Every app name other than `x`.
pub open spec fn other_than(x: Seq<char>) -> spec_fn(Seq<char>) -> bool {
    |a: Seq<char>| a != x
}

/// Every monitor's apps without `id`.
pub open spec fn without_app(t: Seq<(u64, Seq<Seq<char>>)>, id: Seq<char>) -> Seq<(u64, Seq<Seq<char>>)> {
    t.map_values(|e: (u64, Seq<Seq<char>>)| (e.0, e.1.filter(other_than(id))))
}

/// Number of monitors running `id`.
pub open spec fn running_count(t: Seq<(u64, Seq<Seq<char>>)>, id: Seq<char>) -> nat {
    t.filter(|e: (u64, Seq<Seq<char>>)| e.1.contains(id)).len()
}

fn same_strings(a: &Vec<String>, i: usize, s: &str) -> (r: bool)
    requires
        i < a@.len(),
    ensures
        r == (a@[i as int]@ == s@),
{
    text::same(a[i].as_str(), s)
}

fn position(v: &Vec<String>, s: &str) -> (r: Option<usize>)
    ensures
        match r {
            Some(i) => i < v@.len() && v@[i as int]@ == s@ && strs(v@).contains(s@),
            None => !strs(v@).contains(s@),
        },
{
    let mut i: usize = 0;
    while i < v.len()
        invariant
            i <= v@.len(),
            forall|j: int| 0 <= j < i ==> v@[j]@ != s@,
        decreases v@.len() - i,
    {
        if same_strings(v, i, s) {
            proof {
                assert(strs(v@)[i as int] == s@);
            }
            return Some(i);
        }
        i = i + 1;
    }
    proof {
        if strs(v@).contains(s@) {
            let j = choose|j: int| 0 <= j < strs(v@).len() && strs(v@)[j] == s@;
            assert(v@[j]@ == s@);
        }
    }
    None
}

impl Apps {
    pub open spec fn loaded_view(&self) -> Seq<Seq<char>> {
        strs(self.loaded@)
    }

    pub open spec fn table(&self) -> Seq<(u64, Seq<Seq<char>>)> {
        monitor_views(self.instances@)
    }

    pub fn new() -> (a: Apps)
        ensures
            a.loaded_view().len() == 0,
            a.table().len() == 0,
    {
        Apps { loaded: Vec::new(), instances: Vec::new() }
    }

    fn find_monitor(&self, m: u64) -> (r: Option<usize>)
        ensures
            match r {
                Some(i) => monitor_index(self.table(), m) == Some(i as int),
                None => monitor_index(self.table(), m) is None,
            },
    {
        let mut i: usize = self.instances.len();
        proof {
            assert(self.table().take(i as int) =~= self.table());
        }
        while i > 0
            invariant
                i <= self.instances@.len(),
                monitor_index(self.table(), m) == monitor_index(self.table().take(i as int), m),
            decreases i,
        {
            proof {
                assert(self.table().take(i as int).last() == self.table()[i - 1]);
                assert(self.table().take(i as int).drop_last() =~= self.table().take(i - 1));
            }
            if self.instances[i - 1].monitor == m {
                return Some(i - 1);
            }
            i = i - 1;
        }
        proof {
            assert(self.table().take(0) =~= Seq::<(u64, Seq<Seq<char>>)>::empty());
        }
        None
    }

    fn add_instance(&mut self, m: u64, id: &str)
        ensures
            final(self).table() == with_instance(old(self).table(), m, id@),
            final(self).loaded_view() == old(self).loaded_view(),
    {
        let ghost t0 = self.table();
        proof {
            lemma_monitor_index(t0, m);
        }
        match self.find_monitor(m) {
            Some(i) => {
                let mut entry = self.instances.remove(i);
                let ghost apps0 = strs(entry.apps@);
                match position(&entry.apps, id) {
                    Some(k) => {
                        proof {
                            assert(apps0[k as int] == id@);
                        }
                    },
                    None => {
                        entry.apps.push(id.to_owned());
                        proof {
                            assert(strs(entry.apps@) =~= apps0.push(id@));
                        }
                    },
                }
                self.instances.insert(i, entry);
                proof {
                    assert(self.table() =~= with_instance(t0, m, id@));
                }
            },
            None => {
                let mut apps: Vec<String> = Vec::new();
                apps.push(id.to_owned());
                self.instances.push(MonitorApps { monitor: m, apps });
                proof {
                    assert(strs(apps@) =~= seq![id@]);
                    assert(self.table() =~= t0.push((m, seq![id@])));
                }
            },
        }
    }

    /// Load app `id` (`known`: whether such an app module exists) on each of
    /// `monitors`.
    pub fn load_app(&mut self, id: &str, known: bool, monitors: &Vec<u64>) -> (r: LoadOutcome)
        ensures
            strs(old(self).loaded@).contains(id@) ==> r == LoadOutcome::AlreadyLoaded && final(self).table()
                == old(self).table() && final(self).loaded_view() == old(self).loaded_view(),
            !strs(old(self).loaded@).contains(id@) && !known ==> r == LoadOutcome::Unknown
                && final(self).table() == old(self).table() && final(self).loaded_view() == old(self).loaded_view(),
            !strs(old(self).loaded@).contains(id@) && known ==> r == LoadOutcome::Loaded
                && final(self).table() == with_instances(old(self).table(), monitors@, id@)
                && final(self).loaded_view() == old(self).loaded_view().push(id@),
    {
        match position(&self.loaded, id) {
            Some(_) => {
                return LoadOutcome::AlreadyLoaded;
            },
            None => {},
        }
        if !known {
            return LoadOutcome::Unknown;
        }
        let ghost t0 = self.table();
        let mut i: usize = 0;
        while i < monitors.len()
            invariant
                i <= monitors@.len(),
                self.table() == with_instances(t0, monitors@.take(i as int), id@),
                self.loaded_view() == old(self).loaded_view(),
            decreases monitors@.len() - i,
        {
            proof {
                assert(monitors@.take(i + 1).drop_last() =~= monitors@.take(i as int));
            }
            self.add_instance(monitors[i], id);
            i = i + 1;
        }
        proof {
            assert(monitors@.take(monitors@.len() as int) =~= monitors@);
        }
        self.loaded.push(id.to_owned());
        proof {
            assert(self.loaded_view() =~= old(self).loaded_view().push(id@));
        }
        LoadOutcome::Loaded
    }

    /// Unload app `id` everywhere; returns on how many monitors it ran.
    pub fn unload_app(&mut self, id: &str) -> (cleaned: usize)
        ensures
            final(self).table() == without_app(old(self).table(), id@),
            final(self).loaded_view() == old(self).loaded_view().filter(other_than(id@)),
            cleaned == running_count(old(self).table(), id@),
    {
        let ghost t0 = self.table();
        let ghost f = |e: (u64, Seq<Seq<char>>)| e.1.contains(id@);
        let mut cleaned: usize = 0;
        let mut i: usize = 0;
        while i < self.instances.len()
            invariant
                i <= self.instances@.len(),
                self.instances@.len() == t0.len(),
                cleaned == t0.take(i as int).filter(f).len(),
                cleaned <= i,
                forall|j: int| 0 <= j < i ==> #[trigger] self.table()[j] == without_app(t0, id@)[j],
                forall|j: int| i <= j < t0.len() ==> #[trigger] self.table()[j] == t0[j],
                self.loaded_view() == old(self).loaded_view(),
                f == (|e: (u64, Seq<Seq<char>>)| e.1.contains(id@)),
            decreases self.instances@.len() - i,
        {
            let ghost before = self.table();
            let mut entry = self.instances.remove(i);
            let ghost a0 = strs(entry.apps@);
            proof {
                assert(before[i as int] == t0[i as int]);
                assert(a0 == t0[i as int].1);
                assert(t0.take(i + 1).drop_last() =~= t0.take(i as int));
                reveal(Seq::filter);
            }
            let had = remove_all(&mut entry.apps, id);
            if had {
                cleaned = cleaned + 1;
            }
            self.instances.insert(i, entry);
            proof {
                assert(self.table()[i as int] == without_app(t0, id@)[i as int]);
                assert forall|j: int| 0 <= j < self.table().len() && j != i implies #[trigger] self.table()[j]
                    == before[j] by {}
            }
            i = i + 1;
        }
        proof {
            assert(t0.take(t0.len() as int) =~= t0);
            assert(self.table() =~= without_app(t0, id@));
        }
        let _n = remove_all(&mut self.loaded, id);
        cleaned
    }

    /// Track the monitors now connected (`current`): monitors that went
    /// away are dropped with their apps; new ones get an instance of every
    /// loaded app.
    pub fn hotplug(&mut self, current: &Vec<u64>) -> (plan: HotplugPlan)
        ensures
            monitor_views(plan.removed@) == old(self).table().filter(
                |e: (u64, Seq<Seq<char>>)| !current@.contains(e.0),
            ),
            final(self).loaded_view() == old(self).loaded_view(),
            forall|i: int| 0 <= i < plan.added@.len() ==> strs(#[trigger] plan.added@[i].apps@) == old(
                self,
            ).loaded_view(),
            final(self).table() == old(self).table().filter(|e: (u64, Seq<Seq<char>>)| current@.contains(e.0))
                + monitor_views(plan.added@),
            plan.added@.map_values(|m: MonitorApps| m.monitor) == new_monitors(
                old(self).table(),
                current@,
                current@.len() as int,
            ),
    {
        let ghost t0 = self.table();
        let ghost keep = |e: (u64, Seq<Seq<char>>)| current@.contains(e.0);
        let ghost gone = |e: (u64, Seq<Seq<char>>)| !current@.contains(e.0);
        let mut removed: Vec<MonitorApps> = Vec::new();
        let len0 = self.instances.len();
        let mut i: usize = 0;
        let mut n: usize = 0;
        while i < self.instances.len()
            invariant
                i <= n <= t0.len(),
                t0.len() == len0,
                t0 == old(self).table(),
                self.table() == t0.take(n as int).filter(keep) + t0.skip(n as int),
                i == t0.take(n as int).filter(keep).len(),
                monitor_views(removed@) == t0.take(n as int).filter(gone),
                self.loaded_view() == old(self).loaded_view(),
                keep == (|e: (u64, Seq<Seq<char>>)| current@.contains(e.0)),
                gone == (|e: (u64, Seq<Seq<char>>)| !current@.contains(e.0)),
            decreases t0.len() - n,
        {
            proof {
                assert(self.table().len() == self.instances@.len());
                assert(self.instances@.len() == i + (t0.len() - n));
                assert(n < len0);
                assert(self.table()[i as int] == t0[n as int]);
                assert(t0.take(n + 1).drop_last() =~= t0.take(n as int));
                reveal(Seq::filter);
            }
            let ghost before = self.table();
            if contains_u64(current, self.instances[i].monitor) {
                proof {
                    assert(t0.take(n + 1).filter(keep) =~= t0.take(n as int).filter(keep).push(t0[n as int]));
                    assert(t0.take(n + 1).filter(gone) =~= t0.take(n as int).filter(gone));
                    assert(self.table() =~= t0.take(n + 1).filter(keep) + t0.skip(n + 1));
                }
                i = i + 1;
            } else {
                let e = self.instances.remove(i);
                let ghost rb = removed@;
                removed.push(e);
                proof {
                    assert(t0.take(n + 1).filter(keep) =~= t0.take(n as int).filter(keep));
                    assert(t0.take(n + 1).filter(gone) =~= t0.take(n as int).filter(gone).push(t0[n as int]));
                    assert(self.table() =~= before.remove(i as int));
                    assert(self.table() =~= t0.take(n + 1).filter(keep) + t0.skip(n + 1));
                    assert(monitor_views(removed@) =~= monitor_views(rb).push(t0[n as int]));
                }
            }
            n = n + 1;
        }
        proof {
            assert(self.table().len() == self.instances@.len());
            assert(self.instances@.len() == i + (t0.len() - n));
            assert(t0.take(t0.len() as int) =~= t0);
            assert(self.table() =~= t0.filter(keep));
        }
        let ghost tk = self.table();
        proof {
            assert(tk == t0.filter(keep));
            assert(tk + monitor_views(Seq::<MonitorApps>::empty()) =~= tk);
        }
        let mut added: Vec<MonitorApps> = Vec::new();
        let mut j: usize = 0;
        while j < current.len()
            invariant
                j <= current@.len(),
                tk == t0.filter(keep),
                self.table() == tk + monitor_views(added@),
                self.loaded_view() == old(self).loaded_view(),
                forall|i: int| 0 <= i < added@.len() ==> strs(#[trigger] added@[i].apps@) == old(
                    self,
                ).loaded_view(),
                added@.map_values(|m: MonitorApps| m.monitor) == new_monitors(t0, current@, j as int),
                keep == (|e: (u64, Seq<Seq<char>>)| current@.contains(e.0)),
            decreases current@.len() - j,
        {
            let m = current[j];
            let ghost tb = self.table();
            let ghost am = added@.map_values(|x: MonitorApps| x.monitor);
            proof {
                lemma_monitor_index(tb, m);
                lemma_monitor_index(t0, m);
                assert(current@.contains(m)) by {
                    assert(current@[j as int] == m);
                }
            }
            if self.find_monitor(m).is_none() {
                proof {
                    if monitor_index(t0, m) is Some {
                        let i = monitor_index(t0, m).unwrap();
                        t0.lemma_filter_contains(keep, i);
                        let k = choose|k: int| 0 <= k < tk.len() && tk[k] == t0[i];
                        assert(tb[k] == tk[k]);
                    }
                    if am.contains(m) {
                        let k = choose|k: int| 0 <= k < am.len() && am[k] == m;
                        assert(tb[tk.len() + k].0 == added@[k].monitor);
                    }
                    assert(new_monitors(t0, current@, j + 1) == am.push(m));
                }
                let apps = copy_strings(&self.loaded);
                let copy_apps = copy_strings(&apps);
                let ghost b = added@;
                let ghost av = strs(apps@);
                added.push(MonitorApps { monitor: m, apps: copy_apps });
                self.instances.push(MonitorApps { monitor: m, apps });
                proof {
                    assert(monitor_views(added@) =~= monitor_views(b).push((m, av)));
                    assert(self.table() =~= tb.push((m, av)));
                    assert(self.table() =~= tk + monitor_views(added@));
                    assert(added@.map_values(|x: MonitorApps| x.monitor) =~= am.push(m));
                }
            } else {
                proof {
                    let i = monitor_index(tb, m).unwrap();
                    if i < tk.len() {
                        assert(tk[i] == tb[i]);
                        assert(tk.contains(tk[i]));
                        t0.lemma_filter_contains_rev(keep, tk[i]);
                        let k = choose|k: int| 0 <= k < t0.len() && t0[k] == tk[i];
                        assert(t0[k].0 == m);
                        assert(monitor_index(t0, m) is Some);
                    } else {
                        let k = i - tk.len();
                        assert(tb[i] == monitor_views(added@)[k]);
                        assert(am[k] == m);
                        assert(am.contains(m));
                    }
                    assert(new_monitors(t0, current@, j + 1) == am);
                }
            }
            j = j + 1;
        }
        HotplugPlan { removed, added }
    }
}

/// Monitors among the first `j` of `current` that were not tracked, each
/// once, in order.
pub open spec fn new_monitors(t: Seq<(u64, Seq<Seq<char>>)>, current: Seq<u64>, j: int) -> Seq<u64>
    decreases j,
{
    if j <= 0 {
        Seq::empty()
    } else {
        let prev = new_monitors(t, current, j - 1);
        let m = current[j - 1];
        if monitor_index(t, m) is Some || prev.contains(m) {
            prev
        } else {
            prev.push(m)
        }
    }
}

proof fn lemma_monitor_index(t: Seq<(u64, Seq<Seq<char>>)>, m: u64)
    ensures
        match monitor_index(t, m) {
            Some(i) => 0 <= i < t.len() && t[i].0 == m,
            None => forall|j: int| 0 <= j < t.len() ==> t[j].0 != m,
        },
    decreases t.len(),
{
    if t.len() > 0 && t.last().0 != m {
        let d = t.drop_last();
        lemma_monitor_index(d, m);
        match monitor_index(d, m) {
            Some(i) => {
                assert(d[i] == t[i]);
            },
            None => {
                assert forall|j: int| 0 <= j < t.len() implies t[j].0 != m by {
                    if j < t.len() - 1 {
                        assert(d[j] == t[j]);
                    }
                }
            },
        }
    }
}

fn contains_u64(v: &Vec<u64>, x: u64) -> (r: bool)
    ensures
        r == v@.contains(x),
{
    let mut i: usize = 0;
    while i < v.len()
        invariant
            i <= v@.len(),
            forall|j: int| 0 <= j < i ==> v@[j] != x,
        decreases v@.len() - i,
    {
        if v[i] == x {
            return true;
        }
        i = i + 1;
    }
    false
}

fn copy_strings(v: &Vec<String>) -> (r: Vec<String>)
    ensures
        strs(r@) == strs(v@),
{
    let mut out: Vec<String> = Vec::new();
    let mut i: usize = 0;
    while i < v.len()
        invariant
            i <= v@.len(),
            strs(out@) == strs(v@.take(i as int)),
        decreases v@.len() - i,
    {
        let c = v[i].clone();
        let ghost prev = out@;
        out.push(c);
        proof {
            assert(strs(v@.take(i + 1)) =~= strs(v@.take(i as int)).push(v@[i as int]@));
            assert(strs(out@) =~= strs(prev).push(c@));
            assert(strs(out@) =~= strs(v@.take(i + 1)));
        }
        i = i + 1;
    }
    proof {
        assert(v@.take(v@.len() as int) =~= v@);
    }
    out
}

/// Remove every occurrence of `s`; returns whether there was one.
fn remove_all(v: &mut Vec<String>, s: &str) -> (had: bool)
    ensures
        strs(final(v)@) == strs(old(v)@).filter(other_than(s@)),
        had == strs(old(v)@).contains(s@),
{
    let ghost s0 = strs(old(v)@);
    let ghost f = other_than(s@);
    let len0 = v.len();
    let mut had = false;
    let mut i: usize = 0;
    let mut n: usize = 0;
    while i < v.len()
        invariant
            i <= n <= s0.len(),
            s0.len() == len0,
            s0 == strs(old(v)@),
            strs(v@) == s0.take(n as int).filter(f) + s0.skip(n as int),
            i == s0.take(n as int).filter(f).len(),
            had == s0.take(n as int).contains(s@),
            f == other_than(s@),
        decreases s0.len() - n,
    {
        proof {
            assert(strs(v@).len() == v@.len());
            assert(v@.len() == i + (s0.len() - n));
            assert(n < len0);
            assert(strs(v@)[i as int] == v@[i as int]@);
            assert(v@[i as int]@ == s0[n as int]);
            assert(s0.take(n + 1).drop_last() =~= s0.take(n as int));
            reveal(Seq::filter);
        }
        let ghost before = v@;
        if same_strings(v, i, s) {
            let _gone = v.remove(i);
            had = true;
            proof {
                assert(s0.take(n + 1).filter(f) =~= s0.take(n as int).filter(f));
                assert(strs(v@) =~= strs(before).remove(i as int));
                assert(strs(v@) =~= s0.take(n + 1).filter(f) + s0.skip(n + 1));
                assert(s0.take(n + 1)[n as int] == s@);
            }
        } else {
            proof {
                assert(s0.take(n + 1).filter(f) =~= s0.take(n as int).filter(f).push(s0[n as int]));
                assert(strs(v@) =~= s0.take(n + 1).filter(f) + s0.skip(n + 1));
                if s0.take(n + 1).contains(s@) {
                    let k = choose|k: int| 0 <= k < n + 1 && #[trigger] s0.take(n + 1)[k] == s@;
                    assert(k < n);
                    assert(s0.take(n as int)[k] == s@);
                }
                if had {
                    let k = choose|k: int| 0 <= k < n && #[trigger] s0.take(n as int)[k] == s@;
                    assert(s0.take(n + 1)[k] == s@);
                }
            }
            i = i + 1;
        }
        n = n + 1;
    }
    proof {
        assert(strs(v@).len() == v@.len());
        assert(v@.len() == i + (s0.len() - n));
        assert(s0.take(s0.len() as int) =~= s0);
    }
    had
}


// ── command line ───────────────────────────────────────────────────────

/// Words joined by single spaces.
pub open spec fn joined(words: Seq<Seq<char>>) -> Seq<char>
    decreases words.len(),
{
    if words.len() == 0 {
        Seq::empty()
    } else if words.len() == 1 {
        words[0]
    } else {
        joined(words.drop_last()) + " "@ + words.last()
    }
}

/// The control line a client sends for its command words (without the
/// final newline).
pub fn client_line(words: &Vec<String>) -> (r: String)
    ensures
        r@ == joined(strs(words@)),
{
    let mut out = String::new();
    let mut i: usize = 0;
    while i < words.len()
        invariant
            i <= words@.len(),
            out@ == joined(strs(words@.take(i as int))),
        decreases words@.len() - i,
    {
        proof {
            let t = strs(words@.take(i + 1));
            assert(t.drop_last() =~= strs(words@.take(i as int)));
            assert(t.last() == words@[i as int]@);
        }
        if i > 0 {
            out.append(" ");
        } else {
            proof {
                assert(strs(words@.take(0)) =~= Seq::<Seq<char>>::empty());
                assert(out@ =~= Seq::<char>::empty());
            }
        }
        out.append(words[i].as_str());
        proof {
            if i == 0 {
                assert(out@ =~= words@[0]@);
            }
        }
        i = i + 1;
    }
    proof {
        assert(words@.take(words@.len() as int) =~= words@);
    }
    out
}

/// Apps to load at startup: those asked for, or the bar alone.
pub fn startup_apps(requested: Vec<String>) -> (r: Vec<String>)
    ensures
        requested@.len() > 0 ==> r@ == requested@,
        requested@.len() == 0 ==> strs(r@) == seq!["bar"@],
{
    if requested.len() > 0 {
        requested
    } else {
        let mut v: Vec<String> = Vec::new();
        v.push(String::from_str("bar"));
        proof {
            assert(strs(v@) =~= seq!["bar"@]);
        }
        v
    }
}


// ── start, then stop ──────────────────────────────────────────────────

/// `s` with `x` appended, filtered, is `s` filtered when `x` is dropped.
proof fn lemma_filter_push_dropped(s: Seq<Seq<char>>, x: Seq<char>)
    ensures
        s.push(x).filter(other_than(x)) == s.filter(other_than(x)),
{
    reveal_with_fuel(Seq::filter, 1);
    assert(s.push(x).drop_last() =~= s);
}

/// Filtering out a value that does not occur changes nothing.
proof fn lemma_filter_keeps_all(s: Seq<Seq<char>>, x: Seq<char>)
    requires
        !s.contains(x),
    ensures
        s.filter(other_than(x)) == s,
    decreases s.len(),
{
    reveal_with_fuel(Seq::filter, 1);
    if s.len() > 0 {
        let d = s.drop_last();
        assert(!d.contains(x)) by {
            if d.contains(x) {
                let j = choose|j: int| 0 <= j < d.len() && d[j] == x;
                assert(s[j] == x);
            }
        }
        lemma_filter_keeps_all(d, x);
        assert(s.last() != x) by {
            assert(s[s.len() - 1] == s.last());
        }
        assert(d.push(s.last()) =~= s);
    } else {
        assert(s.filter(other_than(x)) =~= s);
    }
}

/// The monitors of `t` keep their apps other than `id`, in `u` (which
/// extends `t`), and the monitors `u` adds run nothing but `id`.
pub open spec fn only_added(t: Seq<(u64, Seq<Seq<char>>)>, u: Seq<(u64, Seq<Seq<char>>)>, id: Seq<char>) -> bool {
    &&& u.len() >= t.len()
    &&& without_app(u, id).take(t.len() as int) == without_app(t, id)
    &&& forall|k: int| t.len() <= k < u.len() ==> #[trigger] without_app(u, id)[k].1.len() == 0
}

proof fn lemma_with_instances_only_added(t: Seq<(u64, Seq<Seq<char>>)>, ms: Seq<u64>, id: Seq<char>)
    ensures
        only_added(t, with_instances(t, ms, id), id),
    decreases ms.len(),
{
    if ms.len() == 0 {
        assert(without_app(t, id).take(t.len() as int) =~= without_app(t, id));
    } else {
        let u = with_instances(t, ms.drop_last(), id);
        lemma_with_instances_only_added(t, ms.drop_last(), id);
        let m = ms.last();
        lemma_monitor_index(u, m);
        let v = with_instance(u, m, id);
        match monitor_index(u, m) {
            Some(i) => {
                if !u[i].1.contains(id) {
                    lemma_filter_push_dropped(u[i].1, id);
                    assert(without_app(v, id) =~= without_app(u, id));
                }
            },
            None => {
                reveal_with_fuel(Seq::filter, 2);
                assert(seq![id].drop_last() =~= Seq::<Seq<char>>::empty());
                assert(without_app(v, id) =~= without_app(u, id).push((m, Seq::empty())));
                assert(without_app(v, id).take(t.len() as int) =~= without_app(u, id).take(t.len() as int));
            },
        }
    }
}

/// Stopping an app right after starting it (`start` then `stop`) leaves
/// it unloaded and running nowhere: the loaded list is as before, each
/// monitor tracked before runs what it ran (without that app), and a
/// monitor first tracked by the start runs nothing.
pub proof fn law_stop_undoes_start(
    loaded: Seq<Seq<char>>,
    t: Seq<(u64, Seq<Seq<char>>)>,
    monitors: Seq<u64>,
    id: Seq<char>,
)
    requires
        !loaded.contains(id),
    ensures
        loaded.push(id).filter(other_than(id)) == loaded,
        only_added(t, with_instances(t, monitors, id), id),
        forall|k: int|
            0 <= k < with_instances(t, monitors, id).len() ==> !(#[trigger] without_app(
                with_instances(t, monitors, id),
                id,
            )[k]).1.contains(id),
{
    lemma_filter_push_dropped(loaded, id);
    lemma_filter_keeps_all(loaded, id);
    lemma_with_instances_only_added(t, monitors, id);
    let w = without_app(with_instances(t, monitors, id), id);
    assert forall|k: int| 0 <= k < w.len() implies !(#[trigger] w[k]).1.contains(id) by {
        let apps = with_instances(t, monitors, id)[k].1;
        let f = other_than(id);
        assert(w[k].1 == apps.filter(f));
        apps.filter_lemma(f);
        if w[k].1.contains(id) {
            let j = choose|j: int| 0 <= j < w[k].1.len() && w[k].1[j] == id;
            assert(f(apps.filter(f)[j]));
        }
    }
}

} // verus!

