//! The demo host's test rig: what each button does to the demo item, and
//! the time stamps of its event log.

use vstd::prelude::*;

use crate::text;

verus! {

/// Buttons of the demo rig.
#[derive(Debug, Clone, Copy, PartialEq, Eq, Structural)]
pub enum DemoAction {
    Status,
    Icon,
    Pixmap,
    MenuAdd,
    MenuToggle,
    MenuRemove,
    MenuMount,
    Remove,
}

/// Icon names the rig cycles through.
pub open spec fn rig_icon(i: int) -> Seq<char> {
    if i == 0 {
        "audio-volume-high"@
    } else if i == 1 {
        "network-wireless"@
    } else {
        "demo"@
    }
}

/// Status words the rig cycles through.
pub open spec fn rig_status(i: int) -> Seq<char> {
    if i == 0 {
        "passive"@
    } else if i == 1 {
        "needs-attention"@
    } else {
        "active"@
    }
}

/// What to do to the demo item.
pub enum RigStep {
    SetStatus(&'static str),
    SetIcon(&'static str),
    UsePixmap(bool),
    /// Add a menu entry with this label; report its id back with
    /// [`DemoRig::menu_added`].
    MenuAdd(String),
    MenuToggle(i32),
    MenuRemove(i32),
    SetMenuEnabled(bool),
    Remove,
}

/// State of the rig's buttons.
pub struct DemoRig {
    pub status_n: u32,
    pub icon_n: u32,
    pub menu_n: u32,
    /// Id of the last menu entry added (1 at start: the item's own entry).
    pub last_menu_id: i32,
    pub pixmap_on: bool,
    pub menu_mounted: bool,
}

impl DemoRig {
    /// The cycling counters stay below their cycle length.
    pub open spec fn wf(&self) -> bool {
        self.status_n < 3 && self.icon_n < 3
    }

    pub fn new() -> (r: DemoRig)
        ensures
            r.wf(),
            r == (DemoRig {
                status_n: 0,
                icon_n: 0,
                menu_n: 0,
                last_menu_id: 1,
                pixmap_on: false,
                menu_mounted: true,
            }),
    {
        DemoRig { status_n: 0, icon_n: 0, menu_n: 0, last_menu_id: 1, pixmap_on: false, menu_mounted: true }
    }

    /// Press a button: the step to perform and the rig's next state.
    /// Status and icon cycle through three values each; pixmap and menu
    /// mounting flip; a new entry is labelled `entry N` with N counting
    /// additions; toggle and remove act on the last entry added.
    pub fn press(&mut self, a: DemoAction) -> (step: RigStep)
        requires
            old(self).wf(),
            a == DemoAction::MenuAdd ==> old(self).menu_n < u32::MAX,
        ensures
            final(self).wf(),
            match a {
                DemoAction::Status => step matches RigStep::SetStatus(s) && s@ == rig_status(
                    (old(self).status_n % 3) as int,
                ) && *final(self) == (DemoRig { status_n: ((old(self).status_n + 1) % 3) as u32, ..*old(self) }),
                DemoAction::Icon => step matches RigStep::SetIcon(s) && s@ == rig_icon((old(self).icon_n % 3) as int)
                    && *final(self) == (DemoRig {
                    icon_n: ((old(self).icon_n + 1) % 3) as u32,
                    pixmap_on: false,
                    ..*old(self)
                }),
                DemoAction::Pixmap => step == RigStep::UsePixmap(!old(self).pixmap_on) && *final(self)
                    == (DemoRig { pixmap_on: !old(self).pixmap_on, ..*old(self) }),
                DemoAction::MenuAdd => step matches RigStep::MenuAdd(l) && l@ == "entry "@
                    + text::decimal((old(self).menu_n + 1) as nat) && *final(self) == (DemoRig {
                    menu_n: (old(self).menu_n + 1) as u32,
                    ..*old(self)
                }),
                DemoAction::MenuToggle => step == RigStep::MenuToggle(old(self).last_menu_id) && *final(self)
                    == *old(self),
                DemoAction::MenuRemove => step == RigStep::MenuRemove(old(self).last_menu_id) && *final(self)
                    == *old(self),
                DemoAction::MenuMount => step == RigStep::SetMenuEnabled(!old(self).menu_mounted)
                    && *final(self) == (DemoRig { menu_mounted: !old(self).menu_mounted, ..*old(self) }),
                DemoAction::Remove => step is Remove && *final(self) == *old(self),
            },
    {
        match a {
            DemoAction::Status => {
                let n = self.status_n;
                self.status_n = (n + 1) % 3;
                let s = if n % 3 == 0 {
                    "passive"
                } else if n % 3 == 1 {
                    "needs-attention"
                } else {
                    "active"
                };
                RigStep::SetStatus(s)
            },
            DemoAction::Icon => {
                let n = self.icon_n;
                self.icon_n = (n + 1) % 3;
                self.pixmap_on = false;
                let s = if n % 3 == 0 {
                    "audio-volume-high"
                } else if n % 3 == 1 {
                    "network-wireless"
                } else {
                    "demo"
                };
                RigStep::SetIcon(s)
            },
            DemoAction::Pixmap => {
                self.pixmap_on = !self.pixmap_on;
                RigStep::UsePixmap(self.pixmap_on)
            },
            DemoAction::MenuAdd => {
                self.menu_n = self.menu_n + 1;
                let mut label = String::from_str("entry ");
                text::push_decimal(&mut label, self.menu_n as u64);
                RigStep::MenuAdd(label)
            },
            DemoAction::MenuToggle => RigStep::MenuToggle(self.last_menu_id),
            DemoAction::MenuRemove => RigStep::MenuRemove(self.last_menu_id),
            DemoAction::MenuMount => {
                self.menu_mounted = !self.menu_mounted;
                RigStep::SetMenuEnabled(self.menu_mounted)
            },
            DemoAction::Remove => RigStep::Remove,
        }
    }

    /// The demo item reported the id of the entry just added.
    pub fn menu_added(&mut self, id: i32)
        requires
            old(self).wf(),
        ensures
            final(self).wf(),
            *final(self) == (DemoRig { last_menu_id: id, ..*old(self) }),
    {
        self.last_menu_id = id;
    }
}

// ── log time stamps ────────────────────────────────────────────────────

/// `n` in decimal, zero-padded to at least `width` digits.
pub open spec fn zero_padded(n: nat, width: nat) -> Seq<char> {
    let d = text::decimal(n);
    if d.len() < width {
        Seq::new((width - d.len()) as nat, |i: int| '0') + d
    } else {
        d
    }
}

fn push_zero_padded(out: &mut String, n: u64, width: usize)
    ensures
        final(out)@ == old(out)@ + zero_padded(n as nat, width as nat),
{
    let d = text::decimal_string(n);
    let len = text::chars_of(d.as_str()).len();
    let ghost o = out@;
    let mut k: usize = len;
    while k < width
        invariant
            len == d@.len(),
            len <= k <= width || (k == len && k >= width),
            out@ == o + Seq::new((k - len) as nat, |i: int| '0'),
        decreases width - k,
    {
        out.push('0');
        proof {
            assert(out@ =~= o + Seq::new((k + 1 - len) as nat, |i: int| '0'));
        }
        k = k + 1;
    }
    out.append(d.as_str());
    proof {
        if len >= width {
            assert(out@ =~= o + d@);
        } else {
            assert(out@ =~= o + zero_padded(n as nat, width as nat));
        }
    }
}

/// `HH:MM:SS.mmm` (UTC time of day) of a time `secs` seconds and `millis`
/// milliseconds after the epoch.
pub open spec fn timestamp_spec(secs: u64, millis: u32) -> Seq<char> {
    zero_padded(((secs / 3600) % 24) as nat, 2) + ":"@ + zero_padded(((secs / 60) % 60) as nat, 2) + ":"@
        + zero_padded((secs % 60) as nat, 2) + "."@ + zero_padded(millis as nat, 3)
}

pub fn timestamp(secs: u64, millis: u32) -> (r: String)
    ensures
        r@ == timestamp_spec(secs, millis),
{
    let mut out = String::new();
    push_zero_padded(&mut out, (secs / 3600) % 24, 2);
    out.append(":");
    push_zero_padded(&mut out, (secs / 60) % 60, 2);
    out.append(":");
    push_zero_padded(&mut out, secs % 60, 2);
    out.append(".");
    push_zero_padded(&mut out, millis as u64, 3);
    proof {
        assert(out@ =~= timestamp_spec(secs, millis));
    }
    out
}


// ── item cards and menu popups ─────────────────────────────────────────

/// Check mark of a popup entry: a tick for a checked entry, blanks of the
/// same width for an unchecked one, nothing for an entry without a state.
pub open spec fn check_mark(toggled: Option<bool>) -> Seq<char> {
    match toggled {
        Some(true) => "\u{2713} "@,
        Some(false) => "    "@,
        None => Seq::empty(),
    }
}

/// Four spaces per nesting level.
pub open spec fn nesting(depth: nat) -> Seq<char>
    decreases depth,
{
    if depth == 0 {
        Seq::empty()
    } else {
        nesting((depth - 1) as nat) + "    "@
    }
}

/// Text of a menu popup entry: check mark, nesting, label, and an arrow
/// for a submenu.
pub open spec fn entry_text_spec(toggled: Option<bool>, depth: nat, label: Seq<char>, submenu: bool) -> Seq<
    char,
> {
    check_mark(toggled) + nesting(depth) + label + (if submenu {
        "  \u{25b8}"@
    } else {
        Seq::empty()
    })
}

pub fn menu_entry_text(toggled: Option<bool>, depth: usize, label: &str, submenu: bool) -> (r: String)
    ensures
        r@ == entry_text_spec(toggled, depth as nat, label@, submenu),
{
    let mut out = String::new();
    match toggled {
        Some(true) => out.append("\u{2713} "),
        Some(false) => out.append("    "),
        None => {},
    }
    proof {
        assert(out@ =~= check_mark(toggled) + nesting(0));
    }
    let mut k: usize = 0;
    while k < depth
        invariant
            k <= depth,
            out@ == check_mark(toggled) + nesting(k as nat),
        decreases depth - k,
    {
        out.append("    ");
        k = k + 1;
        proof {
            assert(out@ =~= check_mark(toggled) + nesting(k as nat));
        }
    }
    out.append(label);
    if submenu {
        out.append("  \u{25b8}");
    }
    proof {
        assert(out@ =~= entry_text_spec(toggled, depth as nat, label@, submenu));
    }
    out
}

/// Title shown on an item's card: its title, or a dash without one.
pub fn card_title(title: &Option<String>) -> (r: String)
    ensures
        r@ == (match title {
            Some(t) => t@,
            None => "\u{2014}"@,
        }),
{
    match title {
        Some(t) => t.clone(),
        None => String::from_str("\u{2014}"),
    }
}

/// Tooltip shown on an item's card: title and description, dash between.
pub fn card_tooltip(title: &str, description: &str) -> (r: String)
    ensures
        r@ == title@ + " \u{2014} "@ + description@,
{
    let mut out = title.to_owned();
    out.append(" \u{2014} ");
    out.append(description);
    out
}

} // verus!
