//! Public data model of tray items.

use vstd::prelude::*;

use crate::text;

verus! {

/// Globally unique key of a tray item: bus name + object path.
///
/// An application restarting under a new unique name yields a *different*
/// item id (the old one is reported as removed, the new one as added).
#[derive(Debug, Clone, PartialEq, Eq, Hash)]
pub struct TrayItemId {
    /// Bus name the item was registered under (well-known or `:1.x` unique).
    pub bus_name: String,
    /// Object path of the `org.kde.StatusNotifierItem` interface.
    pub path: String,
}

/// Mathematical value of a [`TrayItemId`].
pub struct TrayItemIdView {
    pub bus_name: Seq<char>,
    pub path: Seq<char>,
}

impl View for TrayItemId {
    type V = TrayItemIdView;

    open spec fn view(&self) -> TrayItemIdView {
        TrayItemIdView { bus_name: self.bus_name@, path: self.path@ }
    }
}

impl DeepView for TrayItemId {
    type V = TrayItemIdView;

    open spec fn deep_view(&self) -> TrayItemIdView {
        self@
    }
}

impl Default for TrayItemId {
    fn default() -> (r: Self)
        ensures
            r@ == (TrayItemIdView { bus_name: Seq::empty(), path: Seq::empty() }),
    {
        TrayItemId { bus_name: String::new(), path: String::new() }
    }
}

/// The text form of an item id: bus name immediately followed by the path.
pub open spec fn id_text(id: TrayItemIdView) -> Seq<char> {
    id.bus_name + id.path
}

impl TrayItemId {
    /// An independent copy of this id.
    pub fn duplicate(&self) -> (r: Self)
        ensures
            r@ == self@,
    {
        TrayItemId { bus_name: self.bus_name.clone(), path: self.path.clone() }
    }

    /// Whether both ids name the same item.
    pub fn same_as(&self, other: &TrayItemId) -> (r: bool)
        ensures
            r == (self@ == other@),
    {
        self.bus_name == other.bus_name && self.path == other.path
    }

    /// Text form (`bus_name` followed by `path`), as `Display` prints it.
    pub fn to_text(&self) -> (s: String)
        ensures
            s@ == id_text(self@),
    {
        let mut s = self.bus_name.clone();
        s.append(self.path.as_str());
        s
    }
}

/// SNI item category.
#[derive(Debug, Clone, Copy, PartialEq, Eq, Structural)]
pub enum TrayCategory {
    /// The item describes the status of a generic application.
    Application,
    /// The item describes the status of communication oriented applications.
    Communications,
    /// The item describes services of the system not related to applications.
    SystemServices,
    /// The item describes the state of hardware devices.
    Hardware,
}

impl Default for TrayCategory {
    fn default() -> (r: Self)
        ensures
            r == TrayCategory::Application,
    {
        TrayCategory::Application
    }
}

/// Category named by an SNI `Category` string; unknown strings are
/// `Application`.
pub open spec fn category_of(s: Seq<char>) -> TrayCategory {
    if s == "Communications"@ {
        TrayCategory::Communications
    } else if s == "SystemServices"@ {
        TrayCategory::SystemServices
    } else if s == "Hardware"@ {
        TrayCategory::Hardware
    } else {
        TrayCategory::Application
    }
}

impl TrayCategory {
    /// Parse an SNI `Category` string; unknown values map to `Application`.
    pub fn parse(s: &str) -> (r: Self)
        ensures
            r == category_of(s@),
    {
        if text::same(s, "Communications") {
            TrayCategory::Communications
        } else if text::same(s, "SystemServices") {
            TrayCategory::SystemServices
        } else if text::same(s, "Hardware") {
            TrayCategory::Hardware
        } else {
            TrayCategory::Application
        }
    }
}

/// SNI item status.
#[derive(Debug, Clone, Copy, PartialEq, Eq, Structural)]
pub enum TrayStatus {
    /// The item doesn't convey important information (default).
    Passive,
    /// The item is active and conveys information.
    Active,
    /// The item requires attention (rendered with the attention icon).
    NeedsAttention,
}

impl Default for TrayStatus {
    fn default() -> (r: Self)
        ensures
            r == TrayStatus::Passive,
    {
        TrayStatus::Passive
    }
}

/// Status named by an SNI `Status` string; unknown strings are `Active`.
pub open spec fn status_of(s: Seq<char>) -> TrayStatus {
    if s == "Passive"@ {
        TrayStatus::Passive
    } else if s == "NeedsAttention"@ {
        TrayStatus::NeedsAttention
    } else {
        TrayStatus::Active
    }
}

impl TrayStatus {
    /// Parse an SNI `Status` string; unknown values map to `Active`.
    pub fn parse(s: &str) -> (r: Self)
        ensures
            r == status_of(s@),
    {
        if text::same(s, "Passive") {
            TrayStatus::Passive
        } else if text::same(s, "NeedsAttention") {
            TrayStatus::NeedsAttention
        } else {
            TrayStatus::Active
        }
    }
}

/// Raw icon bitmap delivered by SNI (`a(iiay)`).
///
/// Pixels are ARGB32 in network byte order; `argb.len() == width * height * 4`.
#[derive(Debug, Clone, PartialEq, Eq)]
pub struct Pixmap {
    /// Width in pixels.
    pub width: u32,
    /// Height in pixels.
    pub height: u32,
    /// ARGB32 bytes, network byte order, packed rows (`width * 4` stride).
    pub argb: Vec<u8>,
}

pub struct PixmapView {
    pub width: u32,
    pub height: u32,
    pub argb: Seq<u8>,
}

impl View for Pixmap {
    type V = PixmapView;

    open spec fn view(&self) -> PixmapView {
        PixmapView { width: self.width, height: self.height, argb: self.argb@ }
    }
}

impl DeepView for Pixmap {
    type V = PixmapView;

    open spec fn deep_view(&self) -> PixmapView {
        self@
    }
}

/// Icon source of a tray item.
///
/// Resolution rule: a non-empty `IconName` always wins (theme lookup is the
/// consumer's job); otherwise the largest pixmap is delivered; otherwise an
/// empty name is returned as a placeholder.
#[derive(Debug, Clone, PartialEq, Eq)]
pub enum IconSource {
    /// Icon name to be resolved against the system icon theme.
    Name(String),
    /// Raw bitmap fallback.
    Pixmap(Pixmap),
}

pub enum IconSourceView {
    Name(Seq<char>),
    Pixmap(PixmapView),
}

impl View for IconSource {
    type V = IconSourceView;

    open spec fn view(&self) -> IconSourceView {
        match self {
            IconSource::Name(n) => IconSourceView::Name(n@),
            IconSource::Pixmap(p) => IconSourceView::Pixmap(p@),
        }
    }
}

impl DeepView for IconSource {
    type V = IconSourceView;

    open spec fn deep_view(&self) -> IconSourceView {
        self@
    }
}

impl Default for IconSource {
    fn default() -> (r: Self)
        ensures
            r@ == IconSourceView::Name(Seq::empty()),
    {
        IconSource::Name(String::new())
    }
}

/// SNI tooltip: icon + title + description.
#[derive(Debug, Clone, PartialEq, Eq)]
pub struct ToolTip {
    /// Optional icon of the tooltip.
    pub icon: Option<IconSource>,
    /// Title (bold text in most renderers).
    pub title: String,
    /// Description (regular text in most renderers).
    pub description: String,
}

pub struct ToolTipView {
    pub icon: Option<IconSourceView>,
    pub title: Seq<char>,
    pub description: Seq<char>,
}

impl View for ToolTip {
    type V = ToolTipView;

    open spec fn view(&self) -> ToolTipView {
        ToolTipView {
            icon: self.icon.deep_view(),
            title: self.title@,
            description: self.description@,
        }
    }
}

impl DeepView for ToolTip {
    type V = ToolTipView;

    open spec fn deep_view(&self) -> ToolTipView {
        self@
    }
}

impl Default for ToolTip {
    fn default() -> (r: Self)
        ensures
            r@ == (ToolTipView { icon: None, title: Seq::empty(), description: Seq::empty() }),
    {
        ToolTip { icon: None, title: String::new(), description: String::new() }
    }
}

/// Scroll orientation for scroll interactions.
#[derive(Debug, Clone, Copy, PartialEq, Eq, Structural)]
pub enum Orientation {
    /// Horizontal scroll.
    Horizontal,
    /// Vertical scroll.
    Vertical,
}

/// Protocol spelling of an orientation.
pub open spec fn orientation_text(o: Orientation) -> Seq<char> {
    match o {
        Orientation::Horizontal => "horizontal"@,
        Orientation::Vertical => "vertical"@,
    }
}

impl Orientation {
    /// Protocol spelling (`"horizontal"` / `"vertical"`) used by `Scroll`.
    pub fn as_str(self) -> (s: &'static str)
        ensures
            s@ == orientation_text(self),
    {
        match self {
            Orientation::Horizontal => "horizontal",
            Orientation::Vertical => "vertical",
        }
    }
}

/// A complete snapshot of one tray item.
#[derive(Debug, Clone)]
pub struct TrayItem {
    /// Unique identity of the item.
    pub id: TrayItemId,
    /// Item category.
    pub category: TrayCategory,
    /// Item status (Passive / Active / NeedsAttention).
    pub status: TrayStatus,
    /// Human readable title, if provided.
    pub title: Option<String>,
    /// Human readable item identifier ("Id" property), if provided.
    pub description: Option<String>,
    /// Window id the item belongs to (usually 0).
    pub window_id: i32,
    /// Primary icon (theme name or bitmap, see [`IconSource`]).
    pub icon: IconSource,
    /// Overlay icon, if provided (e.g. emission indicator).
    pub overlay_icon: Option<IconSource>,
    /// Attention icon, used while status is `NeedsAttention`.
    pub attention_icon: Option<IconSource>,
    /// Tooltip data, if provided.
    pub tooltip: Option<ToolTip>,
    /// Whether the item exposes a DBusMenu (`Menu` property points at a
    /// valid menu object).
    pub has_menu: bool,
}

pub struct TrayItemView {
    pub id: TrayItemIdView,
    pub category: TrayCategory,
    pub status: TrayStatus,
    pub title: Option<Seq<char>>,
    pub description: Option<Seq<char>>,
    pub window_id: i32,
    pub icon: IconSourceView,
    pub overlay_icon: Option<IconSourceView>,
    pub attention_icon: Option<IconSourceView>,
    pub tooltip: Option<ToolTipView>,
    pub has_menu: bool,
}

impl View for TrayItem {
    type V = TrayItemView;

    open spec fn view(&self) -> TrayItemView {
        TrayItemView {
            id: self.id@,
            category: self.category,
            status: self.status,
            title: self.title.deep_view(),
            description: self.description.deep_view(),
            window_id: self.window_id,
            icon: self.icon@,
            overlay_icon: self.overlay_icon.deep_view(),
            attention_icon: self.attention_icon.deep_view(),
            tooltip: self.tooltip.deep_view(),
            has_menu: self.has_menu,
        }
    }
}

impl DeepView for TrayItem {
    type V = TrayItemView;

    open spec fn deep_view(&self) -> TrayItemView {
        self@
    }
}

impl Default for TrayItem {
    fn default() -> (r: Self)
        ensures
            r@ == (TrayItemView {
                id: TrayItemIdView { bus_name: Seq::empty(), path: Seq::empty() },
                category: TrayCategory::Application,
                status: TrayStatus::Passive,
                title: None,
                description: None,
                window_id: 0,
                icon: IconSourceView::Name(Seq::empty()),
                overlay_icon: None,
                attention_icon: None,
                tooltip: None,
                has_menu: false,
            }),
    {
        TrayItem {
            id: TrayItemId::default(),
            category: TrayCategory::default(),
            status: TrayStatus::default(),
            title: None,
            description: None,
            window_id: 0,
            icon: IconSource::default(),
            overlay_icon: None,
            attention_icon: None,
            tooltip: None,
            has_menu: false,
        }
    }
}

// ── copies and comparisons ──────────────────────────────────────────────

/// A copy of an optional string.
pub fn copy_opt_string(s: &Option<String>) -> (r: Option<String>)
    ensures
        r.deep_view() == s.deep_view(),
{
    match s {
        Some(t) => Some(t.clone()),
        None => None,
    }
}

/// Whether two optional strings hold the same text.
pub fn same_opt_string(a: &Option<String>, b: &Option<String>) -> (r: bool)
    ensures
        r == (a.deep_view() == b.deep_view()),
{
    match (a, b) {
        (Some(x), Some(y)) => *x == *y,
        (None, None) => true,
        _ => false,
    }
}

/// Whether two byte vectors hold the same bytes.
pub fn same_bytes(a: &Vec<u8>, b: &Vec<u8>) -> (r: bool)
    ensures
        r == (a@ == b@),
{
    if a.len() != b.len() {
        return false;
    }
    let mut i: usize = 0;
    while i < a.len()
        invariant
            a@.len() == b@.len(),
            i <= a@.len(),
            forall|j: int| 0 <= j < i ==> a@[j] == b@[j],
        decreases a@.len() - i,
    {
        if a[i] != b[i] {
            return false;
        }
        i = i + 1;
    }
    proof {
        assert(a@ =~= b@);
    }
    true
}

/// A copy of a byte vector.
pub fn copy_bytes(a: &Vec<u8>) -> (r: Vec<u8>)
    ensures
        r@ == a@,
{
    let mut r: Vec<u8> = Vec::new();
    let mut i: usize = 0;
    while i < a.len()
        invariant
            i <= a@.len(),
            r@ == a@.take(i as int),
        decreases a@.len() - i,
    {
        r.push(a[i]);
        proof {
            assert(a@.take(i + 1) == a@.take(i as int).push(a@[i as int]));
        }
        i = i + 1;
    }
    proof {
        assert(a@.take(a@.len() as int) == a@);
    }
    r
}

impl Pixmap {
    /// An independent copy.
    pub fn duplicate(&self) -> (r: Self)
        ensures
            r@ == self@,
    {
        Pixmap { width: self.width, height: self.height, argb: copy_bytes(&self.argb) }
    }

    /// Whether both bitmaps are identical.
    pub fn same_as(&self, other: &Pixmap) -> (r: bool)
        ensures
            r == (self@ == other@),
    {
        self.width == other.width && self.height == other.height && same_bytes(
            &self.argb,
            &other.argb,
        )
    }
}

impl IconSource {
    /// An independent copy.
    pub fn duplicate(&self) -> (r: Self)
        ensures
            r@ == self@,
    {
        match self {
            IconSource::Name(n) => IconSource::Name(n.clone()),
            IconSource::Pixmap(p) => IconSource::Pixmap(p.duplicate()),
        }
    }

    /// Whether both icon sources are identical.
    pub fn same_as(&self, other: &IconSource) -> (r: bool)
        ensures
            r == (self@ == other@),
    {
        match (self, other) {
            (IconSource::Name(a), IconSource::Name(b)) => *a == *b,
            (IconSource::Pixmap(a), IconSource::Pixmap(b)) => a.same_as(b),
            _ => false,
        }
    }
}

/// A copy of an optional icon.
pub fn copy_opt_icon(a: &Option<IconSource>) -> (r: Option<IconSource>)
    ensures
        r.deep_view() == a.deep_view(),
{
    match a {
        Some(i) => Some(i.duplicate()),
        None => None,
    }
}

/// Whether two optional icons are identical.
pub fn same_opt_icon(a: &Option<IconSource>, b: &Option<IconSource>) -> (r: bool)
    ensures
        r == (a.deep_view() == b.deep_view()),
{
    match (a, b) {
        (Some(x), Some(y)) => x.same_as(y),
        (None, None) => true,
        _ => false,
    }
}

impl ToolTip {
    /// An independent copy.
    pub fn duplicate(&self) -> (r: Self)
        ensures
            r@ == self@,
    {
        ToolTip {
            icon: copy_opt_icon(&self.icon),
            title: self.title.clone(),
            description: self.description.clone(),
        }
    }

    /// Whether both tooltips are identical.
    pub fn same_as(&self, other: &ToolTip) -> (r: bool)
        ensures
            r == (self@ == other@),
    {
        same_opt_icon(&self.icon, &other.icon) && self.title == other.title && self.description
            == other.description
    }
}

/// A copy of an optional tooltip.
pub fn copy_opt_tooltip(a: &Option<ToolTip>) -> (r: Option<ToolTip>)
    ensures
        r.deep_view() == a.deep_view(),
{
    match a {
        Some(t) => Some(t.duplicate()),
        None => None,
    }
}

/// Whether two optional tooltips are identical.
pub fn same_opt_tooltip(a: &Option<ToolTip>, b: &Option<ToolTip>) -> (r: bool)
    ensures
        r == (a.deep_view() == b.deep_view()),
{
    match (a, b) {
        (Some(x), Some(y)) => x.same_as(y),
        (None, None) => true,
        _ => false,
    }
}

impl TrayItem {
    /// An independent copy of this snapshot.
    pub fn duplicate(&self) -> (r: Self)
        ensures
            r@ == self@,
    {
        TrayItem {
            id: self.id.duplicate(),
            category: self.category,
            status: self.status,
            title: copy_opt_string(&self.title),
            description: copy_opt_string(&self.description),
            window_id: self.window_id,
            icon: self.icon.duplicate(),
            overlay_icon: copy_opt_icon(&self.overlay_icon),
            attention_icon: copy_opt_icon(&self.attention_icon),
            tooltip: copy_opt_tooltip(&self.tooltip),
            has_menu: self.has_menu,
        }
    }
}

} // verus!
