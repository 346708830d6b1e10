//! SNI (StatusNotifierItem) protocol helpers: constants, service string
//! parsing and property -> model conversion.

use vstd::prelude::*;

use crate::text::{self, index_of, trimmed};
use crate::tray::model::{
    category_of, status_of, IconSource, IconSourceView, Pixmap, PixmapView, ToolTip, ToolTipView,
    TrayCategory, TrayItem, TrayItemId, TrayItemIdView, TrayItemView, TrayStatus,
};
use crate::tray::value::{
    as_bytes, as_i32, as_i32_value, as_object_path, as_string, bytes_of, i32_of, int_of,
    object_path_of, prop, prop_get, str_of, DbusValue,
};

verus! {

pub const SNI_WATCHER: &'static str = "org.kde.StatusNotifierWatcher";

pub const SNI_WATCHER_PATH: &'static str = "/StatusNotifierWatcher";

pub const SNI_WATCHER_IFACE: &'static str = "org.kde.StatusNotifierWatcher";

pub const SNI_ITEM_IFACE: &'static str = "org.kde.StatusNotifierItem";

pub const SNI_HOST_PREFIX: &'static str = "_org.kde.StatusNotifierHost.";

pub const MENU_IFACE: &'static str = "com.canonical.dbusmenu";

/// Object path implied by a service string without a path.
pub const DEFAULT_ITEM_PATH: &'static str = "/StatusNotifierItem";

/// Meaning of an SNI service string (after trimming white space):
/// `"bus.name"` implies `/StatusNotifierItem`; `"bus.name/object/path"` is
/// split at the first `/`; an empty string, an empty bus name or a bare `/`
/// path are rejected.
pub open spec fn service_spec(service: Seq<char>) -> Option<(Seq<char>, Seq<char>)> {
    let t = trimmed(service);
    if t.len() == 0 {
        None
    } else {
        match index_of(t, '/') {
            Some(i) => if i == 0 || t.len() - i < 2 {
                None
            } else {
                Some((t.take(i), t.skip(i)))
            },
            None => Some((t, "/StatusNotifierItem"@)),
        }
    }
}

/// Parse an SNI service string into (bus name, object path).
///
/// Two forms exist: `"bus.name"` (implies `/StatusNotifierItem`) and
/// `"bus.name/object/path"`.
pub fn parse_service(service: &str) -> (r: Option<(String, String)>)
    ensures
        match r {
            Some((bus, path)) => service_spec(service@) == Some((bus@, path@)),
            None => service_spec(service@) is None,
        },
{
    let cs = text::chars_of(service);
    let t = text::trim_chars(cs.as_slice());
    if t.len() == 0 {
        return None;
    }
    match text::find_char(&t, '/') {
        Some(idx) => {
            proof {
                text::lemma_index_of_props(t@, '/');
            }
            if idx == 0 || t.len() - idx < 2 {
                return None;
            }
            let bus = text::string_of_range(&t, 0, idx);
            let path = text::string_of_range(&t, idx, t.len());
            proof {
                assert(t@.subrange(0, idx as int) =~= t@.take(idx as int));
                assert(t@.subrange(idx as int, t@.len() as int) =~= t@.skip(idx as int));
            }
            Some((bus, path))
        },
        None => {
            let bus = text::string_of(t.as_slice());
            Some((bus, DEFAULT_ITEM_PATH.to_owned()))
        },
    }
}

/// Parsed services always name a non-empty bus and a path that starts with
/// `/` and is longer than `/`; when the trimmed service held a `/`, bus and
/// path together give it back.
pub proof fn lemma_service_shape(service: Seq<char>)
    ensures
        service_spec(service) matches Some((bus, path)) ==> {
            &&& bus.len() > 0
            &&& path.len() >= 2
            &&& path[0] == '/'
            &&& (index_of(trimmed(service), '/') is Some ==> bus + path == trimmed(service))
        },
{
    reveal_strlit("/StatusNotifierItem");
    let t = trimmed(service);
    text::lemma_index_of_props(t, '/');
    if let Some(i) = index_of(t, '/') {
        if i > 0 && t.len() - i >= 2 {
            assert(t.take(i) + t.skip(i) =~= t);
            assert(t.skip(i)[0] == t[i]);
        }
    }
}

// ── icons ───────────────────────────────────────────────────────────────

/// Fixed icon resolution rule: a non-empty name wins, else the pixmap (if
/// any).
pub open spec fn icon_spec(name: Seq<char>, pixmap: Option<PixmapView>) -> Option<IconSourceView> {
    if name.len() > 0 {
        Some(IconSourceView::Name(name))
    } else {
        match pixmap {
            Some(p) => Some(IconSourceView::Pixmap(p)),
            None => None,
        }
    }
}

/// Fixed icon resolution rule: non-empty name wins, else the largest
/// pixmap, else nothing.
pub fn icon_source(name: String, pixmap: Option<Pixmap>) -> (r: Option<IconSource>)
    ensures
        r.deep_view() == icon_spec(name@, pixmap.deep_view()),
{
    if !name.as_str().is_empty() {
        Some(IconSource::Name(name))
    } else {
        match pixmap {
            Some(p) => Some(IconSource::Pixmap(p)),
            None => None,
        }
    }
}

pub open spec fn name_or_empty(name: Option<Seq<char>>) -> Seq<char> {
    match name {
        Some(n) => n,
        None => Seq::empty(),
    }
}

/// Icon from an optional name and an optional pixmap (missing name = empty).
pub fn icon_pair(name: Option<String>, pixmap: Option<Pixmap>) -> (r: Option<IconSource>)
    ensures
        r.deep_view() == icon_spec(name_or_empty(name.deep_view()), pixmap.deep_view()),
{
    let n = match name {
        Some(n) => n,
        None => String::new(),
    };
    icon_source(n, pixmap)
}

/// `Some(s)` unless `s` is empty.
pub open spec fn non_empty_spec(s: Option<Seq<char>>) -> Option<Seq<char>> {
    match s {
        Some(t) => if t.len() > 0 { Some(t) } else { None },
        None => None,
    }
}

pub fn non_empty(s: Option<String>) -> (r: Option<String>)
    ensures
        r.deep_view() == non_empty_spec(s.deep_view()),
{
    match s {
        Some(t) => if t.as_str().is_empty() {
            None
        } else {
            Some(t)
        },
        None => None,
    }
}

// ── pixmaps ─────────────────────────────────────────────────────────────

/// The bitmap an `(iiay)` entry describes, if it is well-formed: positive
/// size whose byte count `width * height * 4` fits a `u32`, and at least
/// that many bytes (extra bytes are dropped).
pub open spec fn entry_pixmap(e: DbusValue) -> Option<PixmapView> {
    match e {
        DbusValue::Structure(f) => if f@.len() == 3 {
            match (int_of(f@[0]), int_of(f@[1]), bytes_of(f@[2])) {
                (Some(w), Some(h), Some(d)) => if w <= 0 || h <= 0 {
                    None
                } else if w * h * 4 > u32::MAX {
                    None
                } else if d.len() < w * h * 4 {
                    None
                } else {
                    Some(PixmapView { width: w as u32, height: h as u32, argb: d.take(w * h * 4) })
                },
                _ => None,
            }
        } else {
            None
        },
        _ => None,
    }
}

/// The largest well-formed bitmap of a list of entries (the earliest one
/// among equally large bitmaps).
pub open spec fn best_of(entries: Seq<DbusValue>) -> Option<PixmapView>
    decreases entries.len(),
{
    if entries.len() == 0 {
        None
    } else {
        let prev = best_of(entries.drop_last());
        match entry_pixmap(entries.last()) {
            Some(p) => match prev {
                None => Some(p),
                Some(b) => if p.width * p.height > b.width * b.height {
                    Some(p)
                } else {
                    prev
                },
            },
            None => prev,
        }
    }
}

/// Meaning of an `a(iiay)` value: the largest well-formed bitmap.
pub open spec fn pixmap_spec(v: DbusValue) -> Option<PixmapView> {
    match v {
        DbusValue::Array(a) => best_of(a@),
        _ => None,
    }
}

/// Parse an `a(iiay)` icon pixmap list, keeping the largest valid bitmap.
pub fn parse_pixmap_value(value: &DbusValue) -> (r: Option<Pixmap>)
    ensures
        r.deep_view() == pixmap_spec(*value),
{
    let entries = match value {
        DbusValue::Array(a) => a,
        _ => return None,
    };
    let mut best: Option<Pixmap> = None;
    let mut i: usize = 0;
    proof {
        assert(entries@.take(0) =~= Seq::<DbusValue>::empty());
    }
    while i < entries.len()
        invariant
            i <= entries@.len(),
            *value == DbusValue::Array(*entries),
            best.deep_view() == best_of(entries@.take(i as int)),
            best matches Some(b) ==> b.width as int * b.height as int * 4 <= u32::MAX,
        decreases entries@.len() - i,
    {
        proof {
            assert(entries@.take(i + 1).drop_last() == entries@.take(i as int));
            assert(entries@.take(i + 1).last() == entries@[i as int]);
        }
        let entry = &entries[i];
        i = i + 1;
        let fields = match entry {
            DbusValue::Structure(f) => f,
            _ => continue,
        };
        if fields.len() != 3 {
            continue;
        }
        let (w, h, data) = match (as_i32_value(&fields[0]), as_i32_value(&fields[1]), as_bytes(&fields[2])) {
            (Some(w), Some(h), Some(d)) => (w, h, d),
            _ => continue,
        };
        if w <= 0 || h <= 0 {
            continue;
        }
        proof {
            assert(0 < w as int * h as int * 4 <= 0xffff_fffc_0000_0004) by (nonlinear_arith)
                requires
                    0 < w <= i32::MAX,
                    0 < h <= i32::MAX,
            ;
        }
        let size64 = (w as u64) * (h as u64) * 4;
        if size64 > 0xffff_ffffu64 {
            continue;
        }
        let (w, h) = (w as u32, h as u32);
        proof {
            assert(w as int * h as int <= u32::MAX) by (nonlinear_arith)
                requires
                    w as int * h as int * 4 <= u32::MAX,
            ;
        }
        let size = w * h * 4;
        if data.len() < size as usize {
            continue;
        }
        let mut argb = data;
        argb.truncate(size as usize);
        let area = w * h;
        let better = match &best {
            None => true,
            Some(b) => {
                proof {
                    assert(b.width as int * b.height as int <= u32::MAX) by (nonlinear_arith)
                        requires
                            b.width as int * b.height as int * 4 <= u32::MAX,
                    ;
                }
                area > b.width * b.height
            },
        };
        if better {
            best = Some(Pixmap { width: w, height: h, argb });
        }
    }
    proof {
        assert(entries@.take(entries@.len() as int) == entries@);
    }
    best
}

/// Every bitmap the parser delivers has a positive size and exactly
/// `width * height * 4` bytes, and no well-formed entry is larger.
pub proof fn lemma_best_pixmap(entries: Seq<DbusValue>)
    ensures
        best_of(entries) matches Some(b) ==> {
            &&& b.width > 0
            &&& b.height > 0
            &&& b.argb.len() == b.width * b.height * 4
            &&& forall|i: int|
                0 <= i < entries.len() ==> (#[trigger] entry_pixmap(entries[i]) matches Some(p)
                    ==> p.width * p.height <= b.width * b.height)
        },
        best_of(entries) is None ==> forall|i: int|
            0 <= i < entries.len() ==> #[trigger] entry_pixmap(entries[i]) is None,
    decreases entries.len(),
{
    if entries.len() > 0 {
        let init = entries.drop_last();
        lemma_best_pixmap(init);
        assert forall|i: int| 0 <= i < init.len() implies #[trigger] entries[i] == init[i] by {}
    }
}

// ── tooltips ────────────────────────────────────────────────────────────

pub open spec fn string_field(v: DbusValue) -> Seq<char> {
    match v {
        DbusValue::Str(s) => s@,
        _ => Seq::empty(),
    }
}

/// Meaning of an SNI `ToolTip` `(sa(iiay)ss)`: none if malformed or if
/// both title and description are empty.
pub open spec fn tooltip_spec(v: DbusValue) -> Option<ToolTipView> {
    match v {
        DbusValue::Structure(f) => if f@.len() == 4 {
            let title = string_field(f@[2]);
            let description = string_field(f@[3]);
            if title.len() == 0 && description.len() == 0 {
                None
            } else {
                Some(
                    ToolTipView {
                        icon: icon_spec(string_field(f@[0]), pixmap_spec(f@[1])),
                        title,
                        description,
                    },
                )
            }
        } else {
            None
        },
        _ => None,
    }
}

pub fn as_string_value(value: &DbusValue) -> (r: Option<String>)
    ensures
        r.deep_view() == str_of(*value),
{
    as_string(value)
}

pub fn parse_tooltip(value: &DbusValue) -> (r: Option<ToolTip>)
    ensures
        r.deep_view() == tooltip_spec(*value),
{
    let fields = match value {
        DbusValue::Structure(f) => f,
        _ => return None,
    };
    if fields.len() != 4 {
        return None;
    }
    let icon_name = match as_string_value(&fields[0]) {
        Some(s) => s,
        None => String::new(),
    };
    let icon_pixmap = parse_pixmap_value(&fields[1]);
    let title = match as_string_value(&fields[2]) {
        Some(s) => s,
        None => String::new(),
    };
    let description = match as_string_value(&fields[3]) {
        Some(s) => s,
        None => String::new(),
    };
    if title.as_str().is_empty() && description.as_str().is_empty() {
        return None;
    }
    Some(ToolTip { icon: icon_source(icon_name, icon_pixmap), title, description })
}


// ── item snapshots ──────────────────────────────────────────────────────

/// A parsed item snapshot plus the menu object path, if any.
pub struct TrayItemSnapshot {
    pub item: TrayItem,
    pub menu_path: Option<String>,
}

/// String property `key` of `props`.
pub open spec fn prop_str_of(props: Seq<(String, DbusValue)>, key: Seq<char>) -> Option<Seq<char>> {
    match prop_get(props, key) {
        Some(v) => str_of(v),
        None => None,
    }
}

/// Pixmap property `key` of `props`.
pub open spec fn prop_pixmap_of(props: Seq<(String, DbusValue)>, key: Seq<char>) -> Option<PixmapView> {
    match prop_get(props, key) {
        Some(v) => pixmap_spec(v),
        None => None,
    }
}

/// Menu object path of the item: the `Menu` property unless it is empty or
/// the root path `/`.
pub open spec fn menu_path_spec(props: Seq<(String, DbusValue)>) -> Option<Seq<char>> {
    match prop_get(props, "Menu"@) {
        Some(v) => match object_path_of(v) {
            Some(p) => if p != "/"@ && p.len() > 0 { Some(p) } else { None },
            None => None,
        },
        None => None,
    }
}

/// Item snapshot described by raw SNI properties; missing or mistyped
/// properties take their defaults (status `Active`, category
/// `Application`, window id 0, empty icon name).
pub open spec fn item_spec(id: TrayItemIdView, props: Seq<(String, DbusValue)>) -> TrayItemView {
    TrayItemView {
        id,
        category: match prop_str_of(props, "Category"@) {
            Some(s) => category_of(s),
            None => TrayCategory::Application,
        },
        status: match prop_str_of(props, "Status"@) {
            Some(s) => status_of(s),
            None => TrayStatus::Active,
        },
        title: non_empty_spec(prop_str_of(props, "Title"@)),
        description: non_empty_spec(prop_str_of(props, "Id"@)),
        window_id: match prop_get(props, "WindowId"@) {
            Some(v) => match i32_of(v) {
                Some(w) => w,
                None => 0,
            },
            None => 0,
        },
        icon: match icon_spec(
            name_or_empty(prop_str_of(props, "IconName"@)),
            prop_pixmap_of(props, "IconPixmap"@),
        ) {
            Some(i) => i,
            None => IconSourceView::Name(Seq::empty()),
        },
        overlay_icon: icon_spec(
            name_or_empty(prop_str_of(props, "OverlayIconName"@)),
            prop_pixmap_of(props, "OverlayIconPixmap"@),
        ),
        attention_icon: icon_spec(
            name_or_empty(prop_str_of(props, "AttentionIconName"@)),
            prop_pixmap_of(props, "AttentionIconPixmap"@),
        ),
        tooltip: match prop_get(props, "ToolTip"@) {
            Some(v) => tooltip_spec(v),
            None => None,
        },
        has_menu: menu_path_spec(props) is Some,
    }
}

fn prop_string(props: &Vec<(String, DbusValue)>, key: &str) -> (r: Option<String>)
    ensures
        r.deep_view() == prop_str_of(props@, key@),
{
    match prop(props, key) {
        Some(v) => as_string(v),
        None => None,
    }
}

fn prop_pixmap(props: &Vec<(String, DbusValue)>, key: &str) -> (r: Option<Pixmap>)
    ensures
        r.deep_view() == prop_pixmap_of(props@, key@),
{
    match prop(props, key) {
        Some(v) => parse_pixmap_value(v),
        None => None,
    }
}

/// Assemble an item snapshot (and its menu path) from raw properties.
///
/// Missing properties degrade to defaults; this function never fails on
/// partial data.
pub fn build_item(id: TrayItemId, props: &Vec<(String, DbusValue)>) -> (snap: TrayItemSnapshot)
    ensures
        snap.item@ == item_spec(id@, props@),
        snap.menu_path.deep_view() == menu_path_spec(props@),
        snap.item.id@ == id@,
        snap.item.has_menu == (snap.menu_path is Some),
{
    let category = match prop_string(props, "Category") {
        Some(s) => TrayCategory::parse(s.as_str()),
        None => TrayCategory::default(),
    };
    let status = match prop_string(props, "Status") {
        Some(s) => TrayStatus::parse(s.as_str()),
        None => TrayStatus::Active,
    };
    let title = non_empty(prop_string(props, "Title"));
    let description = non_empty(prop_string(props, "Id"));
    let window_id = match prop(props, "WindowId") {
        Some(v) => match as_i32(v) {
            Some(w) => w,
            None => 0,
        },
        None => 0,
    };
    let icon_name = match prop_string(props, "IconName") {
        Some(s) => s,
        None => String::new(),
    };
    let icon_pixmap = prop_pixmap(props, "IconPixmap");
    let overlay = icon_pair(prop_string(props, "OverlayIconName"), prop_pixmap(props, "OverlayIconPixmap"));
    let attention = icon_pair(prop_string(props, "AttentionIconName"), prop_pixmap(props, "AttentionIconPixmap"));
    let tooltip = match prop(props, "ToolTip") {
        Some(v) => parse_tooltip(v),
        None => None,
    };
    let menu_path = match prop(props, "Menu") {
        Some(v) => match as_object_path(v) {
            Some(p) => if !text::same(p.as_str(), "/") && !p.as_str().is_empty() {
                Some(p)
            } else {
                None
            },
            None => None,
        },
        None => None,
    };
    let icon = match icon_pair(Some(icon_name), icon_pixmap) {
        Some(i) => i,
        None => IconSource::Name(String::new()),
    };
    let has_menu = menu_path.is_some();
    TrayItemSnapshot {
        item: TrayItem {
            id,
            category,
            status,
            title,
            description,
            window_id,
            icon,
            overlay_icon: overlay,
            attention_icon: attention,
            tooltip,
            has_menu,
        },
        menu_path,
    }
}

/// A tooltip `(sa(iiay)ss)` takes its title from the third field and its
/// description from the fourth, whatever they hold; it is absent only when
/// both are empty.
pub proof fn law_tooltip_title_and_description(fields: Vec<DbusValue>, title: String, description: String)
    requires
        fields@.len() == 4,
        fields@[2] == DbusValue::Str(title),
        fields@[3] == DbusValue::Str(description),
    ensures
        title@.len() > 0 || description@.len() > 0 ==> (tooltip_spec(DbusValue::Structure(fields)) matches Some(t)
            && t.title == title@ && t.description == description@),
        title@.len() == 0 && description@.len() == 0 ==> tooltip_spec(DbusValue::Structure(fields)) is None,
{
}

} // verus!
