//! How the bar picks an image for a tray item: the sources it tries in
//! order, the bitmap it prefers, and the byte order conversion for bitmaps.

use vstd::prelude::*;

use crate::shell::sni::{IconPixmap, SniItemState};

verus! {

/// Preferred bitmap width in pixels.
pub const TARGET_WIDTH: i32 = 24;

/// Distance of a bitmap width from the preferred width.
pub open spec fn width_distance(w: i32) -> int {
    if w - 24 >= 0 { w - 24 } else { 24 - w }
}

fn distance(w: i32) -> (d: i32)
    requires
        w > i32::MIN + 24,
    ensures
        d == width_distance(w),
{
    let d = w - TARGET_WIDTH;
    if d >= 0 {
        d
    } else {
        -d
    }
}

/// The bitmap to show among `pixmaps`: the first one whose width is
/// closest to 24 pixels.
pub fn best_pixmap(pixmaps: &Vec<IconPixmap>) -> (r: Option<usize>)
    requires
        forall|i: int| 0 <= i < pixmaps@.len() ==> pixmaps@[i].width > i32::MIN + 24,
    ensures
        match r {
            Some(i) => i < pixmaps@.len() && (forall|j: int|
                0 <= j < pixmaps@.len() ==> width_distance(pixmaps@[i as int].width) <= width_distance(
                    pixmaps@[j].width,
                )) && (forall|j: int| 0 <= j < i ==> width_distance(pixmaps@[j].width) > width_distance(
                pixmaps@[i as int].width,
            )),
            None => pixmaps@.len() == 0,
        },
{
    if pixmaps.len() == 0 {
        return None;
    }
    let mut best: usize = 0;
    let mut best_d: i32 = distance(pixmaps[0].width);
    let mut i: usize = 1;
    while i < pixmaps.len()
        invariant
            1 <= i <= pixmaps@.len(),
            best < i,
            forall|k: int| 0 <= k < pixmaps@.len() ==> pixmaps@[k].width > i32::MIN + 24,
            best_d == width_distance(pixmaps@[best as int].width),
            forall|j: int| 0 <= j < i ==> best_d <= width_distance(pixmaps@[j].width),
            forall|j: int| 0 <= j < best ==> width_distance(pixmaps@[j].width) > best_d,
        decreases pixmaps@.len() - i,
    {
        let d = distance(pixmaps[i].width);
        if d < best_d {
            best = i;
            best_d = d;
        }
        i = i + 1;
    }
    Some(best)
}

/// A place an image can come from, tried in order.
pub enum IconCandidate {
    /// An image file at this path, if it exists.
    File(String),
    /// A named icon of the current icon theme.
    Themed(String),
    /// The bitmap at this index of the item's icon bitmaps.
    Pixmap(usize),
}

pub enum IconCandidateView {
    File(Seq<char>),
    Themed(Seq<char>),
    Pixmap(int),
}

impl View for IconCandidate {
    type V = IconCandidateView;

    open spec fn view(&self) -> IconCandidateView {
        match self {
            IconCandidate::File(p) => IconCandidateView::File(p@),
            IconCandidate::Themed(n) => IconCandidateView::Themed(n@),
            IconCandidate::Pixmap(i) => IconCandidateView::Pixmap(*i as int),
        }
    }
}

pub open spec fn candidate_views(s: Seq<IconCandidate>) -> Seq<IconCandidateView> {
    s.map_values(|c: IconCandidate| c@)
}

/// The image sources for an item, in the order they are tried: an absolute
/// icon name as a file; the icon name in the theme; the icon name as a
/// `png`, `svg` or `xpm` file in the item's theme path; the preferred
/// bitmap.
pub open spec fn candidates_spec(name: Seq<char>, theme_path: Seq<char>, best: Option<int>) -> Seq<
    IconCandidateView,
> {
    (if name.len() > 0 && name[0] == '/' {
        seq![IconCandidateView::File(name)]
    } else {
        Seq::empty()
    }) + (if name.len() > 0 {
        seq![IconCandidateView::Themed(name)]
    } else {
        Seq::empty()
    }) + (if theme_path.len() > 0 && name.len() > 0 {
        seq![
            IconCandidateView::File(theme_path + "/"@ + name + ".png"@),
            IconCandidateView::File(theme_path + "/"@ + name + ".svg"@),
            IconCandidateView::File(theme_path + "/"@ + name + ".xpm"@),
        ]
    } else {
        Seq::empty()
    }) + match best {
        Some(i) => seq![IconCandidateView::Pixmap(i)],
        None => Seq::empty(),
    }
}

fn themed_file(theme_path: &str, name: &str, ext: &str) -> (r: String)
    ensures
        r@ == theme_path@ + "/"@ + name@ + "."@ + ext@,
{
    let mut s = theme_path.to_owned();
    s.append("/");
    s.append(name);
    s.append(".");
    s.append(ext);
    s
}

/// Image sources for an item's icon, in the order to try them.
pub fn icon_candidates(state: &SniItemState) -> (r: Vec<IconCandidate>)
    requires
        forall|i: int| 0 <= i < state.icon_pixmaps@.len() ==> state.icon_pixmaps@[i].width > i32::MIN + 24,
    ensures
        exists|best: Option<int>|
            #![auto]
            candidate_views(r@) == candidates_spec(state.icon_name@, state.icon_theme_path@, best) && match best {
                Some(i) => 0 <= i < state.icon_pixmaps@.len() && (forall|j: int|
                    0 <= j < state.icon_pixmaps@.len() ==> width_distance(state.icon_pixmaps@[i].width)
                        <= width_distance(state.icon_pixmaps@[j].width)) && (forall|j: int|
                    0 <= j < i ==> width_distance(state.icon_pixmaps@[j].width) > width_distance(
                        state.icon_pixmaps@[i].width,
                    )),
                None => state.icon_pixmaps@.len() == 0,
            },
{
    let name = state.icon_name.as_str();
    let theme = state.icon_theme_path.as_str();
    let mut out: Vec<IconCandidate> = Vec::new();
    let ghost p1: Seq<IconCandidateView> = if name@.len() > 0 && name@[0] == '/' {
        seq![IconCandidateView::File(name@)]
    } else {
        Seq::empty()
    };
    let cs = crate::text::chars_of(name);
    if cs.len() > 0 && cs[0] == '/' {
        out.push(IconCandidate::File(name.to_owned()));
    }
    proof {
        assert(candidate_views(out@) =~= p1);
    }
    let ghost p2: Seq<IconCandidateView> = if name@.len() > 0 {
        seq![IconCandidateView::Themed(name@)]
    } else {
        Seq::empty()
    };
    if cs.len() > 0 {
        out.push(IconCandidate::Themed(name.to_owned()));
    }
    proof {
        assert(candidate_views(out@) =~= p1 + p2);
    }
    let ghost p3: Seq<IconCandidateView> = if theme@.len() > 0 && name@.len() > 0 {
        seq![
            IconCandidateView::File(theme@ + "/"@ + name@ + ".png"@),
            IconCandidateView::File(theme@ + "/"@ + name@ + ".svg"@),
            IconCandidateView::File(theme@ + "/"@ + name@ + ".xpm"@),
        ]
    } else {
        Seq::empty()
    };
    if !theme.is_empty() && cs.len() > 0 {
        let a = themed_file(theme, name, "png");
        let b = themed_file(theme, name, "svg");
        let c = themed_file(theme, name, "xpm");
        proof {
            assert(a@ =~= theme@ + "/"@ + name@ + ".png"@) by {
                reveal_strlit(".");
                reveal_strlit("png");
                reveal_strlit(".png");
            }
            assert(b@ =~= theme@ + "/"@ + name@ + ".svg"@) by {
                reveal_strlit(".");
                reveal_strlit("svg");
                reveal_strlit(".svg");
            }
            assert(c@ =~= theme@ + "/"@ + name@ + ".xpm"@) by {
                reveal_strlit(".");
                reveal_strlit("xpm");
                reveal_strlit(".xpm");
            }
        }
        out.push(IconCandidate::File(a));
        out.push(IconCandidate::File(b));
        out.push(IconCandidate::File(c));
    }
    proof {
        assert(candidate_views(out@) =~= p1 + p2 + p3);
    }
    let best = best_pixmap(&state.icon_pixmaps);
    let ghost bi: Option<int> = match best {
        Some(i) => Some(i as int),
        None => None,
    };
    match best {
        Some(i) => out.push(IconCandidate::Pixmap(i)),
        None => {},
    }
    proof {
        assert(candidate_views(out@) =~= candidates_spec(name@, theme@, bi));
    }
    out
}

/// Number of bytes a `width` x `height` ARGB32 bitmap needs, or `None` when
/// the product is negative (no byte count can match it).
pub open spec fn needed_bytes(width: i32, height: i32) -> Option<int> {
    if width * height * 4 >= 0 { Some(width * height * 4) } else { None }
}

/// RGBA bytes of the first `n` ARGB bytes of `argb` (whole pixels).
pub open spec fn rgba_of(argb: Seq<u8>, n: int) -> Seq<u8> {
    Seq::new(
        n as nat,
        |k: int| if k % 4 == 3 { argb[k - 3] } else { argb[k + 1] },
    )
}

/// Reorder whole ARGB pixels to RGBA: the first `n` bytes of `argb`.
pub fn argb_to_rgba(argb: &Vec<u8>, n: usize) -> (r: Vec<u8>)
    requires
        n <= argb@.len(),
        n % 4 == 0,
    ensures
        r@ == rgba_of(argb@, n as int),
{
    let mut out: Vec<u8> = Vec::new();
    let mut k: usize = 0;
    while k < n
        invariant
            k <= n <= argb@.len(),
            n % 4 == 0,
            k % 4 == 0,
            out@ == rgba_of(argb@, n as int).take(k as int),
        decreases n - k,
    {
        out.push(argb[k + 1]);
        out.push(argb[k + 2]);
        out.push(argb[k + 3]);
        out.push(argb[k]);
        proof {
            let b = k as int;
            assert(b % 4 == 0 && (b + 1) % 4 == 1 && (b + 2) % 4 == 2 && (b + 3) % 4 == 3);
            assert(out@ =~= rgba_of(argb@, n as int).take(k + 4));
        }
        k = k + 4;
    }
    proof {
        assert(rgba_of(argb@, n as int).take(n as int) =~= rgba_of(argb@, n as int));
    }
    out
}

/// Pixel data of a bitmap for display, in RGBA order, or `None` when it has
/// fewer bytes than its size needs.
pub fn pixmap_rgba(pm: &IconPixmap) -> (r: Option<Vec<u8>>)
    requires
        i32::MIN <= pm.width * pm.height <= i32::MAX,
        i32::MIN <= pm.width * pm.height * 4 <= i32::MAX,
    ensures
        match needed_bytes(pm.width, pm.height) {
            Some(n) => if pm.bytes@.len() < n {
                r is None
            } else {
                r matches Some(v) && v@ == rgba_of(pm.bytes@, n)
            },
            None => r is None,
        },
{
    let expected: i32 = pm.width * pm.height * 4;
    if expected < 0 {
        return None;
    }
    let n = expected as usize;
    if pm.bytes.len() < n {
        return None;
    }
    proof {
        assert(n % 4 == 0) by (nonlinear_arith)
            requires
                n == pm.width * pm.height * 4,
        ;
    }
    Some(argb_to_rgba(&pm.bytes, n))
}

} // verus!
