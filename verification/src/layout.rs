//! Layout arithmetic: functions of a width, a rectangle or a text, with no
//! terminal behind them.
use unicode_segmentation::UnicodeSegmentation;
use unicode_width::UnicodeWidthStr;
use vstd::prelude::*;
use vstd::string::*;
use crate::text::{concat, owned, texts};

verus! {

/// At or above this width a quest row fits on two lines.
pub const WIDE_COLS: u16 = 100;

/// Below this width two lines no longer fit and rows go to three.
pub const NARROW_COLS: u16 = 70;

/// The mark that says a text was cut.
pub const ELLIPSIS: char = '…';

/// How many lines one list row occupies.
#[derive(Debug, Clone, Copy, PartialEq, Eq, Structural)]
pub enum RowMode {
    Two,
    Three,
}

/// The lines of a row.
pub open spec fn mode_lines(mode: RowMode) -> u16 {
    match mode {
        RowMode::Two => 2,
        RowMode::Three => 3,
    }
}

/// What the configured number of rows asks for.
pub open spec fn configured_mode(rows: u8) -> RowMode {
    if rows >= 3 {
        RowMode::Three
    } else {
        RowMode::Two
    }
}

/// What a width and a configuration come to.
pub open spec fn mode_at(width: u16, configured: u8) -> RowMode {
    if width >= WIDE_COLS {
        RowMode::Two
    } else if width < NARROW_COLS {
        RowMode::Three
    } else {
        configured_mode(configured)
    }
}

impl RowMode {
    /// How many lines a row takes.
    pub fn lines(self) -> (r: u16)
        ensures
            r == mode_lines(self),
    {
        match self {
            RowMode::Two => 2,
            RowMode::Three => 3,
        }
    }

    /// Three or more is three, anything less is two.
    pub fn from_config(rows: u8) -> (r: RowMode)
        ensures
            r == configured_mode(rows),
    {
        if rows >= 3 {
            RowMode::Three
        } else {
            RowMode::Two
        }
    }
}

/// A wide terminal is always two-line and a narrow one always three-line; in
/// between the configuration decides.
pub fn row_mode(width: u16, configured: u8) -> (r: RowMode)
    ensures
        r == mode_at(width, configured),
{
    if width >= WIDE_COLS {
        RowMode::Two
    } else if width < NARROW_COLS {
        RowMode::Three
    } else {
        RowMode::from_config(configured)
    }
}

/// A rectangle of terminal cells.
#[derive(Debug, Clone, Copy, PartialEq, Eq, Structural)]
pub struct Rect {
    pub x: u16,
    pub y: u16,
    pub width: u16,
    pub height: u16,
}

impl Rect {
    /// The rectangle with those corners.
    pub fn new(x: u16, y: u16, width: u16, height: u16) -> (r: Rect)
        ensures
            r == (Rect { x, y, width, height }),
    {
        Rect { x, y, width, height }
    }
}

/// The cell lies in the rectangle.
pub open spec fn holds_cell(r: Rect, x: int, y: int) -> bool {
    r.x <= x < r.x + r.width && r.y <= y < r.y + r.height
}

/// The three fixed bands every tab renders into.
#[derive(Debug, Clone, Copy, PartialEq, Eq, Structural)]
pub struct Chrome {
    /// Tab bar plus machine name.
    pub header: Rect,
    /// The active tab's own area.
    pub body: Rect,
    /// One-line hint bar.
    pub status: Rect,
}

/// Where the status band starts, counted from the top of the area.
pub open spec fn status_offset(height: u16) -> int {
    if height >= 2 {
        height - 1
    } else {
        height as int
    }
}

/// The bands of an area: the header takes the first line, the status bar the
/// last of what remains, the body the rest.
pub open spec fn bands(area: Rect) -> Chrome {
    let header: u16 = if area.height >= 1 {
        1
    } else {
        0
    };
    let status: u16 = if area.height >= 2 {
        1
    } else {
        0
    };
    Chrome {
        header: Rect { height: header, ..area },
        body: Rect {
            y: (area.y + header) as u16,
            height: (area.height - header - status) as u16,
            ..area
        },
        status: Rect { y: (area.y + status_offset(area.height)) as u16, height: status, ..area },
    }
}

/// Cuts an area into its bands. On a terminal too short for all three the tab
/// bar is the one that survives.
pub fn chrome(area: Rect) -> (r: Chrome)
    requires
        area.y + status_offset(area.height) <= u16::MAX,
    ensures
        r == bands(area),
{
    let header_h: u16 = if area.height >= 1 {
        1
    } else {
        0
    };
    let status_h: u16 = if area.height >= 2 {
        1
    } else {
        0
    };
    let body_h: u16 = area.height - header_h - status_h;
    Chrome {
        header: Rect { x: area.x, y: area.y, width: area.width, height: header_h },
        body: Rect { x: area.x, y: area.y + header_h, width: area.width, height: body_h },
        status: Rect {
            x: area.x,
            y: area.y + header_h + body_h,
            width: area.width,
            height: status_h,
        },
    }
}

/// Every cell of the area lies in exactly one band, and no band reaches beyond
/// the area.
pub proof fn bands_partition_the_area(area: Rect, x: int, y: int)
    requires
        area.y + status_offset(area.height) <= u16::MAX,
    ensures
        holds_cell(area, x, y) <==> holds_cell(bands(area).header, x, y) || holds_cell(
            bands(area).body,
            x,
            y,
        ) || holds_cell(bands(area).status, x, y),
        !(holds_cell(bands(area).header, x, y) && holds_cell(bands(area).body, x, y)),
        !(holds_cell(bands(area).header, x, y) && holds_cell(bands(area).status, x, y)),
        !(holds_cell(bands(area).body, x, y) && holds_cell(bands(area).status, x, y)),
{
}

/// The tab bar is the band that survives: it is there on any terminal that has
/// a line at all, and the body is the first to go.
pub proof fn the_header_survives(area: Rect)
    ensures
        area.height > 0 ==> bands(area).header.height == 1,
        bands(area).body.height > 0 ==> bands(area).status.height == 1,
        bands(area).header.height + bands(area).body.height + bands(area).status.height
            == area.height,
{
}

/// A third of a row, rounded up.
pub open spec fn third(total: u16) -> int {
    (total + 2) / 3
}

/// How wide a right-hand segment may be.
pub open spec fn segment(total: u16, want: u16) -> u16 {
    if want <= total - third(total) {
        want
    } else {
        (total - third(total)) as u16
    }
}

/// How wide a right-hand chrome segment (the machine label, the key hint) may
/// be on a row `total` columns wide. The left band always keeps a third.
pub fn right_segment(total: u16, want: u16) -> (r: u16)
    ensures
        r == segment(total, want),
{
    let left: u16 = ((total as u32 + 2) / 3) as u16;
    let most: u16 = total - left;
    if want <= most {
        want
    } else {
        most
    }
}

/// Whatever the right-hand segment asks for, the left band keeps a third of the
/// row, and where there is room for both it gets exactly what it asked for.
pub proof fn right_segment_never_starves_the_left(total: u16, want: u16)
    ensures
        total - segment(total, want) >= third(total),
        3 * (total - segment(total, want)) >= total,
        segment(total, want) <= want,
        want + third(total) <= total ==> segment(total, want) == want,
{
}

/// The smaller of two numbers of cells.
pub open spec fn least(a: u16, b: u16) -> u16 {
    if a <= b {
        a
    } else {
        b
    }
}

/// The box of that size in the middle of an area, or the area's own extent
/// where the box is larger.
pub open spec fn middle(area: Rect, w: u16, h: u16) -> Rect {
    let width = least(w, area.width);
    let height = least(h, area.height);
    Rect {
        x: (area.x + (area.width - width) / 2) as u16,
        y: (area.y + (area.height - height) / 2) as u16,
        width,
        height,
    }
}

/// A `w`×`h` box centred in `area` and clamped to it.
pub fn centered(area: Rect, w: u16, h: u16) -> (r: Rect)
    requires
        area.x + (area.width - least(w, area.width)) / 2 <= u16::MAX,
        area.y + (area.height - least(h, area.height)) / 2 <= u16::MAX,
    ensures
        r == middle(area, w, h),
{
    let width: u16 = if w <= area.width {
        w
    } else {
        area.width
    };
    let height: u16 = if h <= area.height {
        h
    } else {
        area.height
    };
    Rect {
        x: area.x + (area.width - width) / 2,
        y: area.y + (area.height - height) / 2,
        width,
        height,
    }
}

/// A centred box lies inside its area, and its margins differ by one cell at
/// most.
pub proof fn centered_stays_inside(area: Rect, w: u16, h: u16, x: int, y: int)
    requires
        area.x + area.width <= u16::MAX,
        area.y + area.height <= u16::MAX,
    ensures
        holds_cell(middle(area, w, h), x, y) ==> holds_cell(area, x, y),
        ({
            let m = middle(area, w, h);
            let left = m.x - area.x;
            let right = (area.x + area.width) - (m.x + m.width);
            let top = m.y - area.y;
            let bottom = (area.y + area.height) - (m.y + m.height);
            &&& 0 <= left <= right <= left + 1
            &&& 0 <= top <= bottom <= top + 1
        }),
{
}

/// A row's left band and its right-hand segment.
pub open spec fn cut_right(area: Rect, want: u16) -> (Rect, Rect) {
    let right = segment(area.width, want);
    (
        Rect { width: (area.width - right) as u16, ..area },
        Rect { x: (area.x + (area.width - right)) as u16, width: right, ..area },
    )
}

/// Cuts a row into its left band and a right-hand segment.
pub fn split_right(area: Rect, want: u16) -> (r: (Rect, Rect))
    requires
        area.x + area.width <= u16::MAX,
    ensures
        r == cut_right(area, want),
{
    let right = right_segment(area.width, want);
    let left: u16 = area.width - right;
    (
        Rect { x: area.x, y: area.y, width: left, height: area.height },
        Rect { x: area.x + left, y: area.y, width: right, height: area.height },
    )
}

/// An area without its first column.
pub open spec fn indented(area: Rect) -> Rect {
    Rect {
        x: (area.x + 1) as u16,
        width: if area.width >= 1 {
            (area.width - 1) as u16
        } else {
            0
        },
        ..area
    }
}

/// An area without its first column.
pub fn inset(area: Rect) -> (r: Rect)
    requires
        area.x < u16::MAX,
    ensures
        r == indented(area),
{
    let width: u16 = if area.width >= 1 {
        area.width - 1
    } else {
        0
    };
    Rect { x: area.x + 1, y: area.y, width, height: area.height }
}

/// Where the listing and the detail panel go: side by side where there is room
/// for both, and the panel alone where there is not.
pub open spec fn listing_and_panel(area: Rect, open: bool) -> (Option<Rect>, Option<Rect>) {
    if !open {
        (Some(area), None)
    } else if area.width < WIDE_COLS {
        (None, Some(area))
    } else {
        let left = (area.width / 2) as u16;
        (
            Some(Rect { width: left, ..area }),
            Some(Rect { x: (area.x + left) as u16, width: (area.width - left) as u16, ..area }),
        )
    }
}

/// Where the listing and the detail panel go.
pub fn panel_split(area: Rect, open: bool) -> (r: (Option<Rect>, Option<Rect>))
    requires
        area.x + area.width <= u16::MAX,
    ensures
        r == listing_and_panel(area, open),
{
    if !open {
        (Some(area), None)
    } else if area.width < WIDE_COLS {
        (None, Some(area))
    } else {
        let left: u16 = area.width / 2;
        (
            Some(Rect { x: area.x, y: area.y, width: left, height: area.height }),
            Some(
                Rect {
                    x: area.x + left,
                    y: area.y,
                    width: area.width - left,
                    height: area.height,
                },
            ),
        )
    }
}

/// The listing and the panel share an area without overlapping, and one of them
/// is always there.
pub proof fn the_panel_and_the_listing_share_the_area(area: Rect, open: bool, x: int, y: int)
    requires
        area.x + area.width <= u16::MAX,
    ensures
        ({
            let (list, panel) = listing_and_panel(area, open);
            let in_list = list is Some && holds_cell(list->0, x, y);
            let in_panel = panel is Some && holds_cell(panel->0, x, y);
            &&& holds_cell(area, x, y) <==> in_list || in_panel
            &&& !(in_list && in_panel)
            &&& panel is Some <==> open
        }),
{
}

/// What a bordered box with one column of padding leaves inside.
pub open spec fn box_inside(area: Rect) -> (int, int) {
    (
        if area.width >= 4 {
            area.width - 4
        } else {
            0
        },
        if area.height >= 2 {
            area.height - 2
        } else {
            0
        },
    )
}

/// The columns and lines inside a bordered box with one column of padding.
pub fn inside(area: Rect) -> (r: (u16, u16))
    ensures
        r.0 == box_inside(area).0,
        r.1 == box_inside(area).1,
{
    let columns: u16 = if area.width >= 4 {
        area.width - 4
    } else {
        0
    };
    let lines: u16 = if area.height >= 2 {
        area.height - 2
    } else {
        0
    };
    (columns, lines)
}

// ------------------------------------------------------------ measuring text

/// The columns a text takes on a terminal.
pub uninterp spec fn display_width(s: Seq<char>) -> usize;

/// Printable ASCII and nothing else.
pub open spec fn is_plain(s: Seq<char>) -> bool {
    forall|i: int| 0 <= i < s.len() ==> ' ' <= #[trigger] s[i] && s[i] <= '~'
}

/// Display width of a string in terminal cells, as `UnicodeWidthStr::width`
/// measures it: a function of the text alone. No character adds more than three
/// columns, a text of printable ASCII takes one column per character, and an
/// ellipsis by itself takes one. The string form rather than a sum over
/// characters, since the two disagree on what is painted as one glyph.
#[verifier::external_body]
pub fn width(s: &str) -> (r: usize)
    ensures
        r == display_width(s@),
        r <= 3 * s@.len(),
        is_plain(s@) ==> r == s@.len(),
        s@ == seq![ELLIPSIS] ==> r == 1,
{
    UnicodeWidthStr::width(s)
}

/// The extended grapheme clusters of a text.
pub uninterp spec fn grapheme_clusters(s: Seq<char>) -> Seq<Seq<char>>;

/// The extended grapheme clusters of `s`, as `UnicodeSegmentation::graphemes`
/// hands them out: one after the other they are the text again, and none of
/// them is empty.
#[verifier::external_body]
pub(crate) fn clusters(s: &str) -> (r: Vec<String>)
    ensures
        texts(r@) == grapheme_clusters(s@),
        texts(r@).flatten() == s@,
        forall|i: int| 0 <= i < r.len() ==> (#[trigger] r[i])@.len() > 0,
{
    s.graphemes(true).map(|g: &str| g.to_string()).collect()
}

/// A text of at most `max` characters: what is longer ends in the mark.
pub open spec fn capped(s: Seq<char>, max: int) -> Seq<char> {
    if s.len() <= max {
        s
    } else if max <= 0 {
        Seq::empty()
    } else {
        s.take(max - 1).push(ELLIPSIS)
    }
}

/// Caps a text at `max` characters, with an ellipsis where anything was cut. It
/// bounds how much of a text is shown at all; fitting it into columns is
/// [`truncate`]'s.
pub fn cap(s: &str, max: usize) -> (r: String)
    ensures
        r@ == capped(s@, max as int),
        r@.len() <= max,
{
    if s.unicode_len() <= max {
        return owned(s);
    }
    if max == 0 {
        return String::new();
    }
    let mut out = owned(s.substring_char(0, max - 1));
    proof {
        assert(out@ =~= s@.take(max - 1));
    }
    out.push(ELLIPSIS);
    out
}

/// `kept` and as many of the clusters behind it as fit into `max` columns together
/// with the mark, each measured with everything before it: widths need not add up
/// across clusters. A cluster without a width travels with the one before it, and
/// is dropped where there is none.
pub open spec fn fitting(parts: Seq<Seq<char>>, kept: Seq<char>, max: int) -> Seq<char>
    decreases parts.len(),
{
    if parts.len() == 0 {
        kept
    } else if kept.len() == 0 && display_width(parts[0]) == 0 {
        fitting(parts.drop_first(), kept, max)
    } else if display_width((kept + parts[0]).push(ELLIPSIS)) <= max {
        fitting(parts.drop_first(), kept + parts[0], max)
    } else {
        kept
    }
}

/// A text cut to `max` columns.
pub open spec fn truncated(s: Seq<char>, max: int) -> Seq<char> {
    if display_width(s) <= max {
        s
    } else if max <= 0 {
        Seq::empty()
    } else {
        fitting(grapheme_clusters(s), Seq::empty(), max).push(ELLIPSIS)
    }
}

/// What `fitting` adds keeps within the columns.
proof fn lemma_fitting(parts: Seq<Seq<char>>, kept: Seq<char>, max: int)
    requires
        display_width(kept.push(ELLIPSIS)) <= max,
    ensures
        display_width(fitting(parts, kept, max).push(ELLIPSIS)) <= max,
    decreases parts.len(),
{
    if parts.len() > 0 {
        if kept.len() == 0 && display_width(parts[0]) == 0 {
            lemma_fitting(parts.drop_first(), kept, max);
        } else if display_width((kept + parts[0]).push(ELLIPSIS)) <= max {
            lemma_fitting(parts.drop_first(), kept + parts[0], max);
        }
    }
}

/// The mark by itself.
pub(crate) fn mark() -> (r: String)
    ensures
        r@ == seq![ELLIPSIS],
{
    let mut out = String::new();
    out.push(ELLIPSIS);
    proof {
        assert(out@ =~= seq![ELLIPSIS]);
    }
    out
}

/// `kept` and as many of the clusters from place `from` on as fit behind it,
/// together with the mark, which is put at the end.
pub(crate) fn fill(parts: &Vec<String>, from: usize, kept: String, max: usize) -> (r: String)
    requires
        from <= parts.len(),
        display_width(kept@.push(ELLIPSIS)) <= max,
    ensures
        r@ == fitting(texts(parts@).skip(from as int), kept@, max as int).push(ELLIPSIS),
        display_width(r@) <= max,
{
    let ghost all = texts(parts@);
    let ghost whole = fitting(all.skip(from as int), kept@, max as int);
    let mut out = kept;
    let mut i: usize = from;
    while i < parts.len()
        invariant_except_break
            fitting(all.skip(i as int), out@, max as int) == whole,
        invariant
            i <= parts.len(),
            all == texts(parts@),
        ensures
            out@ == whole,
        decreases parts.len() - i,
    {
        proof {
            assert(all.skip(i as int)[0] == parts[i as int]@);
            assert(all.skip(i as int).drop_first() =~= all.skip(i as int + 1));
        }
        if !(out.as_str().is_empty() && width(parts[i].as_str()) == 0) {
            let grown = concat(out.as_str(), parts[i].as_str());
            let mut marked = grown.clone();
            marked.push(ELLIPSIS);
            if width(marked.as_str()) > max {
                break;
            }
            out = grown;
        }
        i += 1;
        proof {
            if i == parts.len() {
                assert(all.skip(i as int) =~= Seq::empty());
            }
        }
    }
    proof {
        lemma_fitting(all.skip(from as int), kept@, max as int);
    }
    out.push(ELLIPSIS);
    out
}

/// Truncates to `max` display columns, with an ellipsis where anything was cut.
///
/// Column-aware, so CJK and emoji do not overflow, and the cut falls between
/// grapheme clusters: a mark stays with the character it modifies.
pub fn truncate(s: &str, max: usize) -> (r: String)
    ensures
        r@ == truncated(s@, max as int),
        max >= 1 ==> display_width(r@) <= max,
{
    if width(s) <= max {
        return owned(s);
    }
    if width(mark().as_str()) > max {
        return String::new();
    }
    let parts = clusters(s);
    let none = String::new();
    proof {
        assert(none@.push(ELLIPSIS) =~= seq![ELLIPSIS]);
        assert(texts(parts@).skip(0) =~= texts(parts@));
    }
    fill(&parts, 0, none, max)
}

/// A cut text is some of the clusters, whole and one after the other, and the
/// mark: `fitting` adds clusters and never a part of one.
pub proof fn truncation_splits_no_cluster(parts: Seq<Seq<char>>, kept: Seq<char>, max: int) -> (r: (
    int,
    int,
))
    ensures
        0 <= r.0 <= r.1 <= parts.len(),
        kept.len() > 0 ==> r.0 == 0,
        fitting(parts, kept, max) == kept + parts.subrange(r.0, r.1).flatten(),
    decreases parts.len(),
{
    let rest = parts.drop_first();
    if parts.len() > 0 && kept.len() == 0 && display_width(parts[0]) == 0 {
        let (a, b) = truncation_splits_no_cluster(rest, kept, max);
        assert(rest.subrange(a, b) =~= parts.subrange(a + 1, b + 1));
        (a + 1, b + 1)
    } else if parts.len() > 0 && display_width((kept + parts[0]).push(ELLIPSIS)) <= max {
        let grown = kept + parts[0];
        let (a, b) = truncation_splits_no_cluster(rest, grown, max);
        if a == 0 {
            let more = rest.subrange(0, b);
            assert(parts.subrange(0, b + 1) =~= seq![parts[0]] + more);
            lemma_flatten_first(parts[0], more);
            assert(kept + (parts[0] + more.flatten()) =~= grown + more.flatten());
            (0, b + 1)
        } else {
            // Nothing is kept yet, and the cluster in front is empty.
            assert(rest.subrange(a, b) =~= parts.subrange(a + 1, b + 1));
            assert(grown =~= kept);
            (a + 1, b + 1)
        }
    } else {
        assert(parts.subrange(0, 0) =~= Seq::empty());
        assert(kept + Seq::<Seq<char>>::empty().flatten() =~= kept);
        (0, 0)
    }
}

/// Flattening what begins with `x` begins with `x`.
pub(crate) proof fn lemma_flatten_first(x: Seq<char>, rest: Seq<Seq<char>>)
    ensures
        (seq![x] + rest).flatten() == x + rest.flatten(),
{
    assert((seq![x] + rest).drop_first() =~= rest);
    assert((seq![x] + rest).first() == x);
}

/// A text that fits is left alone, and one that does not ends in an ellipsis,
/// unless there is not even room for that.
pub proof fn truncation_leaves_what_fits(s: Seq<char>, max: int)
    requires
        max >= 0,
    ensures
        display_width(s) <= max ==> truncated(s, max) == s,
        display_width(s) > max && max > 0 ==> truncated(s, max).len() > 0 && truncated(
            s,
            max,
        ).last() == ELLIPSIS,
        display_width(s) > max && max == 0 ==> truncated(s, max).len() == 0,
{
}

} // verus!
