//! What is on screen once a listing is drawn: the row under the cursor, whole.
use vstd::prelude::*;
use crate::app::{mode_of, AppV, Tab};
use crate::event_lines::{cells_text, event_text, tail_lines, tail_text, widths_text, Widths};
use crate::events;
use crate::events::{
    event_selected, events_on_screen, events_settled, tail_filter, EventsV,
};
use crate::laws::{drawing_keeps_the_selection_in_view, events_anchored, quests_anchored};
use crate::layout::{bands, mode_at, mode_lines, Rect, RowMode};
use crate::list::{a_settled_list_shows_its_selection, lemma_passing};
use crate::paint::LineV;
use crate::quest_lines::{heading_above, links_at, listing_text, row_text, rows_text};
use crate::quests;
use crate::quests::{
    filter_of, group_shown, heading_lines, is_ranked, on_screen, passes_filter,
    rank_of, selection, settled_in, QuestsV,
};
use crate::screen::{header_of, screen_of};

verus! {

/// Those lines stand among the others, one below the other and all of them.
pub open spec fn stand_in(part: Seq<LineV>, lines: Seq<LineV>) -> bool {
    exists|k: int| stand_at(part, lines, k)
}

/// Those lines stand among the others from line `k` on.
pub open spec fn stand_at(part: Seq<LineV>, lines: Seq<LineV>, k: int) -> bool {
    0 <= k && k + part.len() <= lines.len() && lines.subrange(k, k + part.len()) == part
}

/// Lines further down stay where they are, and so does what is cut off below
/// them.
proof fn lemma_stand(part: Seq<LineV>, above: Seq<LineV>, lines: Seq<LineV>, k: int, capacity: int)
    requires
        stand_at(part, lines, k),
    ensures
        stand_at(part, above + lines, above.len() + k),
        k + part.len() <= capacity <= lines.len() ==> stand_at(part, lines.take(capacity), k),
{
    let from = above.len() + k;
    assert((above + lines).subrange(from, from + part.len()) =~= lines.subrange(
        k,
        k + part.len(),
    ));
    if k + part.len() <= capacity <= lines.len() {
        assert(lines.take(capacity).subrange(k, k + part.len()) =~= lines.subrange(
            k,
            k + part.len(),
        ));
    }
}

// --------------------------------------------------------------------- quests

/// The headings of the groups below that one; all of them where there is none
/// above.
pub open spec fn headings_below(q: QuestsV, group: Option<u8>) -> int {
    heading_below(q, group, 0) + heading_below(q, group, 1) + heading_below(q, group, 2)
        + heading_below(q, group, 3)
}

/// The heading of a group, where that group is below the other.
pub open spec fn heading_below(q: QuestsV, group: Option<u8>, rank: u8) -> int {
    if group is None || group->0 < rank {
        heading_lines(q, rank)
    } else {
        0
    }
}

/// The row at a place of the screen, as the listing draws it.
pub open spec fn drawn_row(q: QuestsV, mode: RowMode, columns: int, n: int) -> Seq<LineV> {
    let i = on_screen(q)[n];
    row_text(q.rows[i], links_at(q, i), n == q.selected, mode, columns)
}

/// The group of the row at a place of the screen.
pub open spec fn group_at(q: QuestsV, n: int) -> u8 {
    rank_of(q.rows[on_screen(q)[n]].view)
}

/// The groups come in order on screen.
pub open spec fn groups_in_order(q: QuestsV) -> bool {
    forall|i: int, j: int|
        0 <= i < j < on_screen(q).len() ==> #[trigger] group_at(q, i) <= #[trigger] group_at(q, j)
}

/// Filtering a ranked listing keeps its groups in order.
proof fn lemma_groups_in_order(q: QuestsV)
    requires
        is_ranked(q.rows),
    ensures
        groups_in_order(q),
{
    let f = filter_of(q);
    lemma_passing(f.rows.len() as int, |j: int| passes_filter(f, f.rows[j]));
    let vis = on_screen(q);
    assert forall|i: int, j: int| 0 <= i < j < vis.len() implies #[trigger] group_at(q, i)
        <= #[trigger] group_at(q, j) by {
        assert(vis[i] < vis[j]);
    }
}

/// From row `n` on, row `sel` is drawn after at most the rows before it and the
/// headings that are still to come.
proof fn lemma_drawn(
    q: QuestsV,
    mode: RowMode,
    columns: int,
    n: int,
    group: Option<u8>,
    sel: int,
) -> (k: int)
    requires
        groups_in_order(q),
        0 <= n <= sel < on_screen(q).len(),
        group is Some ==> group->0 <= group_at(q, n),
    ensures
        stand_at(drawn_row(q, mode, columns, sel), rows_text(q, mode, columns, n, group), k),
        k <= (sel - n) * mode_lines(mode) + headings_below(q, group),
    decreases sel - n,
{
    let rank = group_at(q, n);
    let m = mode_lines(mode) as int;
    let title = heading_above(rank, group, columns);
    let here = drawn_row(q, mode, columns, n);
    let rest = rows_text(q, mode, columns, n + 1, Some(rank));
    assert(rows_text(q, mode, columns, n, group) == title + here + rest);
    assert(here.len() <= m);
    assert(group_shown(q, rank)) by {
        assert(0 <= n < on_screen(q).len() && rank_of(q.rows[on_screen(q)[n]].view) == rank);
    }
    assert(title.len() + headings_below(q, Some(rank)) <= headings_below(q, group));
    let k = if n == sel {
        assert((title + here + rest).subrange(
            title.len() as int,
            (title.len() + here.len()) as int,
        ) =~= here);
        title.len() as int
    } else {
        assert(group_at(q, n) <= group_at(q, n + 1));
        let below = lemma_drawn(q, mode, columns, n + 1, Some(rank), sel);
        lemma_stand(drawn_row(q, mode, columns, sel), title + here, rest, below, 0);
        assert((sel - n) * m == m + (sel - n - 1) * m) by (nonlinear_arith);
        (title + here).len() + below
    };
    assert(n == sel ==> (sel - n) * m == 0) by (nonlinear_arith);
    k
}

/// On a terminal with room for the group headings and one row, the selected
/// quest is on screen with every line of its row, whatever the filters and
/// wherever the listing was scrolled to.
pub proof fn the_selected_quest_is_drawn_whole(a: AppV, columns: int)
    requires
        quests_anchored(a.quests),
        on_screen(a.quests).len() > 0,
        is_ranked(a.quests.rows),
        a.height - 2 >= headings_below(a.quests, None) + mode_lines(mode_of(a)),
    ensures
        ({
            let q = quests::view_settled(a).quests;
            stand_in(
                row_text(
                    selection(q)->0,
                    links_at(q, on_screen(q)[q.selected as int]),
                    true,
                    mode_of(a),
                    columns,
                ),
                listing_text(q, mode_of(a), columns, a.height - 2),
            )
        }),
{
    let p = quests::page(a);
    let q = settled_in(a.quests, p);
    let mode = mode_of(a);
    let m = mode_lines(mode) as int;
    drawing_keeps_the_selection_in_view(a);
    assert(filter_of(q) == filter_of(a.quests));
    assert(on_screen(q) == on_screen(a.quests));
    assert(q.rows == a.quests.rows);
    lemma_groups_in_order(q);
    assert forall|rank: u8| #[trigger] heading_lines(q, rank) == heading_lines(a.quests, rank) by {
        assert(group_shown(q, rank) == group_shown(a.quests, rank));
    }
    let h = headings_below(q, None);
    assert(h == headings_below(a.quests, None));
    let room = a.height - 2 - h;
    assert(p == room / m) by {
        assert(room / m >= 1) by (nonlinear_arith)
            requires
                room >= m,
                m > 0,
        ;
    }
    assert(p * m <= room) by (nonlinear_arith)
        requires
            p == room / m,
            m > 0,
    ;
    let sel = q.selected as int;
    let off = q.offset as int;
    let k = lemma_drawn(q, mode, columns, off, None, sel);
    assert((sel - off) * m + m <= p * m) by (nonlinear_arith)
        requires
            sel < off + p,
            m > 0,
    ;
    let all = rows_text(q, mode, columns, off, None);
    let part = drawn_row(q, mode, columns, sel);
    assert(part.len() <= m);
    if all.len() > a.height - 2 {
        lemma_stand(part, Seq::empty(), all, k, a.height - 2);
    }
    assert(stand_at(part, listing_text(q, mode, columns, a.height - 2), k));
}

/// A frame with room for the group headings and one row shows the selected quest
/// whole wherever it shows the listing at all, and it shows the listing whenever
/// the detail panel is closed.
pub proof fn a_frame_shows_the_selected_quest(a: AppV, area: Rect)
    requires
        a.tab == Tab::Quests,
        quests_anchored(a.quests),
        on_screen(a.quests).len() > 0,
        is_ranked(a.quests.rows),
        area.width > 0,
        area.height - 2 >= headings_below(a.quests, None) + mode_lines(
            mode_at(area.width, a.rows),
        ),
    ensures
        ({
            let list = screen_of(a, area).body.list;
            &&& list is Some ==> stand_in(
                row_text(
                    selection(a.quests)->0,
                    links_at(a.quests, on_screen(a.quests)[a.quests.selected as int]),
                    true,
                    mode_at(area.width, a.rows),
                    list->0.area.width as int,
                ),
                list->0.lines,
            )
            &&& !a.detail ==> list is Some
        }),
{
    let b = AppV { width: area.width, height: area.height, ..a };
    let c = AppV { tab_bar_width: header_of(b, bands(area).header).bar.width, ..b };
    let d = quests::view_settled(c);
    assert(filter_of(d.quests) == filter_of(a.quests));
    drawing_keeps_the_selection_in_view(c);
    let list = screen_of(a, area).body.list;
    if list is Some {
        the_selected_quest_is_drawn_whole(c, list->0.area.width as int);
    }
}

// --------------------------------------------------------------------- events

/// The event at a place of the screen, as the tail draws it.
pub open spec fn drawn_event(
    e: EventsV,
    w: Widths,
    columns: int,
    per_row: int,
    n: int,
) -> Seq<LineV> {
    event_text(
        cells_text(e.rows[events_on_screen(e)[n]]),
        w,
        e.quest is None,
        n == e.selected,
        columns,
        per_row,
    )
}

/// From row `n` on, row `sel` is drawn right after the rows before it, where they
/// all fit.
proof fn lemma_event_drawn(
    e: EventsV,
    w: Widths,
    columns: int,
    per_row: int,
    n: int,
    room: int,
    first: bool,
    sel: int,
)
    requires
        0 <= n <= sel < events_on_screen(e).len(),
        per_row == 2 || per_row == 3,
        room >= (sel - n + 1) * per_row,
    ensures
        stand_at(
            drawn_event(e, w, columns, per_row, sel),
            tail_text(e, w, columns, per_row, n, room, first),
            (sel - n) * per_row,
        ),
    decreases sel - n,
{
    let here = drawn_event(e, w, columns, per_row, n);
    let rest = tail_text(e, w, columns, per_row, n + 1, room - per_row, false);
    assert(here.len() == per_row);
    assert((sel - n + 1) * per_row == per_row + (sel - n) * per_row) by (nonlinear_arith);
    assert((sel - n) * per_row >= 0) by (nonlinear_arith)
        requires
            sel >= n,
            per_row > 0,
    ;
    assert(tail_text(e, w, columns, per_row, n, room, first) == here + rest);
    if n == sel {
        assert((here + rest).subrange(0, here.len() as int) =~= here);
        assert((sel - n) * per_row == 0) by (nonlinear_arith)
            requires
                sel == n,
        ;
    } else {
        assert((sel - n) * per_row == per_row + (sel - n - 1) * per_row) by (nonlinear_arith);
        lemma_event_drawn(e, w, columns, per_row, n + 1, room - per_row, false, sel);
        lemma_stand(
            drawn_event(e, w, columns, per_row, sel),
            here,
            rest,
            (sel - n - 1) * per_row,
            0,
        );
    }
}

/// On a terminal with room for one event, the selected one is on screen with
/// every line of it, whatever the filters and wherever the tail was scrolled to.
pub proof fn the_selected_event_is_drawn_whole(a: AppV, columns: int)
    requires
        events_anchored(a.events),
        events_on_screen(a.events).len() > 0,
        a.height - 2 >= mode_lines(mode_of(a)),
    ensures
        ({
            let e = events::view_settled(a).events;
            let per_row = mode_lines(mode_of(a)) as int;
            &&& event_selected(e) == event_selected(a.events)
            &&& stand_in(
                event_text(
                    cells_text(event_selected(e)->0),
                    widths_text(e, e.quest is None, events_on_screen(e).len() as int),
                    e.quest is None,
                    true,
                    columns,
                    per_row,
                ),
                tail_lines(e, columns, a.height - 2, per_row),
            )
        }),
{
    let p = events::page(a);
    let e = events_settled(a.events, p);
    let m = mode_lines(mode_of(a)) as int;
    let n = events_on_screen(a.events).len() as int;
    assert(tail_filter(e) == tail_filter(a.events));
    assert(events_on_screen(e) == events_on_screen(a.events));
    a_settled_list_shows_its_selection(
        a.events.selected as int,
        a.events.offset as int,
        p,
        n,
    );
    let room = a.height - 2;
    assert(room / m >= 1) by (nonlinear_arith)
        requires
            room >= m,
            m > 0,
    ;
    assert(p * m <= room) by (nonlinear_arith)
        requires
            p == room / m,
            m > 0,
    ;
    let sel = e.selected as int;
    let off = e.offset as int;
    assert((sel - off + 1) * m <= p * m) by (nonlinear_arith)
        requires
            sel < off + p,
            m > 0,
    ;
    let w = widths_text(e, e.quest is None, n);
    lemma_event_drawn(e, w, columns, m, off, room, true, sel);
    let all = tail_text(e, w, columns, m, off, room, true);
    let part = drawn_event(e, w, columns, m, sel);
    assert((sel - off + 1) * m == (sel - off) * m + m) by (nonlinear_arith);
    assert(part.len() == m);
    if all.len() > room {
        lemma_stand(part, Seq::empty(), all, (sel - off) * m, room);
    }
    assert(stand_at(part, tail_lines(e, columns, room, m), (sel - off) * m));
}

/// The columns depend on what is on screen alone.
proof fn lemma_widths(e: EventsV, f: EventsV, n: int)
    requires
        e.rows == f.rows,
        events_on_screen(e) == events_on_screen(f),
    ensures
        widths_text(e, e.quest is None, n) == widths_text(f, e.quest is None, n),
    decreases n,
{
    if n > 0 {
        lemma_widths(e, f, n - 1);
    }
}

/// A frame with room for one event shows the selected one whole wherever it shows
/// the tail at all, and it shows the tail whenever the detail panel is closed.
pub proof fn a_frame_shows_the_selected_event(a: AppV, area: Rect)
    requires
        a.tab == Tab::Events,
        events_anchored(a.events),
        events_on_screen(a.events).len() > 0,
        area.width > 0,
        area.height - 2 >= mode_lines(mode_at(area.width, a.rows)),
    ensures
        ({
            let list = screen_of(a, area).body.list;
            &&& list is Some ==> stand_in(
                event_text(
                    cells_text(event_selected(a.events)->0),
                    widths_text(
                        a.events,
                        a.events.quest is None,
                        events_on_screen(a.events).len() as int,
                    ),
                    a.events.quest is None,
                    true,
                    list->0.area.width as int,
                    mode_lines(mode_at(area.width, a.rows)) as int,
                ),
                list->0.lines,
            )
            &&& !a.detail ==> list is Some
        }),
{
    let b = AppV { width: area.width, height: area.height, ..a };
    let c = AppV { tab_bar_width: header_of(b, bands(area).header).bar.width, ..b };
    let d = events::view_settled(c);
    assert(tail_filter(d.events) == tail_filter(a.events));
    lemma_widths(a.events, d.events, events_on_screen(a.events).len() as int);
    let list = screen_of(a, area).body.list;
    if list is Some {
        the_selected_event_is_drawn_whole(c, list->0.area.width as int);
    }
}

} // verus!
