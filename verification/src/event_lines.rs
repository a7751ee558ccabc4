//! What an event looks like: its row in the tail and its detail panel.
use vstd::prelude::*;
use vstd::string::*;
use crate::events::{events_on_screen, is_stale, EventsV, State};
use crate::json::{json_pretty, pretty};
use crate::layout::{cap, capped, display_width, truncate, truncated, width};
use crate::list::places;
use crate::model::EventRow;
use crate::paint::{lines_view, Line, LineV, Style};
use crate::quest_lines::{all_within, bold, dim, plain, put, put_all, INDENT};
use crate::text::{
    chars_of, concat, concat3, control, integer, is_control, lines, lines_of, opt_text, owned,
    repeat, repeated, same, signed, texts, trim_end, trim_tail,
};

verus! {

/// Columns the quest slug may take before it is cut.
pub const QUEST_COLS: usize = 20;

/// The same for a session label.
pub const SESSION_COLS: usize = 14;

/// And for a kind.
pub const KIND_COLS: usize = 22;

/// Payload text kept in a row. The panel has the rest.
pub const PAYLOAD_COLS: usize = 200;

/// What stands in for a control character.
pub const NEUTRAL: char = '\u{fffd}';

/// A text with its control characters replaced.
pub open spec fn sanitized(s: Seq<char>) -> Seq<char> {
    Seq::new(
        s.len(),
        |i: int|
            if is_control(s[i]) {
                NEUTRAL
            } else {
                s[i]
            },
    )
}

/// Event payloads are text that others wrote, on a raw-mode terminal. Control
/// characters are replaced rather than dropped: the row says something was
/// there, and no escape sequence reaches the terminal.
pub fn sanitize(text: &str) -> (r: String)
    ensures
        r@ == sanitized(text@),
{
    let chars = chars_of(text);
    let mut out = String::new();
    let mut i: usize = 0;
    while i < chars.len()
        invariant
            i <= chars.len(),
            out@ =~= sanitized(chars@).take(i as int),
        decreases chars.len() - i,
    {
        if control(chars[i]) {
            out.push(NEUTRAL);
        } else {
            out.push(chars[i]);
        }
        i += 1;
    }
    proof {
        assert(sanitized(chars@).take(chars.len() as int) =~= sanitized(chars@));
    }
    out
}

/// Nothing sanitized holds a control character, and what held none is left
/// alone.
pub proof fn sanitized_text_is_harmless(s: Seq<char>)
    ensures
        sanitized(s).len() == s.len(),
        forall|i: int| 0 <= i < s.len() ==> !is_control(#[trigger] sanitized(s)[i]),
        (forall|i: int| 0 <= i < s.len() ==> !is_control(#[trigger] s[i])) ==> sanitized(s) == s,
        sanitized(sanitized(s)) == sanitized(s),
{
    if forall|i: int| 0 <= i < s.len() ==> !is_control(#[trigger] s[i]) {
        assert(sanitized(s) =~= s);
    }
    assert(sanitized(sanitized(s)) =~= sanitized(s)) by {
        assert forall|i: int| 0 <= i < s.len() implies sanitized(sanitized(s))[i]
            == sanitized(s)[i] by {
            assert(!is_control(sanitized(s)[i]));
        }
    }
}

/// One column's worth of text.
pub open spec fn cell_text(s: Seq<char>, columns: int) -> Seq<char> {
    truncated(sanitized(s), columns)
}

/// One column's worth of text: control characters neutralised, then cut. In that
/// order, so that what is measured is what is drawn.
pub fn cell(text: &str, columns: usize) -> (r: String)
    ensures
        r@ == cell_text(text@, columns as int),
        columns >= 1 ==> display_width(r@) <= columns,
{
    truncate(sanitize(text).as_str(), columns)
}

// ------------------------------------------------------------------ one row

/// What a row says, column by column.
#[derive(Debug, Clone, PartialEq, Eq)]
pub struct Cells {
    pub age: String,
    pub quest: String,
    pub session: String,
    pub kind: String,
    pub payload: String,
}

/// The columns of a row as values.
pub ghost struct CellsV {
    pub age: Seq<char>,
    pub quest: Seq<char>,
    pub session: Seq<char>,
    pub kind: Seq<char>,
    pub payload: Seq<char>,
}

impl View for Cells {
    type V = CellsV;

    open spec fn view(&self) -> CellsV {
        CellsV {
            age: self.age@,
            quest: self.quest@,
            session: self.session@,
            kind: self.kind@,
            payload: self.payload@,
        }
    }
}

/// The columns of an event.
pub open spec fn cells_text(row: EventRow) -> CellsV {
    CellsV {
        age: row.event.age@,
        quest: cell_text(row.quest_slug@, QUEST_COLS as int),
        session: cell_text(row.session@, SESSION_COLS as int),
        kind: cell_text(row.event.kind@, KIND_COLS as int),
        payload: cell_text(
            capped(row.event.payload_line@, PAYLOAD_COLS as int),
            PAYLOAD_COLS as int,
        ),
    }
}

/// The columns of an event, each sanitized and cut once.
pub fn cells_of(row: &EventRow) -> (r: Cells)
    ensures
        r@ == cells_text(*row),
{
    Cells {
        age: row.event.age.clone(),
        quest: cell(row.quest_slug.as_str(), QUEST_COLS),
        session: cell(row.session.as_str(), SESSION_COLS),
        kind: cell(row.event.kind.as_str(), KIND_COLS),
        // Capped in characters, like the payloads of the panel, and then in columns.
        payload: cell(cap(row.event.payload_line.as_str(), PAYLOAD_COLS).as_str(), PAYLOAD_COLS),
    }
}

/// How wide each aligned column is.
#[derive(Debug, Clone, Copy, PartialEq, Eq, Structural)]
pub struct Widths {
    pub age: usize,
    pub quest: usize,
    pub session: usize,
}

/// The larger of two.
pub open spec fn wider(a: usize, b: usize) -> usize {
    if a >= b {
        a
    } else {
        b
    }
}

/// The widest cell of each column among the first `n` visible rows; the quest
/// counts only where more than one can show up.
pub open spec fn widths_text(e: EventsV, across: bool, n: int) -> Widths
    decreases n,
{
    if n <= 0 {
        Widths { age: 0, quest: 0, session: 0 }
    } else {
        let before = widths_text(e, across, n - 1);
        let c = cells_text(e.rows[events_on_screen(e)[n - 1]]);
        Widths {
            age: wider(before.age, display_width(c.age)),
            quest: wider(
                before.quest,
                if across {
                    display_width(c.quest)
                } else {
                    0
                },
            ),
            session: wider(before.session, display_width(c.session)),
        }
    }
}

fn wider_of(a: usize, b: usize) -> (r: usize)
    ensures
        r == wider(a, b),
{
    if a >= b {
        a
    } else {
        b
    }
}

/// `s` with blanks behind it up to `want` columns.
pub open spec fn padded(s: Seq<char>, want: int) -> Seq<char> {
    if want > display_width(s) {
        s + repeated(' ', (want - display_width(s)) as nat)
    } else {
        s
    }
}

/// Right-pads to `want` display columns, which is not the same as characters.
pub fn pad(s: &str, want: usize) -> (r: String)
    ensures
        r@ == padded(s@, want as int),
{
    let used = width(s);
    if want > used {
        concat(s, repeat(' ', want - used).as_str())
    } else {
        owned(s)
    }
}

/// The first line of a row, before it is cut.
pub open spec fn event_head(c: CellsV, w: Widths, across: bool, selected: bool, three: bool) -> Seq<
    char,
> {
    (if selected {
        "\u{25b8} "@
    } else {
        "  "@
    }) + padded(c.age, w.age as int) + " "@ + (if across {
        padded(c.quest, w.quest as int) + " "@
    } else {
        Seq::empty()
    }) + padded(c.session, w.session as int) + (if three {
        Seq::empty()
    } else {
        " "@ + c.kind
    })
}

/// One event: when, where and what kind, with the payload underneath; on a
/// narrow terminal the kind moves to a third line. Every line of the selected
/// row carries the cursor's style.
pub open spec fn event_text(
    c: CellsV,
    w: Widths,
    across: bool,
    selected: bool,
    columns: int,
    per_row: int,
) -> Seq<LineV> {
    let style = if selected {
        Style::Selected
    } else {
        Style::Plain
    };
    let three = per_row >= 3;
    seq![
        LineV {
            text: truncated(trim_end(event_head(c, w, across, selected, three)), columns),
            style,
        },
        LineV { text: truncated(INDENT@ + c.payload, columns), style },
    ] + (if three {
        seq![
            LineV {
                text: truncated(INDENT@ + c.kind, columns),
                style: if selected {
                    Style::Selected
                } else {
                    Style::Dim
                },
            },
        ]
    } else {
        Seq::empty()
    })
}

/// One event of the tail.
pub fn row_lines(
    c: &Cells,
    w: &Widths,
    across: bool,
    selected: bool,
    columns: usize,
    per_row: usize,
) -> (r: Vec<Line>)
    ensures
        lines_view(r@) == event_text(c@, *w, across, selected, columns as int, per_row as int),
        columns >= 1 ==> all_within(lines_view(r@), columns as int),
{
    let style = if selected {
        Style::Selected
    } else {
        Style::Plain
    };
    let three = per_row >= 3;
    let mut head = owned(
        if selected {
            "\u{25b8} "
        } else {
            "  "
        },
    );
    head.append(pad(c.age.as_str(), w.age).as_str());
    head.append(" ");
    let ghost a = head@;
    if across {
        let quest = concat(pad(c.quest.as_str(), w.quest).as_str(), " ");
        head.append(quest.as_str());
    } else {
        proof {
            assert(a + Seq::<char>::empty() =~= a);
        }
    }
    head.append(pad(c.session.as_str(), w.session).as_str());
    let ghost b = head@;
    if !three {
        let kind = concat(" ", c.kind.as_str());
        head.append(kind.as_str());
    } else {
        proof {
            assert(b + Seq::<char>::empty() =~= b);
        }
    }
    assert(head@ == event_head(c@, *w, across, selected, three));
    let mut out: Vec<Line> = Vec::new();
    put(&mut out, truncate(trim_tail(head.as_str()), columns), style);
    put(&mut out, truncate(concat(INDENT, c.payload.as_str()).as_str(), columns), style);
    if three {
        let kind_style = if selected {
            Style::Selected
        } else {
            Style::Dim
        };
        put(&mut out, truncate(concat(INDENT, c.kind.as_str()).as_str(), columns), kind_style);
    }
    proof {
        assert(lines_view(out@) =~= event_text(
            c@,
            *w,
            across,
            selected,
            columns as int,
            per_row as int,
        ));
    }
    out
}

// ------------------------------------------------------------------- the tail

/// What an empty tail says. A kind filter reaches the loader, so "nothing
/// matched" shows up as no rows at all: the box's own text is the witness.
pub open spec fn empty_tail(e: EventsV) -> Seq<LineV> {
    seq![
        bold(
            if e.rows.len() > 0 || e.query.len() > 0 {
                "no events match the filters"@
            } else if is_stale(e) {
                "reloading the tail\u{2026}"@
            } else if e.quest is None {
                "no events yet"@
            } else if e.quest_slug is Some {
                "this quest has no events yet"@
            } else {
                "that quest is gone \u{b7} Esc for all quests"@
            },
        ),
        plain(Seq::empty()),
        dim("/ filters by kind \u{b7} Esc clears \u{b7} ? for keys"@),
    ]
}

/// Why the tail is empty, and what to do about it.
pub fn empty_lines(state: &State) -> (r: Vec<Line>)
    ensures
        lines_view(r@) == empty_tail(state@),
{
    let why = if !state.rows.is_empty() || !state.query.as_str().is_empty() {
        "no events match the filters"
    } else if state.stale() {
        "reloading the tail\u{2026}"
    } else if state.quest.is_none() {
        "no events yet"
    } else if state.quest_slug.is_some() {
        "this quest has no events yet"
    } else {
        "that quest is gone \u{b7} Esc for all quests"
    };
    let mut out: Vec<Line> = Vec::new();
    put(&mut out, owned(why), Style::Bold);
    put(&mut out, String::new(), Style::Plain);
    put(&mut out, owned("/ filters by kind \u{b7} Esc clears \u{b7} ? for keys"), Style::Dim);
    proof {
        assert(lines_view(out@) =~= empty_tail(state@));
    }
    out
}

/// The rows from visible row `n` on that fit whole into `room` lines; the first
/// one is drawn in any case.
pub open spec fn tail_text(
    e: EventsV,
    w: Widths,
    columns: int,
    per_row: int,
    n: int,
    room: int,
    first: bool,
) -> Seq<LineV>
    decreases events_on_screen(e).len() - n,
{
    let vis = events_on_screen(e);
    if n < 0 || n >= vis.len() || room <= 0 || (room < per_row && !first) {
        Seq::empty()
    } else {
        event_text(
            cells_text(e.rows[vis[n]]),
            w,
            e.quest is None,
            n == e.selected,
            columns,
            per_row,
        ) + tail_text(e, w, columns, per_row, n + 1, room - per_row, false)
    }
}

/// What the tail shows in that many lines.
pub open spec fn tail_lines(e: EventsV, columns: int, capacity: int, per_row: int) -> Seq<LineV> {
    let w = widths_text(e, e.quest is None, events_on_screen(e).len() as int);
    let all = tail_text(e, w, columns, per_row, e.offset as int, capacity, true);
    if all.len() <= capacity {
        all
    } else {
        all.take(capacity)
    }
}

/// The tail from its scroll position on. A row goes on screen whole or not at
/// all: half of one under the fold reads as the next event's. The exception is a
/// body with no room for even one.
pub fn listing_lines(state: &State, columns: usize, capacity: usize, per_row: usize) -> (r: Vec<Line>)
    requires
        per_row == 2 || per_row == 3,
        capacity > 0,
    ensures
        lines_view(r@) == tail_lines(state@, columns as int, capacity as int, per_row as int),
        columns >= 1 ==> all_within(lines_view(r@), columns as int),
{
    let visible = state.visible();
    let ghost e = state@;
    let ghost vis = events_on_screen(e);
    let across = state.quest.is_none();
    proof {
        assert(vis.len() == visible.len());
    }
    let mut cells: Vec<Cells> = Vec::new();
    let mut w = Widths { age: 0, quest: 0, session: 0 };
    let mut i: usize = 0;
    while i < visible.len()
        invariant
            i <= visible.len(),
            e == state@,
            across == (e.quest is None),
            vis == events_on_screen(e),
            vis == places(visible@),
            forall|j: int| 0 <= j < visible.len() ==> (#[trigger] visible[j]) < state.rows.len(),
            cells.len() == i,
            forall|j: int| 0 <= j < i ==> (#[trigger] cells[j])@ == cells_text(e.rows[vis[j]]),
            w == widths_text(e, across, i as int),
        decreases visible.len() - i,
    {
        let c = cells_of(&state.rows[visible[i]]);
        proof {
            assert(vis[i as int] == visible[i as int]);
        }
        w = Widths {
            age: wider_of(w.age, width(c.age.as_str())),
            quest: wider_of(
                w.quest,
                if across {
                    width(c.quest.as_str())
                } else {
                    0
                },
            ),
            session: wider_of(w.session, width(c.session.as_str())),
        };
        cells.push(c);
        i += 1;
    }
    let ghost all = tail_text(
        e,
        w,
        columns as int,
        per_row as int,
        e.offset as int,
        capacity as int,
        true,
    );
    let mut out: Vec<Line> = Vec::new();
    let mut n: usize = state.offset;
    let mut room: usize = capacity;
    let mut first: bool = true;
    proof {
        assert(lines_view(out@) =~= Seq::empty());
        assert(lines_view(out@) + all =~= all);
    }
    while n < visible.len() && room > 0 && (room >= per_row || first)
        invariant
            e == state@,
            across == (e.quest is None),
            vis == events_on_screen(e),
            vis.len() == visible.len(),
            cells.len() == visible.len(),
            forall|j: int|
                0 <= j < cells.len() ==> (#[trigger] cells[j])@ == cells_text(e.rows[vis[j]]),
            per_row == 2 || per_row == 3,
            columns >= 1 ==> all_within(lines_view(out@), columns as int),
            !first && room == 0 ==> tail_text(
                e,
                w,
                columns as int,
                per_row as int,
                n as int,
                room as int,
                first,
            ) == Seq::<LineV>::empty(),
            lines_view(out@) + tail_text(
                e,
                w,
                columns as int,
                per_row as int,
                n as int,
                room as int,
                first,
            ) == all,
        decreases visible.len() - n,
    {
        let ghost before = lines_view(out@);
        let lines = row_lines(&cells[n], &w, across, n == state.selected, columns, per_row);
        let ghost drawn = lines_view(lines@);
        let ghost rest = tail_text(
            e,
            w,
            columns as int,
            per_row as int,
            n as int + 1,
            room - per_row,
            false,
        );
        put_all(&mut out, lines);
        proof {
            assert(before + (drawn + rest) =~= (before + drawn) + rest);
            if room < per_row {
                assert(rest =~= Seq::empty());
            }
        }
        room = if room >= per_row {
            room - per_row
        } else {
            0
        };
        first = false;
        n += 1;
    }
    proof {
        assert(lines_view(out@) + Seq::<LineV>::empty() =~= lines_view(out@));
        assert(lines_view(out@).len() == out.len());
    }
    if out.len() > capacity {
        let ghost whole = out@;
        out.truncate(capacity);
        proof {
            assert(lines_view(out@) =~= lines_view(whole).take(capacity as int));
        }
    }
    out
}

// ------------------------------------------------------------------ the panel

/// Some lines, sanitized.
pub open spec fn clean_lines(ls: Seq<Seq<char>>) -> Seq<LineV> {
    Seq::new(ls.len(), |i: int| plain(sanitized(ls[i])))
}

/// What the panel shows of a payload, given how it is laid out. One that is
/// missing, or null, is none; one that is no JSON is shown as it is.
pub open spec fn payload_text(payload: Option<Seq<char>>, laid_out: Option<Seq<char>>) -> Seq<LineV> {
    match payload {
        None => seq![dim("no payload"@)],
        Some(raw) => match laid_out {
            Some(text) => if text == "null"@ {
                seq![dim("no payload"@)]
            } else {
                clean_lines(lines(text))
            },
            None => clean_lines(lines(raw)),
        },
    }
}

/// The whole event, given how its payload is laid out.
pub open spec fn event_panel(row: EventRow, laid_out: Option<Seq<char>>) -> Seq<LineV> {
    seq![
        bold(sanitized(row.event.kind@)),
        dim(row.event.stamp@ + " \u{b7} "@ + row.event.age@ + " ago"@),
        dim(
            sanitized(row.quest_slug@) + " \u{b7} "@ + sanitized(row.session@) + " \u{b7} #"@
                + signed(row.event.id as int),
        ),
        plain(Seq::empty()),
    ] + payload_text(opt_text(row.event.payload), laid_out)
}

fn put_clean(out: &mut Vec<Line>, text: &str)
    ensures
        lines_view(final(out)@) == lines_view(old(out)@) + clean_lines(lines(text@)),
{
    let ghost before = lines_view(out@);
    let ls = lines_of(text);
    let ghost all = texts(ls@);
    let mut i: usize = 0;
    while i < ls.len()
        invariant
            i <= ls.len(),
            all == texts(ls@),
            lines_view(out@) =~= before + clean_lines(all).take(i as int),
        decreases ls.len() - i,
    {
        assert(all[i as int] == ls[i as int]@);
        put(out, sanitize(ls[i].as_str()), Style::Plain);
        i += 1;
    }
    proof {
        assert(clean_lines(all).take(all.len() as int) =~= clean_lines(all));
    }
}

/// The whole event: when, where, and the payload as it was laid out.
pub fn panel_lines_with(row: &EventRow, laid_out: &Option<String>) -> (r: Vec<Line>)
    ensures
        lines_view(r@) == event_panel(*row, opt_text(*laid_out)),
{
    let event = &row.event;
    let mut out: Vec<Line> = Vec::new();
    put(&mut out, sanitize(event.kind.as_str()), Style::Bold);
    let mut when = concat3(event.stamp.as_str(), " \u{b7} ", event.age.as_str());
    when.append(" ago");
    put(&mut out, when, Style::Dim);
    let mut place = concat3(
        sanitize(row.quest_slug.as_str()).as_str(),
        " \u{b7} ",
        sanitize(row.session.as_str()).as_str(),
    );
    place.append(" \u{b7} #");
    place.append(integer(event.id).as_str());
    put(&mut out, place, Style::Dim);
    put(&mut out, String::new(), Style::Plain);
    let ghost top = lines_view(out@);
    proof {
        assert(top =~= seq![
            bold(sanitized(row.event.kind@)),
            dim(row.event.stamp@ + " \u{b7} "@ + row.event.age@ + " ago"@),
            dim(
                sanitized(row.quest_slug@) + " \u{b7} "@ + sanitized(row.session@) + " \u{b7} #"@
                    + signed(row.event.id as int),
            ),
            plain(Seq::empty()),
        ]);
    }
    match &event.payload {
        None => put(&mut out, owned("no payload"), Style::Dim),
        Some(raw) => match laid_out {
            Some(text) => if same(text.as_str(), "null") {
                put(&mut out, owned("no payload"), Style::Dim);
            } else {
                put_clean(&mut out, text.as_str());
            },
            None => put_clean(&mut out, raw.as_str()),
        },
    }
    proof {
        assert(lines_view(out@) =~= event_panel(*row, opt_text(*laid_out)));
    }
    out
}

/// The whole event: when, where, and the payload laid out.
pub fn panel_lines(row: &EventRow) -> (r: Vec<Line>)
    ensures
        lines_view(r@) == event_panel(
            *row,
            match row.event.payload {
                Some(raw) => json_pretty(raw@),
                None => None,
            },
        ),
{
    let laid_out = match &row.event.payload {
        Some(raw) => pretty(raw.as_str()),
        None => None,
    };
    panel_lines_with(row, &laid_out)
}

} // verus!
