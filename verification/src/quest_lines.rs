//! What a quest looks like: its rows in the listing and its detail panel.
use vstd::prelude::*;
use vstd::string::*;
use crate::json::{json_string, string_at};
use crate::layout::{cap, capped, display_width, truncate, truncated, width, RowMode};
use crate::list::places;
use crate::model::{
    role_text, status_text, DisplayState, Event, Link, Origin, QuestRow, Session, SessionRole,
    SessionStatus,
};
use crate::paint::{line, lines_view, Line, LineV, Style};
use crate::quests::{group_heading, group_title, on_screen, rank, rank_of, QuestsV, State};
use crate::text::{
    all_digits, chars_of, concat, concat3, decimal, is_digit, join, joined, number, opt_text, owned,
    pad_left, padded_left, repeat, repeated, same, stands_at, texts, trim, trimmed,
};

verus! {

/// The characters a goal may have.
pub const GOAL_CHARS: usize = 200;

/// The characters a link's title or reference may have.
pub const LINK_CHARS: usize = 40;

/// The characters a payload may have in the panel.
pub const PAYLOAD_CHARS: usize = 40;

/// How far the second line is indented under the glyphs.
pub const INDENT: &'static str = "    ";

// ------------------------------------------------------------------- helpers

/// A line without emphasis.
pub open spec fn plain(text: Seq<char>) -> LineV {
    LineV { text, style: Style::Plain }
}

/// A bold line.
pub open spec fn bold(text: Seq<char>) -> LineV {
    LineV { text, style: Style::Bold }
}

/// A dim line.
pub open spec fn dim(text: Seq<char>) -> LineV {
    LineV { text, style: Style::Dim }
}

/// No line takes more columns than that.
pub open spec fn all_within(lines: Seq<LineV>, columns: int) -> bool {
    forall|i: int| 0 <= i < lines.len() ==> display_width((#[trigger] lines[i]).text) <= columns
}

/// Appends a line.
pub(crate) fn put(out: &mut Vec<Line>, text: String, style: Style)
    ensures
        lines_view(final(out)@) == lines_view(old(out)@).push(LineV { text: text@, style }),
{
    let ghost before = out@;
    out.push(line(text, style));
    proof {
        assert(lines_view(out@) =~= lines_view(before).push(LineV { text: text@, style }));
    }
}

/// Appends lines.
pub(crate) fn put_all(out: &mut Vec<Line>, more: Vec<Line>)
    ensures
        lines_view(final(out)@) == lines_view(old(out)@) + lines_view(more@),
{
    let ghost before = out@;
    let mut more = more;
    let ghost added = more@;
    out.append(&mut more);
    proof {
        assert(lines_view(out@) =~= lines_view(before) + lines_view(added));
    }
}

// ---------------------------------------------------------------- one row

/// `left` flush left and `right` flush right on one line; the left half gives
/// way first.
pub open spec fn packed(left: Seq<char>, right: Seq<char>, columns: int) -> Seq<char> {
    let rw = display_width(right);
    if columns <= 0 {
        Seq::empty()
    } else if right.len() == 0 || rw + 2 >= columns {
        truncated(left, columns)
    } else {
        let room = columns - rw - 1;
        let cut = truncated(left, room);
        let gap = if room >= display_width(cut) {
            room - display_width(cut) + 1
        } else {
            1
        };
        truncated(cut + repeated(' ', gap as nat) + right, columns)
    }
}

/// `left` flush left and `right` flush right on one line of that many columns.
pub fn pack(left: &str, right: &str, columns: usize) -> (r: String)
    ensures
        r@ == packed(left@, right@, columns as int),
        columns >= 1 ==> display_width(r@) <= columns,
{
    if columns == 0 {
        return String::new();
    }
    let rw = width(right);
    if right.is_empty() || rw >= columns || columns - rw <= 2 {
        return truncate(left, columns);
    }
    let room: usize = columns - rw - 1;
    let cut = truncate(left, room);
    let used = width(cut.as_str());
    let gap: usize = if room >= used {
        room - used + 1
    } else {
        1
    };
    // Measured once more as a whole: widths need not add up.
    truncate(concat3(cut.as_str(), repeat(' ', gap).as_str(), right).as_str(), columns)
}

/// The machine, marked when the row is an old answer standing in.
pub open spec fn machine_text(row: QuestRow) -> Seq<char> {
    if row.origin == (Origin::Remote { stale: true }) {
        row.view.quest.machine@ + " \u{26a0}"@
    } else {
        row.view.quest.machine@
    }
}

/// The machine column.
pub fn machine_cell(row: &QuestRow) -> (r: String)
    ensures
        r@ == machine_text(*row),
{
    if row.origin.is_stale() {
        concat(row.view.quest.machine.as_str(), " \u{26a0}")
    } else {
        row.view.quest.machine.clone()
    }
}

/// Why a row is looked at: that it needs you, and its age.
pub open spec fn urgency_text(row: QuestRow) -> Seq<char> {
    if row.view.needs_you {
        "needs you  "@ + row.age@
    } else {
        row.age@
    }
}

/// Why a row is looked at.
pub fn urgency(row: &QuestRow) -> (r: String)
    ensures
        r@ == urgency_text(*row),
{
    if row.view.needs_you {
        concat("needs you  ", row.age.as_str())
    } else {
        row.age.clone()
    }
}

/// The glyph of a state.
pub open spec fn glyph_of(row: QuestRow) -> Seq<char> {
    match row.view.display_state {
        DisplayState::Active => "\u{25cf}"@,
        DisplayState::Idle => "\u{23f8}"@,
        DisplayState::Finished => "\u{2713}"@,
    }
}

/// The glyph of a state.
pub fn state_glyph(row: &QuestRow) -> (r: &'static str)
    ensures
        r@ == glyph_of(*row),
{
    match row.view.display_state {
        DisplayState::Active => "\u{25cf}",
        DisplayState::Idle => "\u{23f8}",
        DisplayState::Finished => "\u{2713}",
    }
}

/// The facts at the right end of a row. An epic with no issues has nothing to
/// report.
pub open spec fn facts_of(row: QuestRow) -> Seq<Seq<char>> {
    seq![machine_text(row)] + (match row.view.progress {
        Some(p) => if p.total > 0 {
            seq![p.cell@ + " "@ + p.bar@]
        } else {
            Seq::empty()
        },
        None => Seq::empty(),
    }) + (match row.view.master_ctx_pct {
        Some(ctx) => seq!["master ctx "@ + decimal(ctx as nat) + "%"@],
        None => Seq::empty(),
    }) + (if row.view.live_sessions > 0 {
        seq![decimal(row.view.live_sessions as nat) + " sess"@]
    } else {
        Seq::empty()
    }) + (if urgency_text(row).len() > 0 {
        seq![urgency_text(row)]
    } else {
        Seq::empty()
    })
}

/// The facts at the right end of a row.
pub fn right_facts(row: &QuestRow) -> (r: String)
    ensures
        r@ == joined(facts_of(*row), "  "@),
{
    let mut parts: Vec<String> = Vec::new();
    parts.push(machine_cell(row));
    match &row.view.progress {
        Some(p) => if p.total > 0 {
            parts.push(concat3(p.cell.as_str(), " ", p.bar.as_str()));
        },
        None => {},
    }
    match row.view.master_ctx_pct {
        Some(ctx) => parts.push(concat3("master ctx ", number(ctx).as_str(), "%")),
        None => {},
    }
    if row.view.live_sessions > 0 {
        parts.push(concat(number(row.view.live_sessions).as_str(), " sess"));
    }
    let tail = urgency(row);
    if !tail.as_str().is_empty() {
        parts.push(tail);
    }
    proof {
        assert(texts(parts@) =~= facts_of(*row));
    }
    join(&parts, "  ")
}

// -------------------------------------------------------------------- links

/// The last place up to `i` at which `sub` stands in `s`, or -1.
pub open spec fn last_at(s: Seq<char>, sub: Seq<char>, i: int) -> int
    decreases i + 1,
{
    if i < 0 {
        -1
    } else if stands_at(s, sub, i) {
        i
    } else {
        last_at(s, sub, i - 1)
    }
}

/// How far `s` goes before a `/`, a `?` or a `#`.
pub open spec fn segment_end(s: Seq<char>) -> int
    decreases s.len(),
{
    if s.len() == 0 || s[0] == '/' || s[0] == '?' || s[0] == '#' {
        0
    } else {
        1 + segment_end(s.drop_first())
    }
}

/// The number behind the last `/pull/` of a reference.
pub open spec fn pull_number(reference: Seq<char>) -> Option<Seq<char>> {
    let at = last_at(reference, "/pull/"@, reference.len() as int);
    if at < 0 {
        None
    } else {
        let rest = reference.skip(at + 6);
        let n = rest.take(segment_end(rest));
        if all_digits(n) {
            Some(n)
        } else {
            None
        }
    }
}

proof fn lemma_segment_end(s: Seq<char>, n: int)
    requires
        0 <= n <= s.len(),
        n < s.len() ==> s[n] == '/' || s[n] == '?' || s[n] == '#',
        forall|i: int| 0 <= i < n ==> s[i] != '/' && s[i] != '?' && s[i] != '#',
    ensures
        segment_end(s) == n,
    decreases s.len(),
{
    if n > 0 {
        lemma_segment_end(s.drop_first(), n - 1);
    }
}

/// The number out of `…/pull/<n>`; `None` for anything else stored as a PR.
pub fn pr_number<'a>(reference: &'a str) -> (r: Option<&'a str>)
    ensures
        match r {
            Some(n) => pull_number(reference@) == Some(n@),
            None => pull_number(reference@) is None,
        },
{
    let s = chars_of(reference);
    let mark = chars_of("/pull/");
    let n = s.len();
    proof {
        reveal_strlit("/pull/");
    }
    let mut at: usize = n;
    let mut found: bool = false;
    // From the back, so the last occurrence is the first one met.
    loop
        invariant_except_break
            !found,
            last_at(s@, mark@, n as int) == last_at(s@, mark@, at as int),
        invariant
            at <= n == s.len(),
            mark.len() == 6,
        ensures
            found ==> at + 6 <= n && last_at(s@, mark@, n as int) == at,
            !found ==> last_at(s@, mark@, n as int) == -1,
        decreases at,
    {
        let mut here = n - at >= 6;
        if here {
            let mut j: usize = 0;
            while j < 6
                invariant
                    j <= 6,
                    at + 6 <= n == s.len(),
                    mark.len() == 6,
                    here <==> forall|k: int| 0 <= k < j ==> s@[at + k] == mark@[k],
                decreases 6 - j,
            {
                if s[at + j] != mark[j] {
                    here = false;
                }
                j += 1;
            }
            proof {
                if here {
                    assert(s@.subrange(at as int, at + 6) =~= mark@);
                } else if stands_at(s@, mark@, at as int) {
                    assert forall|k: int| 0 <= k < 6 implies s@[at + k] == mark@[k] by {
                        assert(s@.subrange(at as int, at + 6)[k] == mark@[k]);
                    }
                }
            }
        }
        assert(here == stands_at(s@, mark@, at as int));
        if here {
            found = true;
            break;
        }
        if at == 0 {
            proof {
                assert(last_at(s@, mark@, -1) == -1);
            }
            break;
        }
        at -= 1;
    }
    if !found {
        return None;
    }
    let from: usize = at + 6;
    let ghost rest = s@.skip(from as int);
    let mut to: usize = from;
    while to < n && s[to] != '/' && s[to] != '?' && s[to] != '#'
        invariant
            from <= to <= n == s.len(),
            rest == s@.skip(from as int),
            forall|i: int| 0 <= i < to - from ==> rest[i] != '/' && rest[i] != '?' && rest[i] != '#',
        decreases n - to,
    {
        assert(rest[to - from] == s@[to as int]);
        to += 1;
    }
    proof {
        if to < n {
            assert(rest[to - from] == s@[to as int]);
        }
        lemma_segment_end(rest, to - from);
    }
    let ghost id = rest.take(to - from);
    if from == to {
        return None;
    }
    let mut i: usize = from;
    while i < to
        invariant
            from <= i <= to <= n == s.len(),
            s@ == reference@,
            rest == s@.skip(from as int),
            id == rest.take(to - from),
            pull_number(reference@) == if all_digits(id) {
                Some(id)
            } else {
                None
            },
            forall|j: int| 0 <= j < i - from ==> is_digit(#[trigger] id[j]),
        decreases to - i,
    {
        assert(id[i - from] == s@[i as int]);
        if !('0' <= s[i] && s[i] <= '9') {
            return None;
        }
        i += 1;
    }
    proof {
        assert(reference@.subrange(from as int, to as int) =~= id);
    }
    Some(reference.substring_char(from, to))
}

/// The link kinds that earn a place on the row.
pub open spec fn is_headline(link: Link) -> bool {
    link.kind@ == "pr"@ || link.kind@ == "task"@
}

/// Whether a link earns a place on the row; the rest live in the panel.
pub fn headline(link: &Link) -> (r: bool)
    ensures
        r == is_headline(*link),
{
    same(link.kind.as_str(), "pr") || same(link.kind.as_str(), "task")
}

/// What a link says in a few words, given what is known of its state and its
/// checks.
pub open spec fn link_text(link: Link, state: Option<Seq<char>>, ci: Option<Seq<char>>) -> Seq<char> {
    let titled = link.title is Some && link.title->0@.len() > 0;
    if link.kind@ == "pr"@ {
        (match pull_number(link.reference@) {
            Some(n) => "PR #"@ + n,
            None => "PR"@,
        }) + (match state {
            Some(s) => " "@ + s,
            None => Seq::empty(),
        }) + (match ci {
            Some(c) => " (CI "@ + c + ")"@,
            None => Seq::empty(),
        })
    } else if link.kind@ == "task"@ {
        if titled {
            "task "@ + capped(link.title_line@, LINK_CHARS as int)
        } else {
            "task"@
        }
    } else if titled {
        link.kind@ + " "@ + capped(link.title_line@, LINK_CHARS as int)
    } else {
        link.kind@ + " "@ + capped(link.reference_line@, LINK_CHARS as int)
    }
}

/// What is known of a link under a key.
pub open spec fn meta_text(link: Link, key: Seq<char>) -> Option<Seq<char>> {
    match link.meta {
        Some(m) => json_string(m@, key),
        None => None,
    }
}

/// What a link says, with what its metadata holds.
pub open spec fn link_words(link: Link) -> Seq<char> {
    link_text(link, meta_text(link, "state"@), meta_text(link, "ci"@))
}

/// `PR #4821 (CI ✓)` or `task Backfill CDC`, given the state and the checks.
pub fn link_cell_with(link: &Link, state: &Option<String>, ci: &Option<String>) -> (r: String)
    ensures
        r@ == link_text(*link, opt_text(*state), opt_text(*ci)),
{
    let kind = link.kind.as_str();
    let titled = match &link.title {
        Some(t) => !t.as_str().is_empty(),
        None => false,
    };
    if same(kind, "pr") {
        let mut out = match pr_number(link.reference.as_str()) {
            Some(n) => concat("PR #", n),
            None => owned("PR"),
        };
        let ghost a = out@;
        match state {
            Some(s) => {
                let more = concat(" ", s.as_str());
                out.append(more.as_str());
            },
            None => {
                proof {
                    assert(a + Seq::<char>::empty() =~= a);
                }
            },
        }
        let ghost b = out@;
        match ci {
            Some(c) => {
                let more = concat3(" (CI ", c.as_str(), ")");
                out.append(more.as_str());
            },
            None => {
                proof {
                    assert(b + Seq::<char>::empty() =~= b);
                }
            },
        }
        out
    } else if same(kind, "task") {
        if titled {
            concat("task ", cap(link.title_line.as_str(), LINK_CHARS).as_str())
        } else {
            owned("task")
        }
    } else if titled {
        concat3(kind, " ", cap(link.title_line.as_str(), LINK_CHARS).as_str())
    } else {
        concat3(kind, " ", cap(link.reference_line.as_str(), LINK_CHARS).as_str())
    }
}

/// What a link says in a few words.
pub fn link_cell(link: &Link) -> (r: String)
    ensures
        r@ == link_words(*link),
{
    let state = match &link.meta {
        Some(m) => string_at(m.as_str(), "state"),
        None => None,
    };
    let ci = match &link.meta {
        Some(m) => string_at(m.as_str(), "ci"),
        None => None,
    };
    link_cell_with(link, &state, &ci)
}

/// The words of the links that earn a place on the row.
pub open spec fn headline_words(links: Seq<Link>) -> Seq<Seq<char>>
    decreases links.len(),
{
    if links.len() == 0 {
        Seq::empty()
    } else {
        let before = headline_words(links.drop_last());
        if is_headline(links.last()) {
            before.push(link_words(links.last()))
        } else {
            before
        }
    }
}

/// There is a goal, and it is not blank.
pub open spec fn has_goal(row: QuestRow) -> bool {
    row.view.quest.goal is Some && trimmed(row.view.quest.goal->0@).len() > 0
}

/// The goal on one line, or that there is none.
pub open spec fn goal_text(row: QuestRow) -> Seq<char> {
    if has_goal(row) {
        capped(row.goal_line@, GOAL_CHARS as int)
    } else {
        "no goal"@
    }
}

fn goal(row: &QuestRow) -> (r: String)
    ensures
        r@ == goal_text(*row),
{
    match &row.view.quest.goal {
        Some(g) => if trim(g.as_str()).is_empty() {
            owned("no goal")
        } else {
            cap(row.goal_line.as_str(), GOAL_CHARS)
        },
        None => owned("no goal"),
    }
}

/// The second line of a row.
pub open spec fn goal_and_links_text(row: QuestRow, links: Seq<Link>) -> Seq<char> {
    joined(seq![goal_text(row)] + headline_words(links), " \u{b7} "@)
}

/// The goal, then the links that earn a place on the row.
pub fn goal_and_links(row: &QuestRow, links: &[Link]) -> (r: String)
    ensures
        r@ == goal_and_links_text(*row, links@),
{
    let mut parts: Vec<String> = Vec::new();
    parts.push(goal(row));
    let mut i: usize = 0;
    proof {
        assert(links@.take(0) =~= Seq::empty());
        assert(texts(parts@) =~= seq![goal_text(*row)] + headline_words(links@.take(0)));
    }
    while i < links.len()
        invariant
            i <= links.len(),
            texts(parts@) == seq![goal_text(*row)] + headline_words(links@.take(i as int)),
        decreases links.len() - i,
    {
        proof {
            assert(links@.take(i as int + 1).drop_last() =~= links@.take(i as int));
        }
        if headline(&links[i]) {
            let ghost before = parts@;
            let words = link_cell(&links[i]);
            parts.push(words);
            proof {
                assert(texts(parts@) =~= texts(before).push(words@));
                assert(texts(before).push(words@) =~= seq![goal_text(*row)] + headline_words(
                    links@.take(i as int + 1),
                ));
            }
        }
        i += 1;
    }
    proof {
        assert(links@.take(links.len() as int) =~= links@);
    }
    join(&parts, " \u{b7} ")
}

/// The first line's left half: the cursor, the state and the slug.
pub open spec fn head_text(row: QuestRow, selected: bool) -> Seq<char> {
    (if selected {
        "\u{25b8}"@
    } else {
        " "@
    }) + " "@ + glyph_of(row) + " "@ + row.view.quest.slug@
}

/// A row of the listing: the head with the facts, or in three-line mode with the
/// urgency alone and the facts on a line of their own.
pub open spec fn row_text(
    row: QuestRow,
    links: Seq<Link>,
    selected: bool,
    mode: RowMode,
    columns: int,
) -> Seq<LineV> {
    let facts = joined(facts_of(row), "  "@);
    let tail = match mode {
        RowMode::Two => facts,
        RowMode::Three => urgency_text(row),
    };
    let head = LineV {
        text: packed(head_text(row, selected), tail, columns),
        style: if selected {
            Style::Selected
        } else {
            Style::Plain
        },
    };
    let second = plain(truncated(INDENT@ + goal_and_links_text(row, links), columns));
    if mode == RowMode::Three && facts.len() > 0 {
        seq![head, second, dim(truncated(INDENT@ + facts, columns))]
    } else {
        seq![head, second]
    }
}

/// One row of the listing.
pub fn row_lines(row: &QuestRow, links: &[Link], selected: bool, mode: RowMode, columns: usize) -> (r:
    Vec<Line>)
    ensures
        lines_view(r@) == row_text(*row, links@, selected, mode, columns as int),
        columns >= 1 ==> all_within(lines_view(r@), columns as int),
{
    let mut head = owned(
        if selected {
            "\u{25b8}"
        } else {
            " "
        },
    );
    head.append(" ");
    head.append(state_glyph(row));
    head.append(" ");
    head.append(row.view.quest.slug.as_str());
    let style = if selected {
        Style::Selected
    } else {
        Style::Plain
    };
    let facts = right_facts(row);
    let tail = match mode {
        RowMode::Two => facts.clone(),
        RowMode::Three => urgency(row),
    };
    let three = match mode {
        RowMode::Two => false,
        RowMode::Three => true,
    };
    let mut out: Vec<Line> = Vec::new();
    put(&mut out, pack(head.as_str(), tail.as_str(), columns), style);
    let second = concat(INDENT, goal_and_links(row, links).as_str());
    put(&mut out, truncate(second.as_str(), columns), Style::Plain);
    if three && !facts.as_str().is_empty() {
        let third = concat(INDENT, facts.as_str());
        put(&mut out, truncate(third.as_str(), columns), Style::Dim);
    }
    proof {
        assert(lines_view(out@) =~= row_text(*row, links@, selected, mode, columns as int));
    }
    out
}

// ---------------------------------------------------------------- the panel

/// What every panel section says about a remote quest.
pub open spec fn elsewhere(machine: Seq<char>) -> Seq<char> {
    "on "@ + machine + ", not fetched"@
}

/// The rows exist, on that machine, and have not been asked for.
pub fn not_fetched(machine: &str) -> (r: String)
    ensures
        r@ == elsewhere(machine@),
{
    concat3("on ", machine, ", not fetched")
}

/// The epic and how far it is.
pub open spec fn beads_text(row: QuestRow) -> Seq<char> {
    match row.view.quest.beads_epic {
        None => "no epic"@,
        Some(epic) => epic@ + " \u{b7} "@ + match row.view.progress {
            Some(p) => p.summary@,
            None => "progress unavailable"@,
        },
    }
}

/// `bd-42 · 3/7 closed`, or why there is nothing to say.
pub fn beads_line(row: &QuestRow) -> (r: String)
    ensures
        r@ == beads_text(*row),
{
    match &row.view.quest.beads_epic {
        None => owned("no epic"),
        Some(epic) => {
            let state = match &row.view.progress {
                Some(p) => p.summary.as_str(),
                None => "progress unavailable",
            };
            concat3(epic.as_str(), " \u{b7} ", state)
        },
    }
}

/// Something to append, where there is something.
pub open spec fn suffix(before: Seq<char>, text: Option<String>, after: Seq<char>) -> Seq<char> {
    match text {
        Some(t) => if t@.len() > 0 {
            before + t@ + after
        } else {
            Seq::empty()
        },
        None => Seq::empty(),
    }
}

/// A session on one line.
pub open spec fn session_text(s: Session) -> Seq<char> {
    s.label@ + " "@ + role_text(s.role) + " "@ + status_text(s.status) + suffix(
        " ("@,
        s.waiting_for,
        ")"@,
    ) + suffix(" \u{b7} "@, s.phase, Seq::empty()) + match s.ctx_pct {
        Some(ctx) => " \u{b7} ctx "@ + decimal(ctx as nat) + "%"@,
        None => Seq::empty(),
    }
}

fn append_suffix(out: &mut String, front: &str, text: &Option<String>, back: &str)
    ensures
        final(out)@ == old(out)@ + suffix(front@, *text, back@),
{
    match text {
        Some(t) => if !t.as_str().is_empty() {
            let more = concat3(front, t.as_str(), back);
            out.append(more.as_str());
            return ;
        },
        None => {},
    }
    proof {
        assert(out@ + Seq::<char>::empty() =~= out@);
    }
}

/// A session on one line.
pub fn session_line(s: &Session) -> (r: String)
    ensures
        r@ == session_text(*s),
{
    let mut out = s.label.clone();
    out.append(" ");
    out.append(s.role.as_str());
    out.append(" ");
    out.append(s.status.as_str());
    append_suffix(&mut out, " (", &s.waiting_for, ")");
    let none = String::new();
    append_suffix(&mut out, " \u{b7} ", &s.phase, none.as_str());
    let ghost a = out@;
    match s.ctx_pct {
        Some(ctx) => {
            let more = concat3(" \u{b7} ctx ", number(ctx).as_str(), "%");
            out.append(more.as_str());
        },
        None => {
            proof {
                assert(a + Seq::<char>::empty() =~= a);
            }
        },
    }
    out
}

/// Session `a` is listed above session `b`: the living first, then the master,
/// then by age.
pub open spec fn listed_above(a: Session, b: Session) -> bool {
    let (x, y) = (a.status == SessionStatus::Ended, b.status == SessionStatus::Ended);
    let (v, w) = (a.role != SessionRole::Master, b.role != SessionRole::Master);
    if x != y {
        y
    } else if v != w {
        w
    } else {
        a.started_at < b.started_at
    }
}

/// Where a session goes into an ordered list: behind every one that it is not
/// listed above.
pub open spec fn session_place(list: Seq<Session>, s: Session) -> int
    decreases list.len(),
{
    if list.len() == 0 {
        0
    } else if listed_above(s, list.last()) {
        session_place(list.drop_last(), s)
    } else {
        list.len() as int
    }
}

/// The sessions in the order the panel lists them; equals stay in the order they
/// came in.
pub open spec fn ordered(sessions: Seq<Session>) -> Seq<Session>
    decreases sessions.len(),
{
    if sessions.len() == 0 {
        sessions
    } else {
        let before = ordered(sessions.drop_last());
        before.insert(session_place(before, sessions.last()), sessions.last())
    }
}

fn is_above(a: &Session, b: &Session) -> (r: bool)
    ensures
        r == listed_above(*a, *b),
{
    let x = match a.status {
        SessionStatus::Ended => true,
        _ => false,
    };
    let y = match b.status {
        SessionStatus::Ended => true,
        _ => false,
    };
    let v = match a.role {
        SessionRole::Master => false,
        _ => true,
    };
    let w = match b.role {
        SessionRole::Master => false,
        _ => true,
    };
    if x != y {
        y
    } else if v != w {
        w
    } else {
        a.started_at < b.started_at
    }
}

proof fn lemma_session_place(list: Seq<Session>, s: Session, at: int)
    requires
        0 <= at <= list.len(),
        forall|j: int| at <= j < list.len() ==> listed_above(s, #[trigger] list[j]),
        at > 0 ==> !listed_above(s, list[at - 1]),
    ensures
        session_place(list, s) == at,
    decreases list.len(),
{
    if at < list.len() {
        assert(listed_above(s, list[list.len() - 1]));
        let front = list.drop_last();
        assert forall|j: int| at <= j < front.len() implies listed_above(s, #[trigger] front[j]) by {
            assert(front[j] == list[j]);
        }
        lemma_session_place(front, s, at);
    }
}

/// The sessions in the order the panel lists them.
pub fn order_sessions(sessions: &Vec<Session>) -> (r: Vec<Session>)
    ensures
        r@ == ordered(sessions@),
{
    let mut out: Vec<Session> = Vec::new();
    let mut i: usize = 0;
    proof {
        assert(sessions@.take(0) =~= Seq::empty());
    }
    while i < sessions.len()
        invariant
            i <= sessions.len(),
            out@ == ordered(sessions@.take(i as int)),
        decreases sessions.len() - i,
    {
        let s = sessions[i].copy();
        let mut at: usize = out.len();
        while at > 0 && is_above(&s, &out[at - 1])
            invariant
                at <= out.len(),
                forall|j: int| at <= j < out.len() ==> listed_above(s, #[trigger] out@[j]),
            decreases at,
        {
            at -= 1;
        }
        proof {
            lemma_session_place(out@, s, at as int);
            assert(sessions@.take(i as int + 1).drop_last() =~= sessions@.take(i as int));
            assert(sessions@.take(i as int + 1).last() == s);
        }
        out.insert(at, s);
        i += 1;
    }
    proof {
        assert(sessions@.take(sessions.len() as int) =~= sessions@);
    }
    out
}

proof fn lemma_session_place_fits(list: Seq<Session>, s: Session)
    ensures
        0 <= session_place(list, s) <= list.len(),
        forall|j: int|
            session_place(list, s) <= j < list.len() ==> listed_above(s, #[trigger] list[j]),
        session_place(list, s) > 0 ==> !listed_above(s, list[session_place(list, s) - 1]),
    decreases list.len(),
{
    if list.len() > 0 && listed_above(s, list.last()) {
        let front = list.drop_last();
        lemma_session_place_fits(front, s);
        assert forall|j: int| session_place(list, s) <= j < list.len() implies listed_above(
            s,
            #[trigger] list[j],
        ) by {
            if j < front.len() {
                assert(list[j] == front[j]);
            }
        }
    }
}

/// The panel lists every session once: the living before the ended, among those
/// the master before the workers, and otherwise the older before the younger.
pub proof fn the_living_are_listed_first(sessions: Seq<Session>)
    ensures
        ordered(sessions).to_multiset() == sessions.to_multiset(),
        ordered(sessions).len() == sessions.len(),
        forall|i: int, j: int|
            0 <= i < j < sessions.len() ==> !listed_above(
                #[trigger] ordered(sessions)[j],
                #[trigger] ordered(sessions)[i],
            ),
    decreases sessions.len(),
{
    broadcast use vstd::seq_lib::group_to_multiset_ensures;

    if sessions.len() > 0 {
        let front = sessions.drop_last();
        let s = sessions.last();
        let before = ordered(front);
        let at = session_place(before, s);
        let after = ordered(sessions);
        the_living_are_listed_first(front);
        lemma_session_place_fits(before, s);
        assert(after == before.insert(at, s));
        assert forall|i: int, j: int| 0 <= i < j < after.len() implies !listed_above(
            #[trigger] after[j],
            #[trigger] after[i],
        ) by {
            let x = if i < at {
                i
            } else {
                i - 1
            };
            let y = if j < at {
                j
            } else {
                j - 1
            };
            if i != at {
                assert(after[i] == before[x]);
            }
            if j != at {
                assert(after[j] == before[y]);
            }
            if i == at {
                assert(listed_above(s, before[y]));
            } else if j == at {
                assert(!listed_above(s, before[at - 1]));
                if x < at - 1 {
                    assert(!listed_above(before[at - 1], before[x]));
                }
            } else {
                assert(!listed_above(before[y], before[x]));
            }
        }
        assert(sessions =~= front.push(s));
    }
}

/// The heading of a panel section.
pub open spec fn heading(title: Seq<char>) -> Seq<LineV> {
    seq![plain(Seq::empty()), bold(title)]
}

fn put_heading(out: &mut Vec<Line>, title: &str)
    ensures
        lines_view(final(out)@) == lines_view(old(out)@) + heading(title@),
{
    let ghost before = lines_view(out@);
    put(out, String::new(), Style::Plain);
    put(out, owned(title), Style::Bold);
    proof {
        assert(lines_view(out@) =~= before + heading(title@));
    }
}

/// The sessions, or where they are, or that there are none.
pub open spec fn sessions_section(row: QuestRow) -> Seq<LineV> {
    let list = ordered(row.sessions@);
    if row.origin is Remote {
        seq![
            dim(
                decimal(row.view.live_sessions as nat) + " live \u{b7} "@ + elsewhere(
                    row.view.quest.machine@,
                ),
            ),
        ]
    } else if list.len() == 0 {
        seq![dim("none"@)]
    } else {
        Seq::new(list.len(), |i: int| plain(session_text(list[i])))
    }
}

/// The links, or where they are, or that there are none.
pub open spec fn links_section(row: QuestRow, links: Seq<Link>) -> Seq<LineV> {
    if row.origin is Remote {
        seq![dim(elsewhere(row.view.quest.machine@))]
    } else if links.len() == 0 {
        seq![dim("none"@)]
    } else {
        Seq::new(links.len(), |i: int| plain(links[i].kind@ + " "@ + links[i].reference@))
    }
}

/// The events, or where they are, or that there are none.
pub open spec fn events_section(row: QuestRow, events: Seq<Event>) -> Seq<LineV> {
    if row.origin is Remote {
        seq![dim(elsewhere(row.view.quest.machine@))]
    } else if events.len() == 0 {
        seq![dim("none"@)]
    } else {
        Seq::new(
            events.len(),
            |i: int|
                plain(
                    padded_left(events[i].age@, 4) + " "@ + events[i].kind@ + " "@
                        + capped(events[i].payload_line@, PAYLOAD_CHARS as int),
                ),
        )
    }
}

/// The detail panel: goal, epic, sessions, links and the last events.
pub open spec fn panel_text(row: QuestRow, links: Seq<Link>, events: Seq<Event>) -> Seq<LineV> {
    seq![
        plain(row.view.quest.id@ + "  "@ + row.view.state_cell@),
        plain(goal_text(row)),
        dim(
            machine_text(row) + " \u{b7} "@ + row.cwd_shown@ + " \u{b7} "@ + row.age@ + " ago"@,
        ),
    ] + heading("beads"@) + seq![plain(beads_text(row))] + heading("sessions"@) + sessions_section(
        row,
    ) + heading("links"@) + links_section(row, links) + heading("events"@) + events_section(
        row,
        events,
    )
}

fn put_sessions(out: &mut Vec<Line>, row: &QuestRow)
    ensures
        lines_view(final(out)@) == lines_view(old(out)@) + sessions_section(*row),
{
    let ghost before = lines_view(out@);
    if row.origin.is_remote() {
        let text = concat3(
            number(row.view.live_sessions).as_str(),
            " live \u{b7} ",
            not_fetched(row.view.quest.machine.as_str()).as_str(),
        );
        put(out, text, Style::Dim);
        proof {
            assert(lines_view(out@) =~= before + sessions_section(*row));
        }
        return ;
    }
    let list = order_sessions(&row.sessions);
    if list.len() == 0 {
        put(out, owned("none"), Style::Dim);
        proof {
            assert(lines_view(out@) =~= before + sessions_section(*row));
        }
        return ;
    }
    let mut i: usize = 0;
    while i < list.len()
        invariant
            i <= list.len(),
            list@ == ordered(row.sessions@),
            lines_view(out@) =~= before + Seq::new(
                i as nat,
                |j: int| plain(session_text(list@[j])),
            ),
        decreases list.len() - i,
    {
        put(out, session_line(&list[i]), Style::Plain);
        i += 1;
    }
    proof {
        assert(lines_view(out@) =~= before + sessions_section(*row));
    }
}

fn put_links(out: &mut Vec<Line>, row: &QuestRow, links: &[Link])
    ensures
        lines_view(final(out)@) == lines_view(old(out)@) + links_section(*row, links@),
{
    let ghost before = lines_view(out@);
    if row.origin.is_remote() {
        put(out, not_fetched(row.view.quest.machine.as_str()), Style::Dim);
        proof {
            assert(lines_view(out@) =~= before + links_section(*row, links@));
        }
        return ;
    }
    if links.len() == 0 {
        put(out, owned("none"), Style::Dim);
        proof {
            assert(lines_view(out@) =~= before + links_section(*row, links@));
        }
        return ;
    }
    let mut i: usize = 0;
    while i < links.len()
        invariant
            i <= links.len(),
            lines_view(out@) =~= before + Seq::new(
                i as nat,
                |j: int| plain(links@[j].kind@ + " "@ + links@[j].reference@),
            ),
        decreases links.len() - i,
    {
        let text = concat3(links[i].kind.as_str(), " ", links[i].reference.as_str());
        put(out, text, Style::Plain);
        i += 1;
    }
    proof {
        assert(lines_view(out@) =~= before + links_section(*row, links@));
    }
}

fn put_events(out: &mut Vec<Line>, row: &QuestRow, events: &[Event])
    ensures
        lines_view(final(out)@) == lines_view(old(out)@) + events_section(*row, events@),
{
    let ghost before = lines_view(out@);
    if row.origin.is_remote() {
        put(out, not_fetched(row.view.quest.machine.as_str()), Style::Dim);
        proof {
            assert(lines_view(out@) =~= before + events_section(*row, events@));
        }
        return ;
    }
    if events.len() == 0 {
        put(out, owned("none"), Style::Dim);
        proof {
            assert(lines_view(out@) =~= before + events_section(*row, events@));
        }
        return ;
    }
    let mut i: usize = 0;
    while i < events.len()
        invariant
            i <= events.len(),
            lines_view(out@) =~= before + Seq::new(
                i as nat,
                |j: int|
                    plain(
                        padded_left(events@[j].age@, 4) + " "@ + events@[j].kind@ + " "@
                            + capped(events@[j].payload_line@, PAYLOAD_CHARS as int),
                    ),
            ),
        decreases events.len() - i,
    {
        let e = &events[i];
        let mut text = concat3(pad_left(e.age.as_str(), 4).as_str(), " ", e.kind.as_str());
        text.append(" ");
        text.append(cap(e.payload_line.as_str(), PAYLOAD_CHARS).as_str());
        put(out, text, Style::Plain);
        i += 1;
    }
    proof {
        assert(lines_view(out@) =~= before + events_section(*row, events@));
    }
}

/// The detail panel. Sessions, links and events of a remote quest are in that
/// machine's database: "none" would be a claim about a quest that was never
/// asked about, so the panel says where they are instead.
pub fn panel_lines(row: &QuestRow, links: &[Link], events: &[Event]) -> (r: Vec<Line>)
    ensures
        lines_view(r@) == panel_text(*row, links@, events@),
{
    let mut out: Vec<Line> = Vec::new();
    let first = concat3(row.view.quest.id.as_str(), "  ", row.view.state_cell.as_str());
    put(&mut out, first, Style::Plain);
    put(&mut out, goal(row), Style::Plain);
    let mut place = concat3(machine_cell(row).as_str(), " \u{b7} ", row.cwd_shown.as_str());
    place.append(" \u{b7} ");
    place.append(row.age.as_str());
    place.append(" ago");
    put(&mut out, place, Style::Dim);
    proof {
        assert(lines_view(out@) =~= seq![
            plain(row.view.quest.id@ + "  "@ + row.view.state_cell@),
            plain(goal_text(*row)),
            dim(
                machine_text(*row) + " \u{b7} "@ + row.cwd_shown@ + " \u{b7} "@ + row.age@
                    + " ago"@,
            ),
        ]);
    }
    put_heading(&mut out, "beads");
    let ghost before = lines_view(out@);
    put(&mut out, beads_line(row), Style::Plain);
    proof {
        assert(lines_view(out@) =~= before + seq![plain(beads_text(*row))]);
    }
    put_heading(&mut out, "sessions");
    put_sessions(&mut out, row);
    put_heading(&mut out, "links");
    put_links(&mut out, row, links);
    put_heading(&mut out, "events");
    put_events(&mut out, row, events);
    out
}

// -------------------------------------------------------------- the listing

/// What an empty listing says.
pub open spec fn empty_text(q: QuestsV) -> Seq<LineV> {
    seq![
        bold(
            if q.rows.len() > 0 {
                "no quests match the filters"@
            } else if q.show_finished {
                "no quests yet"@
            } else {
                "no open quests"@
            },
        ),
        plain(Seq::empty()),
        dim("n starts one \u{b7} f shows finished \u{b7} ? for keys"@),
    ]
}

/// Why the listing is empty, and what to do about it.
pub fn empty_lines(state: &State) -> (r: Vec<Line>)
    ensures
        lines_view(r@) == empty_text(state@),
{
    let why = if !state.rows.is_empty() {
        "no quests match the filters"
    } else if state.show_finished {
        "no quests yet"
    } else {
        "no open quests"
    };
    let mut out: Vec<Line> = Vec::new();
    put(&mut out, owned(why), Style::Bold);
    put(&mut out, String::new(), Style::Plain);
    put(
        &mut out,
        owned("n starts one \u{b7} f shows finished \u{b7} ? for keys"),
        Style::Dim,
    );
    proof {
        assert(lines_view(out@) =~= empty_text(state@));
    }
    out
}

/// The links of the row at `i`.
pub open spec fn links_at(q: QuestsV, i: int) -> Seq<Link> {
    if 0 <= i < q.links.len() {
        q.links[i]@
    } else {
        Seq::empty()
    }
}

/// The lines from visible row `n` on, below a row of that group: a heading
/// wherever the group changes, then the row.
pub open spec fn rows_text(
    q: QuestsV,
    mode: RowMode,
    columns: int,
    n: int,
    group: Option<u8>,
) -> Seq<LineV>
    decreases on_screen(q).len() - n,
{
    let vis = on_screen(q);
    if n < 0 || n >= vis.len() {
        Seq::empty()
    } else {
        let row = q.rows[vis[n]];
        let rank = rank_of(row.view);
        heading_above(rank, group, columns) + row_text(row, links_at(q, vis[n]), n == q.selected, mode, columns) + rows_text(
            q,
            mode,
            columns,
            n + 1,
            Some(rank),
        )
    }
}

/// What the listing shows in that many lines.
pub open spec fn listing_text(q: QuestsV, mode: RowMode, columns: int, capacity: int) -> Seq<LineV> {
    let all = rows_text(q, mode, columns, q.offset as int, None);
    if all.len() <= capacity {
        all
    } else {
        all.take(capacity)
    }
}

/// The heading above a row of that group, where the row above it is of another.
pub open spec fn heading_above(rank: u8, group: Option<u8>, columns: int) -> Seq<LineV> {
    if group != Some(rank) {
        seq![dim(truncated(group_heading(rank), columns))]
    } else {
        Seq::empty()
    }
}

/// Appends visible row `n`, which is row `at` of the listing, below a row of that
/// group, and says which group it is of.
fn put_row(
    out: &mut Vec<Line>,
    state: &State,
    n: usize,
    at: usize,
    group: Option<u8>,
    mode: RowMode,
    columns: usize,
) -> (r: u8)
    requires
        at < state.rows.len(),
        columns >= 1 ==> all_within(lines_view(old(out)@), columns as int),
    ensures
        r == rank_of(state@.rows[at as int].view),
        lines_view(final(out)@) == lines_view(old(out)@) + (heading_above(r, group, columns as int)
            + row_text(
            state@.rows[at as int],
            links_at(state@, at as int),
            n == state@.selected,
            mode,
            columns as int,
        )),
        columns >= 1 ==> all_within(lines_view(final(out)@), columns as int),
{
    let ghost before = lines_view(out@);
    let row = &state.rows[at];
    let here = rank(&row.view);
    let fresh = match group {
        Some(g) => g != here,
        None => true,
    };
    if fresh {
        put(out, truncate(group_title(here), columns), Style::Dim);
    }
    let ghost title = heading_above(here, group, columns as int);
    proof {
        assert(lines_view(out@) =~= before + title);
    }
    let selected = n == state.selected;
    let lines = if at < state.links.len() {
        row_lines(row, state.links[at].as_slice(), selected, mode, columns)
    } else {
        let none: Vec<Link> = Vec::new();
        proof {
            assert(none@ =~= links_at(state@, at as int));
        }
        row_lines(row, none.as_slice(), selected, mode, columns)
    };
    let ghost drawn = lines_view(lines@);
    put_all(out, lines);
    proof {
        assert((before + title) + drawn =~= before + (title + drawn));
    }
    here
}

/// The listing from its scroll position on. The group headings cost a line each,
/// so the window is computed over lines rather than over rows.
pub fn listing_lines(state: &State, mode: RowMode, columns: usize, capacity: usize) -> (r: Vec<Line>)
    ensures
        lines_view(r@) == listing_text(state@, mode, columns as int, capacity as int),
        columns >= 1 ==> all_within(lines_view(r@), columns as int),
{
    let visible = state.visible();
    let ghost q = state@;
    let ghost vis = on_screen(q);
    let ghost all = rows_text(q, mode, columns as int, q.offset as int, None);
    let mut out: Vec<Line> = Vec::new();
    let mut group: Option<u8> = None;
    let mut n: usize = state.offset;
    proof {
        assert(vis.len() == visible.len());
        assert(lines_view(out@) =~= Seq::empty());
        assert(lines_view(out@) + all =~= all);
    }
    while n < visible.len() && out.len() < capacity
        invariant
            q == state@,
            vis == on_screen(q),
            vis == places(visible@),
            forall|i: int| 0 <= i < visible.len() ==> (#[trigger] visible[i]) < state.rows.len(),
            columns >= 1 ==> all_within(lines_view(out@), columns as int),
            lines_view(out@) + rows_text(q, mode, columns as int, n as int, group) == all,
        decreases visible.len() - n,
    {
        let at = visible[n];
        proof {
            assert(vis[n as int] == at);
            assert(vis.len() == visible.len());
        }
        let ghost before = lines_view(out@);
        let here = put_row(&mut out, state, n, at, group, mode, columns);
        proof {
            let shown = lines_view(out@);
            let rest = rows_text(q, mode, columns as int, n as int + 1, Some(here));
            let step = heading_above(here, group, columns as int) + row_text(
                q.rows[at as int],
                links_at(q, at as int),
                n == q.selected,
                mode,
                columns as int,
            );
            assert(shown == before + step);
            assert(rows_text(q, mode, columns as int, n as int, group) == step + rest);
            assert(before + (step + rest) =~= shown + rest);
        }
        group = Some(here);
        n += 1;
    }
    proof {
        assert(lines_view(out@).len() == out.len());
        if n >= visible.len() {
            assert(rows_text(q, mode, columns as int, n as int, group) =~= Seq::empty());
            assert(lines_view(out@) + Seq::<LineV>::empty() =~= lines_view(out@));
        }
    }
    if out.len() > capacity {
        let ghost whole = out@;
        out.truncate(capacity);
        proof {
            assert(lines_view(out@) =~= lines_view(whole).take(capacity as int));
            assert(lines_view(whole).take(capacity as int) =~= all.take(capacity as int));
        }
    } else {
        proof {
            assert(n < visible.len() ==> out.len() == capacity);
            if n < visible.len() {
                assert(all.take(capacity as int) =~= lines_view(out@));
                if all.len() <= capacity {
                    assert(all =~= lines_view(out@));
                }
            }
        }
    }
    out
}

} // verus!
