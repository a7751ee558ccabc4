//! What the lines of a listing and of a panel say.
use vstd::prelude::*;
use vstd::string::*;
use crate::layout::{capped, display_width, fitting, mode_at, RowMode, ELLIPSIS};
use crate::model::{
    DisplayState, Event, Link, Origin, QuestRow, Session, SessionRole, SessionStatus,
};
use crate::quest_laws::lemma_said;
use crate::quest_lines::{
    beads_text, empty_text, events_section, facts_of, goal_and_links_text, goal_text, head_text,
    headline_words, last_at, link_text, link_words, links_section, ordered, packed, panel_text,
    pull_number, row_text, segment_end, session_text, sessions_section, urgency_text,
};
use crate::quests::QuestsV;
use crate::text::{
    all_digits, decimal, has_text, is_digit, joined, padded_left, repeated, stands_at, trimmed,
};
use crate::text_laws::{joining_keeps_every_part, what_occurs_stands_somewhere};

verus! {

// ------------------------------------------------------------------ cut texts

/// A text of more than so many characters keeps all but the last of them and
/// says that it was cut; a shorter one is left alone.
pub proof fn a_capped_text_keeps_its_front(s: Seq<char>, max: int)
    requires
        max > 0,
    ensures
        s.len() <= max ==> capped(s, max) == s,
        s.len() > max ==> {
            &&& capped(s, max).len() == max
            &&& capped(s, max).last() == '\u{2026}'
            &&& forall|i: int| 0 <= i < max - 1 ==> capped(s, max)[i] == s[i]
        },
{
}

/// A cut text holds as much as fits: with the next cluster it would be too wide.
pub proof fn a_cut_takes_all_that_fits(parts: Seq<Seq<char>>, kept: Seq<char>, max: int) -> (n: int)
    ensures
        0 <= n <= parts.len(),
        n == parts.len() || display_width(
            (fitting(parts, kept, max) + parts[n]).push('\u{2026}'),
        ) > max,
        n == parts.len() || fitting(parts, kept, max).len() > 0 || display_width(parts[n]) > 0,
    decreases parts.len(),
{
    if parts.len() == 0 {
        0
    } else if kept.len() == 0 && display_width(parts[0]) == 0 {
        1 + a_cut_takes_all_that_fits(parts.drop_first(), kept, max)
    } else if display_width((kept + parts[0]).push(ELLIPSIS)) <= max {
        1 + a_cut_takes_all_that_fits(parts.drop_first(), kept + parts[0], max)
    } else {
        0
    }
}

/// Where both halves of a line fit, neither is cut: the left one begins the line,
/// the right one ends it, and there are only blanks between, at least one.
pub proof fn both_halves_of_a_line_stand(
    left: Seq<char>,
    blanks: nat,
    right: Seq<char>,
    columns: int,
)
    requires
        right.len() > 0,
        display_width(right) + 2 < columns,
        blanks >= 1,
        display_width(left) + blanks + display_width(right) == columns,
        display_width(left + Seq::new(blanks, |i: int| ' ') + right) <= columns,
    ensures
        packed(left, right, columns) == left + Seq::new(blanks, |i: int| ' ') + right,
{
    assert(repeated(' ', blanks) =~= Seq::new(blanks, |i: int| ' '));
}

/// A right half that would leave the left one no room is dropped.
pub proof fn a_line_gives_its_left_half_up_last(left: Seq<char>, right: Seq<char>, columns: int)
    requires
        columns > 0,
        right.len() == 0 || display_width(right) + 2 >= columns,
        display_width(left) <= columns,
    ensures
        packed(left, right, columns) == left,
{
}

/// A wide terminal shows rows of two lines, a narrow one rows of three, and in
/// between it is as configured.
pub proof fn the_width_decides_the_rows(width: u16, configured: u8)
    ensures
        width >= crate::layout::WIDE_COLS ==> mode_at(width, configured) == RowMode::Two,
        width < crate::layout::NARROW_COLS ==> mode_at(width, configured) == RowMode::Three,
        crate::layout::NARROW_COLS <= width < crate::layout::WIDE_COLS && configured >= 3
            ==> mode_at(width, configured) == RowMode::Three,
        crate::layout::NARROW_COLS <= width < crate::layout::WIDE_COLS && configured < 3
            ==> mode_at(width, configured) == RowMode::Two,
{
}

// ------------------------------------------------------------------------ rows

/// The head of a row says whether it is selected, how the quest stands and which
/// it is.
pub proof fn a_row_begins_with_its_slug(row: QuestRow, selected: bool)
    ensures
        has_text(head_text(row, selected), row.view.quest.slug@),
        head_text(row, true) != head_text(row, false),
        row.view.display_state == DisplayState::Active ==> has_text(
            head_text(row, selected),
            "\u{25cf}"@,
        ),
        row.view.display_state == DisplayState::Idle ==> has_text(
            head_text(row, selected),
            "\u{23f8}"@,
        ),
        row.view.display_state == DisplayState::Finished ==> has_text(
            head_text(row, selected),
            "\u{2713}"@,
        ),
{
    reveal_strlit("\u{25b8}");
    reveal_strlit(" ");
    let g = crate::quest_lines::glyph_of(row);
    let slug = row.view.quest.slug@;
    let cursor = if selected {
        "\u{25b8}"@
    } else {
        " "@
    };
    lemma_said(head_text(row, selected), cursor + " "@ + g + " "@, slug, Seq::empty());
    assert(head_text(row, selected) =~= (cursor + " "@) + g + (" "@ + slug));
    lemma_said(head_text(row, selected), cursor + " "@, g, " "@ + slug);
    assert(head_text(row, true)[0] == '\u{25b8}');
    assert(head_text(row, false)[0] == ' ');
}

/// The facts of a row: its machine always; the epic's progress where it has
/// issues; how full the master's context is; how many sessions live; and why it
/// is looked at. Nothing else is said, and nothing of these is left out.
pub proof fn a_row_says_its_facts(row: QuestRow)
    ensures
        ({
            let facts = joined(facts_of(row), "  "@);
            let p = row.view.progress;
            &&& has_text(facts, row.view.quest.machine@)
            &&& p is Some && p->0.total > 0 ==> has_text(facts, p->0.cell@) && has_text(
                facts,
                p->0.bar@,
            )
            &&& row.view.master_ctx_pct is Some ==> has_text(
                facts,
                decimal(row.view.master_ctx_pct->0 as nat),
            )
            &&& row.view.live_sessions > 0 ==> has_text(
                facts,
                decimal(row.view.live_sessions as nat) + " sess"@,
            )
            &&& row.view.needs_you ==> has_text(facts, "needs you"@)
            &&& has_text(facts, row.age@)
            &&& facts_of(row).len() == 1 + (if p is Some && p->0.total > 0 {
                1int
            } else {
                0
            }) + (if row.view.master_ctx_pct is Some {
                1int
            } else {
                0
            }) + (if row.view.live_sessions > 0 {
                1int
            } else {
                0
            }) + (if row.view.needs_you || row.age@.len() > 0 {
                1int
            } else {
                0
            })
        }),
{
    reveal_strlit("needs you  ");
    reveal_strlit("needs you");
    let f = facts_of(row);
    let facts = joined(f, "  "@);
    let p = row.view.progress;
    let m = row.view.quest.machine@;
    assert(f[0] == crate::quest_lines::machine_text(row));
    if row.origin == (Origin::Remote { stale: true }) {
        assert(f[0] =~= Seq::<char>::empty() + m + " \u{26a0}"@);
        lemma_fact(f, 0, Seq::empty(), m, " \u{26a0}"@);
    } else {
        assert(f[0] =~= Seq::<char>::empty() + m + Seq::empty());
        lemma_fact(f, 0, Seq::empty(), m, Seq::empty());
    }
    let mut at: int = 1;
    if p is Some && p->0.total > 0 {
        let cell = p->0.cell@;
        let bar = p->0.bar@;
        assert(f[1] == cell + " "@ + bar);
        assert(f[1] =~= Seq::<char>::empty() + cell + (" "@ + bar));
        lemma_fact(f, 1, Seq::empty(), cell, " "@ + bar);
        assert(f[1] =~= (cell + " "@) + bar + Seq::empty());
        lemma_fact(f, 1, cell + " "@, bar, Seq::empty());
        at = at + 1;
    }
    if row.view.master_ctx_pct is Some {
        let n = decimal(row.view.master_ctx_pct->0 as nat);
        assert(f[at] == "master ctx "@ + n + "%"@);
        lemma_fact(f, at, "master ctx "@, n, "%"@);
        at = at + 1;
    }
    if row.view.live_sessions > 0 {
        let n = decimal(row.view.live_sessions as nat) + " sess"@;
        assert(f[at] == n);
        assert(f[at] =~= Seq::<char>::empty() + n + Seq::empty());
        lemma_fact(f, at, Seq::empty(), n, Seq::empty());
        at = at + 1;
    }
    let u = urgency_text(row);
    if u.len() > 0 {
        assert(f[at] == u);
        if row.view.needs_you {
            assert(u =~= "needs you  "@ + row.age@ + Seq::empty());
            lemma_fact(f, at, "needs you  "@, row.age@, Seq::empty());
            assert("needs you  "@ =~= "needs you"@ + seq![' ', ' ']);
            assert(u =~= Seq::<char>::empty() + "needs you"@ + (seq![' ', ' '] + row.age@));
            lemma_fact(f, at, Seq::empty(), "needs you"@, seq![' ', ' '] + row.age@);
        } else {
            assert(u =~= Seq::<char>::empty() + row.age@ + Seq::empty());
            lemma_fact(f, at, Seq::empty(), row.age@, Seq::empty());
        }
    } else {
        assert(facts =~= facts + row.age@ + Seq::empty());
        lemma_said(facts, facts, row.age@, Seq::empty());
    }
}

/// What stands in a part stands in the parts joined.
pub(crate) proof fn lemma_fact(
    parts: Seq<Seq<char>>,
    i: int,
    a: Seq<char>,
    m: Seq<char>,
    b: Seq<char>,
)
    requires
        0 <= i < parts.len(),
        parts[i] == a + m + b,
    ensures
        forall|sep: Seq<char>| has_text(#[trigger] joined(parts, sep), m),
{
    assert forall|sep: Seq<char>| has_text(#[trigger] joined(parts, sep), m) by {
        let all = joined(parts, sep);
        joining_keeps_every_part(parts, sep, i);
        let (x, y) = what_occurs_stands_somewhere(all, parts[i]);
        assert(all =~= (x + a) + m + (b + y));
        lemma_said(all, x + a, m, b + y);
    }
}

/// An answer that stands in for a newer one is marked as old, and no other is.
pub proof fn an_old_answer_is_marked(row: QuestRow)
    ensures
        row.origin is Local || row.origin == (Origin::Remote { stale: false })
            ==> crate::quest_lines::machine_text(row) == row.view.quest.machine@,
        row.origin == (Origin::Remote { stale: true }) ==> crate::quest_lines::machine_text(row)
            != row.view.quest.machine@,
{
    reveal_strlit(" \u{26a0}");
    let m = crate::quest_lines::machine_text(row);
    if row.origin == (Origin::Remote { stale: true }) {
        assert(m.len() == row.view.quest.machine@.len() + 2);
    }
}

/// The second line of a row says the goal, or that there is none, and then every
/// pull request and task, in order, and no other link.
pub proof fn a_row_says_its_goal_and_its_headlines(row: QuestRow, links: Seq<Link>)
    ensures
        has_text(goal_and_links_text(row, links), goal_text(row)),
        row.view.quest.goal is None ==> goal_text(row) == "no goal"@,
        row.view.quest.goal is Some && trimmed(row.view.quest.goal->0@).len() == 0
            ==> goal_text(row) == "no goal"@,
        row.view.quest.goal is Some && trimmed(row.view.quest.goal->0@).len() > 0
            && row.goal_line@.len() <= crate::quest_lines::GOAL_CHARS ==> goal_text(row)
            == row.goal_line@,
        headline_words(links) == links.filter(
            |l: Link| l.kind@ == "pr"@ || l.kind@ == "task"@,
        ).map_values(|l: Link| link_words(l)),
        forall|i: int|
            0 <= i < links.len() && ((#[trigger] links[i]).kind@ == "pr"@ || links[i].kind@
                == "task"@) ==> has_text(goal_and_links_text(row, links), link_words(links[i])),
{
    let parts = seq![goal_text(row)] + headline_words(links);
    let g = goal_text(row);
    assert(parts[0] =~= Seq::<char>::empty() + g + Seq::empty());
    lemma_fact(parts, 0, Seq::empty(), g, Seq::empty());
    lemma_headlines(links);
    assert forall|i: int|
        0 <= i < links.len() && ((#[trigger] links[i]).kind@ == "pr"@ || links[i].kind@
            == "task"@) implies has_text(goal_and_links_text(row, links), link_words(links[i])) by {
        let w = link_words(links[i]);
        let k = lemma_headline_of(links, i);
        assert(parts[k + 1] =~= Seq::<char>::empty() + w + Seq::empty());
        lemma_fact(parts, k + 1, Seq::empty(), w, Seq::empty());
    }
}

proof fn lemma_headlines(links: Seq<Link>)
    ensures
        headline_words(links) == links.filter(
            |l: Link| l.kind@ == "pr"@ || l.kind@ == "task"@,
        ).map_values(|l: Link| link_words(l)),
    decreases links.len(),
{
    let p = |l: Link| l.kind@ == "pr"@ || l.kind@ == "task"@;
    let w = |l: Link| link_words(l);
    reveal(Seq::filter);
    if links.len() == 0 {
        assert(headline_words(links) =~= links.filter(p).map_values(w));
    } else {
        lemma_headlines(links.drop_last());
        let before = links.drop_last().filter(p);
        if p(links.last()) {
            assert(links.filter(p) == before.push(links.last()));
            assert(before.push(links.last()).map_values(w) =~= before.map_values(w).push(
                link_words(links.last()),
            ));
        } else {
            assert(links.filter(p) == before);
        }
    }
}

proof fn lemma_headline_of(links: Seq<Link>, i: int) -> (k: int)
    requires
        0 <= i < links.len(),
        links[i].kind@ == "pr"@ || links[i].kind@ == "task"@,
    ensures
        0 <= k < headline_words(links).len(),
        headline_words(links)[k] == link_words(links[i]),
    decreases links.len(),
{
    if i == links.len() - 1 {
        headline_words(links.drop_last()).len() as int
    } else {
        lemma_headline_of(links.drop_last(), i)
    }
}

// ----------------------------------------------------------------------- links

/// The number of a pull request is what stands between the last `/pull/` of the
/// reference and the next `/`, `?` or `#`, where that is digits.
pub proof fn a_pull_request_is_known_by_its_number(a: Seq<char>, n: Seq<char>, b: Seq<char>)
    requires
        all_digits(n),
        b.len() == 0 || b[0] == '/' || b[0] == '?' || b[0] == '#',
        !has_text(n + b, "/pull/"@),
    ensures
        pull_number(a + "/pull/"@ + n + b) == Some(n),
{
    reveal_strlit("/pull/");
    let m = "/pull/"@;
    let s = a + m + n + b;
    let at = a.len() as int;
    assert(s.subrange(at, at + 6) =~= m);
    assert forall|i: int| at < i implies !stands_at(s, m, i) by {
        if stands_at(s, m, i) {
            assert(s.subrange(i, i + 6)[0] == m[0]);
            assert(s[i] == '/');
            if i < at + 6 {
                assert(s[i] == m[i - at]);
                assert(i == at + 5);
                assert(s.subrange(i, i + 6)[1] == m[1]);
                assert(s[i + 1] == 'p');
                assert(s[at + 6] == n[0]);
                assert(is_digit(n[0]));
            } else {
                let k = i - at - 6;
                assert((n + b).subrange(k, k + 6) =~= s.subrange(i, i + 6));
                assert(stands_at(n + b, m, k));
            }
        }
    }
    lemma_last_at(s, m, at, s.len() as int);
    let rest = s.skip(at + 6);
    assert(rest =~= n + b);
    assert forall|i: int| 0 <= i < n.len() implies (#[trigger] rest[i]) != '/' && rest[i] != '?'
        && rest[i] != '#' by {
        assert(is_digit(n[i]));
    }
    lemma_segment(rest, n.len() as int);
    assert(rest.take(n.len() as int) =~= n);
}

proof fn lemma_last_at(s: Seq<char>, sub: Seq<char>, at: int, i: int)
    requires
        stands_at(s, sub, at),
        at <= i,
        forall|j: int| at < j ==> !stands_at(s, sub, j),
    ensures
        last_at(s, sub, i) == at,
    decreases i,
{
    if i > at {
        lemma_last_at(s, sub, at, i - 1);
    }
}

proof fn lemma_segment(s: Seq<char>, n: int)
    requires
        0 <= n <= s.len(),
        forall|i: int| 0 <= i < n ==> (#[trigger] s[i]) != '/' && s[i] != '?' && s[i] != '#',
        n < s.len() ==> s[n] == '/' || s[n] == '?' || s[n] == '#',
    ensures
        segment_end(s) == n,
    decreases s.len(),
{
    if n > 0 {
        assert(s[0] != '/' && s[0] != '?' && s[0] != '#');
        assert forall|i: int| 0 <= i < n - 1 implies (#[trigger] s.drop_first()[i]) != '/'
            && s.drop_first()[i] != '?' && s.drop_first()[i] != '#' by {
            assert(s.drop_first()[i] == s[i + 1]);
        }
        lemma_segment(s.drop_first(), n - 1);
    }
}

/// A reference without `/pull/` has no such number.
pub proof fn no_number_without_a_pull_request(reference: Seq<char>)
    requires
        !has_text(reference, "/pull/"@),
    ensures
        pull_number(reference) is None,
{
    lemma_nowhere(reference, "/pull/"@, reference.len() as int);
}

proof fn lemma_nowhere(s: Seq<char>, sub: Seq<char>, i: int)
    requires
        !has_text(s, sub),
    ensures
        last_at(s, sub, i) < 0,
    decreases i + 1,
{
    if i >= 0 {
        assert(!stands_at(s, sub, i));
        lemma_nowhere(s, sub, i - 1);
    }
}

/// A pull request says its number, its state and its checks; a task says its
/// title; another link says its kind and its title, or its reference where it has
/// no title.
pub proof fn a_link_says_what_it_is(link: Link, state: Option<Seq<char>>, ci: Option<Seq<char>>)
    ensures
        ({
            let words = link_text(link, state, ci);
            let titled = link.title is Some && link.title->0@.len() > 0;
            let short_title = link.title_line@.len() <= crate::quest_lines::LINK_CHARS;
            let short_reference = link.reference_line@.len() <= crate::quest_lines::LINK_CHARS;
            let pr = link.kind@ == "pr"@;
            &&& pr && pull_number(link.reference@) is Some ==> has_text(
                words,
                "PR #"@ + pull_number(link.reference@)->0,
            )
            &&& pr && state is Some ==> has_text(words, state->0)
            &&& pr && ci is Some ==> has_text(words, "CI "@ + ci->0)
            &&& !pr && titled && short_title ==> has_text(words, link.title_line@)
            &&& link.kind@ == "task"@ ==> has_text(words, "task"@)
            &&& !pr && link.kind@ != "task"@ ==> has_text(words, link.kind@)
            &&& !pr && link.kind@ != "task"@ && !titled && short_reference ==> has_text(
                words,
                link.reference_line@,
            )
        }),
{
    reveal_strlit("pr");
    reveal_strlit("task");
    assert("pr"@.len() == 2 && "task"@.len() == 4);
    let words = link_text(link, state, ci);
    let titled = link.title is Some && link.title->0@.len() > 0;
    if link.kind@ == "pr"@ {
        let x = match pull_number(link.reference@) {
            Some(n) => "PR #"@ + n,
            None => "PR"@,
        };
        let y = match state {
            Some(s) => " "@ + s,
            None => Seq::empty(),
        };
        let z = match ci {
            Some(c) => " (CI "@ + c + ")"@,
            None => Seq::empty(),
        };
        assert(words == x + y + z);
        assert(words =~= Seq::<char>::empty() + x + (y + z));
        lemma_said(words, Seq::empty(), x, y + z);
        if state is Some {
            assert(words =~= (x + " "@) + state->0 + z);
            lemma_said(words, x + " "@, state->0, z);
        }
        if ci is Some {
            reveal_strlit(" (CI ");
            reveal_strlit("CI ");
            let c = ci->0;
            assert(" (CI "@ =~= seq![' ', '('] + "CI "@);
            assert(words =~= (x + y + seq![' ', '(']) + ("CI "@ + c) + ")"@);
            lemma_said(words, x + y + seq![' ', '('], "CI "@ + c, ")"@);
        }
    } else if link.kind@ == "task"@ {
        reveal_strlit("task ");
        let t = capped(link.title_line@, crate::quest_lines::LINK_CHARS as int);
        if titled {
            assert(words =~= "task "@ + t + Seq::empty());
            lemma_said(words, "task "@, t, Seq::empty());
            assert("task "@ =~= "task"@ + seq![' ']);
            assert(words =~= Seq::<char>::empty() + "task"@ + (seq![' '] + t));
            lemma_said(words, Seq::empty(), "task"@, seq![' '] + t);
        } else {
            lemma_said(words, Seq::empty(), "task"@, Seq::empty());
        }
    } else {
        let t = if titled {
            capped(link.title_line@, crate::quest_lines::LINK_CHARS as int)
        } else {
            capped(link.reference_line@, crate::quest_lines::LINK_CHARS as int)
        };
        assert(words =~= (link.kind@ + " "@) + t + Seq::empty());
        lemma_said(words, link.kind@ + " "@, t, Seq::empty());
        assert(words =~= Seq::<char>::empty() + link.kind@ + (" "@ + t));
        lemma_said(words, Seq::empty(), link.kind@, " "@ + t);
    }
}

// ------------------------------------------------------------------- the panel

/// A session says its label, its role, how it stands, what it waits for, its phase
/// and how full its context is.
pub proof fn a_session_says_how_it_stands(s: Session)
    ensures
        ({
            let t = session_text(s);
            &&& has_text(t, s.label@)
            &&& has_text(t, crate::model::role_text(s.role))
            &&& has_text(t, crate::model::status_text(s.status))
            &&& s.waiting_for is Some && s.waiting_for->0@.len() > 0 ==> has_text(
                t,
                s.waiting_for->0@,
            )
            &&& s.phase is Some && s.phase->0@.len() > 0 ==> has_text(t, s.phase->0@)
            &&& s.ctx_pct is Some ==> has_text(t, decimal(s.ctx_pct->0 as nat))
        }),
{
    let w = crate::quest_lines::suffix(" ("@, s.waiting_for, ")"@);
    let p = crate::quest_lines::suffix(" \u{b7} "@, s.phase, Seq::empty());
    let c = match s.ctx_pct {
        Some(ctx) => " \u{b7} ctx "@ + decimal(ctx as nat) + "%"@,
        None => Seq::empty(),
    };
    let r = crate::model::role_text(s.role);
    let st = crate::model::status_text(s.status);
    let t = session_text(s);
    assert(t == s.label@ + " "@ + r + " "@ + st + w + p + c);
    lemma_six(s.label@, " "@, r, " "@, st, w, p, c);
    if s.waiting_for is Some && s.waiting_for->0@.len() > 0 {
        lemma_inner(t, " ("@, s.waiting_for->0@, ")"@);
    }
    if s.phase is Some && s.phase->0@.len() > 0 {
        lemma_inner(t, " \u{b7} "@, s.phase->0@, Seq::empty());
    }
    if s.ctx_pct is Some {
        lemma_inner(t, " \u{b7} ctx "@, decimal(s.ctx_pct->0 as nat), "%"@);
    }
}

/// What stands in something that occurs occurs too.
pub(crate) proof fn lemma_inner(t: Seq<char>, a: Seq<char>, m: Seq<char>, b: Seq<char>)
    requires
        has_text(t, a + m + b),
    ensures
        has_text(t, m),
{
    let (x, y) = what_occurs_stands_somewhere(t, a + m + b);
    assert(t =~= (x + a) + m + (b + y));
    lemma_said(t, x + a, m, b + y);
}

proof fn lemma_six(
    l: Seq<char>,
    i: Seq<char>,
    r: Seq<char>,
    j: Seq<char>,
    s: Seq<char>,
    w: Seq<char>,
    p: Seq<char>,
    c: Seq<char>,
)
    ensures
        ({
            let t = l + i + r + j + s + w + p + c;
            has_text(t, l) && has_text(t, r) && has_text(t, s) && has_text(t, w) && has_text(t, p)
                && has_text(t, c)
        }),
{
    let t = l + i + r + j + s + w + p + c;
    let t1 = i + r + j + s + w + p + c;
    assert(t =~= Seq::<char>::empty() + l + t1);
    lemma_said(t, Seq::empty(), l, t1);
    let t2 = j + s + w + p + c;
    assert(t =~= (l + i) + r + t2);
    lemma_said(t, l + i, r, t2);
    let t3 = w + p + c;
    assert(t =~= (l + i + r + j) + s + t3);
    lemma_said(t, l + i + r + j, s, t3);
    assert(t =~= (l + i + r + j + s) + w + (p + c));
    lemma_said(t, l + i + r + j + s, w, p + c);
    assert(t =~= (l + i + r + j + s + w) + p + c);
    lemma_said(t, l + i + r + j + s + w, p, c);
    assert(t =~= (l + i + r + j + s + w + p) + c + Seq::empty());
    lemma_said(t, l + i + r + j + s + w + p, c, Seq::empty());
}

/// The epic is named, with how far it is or that this is not known.
pub proof fn the_epic_is_named(row: QuestRow)
    ensures
        row.view.quest.beads_epic is None ==> beads_text(row) == "no epic"@,
        row.view.quest.beads_epic is Some ==> has_text(
            beads_text(row),
            row.view.quest.beads_epic->0@,
        ),
        row.view.quest.beads_epic is Some && row.view.progress is Some ==> has_text(
            beads_text(row),
            row.view.progress->0.summary@,
        ),
        row.view.quest.beads_epic is Some && row.view.progress is None ==> has_text(
            beads_text(row),
            "progress unavailable"@,
        ),
{
    if row.view.quest.beads_epic is Some {
        let e = row.view.quest.beads_epic->0@;
        let d = " \u{b7} "@;
        let p = match row.view.progress {
            Some(p) => p.summary@,
            None => "progress unavailable"@,
        };
        let t = beads_text(row);
        assert(t =~= Seq::<char>::empty() + e + (d + p));
        lemma_said(t, Seq::empty(), e, d + p);
        lemma_said(t, e + d, p, Seq::empty());
    }
}

/// The panel of a quest of this machine says each of its sessions, each of its
/// links and each of its events, one line each.
pub proof fn a_panel_says_all_there_is_of_a_quest(
    row: QuestRow,
    links: Seq<Link>,
    events: Seq<Event>,
    i: int,
)
    requires
        row.origin is Local,
    ensures
        row.sessions@.len() > 0 ==> sessions_section(row).len() == ordered(row.sessions@).len(),
        0 <= i < ordered(row.sessions@).len() ==> sessions_section(row)[i].text == session_text(
            ordered(row.sessions@)[i],
        ),
        links.len() > 0 ==> links_section(row, links).len() == links.len(),
        0 <= i < links.len() ==> has_text(links_section(row, links)[i].text, links[i].kind@)
            && has_text(links_section(row, links)[i].text, links[i].reference@),
        events.len() > 0 ==> events_section(row, events).len() == events.len(),
        0 <= i < events.len() ==> has_text(events_section(row, events)[i].text, events[i].kind@)
            && has_text(events_section(row, events)[i].text, events[i].age@),
        0 <= i < events.len() && events[i].payload_line@.len() <= crate::quest_lines::PAYLOAD_CHARS
            ==> has_text(events_section(row, events)[i].text, events[i].payload_line@),
{
    lemma_ordered_len(row.sessions@);
    if 0 <= i < links.len() {
        let k = links[i].kind@;
        let r = links[i].reference@;
        let t = links_section(row, links)[i].text;
        assert(t =~= Seq::<char>::empty() + k + (" "@ + r));
        lemma_said(t, Seq::empty(), k, " "@ + r);
        assert(t =~= (k + " "@) + r + Seq::empty());
        lemma_said(t, k + " "@, r, Seq::empty());
    }
    if 0 <= i < events.len() {
        let age = events[i].age@;
        let k = events[i].kind@;
        let c = capped(events[i].payload_line@, crate::quest_lines::PAYLOAD_CHARS as int);
        let p = padded_left(age, 4);
        let t = events_section(row, events)[i].text;
        assert(t == p + " "@ + k + " "@ + c);
        assert(t =~= (p + " "@) + k + (" "@ + c));
        lemma_said(t, p + " "@, k, " "@ + c);
        assert(t =~= (p + " "@ + k + " "@) + c + Seq::empty());
        lemma_said(t, p + " "@ + k + " "@, c, Seq::empty());
        let blanks = if age.len() < 4 {
            repeated(' ', (4 - age.len()) as nat)
        } else {
            Seq::empty()
        };
        assert(p =~= blanks + age);
        assert(t =~= blanks + age + (" "@ + k + " "@ + c));
        lemma_said(t, blanks, age, " "@ + k + " "@ + c);
    }
}

proof fn lemma_ordered_len(sessions: Seq<Session>)
    ensures
        ordered(sessions).len() == sessions.len(),
    decreases sessions.len(),
{
    if sessions.len() > 0 {
        lemma_ordered_len(sessions.drop_last());
        lemma_place(ordered(sessions.drop_last()), sessions.last());
    }
}

proof fn lemma_place(list: Seq<Session>, s: Session)
    ensures
        0 <= crate::quest_lines::session_place(list, s) <= list.len(),
    decreases list.len(),
{
    if list.len() > 0 {
        lemma_place(list.drop_last(), s);
    }
}

/// Of a quest of another machine nothing was fetched, and each section says where
/// it is, whatever is at hand here.
pub proof fn a_panel_says_what_was_not_fetched(
    row: QuestRow,
    links: Seq<Link>,
    events: Seq<Event>,
)
    requires
        row.origin is Remote,
    ensures
        links_section(row, links).len() == 1,
        has_text(links_section(row, links)[0].text, row.view.quest.machine@),
        has_text(links_section(row, links)[0].text, "not fetched"@),
        events_section(row, events) == links_section(row, links),
        sessions_section(row).len() == 1,
        has_text(sessions_section(row)[0].text, row.view.quest.machine@),
        has_text(sessions_section(row)[0].text, decimal(row.view.live_sessions as nat)),
{
    reveal_strlit(", not fetched");
    reveal_strlit("not fetched");
    let m = row.view.quest.machine@;
    let e = crate::quest_lines::elsewhere(m);
    lemma_said(e, "on "@, m, ", not fetched"@);
    assert(", not fetched"@ =~= seq![',', ' '] + "not fetched"@);
    assert(e =~= ("on "@ + m + seq![',', ' ']) + "not fetched"@ + Seq::empty());
    lemma_said(e, "on "@ + m + seq![',', ' '], "not fetched"@, Seq::empty());
    let n = decimal(row.view.live_sessions as nat);
    let t = n + " live \u{b7} "@ + e;
    assert(sessions_section(row)[0].text == t);
    assert(t =~= Seq::<char>::empty() + n + (" live \u{b7} "@ + e));
    lemma_said(t, Seq::empty(), n, " live \u{b7} "@ + e);
    assert(t =~= (n + " live \u{b7} "@ + "on "@) + m + ", not fetched"@);
    lemma_said(t, n + " live \u{b7} "@ + "on "@, m, ", not fetched"@);
}

/// Empty sections of a quest of this machine say so.
pub proof fn an_empty_section_says_none(row: QuestRow)
    requires
        row.origin is Local,
    ensures
        row.sessions@.len() == 0 ==> sessions_section(row).len() == 1 && sessions_section(row)[0].text
            == "none"@,
        links_section(row, Seq::empty()).len() == 1,
        links_section(row, Seq::empty())[0].text == "none"@,
        events_section(row, Seq::empty()).len() == 1,
        events_section(row, Seq::empty())[0].text == "none"@,
{
}

/// The panel says which quest it is, its state, its goal, its machine, its
/// directory and its age, then its epic, and then its sections one after the
/// other, each under its title.
pub proof fn a_panel_is_made_of_its_sections(
    row: QuestRow,
    links: Seq<Link>,
    events: Seq<Event>,
    i: int,
)
    ensures
        ({
            let p = panel_text(row, links, events);
            let s = sessions_section(row);
            let l = links_section(row, links);
            let e = events_section(row, events);
            let at_s: int = 8;
            let at_l = at_s + s.len() + 2;
            let at_e = at_l + l.len() + 2;
            &&& has_text(p[0].text, row.view.quest.id@) && has_text(
                p[0].text,
                row.view.state_cell@,
            )
            &&& p[1].text == goal_text(row)
            &&& has_text(p[2].text, row.view.quest.machine@) && has_text(
                p[2].text,
                row.cwd_shown@,
            ) && has_text(p[2].text, row.age@)
            &&& p[4].text == "beads"@ && p[5].text == beads_text(row)
            &&& p[7].text == "sessions"@
            &&& 0 <= i < s.len() ==> p[at_s + i] == s[i]
            &&& p[at_l - 1].text == "links"@
            &&& 0 <= i < l.len() ==> p[at_l + i] == l[i]
            &&& p[at_e - 1].text == "events"@
            &&& 0 <= i < e.len() ==> p[at_e + i] == e[i]
            &&& p.len() == at_e + e.len()
        }),
{
    let p = panel_text(row, links, events);
    let id = row.view.quest.id@;
    let st = row.view.state_cell@;
    assert(p[0].text =~= Seq::<char>::empty() + id + ("  "@ + st));
    lemma_said(p[0].text, Seq::empty(), id, "  "@ + st);
    assert(p[0].text =~= (id + "  "@) + st + Seq::empty());
    lemma_said(p[0].text, id + "  "@, st, Seq::empty());
    let m = crate::quest_lines::machine_text(row);
    let d = " \u{b7} "@;
    let c = row.cwd_shown@;
    let a = row.age@;
    let t = p[2].text;
    assert(t == m + d + c + d + a + " ago"@);
    assert(t =~= (m + d) + c + (d + a + " ago"@));
    lemma_said(t, m + d, c, d + a + " ago"@);
    assert(t =~= (m + d + c + d) + a + " ago"@);
    lemma_said(t, m + d + c + d, a, " ago"@);
    let machine = row.view.quest.machine@;
    let mark = if row.origin == (Origin::Remote { stale: true }) {
        " \u{26a0}"@
    } else {
        Seq::empty()
    };
    assert(m =~= machine + mark);
    assert(t =~= Seq::<char>::empty() + machine + (mark + d + c + d + a + " ago"@));
    lemma_said(t, Seq::empty(), machine, mark + d + c + d + a + " ago"@);
}

/// A row in three lines says its facts on a line of their own and keeps the
/// urgency at the head; in two lines it says them at the head. Where nothing has
/// to be cut, each line says all of it.
pub proof fn a_row_is_drawn_in_two_lines_or_three(
    row: QuestRow,
    links: Seq<Link>,
    selected: bool,
    columns: int,
)
    requires
        columns > 0,
    ensures
        ({
            let two = row_text(row, links, selected, RowMode::Two, columns);
            let three = row_text(row, links, selected, RowMode::Three, columns);
            let facts = joined(facts_of(row), "  "@);
            let second = crate::quest_lines::INDENT@ + goal_and_links_text(row, links);
            let third = crate::quest_lines::INDENT@ + facts;
            &&& two.len() == 2
            &&& two[0].style == crate::paint::Style::Selected <==> selected
            &&& three[0].style == crate::paint::Style::Selected <==> selected
            &&& three.len() == if facts.len() > 0 {
                3int
            } else {
                2
            }
            &&& two[0].text == packed(head_text(row, selected), facts, columns)
            &&& three[0].text == packed(head_text(row, selected), urgency_text(row), columns)
            &&& display_width(second) <= columns ==> two[1].text == second && three[1].text
                == second
            &&& facts.len() > 0 && display_width(third) <= columns ==> three[2].text == third
        }),
{
}

/// An empty listing says why it is empty: that the filters hide everything, that
/// there is nothing at all, or that nothing is open.
pub proof fn an_empty_listing_says_why(q: QuestsV)
    ensures
        empty_text(q).len() > 0,
        q.rows.len() > 0 ==> empty_text(q)[0].text == "no quests match the filters"@,
        q.rows.len() == 0 && q.show_finished ==> empty_text(q)[0].text == "no quests yet"@,
        q.rows.len() == 0 && !q.show_finished ==> empty_text(q)[0].text == "no open quests"@,
{
}

/// The sessions that live are listed above those that ended; among either the master
/// comes first; and of two of one kind the one that started first.
pub proof fn the_living_and_the_master_come_first(sessions: Seq<Session>, i: int, j: int)
    requires
        0 <= i < j < sessions.len(),
    ensures
        ({
            let x = ordered(sessions)[i];
            let y = ordered(sessions)[j];
            let ended = SessionStatus::Ended;
            &&& x.status == ended ==> y.status == ended
            &&& (x.status == ended <==> y.status == ended) && y.role == SessionRole::Master
                ==> x.role == SessionRole::Master
            &&& (x.status == ended <==> y.status == ended) && x.role == y.role ==> x.started_at
                <= y.started_at
        }),
        ordered(sessions).to_multiset() == sessions.to_multiset(),
{
    crate::quest_lines::the_living_are_listed_first(sessions);
    assert(!crate::quest_lines::listed_above(ordered(sessions)[j], ordered(sessions)[i]));
}

/// A group is headed by what its quests have in common.
pub proof fn a_group_is_headed_by_its_state(row: QuestRow)
    ensures
        ({
            let title = crate::quests::group_heading(crate::quests::rank_of(row.view));
            &&& row.view.needs_you ==> title == "needs you"@
            &&& !row.view.needs_you && row.view.display_state == DisplayState::Active ==> title
                == "active"@
            &&& !row.view.needs_you && row.view.display_state == DisplayState::Idle ==> title
                == "idle"@
            &&& !row.view.needs_you && row.view.display_state == DisplayState::Finished ==> title
                == "finished"@
        }),
{
}

/// A role and a status are written by their names.
pub proof fn roles_and_statuses_are_written_by_name()
    ensures
        crate::model::role_text(SessionRole::Master) == "master"@,
        crate::model::role_text(SessionRole::Worker) == "worker"@,
        crate::model::status_text(SessionStatus::Busy) == "busy"@,
        crate::model::status_text(SessionStatus::Idle) == "idle"@,
        crate::model::status_text(SessionStatus::Waiting) == "waiting"@,
        crate::model::status_text(SessionStatus::Ended) == "ended"@,
{
}

/// A row is headed by its group exactly where the row above it is of another group.
pub proof fn a_heading_stands_where_the_group_changes(rank: u8, group: Option<u8>, columns: int)
    ensures
        ({
            let h = crate::quest_lines::heading_above(rank, group, columns);
            let title = crate::quests::group_heading(rank);
            &&& group == Some(rank) ==> h.len() == 0
            &&& group != Some(rank) ==> h.len() == 1
            &&& group != Some(rank) && display_width(title) <= columns ==> h[0].text == title
        }),
{
}

/// From a line of the listing on every row is drawn, in order and whole: the lines of
/// row `m` stand together, below those of the rows before it.
pub proof fn every_row_is_drawn(
    q: QuestsV,
    mode: RowMode,
    columns: int,
    n: int,
    group: Option<u8>,
    m: int,
) -> (k: int)
    requires
        0 <= n <= m < crate::quests::on_screen(q).len(),
    ensures
        ({
            let all = crate::quest_lines::rows_text(q, mode, columns, n, group);
            let at = crate::quests::on_screen(q)[m];
            let row = row_text(
                q.rows[at],
                crate::quest_lines::links_at(q, at),
                m == q.selected,
                mode,
                columns,
            );
            &&& 0 <= k && k + row.len() <= all.len()
            &&& all.subrange(k, k + row.len()) == row
            &&& k >= m - n
        }),
    decreases m - n,
{
    let vis = crate::quests::on_screen(q);
    let row = q.rows[vis[n]];
    let rank = crate::quests::rank_of(row.view);
    let head = crate::quest_lines::heading_above(rank, group, columns);
    let first = row_text(
        row,
        crate::quest_lines::links_at(q, vis[n]),
        n == q.selected,
        mode,
        columns,
    );
    let rest = crate::quest_lines::rows_text(q, mode, columns, n + 1, Some(rank));
    let all = crate::quest_lines::rows_text(q, mode, columns, n, group);
    assert(all == head + first + rest);
    if m == n {
        assert(all.subrange(head.len() as int, (head.len() + first.len()) as int) =~= first);
        head.len() as int
    } else {
        let k = every_row_is_drawn(q, mode, columns, n + 1, Some(rank), m);
        let base = (head.len() + first.len()) as int;
        let at = vis[m];
        let len = row_text(
            q.rows[at],
            crate::quest_lines::links_at(q, at),
            m == q.selected,
            mode,
            columns,
        ).len() as int;
        assert(all.subrange(base + k, base + k + len) =~= rest.subrange(k, k + len));
        base + k
    }
}

/// The links beside a row are those that were read for it, and none where none were.
pub proof fn a_row_has_its_own_links(q: QuestsV, i: int)
    ensures
        0 <= i < q.links.len() ==> crate::quest_lines::links_at(q, i) == q.links[i]@,
        i < 0 || i >= q.links.len() ==> crate::quest_lines::links_at(q, i).len() == 0,
        crate::quests::selection(q) is Some ==> crate::quests::selection_links(q)
            == crate::quest_lines::links_at(
            q,
            crate::quests::on_screen(q)[q.selected as int],
        ),
{
    let vis = crate::quests::on_screen(q);
    if crate::quests::selection(q) is Some {
        crate::list::lemma_passing(
            q.rows.len() as int,
            |i: int| crate::quests::passes_filter(
                crate::quests::filter_of(q),
                crate::quests::filter_of(q).rows[i],
            ),
        );
        assert(0 <= vis[q.selected as int]);
    }
}

/// A pull request says the state and the checks that are recorded with it, each under
/// its own key.
pub proof fn a_pull_request_says_what_is_recorded(link: Link)
    requires
        link.kind@ == "pr"@,
        link.meta is Some,
    ensures
        ({
            let state = crate::json::json_string(link.meta->0@, "state"@);
            let ci = crate::json::json_string(link.meta->0@, "ci"@);
            &&& state is Some ==> has_text(link_words(link), state->0)
            &&& ci is Some ==> has_text(link_words(link), "CI "@ + ci->0)
        }),
{
    let state = crate::json::json_string(link.meta->0@, "state"@);
    let ci = crate::json::json_string(link.meta->0@, "ci"@);
    a_link_says_what_it_is(link, state, ci);
}

} // verus!
