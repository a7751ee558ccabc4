//! What the Events tab promises, in terms of the words in its box and what is in
//! the rows.
use vstd::prelude::*;
use crate::app::AppV;
use crate::events::{
    events_on_screen, focus_taken, is_separator, kind_matches, kind_of, kinds_of, kinds_of_words,
    reloaded, star_inside, word_end, words, EventsV,
};
use crate::laws::the_tail_shows_exactly_what_passes;
use crate::model::EventRow;
use crate::text::begins_with;
use crate::text_laws::a_beginning_is_followed_by_the_rest;

verus! {

// ------------------------------------------------------------------- the words

/// A blank, a comma or a tab stands nowhere in the text.
pub open spec fn is_one_word(w: Seq<char>) -> bool {
    w.len() > 0 && forall|i: int|
        0 <= i < w.len() ==> (#[trigger] w[i]) != ' ' && w[i] != ',' && w[i] != '\t'
}

proof fn lemma_word_end(s: Seq<char>, n: int)
    requires
        0 <= n <= s.len(),
        n < s.len() ==> is_separator(s[n]),
        forall|i: int| 0 <= i < n ==> !is_separator(#[trigger] s[i]),
    ensures
        word_end(s) == n,
    decreases s.len(),
{
    if n > 0 {
        assert(!is_separator(s[0]));
        assert forall|i: int| 0 <= i < n - 1 implies !is_separator(#[trigger] s.drop_first()[i]) by {
            assert(s.drop_first()[i] == s[i + 1]);
        }
        lemma_word_end(s.drop_first(), n - 1);
    }
}

/// The words of the box stand between blanks, commas and tabs, any number of them:
/// each of these ends a word, and none is part of one.
pub proof fn words_stand_between_separators(w: Seq<char>, c: char, rest: Seq<char>)
    requires
        is_one_word(w),
        c == ' ' || c == ',' || c == '\t',
    ensures
        words(Seq::empty()) == Seq::<Seq<char>>::empty(),
        words(seq![c] + rest) == words(rest),
        words(w) == seq![w],
        words(w + (seq![c] + rest)) == seq![w] + words(rest),
{
    let s = seq![c] + rest;
    assert(s.drop_first() =~= rest);
    assert(word_end(s) == 0);
    let t = w + s;
    assert forall|i: int| 0 <= i < w.len() implies !is_separator(#[trigger] t[i]) by {
        assert(t[i] == w[i]);
    }
    assert(t[w.len() as int] == c);
    lemma_word_end(t, w.len() as int);
    assert(t.take(w.len() as int) =~= w);
    assert(t.skip(w.len() as int) =~= s);
    assert(words(s) == words(rest));
    assert(words(t) == seq![t.take(w.len() as int)] + words(t.skip(w.len() as int)));
    assert forall|i: int| 0 <= i < w.len() implies !is_separator(#[trigger] w[i]) by {}
    lemma_word_end(w, w.len() as int);
    assert(w.take(w.len() as int) =~= w);
    assert(w.skip(w.len() as int) =~= Seq::empty());
    assert(words(Seq::<char>::empty()) =~= Seq::empty());
    assert(words(w) == seq![w.take(w.len() as int)] + words(w.skip(w.len() as int)));
    assert(words(w) =~= seq![w]);
}

/// A star stands in the word, if at all, at its end.
pub open spec fn is_readable(w: Seq<char>) -> bool {
    forall|i: int| 0 <= i < w.len() - 1 ==> (#[trigger] w[i]) != '*'
}

/// A word asks for a kind: the kind it spells, or with a star at its end every
/// kind that continues what stands before the star.
pub open spec fn asks_for(w: Seq<char>, kind: Seq<char>) -> bool {
    if w.len() > 0 && w.last() == '*' {
        exists|rest: Seq<char>| kind == #[trigger] (w.drop_last() + rest)
    } else {
        kind == w
    }
}

proof fn lemma_asks_for(w: Seq<char>, kind: Seq<char>)
    requires
        is_readable(w),
    ensures
        kind_of(w) is Ok,
        kind_matches(kind_of(w)->Ok_0, kind) == asks_for(w, kind),
{
    assert(!star_inside(w));
    if w.len() > 0 && w.last() == '*' {
        let stem = w.drop_last();
        if begins_with(kind, stem) {
            a_beginning_is_followed_by_the_rest(kind, stem, Seq::empty());
            assert(kind == stem + kind.skip(stem.len() as int));
        }
        if asks_for(w, kind) {
            let rest = choose|rest: Seq<char>| kind == #[trigger] (stem + rest);
            a_beginning_is_followed_by_the_rest(kind, stem, rest);
        }
    }
}

proof fn lemma_kinds(ws: Seq<Seq<char>>)
    ensures
        kinds_of_words(ws) is Ok <==> forall|i: int|
            0 <= i < ws.len() ==> is_readable(#[trigger] ws[i]),
        kinds_of_words(ws) is Ok ==> {
            &&& kinds_of_words(ws)->Ok_0.len() == ws.len()
            &&& forall|i: int|
                0 <= i < ws.len() ==> (#[trigger] kinds_of_words(ws)->Ok_0[i]) == kind_of(
                    ws[i],
                )->Ok_0
        },
    decreases ws.len(),
{
    if ws.len() > 0 {
        let rest = ws.drop_first();
        lemma_kinds(rest);
        assert(kind_of(ws[0]) is Ok <==> is_readable(ws[0])) by {
            if !is_readable(ws[0]) {
                let i = choose|i: int| 0 <= i < ws[0].len() - 1 && #[trigger] ws[0][i] == '*';
                assert(star_inside(ws[0]));
            }
        }
        assert forall|i: int| 0 <= i < rest.len() implies #[trigger] rest[i] == ws[i + 1] by {}
        if forall|i: int| 0 <= i < ws.len() ==> is_readable(#[trigger] ws[i]) {
            assert forall|i: int| 0 <= i < rest.len() implies is_readable(#[trigger] rest[i]) by {
                assert(rest[i] == ws[i + 1]);
            }
        }
        if kinds_of_words(ws) is Ok {
            assert forall|i: int| 0 <= i < ws.len() implies is_readable(#[trigger] ws[i]) by {
                if i > 0 {
                    assert(rest[i - 1] == ws[i]);
                }
            }
            let ks = kinds_of_words(ws)->Ok_0;
            let more = kinds_of_words(rest)->Ok_0;
            assert(ks == seq![kind_of(ws[0])->Ok_0] + more);
            assert forall|i: int| 0 <= i < ws.len() implies (#[trigger] ks[i]) == kind_of(
                ws[i],
            )->Ok_0 by {
                if i > 0 {
                    assert(ks[i] == more[i - 1]);
                    assert(rest[i - 1] == ws[i]);
                }
            }
        }
    }
}

// -------------------------------------------------------------------- the tail

/// An event is on screen exactly where it is of the quest that was picked, if one
/// was, and of a kind that one of the words in the box asks for, whichever it is,
/// if there are any. A box with a star before the end of a word shows nothing.
pub proof fn an_event_is_shown_exactly_where_some_word_asks_for_it(e: EventsV, i: int)
    requires
        0 <= i < e.rows.len(),
    ensures
        ({
            let ws = words(e.query);
            let event = e.rows[i].event;
            events_on_screen(e).contains(i) <==> {
                &&& e.quest is Some ==> event.quest_id@ == e.quest->0
                &&& forall|k: int| 0 <= k < ws.len() ==> is_readable(#[trigger] ws[k])
                &&& ws.len() > 0 ==> exists|k: int|
                    0 <= k < ws.len() && asks_for(#[trigger] ws[k], event.kind@)
            }
        }),
{
    let ws = words(e.query);
    let kind = e.rows[i].event.kind@;
    the_tail_shows_exactly_what_passes(e, i);
    lemma_kinds(ws);
    if kinds_of(e.query) is Ok {
        let ks = kinds_of(e.query)->Ok_0;
        assert forall|k: int| 0 <= k < ws.len() implies kind_matches(#[trigger] ks[k], kind)
            == asks_for(ws[k], kind) by {
            assert(is_readable(ws[k]));
            lemma_asks_for(ws[k], kind);
        }
        if exists|k: int| 0 <= k < ws.len() && asks_for(#[trigger] ws[k], kind) {
            let k = choose|k: int| 0 <= k < ws.len() && asks_for(#[trigger] ws[k], kind);
            assert(kind_matches(ks[k], kind));
        }
        if exists|k: int| 0 <= k < ks.len() && kind_matches(#[trigger] ks[k], kind) {
            let k = choose|k: int| 0 <= k < ks.len() && kind_matches(#[trigger] ks[k], kind);
            assert(asks_for(ws[k], kind));
        }
    }
}

/// One more word in a box that already had some hides nothing that was shown,
/// wherever in the box it stands, as long as it can be read.
pub proof fn one_more_word_hides_nothing(e: EventsV, query: Seq<char>, at: int, w: Seq<char>, i: int)
    requires
        0 <= i < e.rows.len(),
        words(e.query).len() > 0,
        0 <= at <= words(e.query).len(),
        words(query) == words(e.query).insert(at, w),
        is_readable(w),
        events_on_screen(e).contains(i),
    ensures
        events_on_screen((EventsV { query, ..e })).contains(i),
{
    let f = EventsV { query, ..e };
    an_event_is_shown_exactly_where_some_word_asks_for_it(e, i);
    an_event_is_shown_exactly_where_some_word_asks_for_it(f, i);
    let ws = words(e.query);
    let vs = words(query);
    let kind = e.rows[i].event.kind@;
    assert forall|k: int| 0 <= k < vs.len() implies is_readable(#[trigger] vs[k]) by {
        if k < at {
            assert(vs[k] == ws[k]);
        } else if k > at {
            assert(vs[k] == ws[k - 1]);
        }
    }
    let k = choose|k: int| 0 <= k < ws.len() && asks_for(#[trigger] ws[k], kind);
    if k < at {
        assert(vs[k] == ws[k]);
    } else {
        assert(vs[k + 1] == ws[k]);
    }
}

/// Without words and without a quest every event is on screen.
pub proof fn an_empty_box_shows_everything(e: EventsV, i: int)
    requires
        0 <= i < e.rows.len(),
        e.quest is None,
        words(e.query).len() == 0,
    ensures
        events_on_screen(e).contains(i),
{
    an_event_is_shown_exactly_where_some_word_asks_for_it(e, i);
}

/// A hand-off is taken once: the quest that was handed over is the one the tail
/// shows, from its newest event on, and nothing is left to take. Without one
/// nothing changes.
pub proof fn a_hand_off_is_taken_once(a: AppV)
    ensures
        ({
            let b = focus_taken(a);
            &&& b.focus_quest is None
            &&& a.focus_quest is Some ==> b.events.quest == a.focus_quest && b.events.follow
            &&& a.focus_quest is None ==> b == a
            &&& b.events.query == a.events.query && b.events.rows == a.events.rows
            &&& b.tab == a.tab && b.quests == a.quests
            &&& focus_taken(b) == b
        }),
{
}

/// A reload puts in what was read, under the slug the quest has now, and leaves the
/// filter as it was.
pub proof fn a_reload_of_the_tail_puts_in_what_was_read(
    a: AppV,
    slug: Option<Seq<char>>,
    rows: Seq<EventRow>,
)
    ensures
        ({
            let b = reloaded(a, slug, rows);
            &&& b.events.rows == rows
            &&& b.events.query == a.events.query
            &&& b.events.quest == a.events.quest
            &&& b.events.filtering == a.events.filtering
            &&& a.events.quest is Some ==> b.events.quest_slug == slug
            &&& a.events.quest is None ==> b.events.quest_slug is None
            &&& b.quests == a.quests && b.tab == a.tab && b.detail == a.detail
            &&& !a.events.filtering ==> b.status == a.status
        }),
{
}

/// A box that can be read spells one pattern for each of its words, and each takes
/// exactly the kinds its word asks for; one that cannot be read spells none.
pub proof fn the_words_of_a_box_are_its_patterns(ws: Seq<Seq<char>>, i: int)
    ensures
        ({
            let readable = forall|k: int| 0 <= k < ws.len() ==> is_readable(#[trigger] ws[k]);
            let r = kinds_of_words(ws);
            &&& readable <==> r is Ok
            &&& readable ==> r->Ok_0.len() == ws.len()
            &&& readable && 0 <= i < ws.len() ==> forall|kind: Seq<char>| #[trigger]
                kind_matches(r->Ok_0[i], kind) <==> asks_for(ws[i], kind)
        }),
    decreases ws.len(),
{
    if ws.len() > 0 {
        let rest = ws.drop_first();
        the_words_of_a_box_are_its_patterns(rest, i - 1);
        if forall|k: int| 0 <= k < ws.len() ==> is_readable(#[trigger] ws[k]) {
            assert(is_readable(ws[0]));
            assert forall|k: int| 0 <= k < rest.len() implies is_readable(#[trigger] rest[k]) by {
                assert(rest[k] == ws[k + 1]);
            }
            assert forall|kind: Seq<char>| #[trigger] kind_matches(
                kind_of(ws[0])->Ok_0,
                kind,
            ) <==> asks_for(ws[0], kind) by {
                lemma_asks_for(ws[0], kind);
            }
            lemma_asks_for(ws[0], Seq::empty());
            if 0 < i < ws.len() {
                assert(rest[i - 1] == ws[i]);
            }
        }
        if kinds_of_words(ws) is Ok {
            lemma_readable(ws[0]);
            assert forall|k: int| 0 <= k < ws.len() implies is_readable(#[trigger] ws[k]) by {
                if k > 0 {
                    assert(rest[k - 1] == ws[k]);
                }
            }
        }
    }
}

proof fn lemma_readable(w: Seq<char>)
    requires
        kind_of(w) is Ok,
    ensures
        is_readable(w),
{
    assert(!crate::events::star_inside(w));
}

/// What is said of a box that cannot be read names the word that spells no pattern.
pub proof fn a_bad_word_is_named(w: Seq<char>)
    requires
        !is_readable(w),
    ensures
        kind_of(w) is Err,
        crate::text::has_text(kind_of(w)->Err_0, w),
{
    let i = choose|i: int| 0 <= i < w.len() - 1 && (#[trigger] w[i]) == '*';
    assert(crate::events::star_inside(w));
    crate::quest_laws::lemma_said(
        kind_of(w)->Err_0,
        "bad kind pattern `"@,
        w,
        "`: only a trailing `*` is a wildcard"@,
    );
}

/// Putting the selection back on its event scrolls only as far up as the selection
/// is, and never further.
pub proof fn a_resync_scrolls_the_tail_no_further_than_it_must(e: EventsV)
    requires
        events_on_screen(e).len() > 0,
    ensures
        ({
            let r = crate::events::events_resynced(e);
            &&& e.offset <= r.selected && e.offset < events_on_screen(e).len() ==> r.offset
                == e.offset
            &&& r.offset <= r.selected && r.offset <= e.offset
            &&& r.rows == e.rows && r.query == e.query && r.quest == e.quest
        }),
{
}

/// While the tail is paused the selection stays on its event; where that is gone it
/// stays on its line, or on the last one there is.
pub proof fn a_paused_tail_stays_where_it_was(e: EventsV, n: int)
    requires
        !e.follow,
        events_on_screen(e).len() > 0,
        e.selected_id is Some,
        0 <= n <= events_on_screen(e).len(),
        forall|k: int|
            0 <= k < n ==> e.rows[#[trigger] events_on_screen(e)[k]].event.id != e.selected_id->0,
        n < events_on_screen(e).len() ==> e.rows[events_on_screen(e)[n]].event.id
            == e.selected_id->0,
    ensures
        ({
            let r = crate::events::events_resynced(e);
            let len = events_on_screen(e).len() as int;
            &&& n < len ==> r.selected == n
            &&& n == len && e.selected < len ==> r.selected == e.selected
            &&& n == len && e.selected >= len ==> r.selected == len - 1
            &&& r.selected_id == Some(e.rows[events_on_screen(e)[r.selected as int]].event.id)
        }),
{
    let p = |i: int| e.rows[i].event.id == e.selected_id->0;
    let vis = events_on_screen(e);
    if n < vis.len() {
        crate::list::lemma_first_where_is(vis, p, n);
    } else {
        crate::list::lemma_first_where(vis, p);
    }
}

} // verus!
