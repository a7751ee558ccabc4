//! The Events tab: the live tail of every quest's log, filtered by quest and by
//! kind.
//!
//! Nothing on this tab acts: it reads, and that is all it does.
use vstd::prelude::*;
use vstd::string::*;
use crate::app::{hushed, mode_of, saying, Action, App, AppV};
use crate::form::{cleaned, without_controls};
use crate::keys::Input;
use crate::layout::mode_lines;
use crate::list::{
    clamped, first_where, lemma_first_where_is, passing, places, settled, smaller, step,
};
use crate::model::EventRow;
use crate::text::{
    begins_with, chars_of, clone_opt, concat, concat3, decimal, join, joined, number, opt_text, owned, same, starts_with,
    string_between, texts,
};

verus! {

/// How much of the log the tab holds: far more than a screenful, and bounded,
/// because it is read again on every tick.
pub const TAIL: usize = 500;

// --------------------------------------------------------------------- kinds

/// A pattern for the kinds of events.
#[derive(Debug, Clone, PartialEq, Eq)]
pub enum KindPattern {
    /// That kind.
    Exact(String),
    /// Every kind that begins like this.
    Prefix(String),
}

/// A kind pattern as a value.
pub ghost enum KindV {
    Exact(Seq<char>),
    Prefix(Seq<char>),
}

impl View for KindPattern {
    type V = KindV;

    open spec fn view(&self) -> KindV {
        match *self {
            KindPattern::Exact(s) => KindV::Exact(s@),
            KindPattern::Prefix(s) => KindV::Prefix(s@),
        }
    }
}

/// Some patterns as values.
pub open spec fn kinds_view(v: Seq<KindPattern>) -> Seq<KindV> {
    Seq::new(v.len(), |i: int| v[i]@)
}

/// A pattern takes a kind.
pub open spec fn kind_matches(k: KindV, kind: Seq<char>) -> bool {
    match k {
        KindV::Exact(s) => s == kind,
        KindV::Prefix(s) => begins_with(kind, s),
    }
}

/// A star stands somewhere before the last character.
pub open spec fn star_inside(s: Seq<char>) -> bool {
    exists|i: int| 0 <= i < s.len() - 1 && s[i] == '*'
}

/// What is said about a star that is not at the end.
pub open spec fn star_complaint(token: Seq<char>) -> Seq<char> {
    "bad kind pattern `"@ + token + "`: only a trailing `*` is a wildcard"@
}

/// The pattern a word spells: a trailing star is a prefix, a star anywhere else
/// is a mistake.
pub open spec fn kind_of(token: Seq<char>) -> Result<KindV, Seq<char>> {
    if star_inside(token) {
        Err(star_complaint(token))
    } else if token.len() > 0 && token.last() == '*' {
        Ok(KindV::Prefix(token.drop_last()))
    } else {
        Ok(KindV::Exact(token))
    }
}

impl KindPattern {
    /// Reads one pattern.
    pub fn parse(token: &str) -> (r: Result<KindPattern, String>)
        ensures
            match kind_of(token@) {
                Ok(k) => r is Ok && r->Ok_0@ == k,
                Err(why) => r is Err && r->Err_0@ == why,
            },
    {
        let chars = chars_of(token);
        let n = chars.len();
        let mut i: usize = 0;
        while i < n
            invariant
                i <= n == chars.len(),
                chars@ == token@,
                forall|j: int| 0 <= j < i && j < n - 1 ==> token@[j] != '*',
            decreases n - i,
        {
            if chars[i] == '*' && i < n - 1 {
                return Err(
                    concat3("bad kind pattern `", token, "`: only a trailing `*` is a wildcard"),
                );
            }
            i += 1;
        }
        if n > 0 && chars[n - 1] == '*' {
            let stem = string_between(&chars, 0, n - 1);
            proof {
                assert(stem@ =~= token@.drop_last());
            }
            Ok(KindPattern::Prefix(stem))
        } else {
            Ok(KindPattern::Exact(owned(token)))
        }
    }

    /// Whether the pattern takes a kind.
    pub fn matches(&self, kind: &str) -> (r: bool)
        ensures
            r == kind_matches(self@, kind@),
    {
        match self {
            KindPattern::Exact(s) => same(s.as_str(), kind),
            KindPattern::Prefix(s) => starts_with(kind, s.as_str()),
        }
    }
}

/// What separates the words of the kind box.
pub open spec fn is_separator(c: char) -> bool {
    c == ' ' || c == ',' || c == '\t'
}

/// How many characters of `s` come before a separator.
pub open spec fn word_end(s: Seq<char>) -> int
    decreases s.len(),
{
    if s.len() == 0 || is_separator(s[0]) {
        0
    } else {
        1 + word_end(s.drop_first())
    }
}

proof fn lemma_word_end(s: Seq<char>, n: int)
    requires
        0 <= n <= s.len(),
        n < s.len() ==> is_separator(s[n]),
        forall|i: int| 0 <= i < n ==> !is_separator(#[trigger] s[i]),
    ensures
        word_end(s) == n,
    decreases s.len(),
{
    if n > 0 {
        assert(!is_separator(s[0]));
        assert forall|i: int| 0 <= i < n - 1 implies !is_separator(#[trigger] s.drop_first()[i]) by {
            assert(s.drop_first()[i] == s[i + 1]);
        }
        lemma_word_end(s.drop_first(), n - 1);
    }
}

/// The words of a text.
pub open spec fn words(s: Seq<char>) -> Seq<Seq<char>>
    decreases s.len(),
{
    if s.len() == 0 {
        Seq::empty()
    } else {
        let k = word_end(s);
        if 1 <= k <= s.len() {
            seq![s.take(k)] + words(s.skip(k))
        } else {
            words(s.drop_first())
        }
    }
}

/// The patterns some words spell, or what is wrong with the first that spells
/// none.
pub open spec fn kinds_of_words(ws: Seq<Seq<char>>) -> Result<Seq<KindV>, Seq<char>>
    decreases ws.len(),
{
    if ws.len() == 0 {
        Ok(Seq::empty())
    } else {
        match kind_of(ws[0]) {
            Err(why) => Err(why),
            Ok(k) => match kinds_of_words(ws.drop_first()) {
                Err(why) => Err(why),
                Ok(rest) => Ok(seq![k] + rest),
            },
        }
    }
}

/// The patterns a text spells.
pub open spec fn kinds_of(text: Seq<char>) -> Result<Seq<KindV>, Seq<char>> {
    kinds_of_words(words(text))
}

/// `done` followed by what the rest spells.
pub open spec fn kinds_after(
    done: Seq<KindV>,
    rest: Result<Seq<KindV>, Seq<char>>,
) -> Result<Seq<KindV>, Seq<char>> {
    match rest {
        Ok(ks) => Ok(done + ks),
        Err(why) => Err(why),
    }
}

/// The kind box's patterns: separated by blanks or commas. An empty box is no
/// filter at all rather than a filter matching nothing.
pub fn parse_kinds(text: &str) -> (r: Result<Vec<KindPattern>, String>)
    ensures
        match kinds_of(text@) {
            Ok(ks) => r is Ok && kinds_view(r->Ok_0@) == ks,
            Err(why) => r is Err && r->Err_0@ == why,
        },
{
    let chars = chars_of(text);
    let n = chars.len();
    let mut out: Vec<KindPattern> = Vec::new();
    let mut from: usize = 0;
    proof {
        assert(chars@.skip(0) =~= chars@);
        assert(kinds_view(out@) =~= Seq::empty());
        let rest = kinds_of(text@);
        if rest is Ok {
            assert(Seq::<KindV>::empty() + rest->Ok_0 =~= rest->Ok_0);
        }
    }
    while from < n
        invariant
            from <= n == chars.len(),
            chars@ == text@,
            kinds_of(text@) == kinds_after(
                kinds_view(out@),
                kinds_of(chars@.skip(from as int)),
            ),
        decreases n - from,
    {
        let ghost rest = chars@.skip(from as int);
        let mut to: usize = from;
        while to < n && chars[to] != ' ' && chars[to] != ',' && chars[to] != '\t'
            invariant
                from <= to <= n == chars.len(),
                rest == chars@.skip(from as int),
                forall|i: int| 0 <= i < to - from ==> !is_separator(#[trigger] rest[i]),
            decreases n - to,
        {
            assert(rest[to - from] == chars@[to as int]);
            to += 1;
        }
        proof {
            if to < n {
                assert(rest[to - from] == chars@[to as int]);
            }
            lemma_word_end(rest, to - from);
        }
        if to == from {
            proof {
                assert(rest.drop_first() =~= chars@.skip(from as int + 1));
            }
            from += 1;
            continue;
        }
        let word = string_between(&chars, from, to);
        let ghost ws = words(chars@.skip(to as int));
        proof {
            assert(rest.take(to - from) =~= word@);
            assert(rest.skip(to - from) =~= chars@.skip(to as int));
            assert(words(rest) == seq![word@] + ws);
            assert((seq![word@] + ws).drop_first() =~= ws);
        }
        match KindPattern::parse(word.as_str()) {
            Ok(k) => {
                let ghost before = out@;
                out.push(k);
                proof {
                    assert(kinds_view(out@) =~= kinds_view(before).push(k@));
                    match kinds_of_words(ws) {
                        Ok(ks) => {
                            assert(kinds_view(before) + (seq![k@] + ks) =~= kinds_view(out@) + ks);
                        },
                        Err(_) => {},
                    }
                }
            },
            Err(why) => {
                return Err(why);
            },
        }
        from = to;
    }
    proof {
        assert(chars@.skip(from as int) =~= Seq::empty());
        assert(kinds_view(out@) + Seq::<KindV>::empty() =~= kinds_view(out@));
    }
    Ok(out)
}

// --------------------------------------------------------------------- state

/// What the tab knows.
#[derive(Debug, Clone, PartialEq, Eq)]
pub struct State {
    /// The tail as last loaded, oldest first.
    pub rows: Vec<EventRow>,
    /// Index into the visible rows.
    pub selected: usize,
    /// The selected event's id. Events are append-only and never renumbered,
    /// which makes the id a perfect anchor.
    pub selected_id: Option<i64>,
    /// First row drawn.
    pub offset: usize,
    /// Only this quest's events. Held by id; the slug is derived again on every
    /// reload.
    pub quest: Option<String>,
    pub quest_slug: Option<String>,
    /// The kind patterns, and whether their box is open.
    pub query: String,
    pub filtering: bool,
    /// The kind patterns `rows` were actually fetched under.
    pub loaded_query: String,
    /// Whether the tail follows the newest event: true exactly while the
    /// selection is on the last row.
    pub follow: bool,
    /// Whether anything was ever loaded. Empty `rows` alone cannot say.
    pub loaded: bool,
}

/// The tab as a value.
pub ghost struct EventsV {
    pub rows: Seq<EventRow>,
    pub selected: nat,
    pub selected_id: Option<i64>,
    pub offset: nat,
    pub quest: Option<Seq<char>>,
    pub quest_slug: Option<Seq<char>>,
    pub query: Seq<char>,
    pub filtering: bool,
    pub loaded_query: Seq<char>,
    pub follow: bool,
    pub loaded: bool,
}

impl View for State {
    type V = EventsV;

    open spec fn view(&self) -> EventsV {
        EventsV {
            rows: self.rows@,
            selected: self.selected as nat,
            selected_id: self.selected_id,
            offset: self.offset as nat,
            quest: opt_text(self.quest),
            quest_slug: opt_text(self.quest_slug),
            query: self.query@,
            filtering: self.filtering,
            loaded_query: self.loaded_query@,
            follow: self.follow,
            loaded: self.loaded,
        }
    }
}

/// The part of the tab that decides which rows are on screen.
pub ghost struct TailV {
    pub rows: Seq<EventRow>,
    pub quest: Option<Seq<char>>,
    pub query: Seq<char>,
}

/// The filters of the tab.
pub open spec fn tail_filter(e: EventsV) -> TailV {
    TailV { rows: e.rows, quest: e.quest, query: e.query }
}

/// An event gets through: of the quest, where one is set, and of one of the
/// kinds, where there are any. A box that cannot be read matches nothing rather
/// than everything.
pub open spec fn tail_takes(
    quest: Option<Seq<char>>,
    kinds: Result<Seq<KindV>, Seq<char>>,
    row: EventRow,
) -> bool {
    &&& match quest {
        Some(q) => q == row.event.quest_id@,
        None => true,
    }
    &&& match kinds {
        Ok(ks) => ks.len() == 0 || exists|i: int|
            0 <= i < ks.len() && kind_matches(#[trigger] ks[i], row.event.kind@),
        Err(_) => false,
    }
}

/// The rows the filters let through.
pub open spec fn tail_rows(f: TailV) -> Seq<int> {
    passing(f.rows.len() as int, |i: int| tail_takes(f.quest, kinds_of(f.query), f.rows[i]))
}

/// The rows actually on screen.
pub open spec fn events_on_screen(e: EventsV) -> Seq<int> {
    tail_rows(tail_filter(e))
}

/// The selected event.
pub open spec fn event_selected(e: EventsV) -> Option<EventRow> {
    if e.selected < events_on_screen(e).len() {
        Some(e.rows[events_on_screen(e)[e.selected as int]])
    } else {
        None
    }
}

/// Where an event is on screen.
pub open spec fn event_place(e: EventsV, id: i64) -> Option<nat> {
    first_where(events_on_screen(e), |i: int| e.rows[i].event.id == id)
}

/// The selection kept on the event it was on, or on the newest one while the
/// tail is live.
pub open spec fn events_resynced(e: EventsV) -> EventsV {
    let vis = events_on_screen(e);
    if vis.len() == 0 {
        EventsV { selected: 0, selected_id: None, offset: 0, ..e }
    } else {
        let found = match e.selected_id {
            Some(id) => event_place(e, id),
            None => None,
        };
        let at = if e.follow {
            vis.len() - 1
        } else {
            match found {
                Some(n) => n as int,
                None => smaller(e.selected as int, vis.len() - 1),
            }
        };
        EventsV {
            selected: at as nat,
            selected_id: Some(e.rows[vis[at]].event.id),
            offset: smaller(smaller(e.offset as int, at), vis.len() - 1) as nat,
            ..e
        }
    }
}

/// The selection remembered and scrolled to. The tail is live exactly while the
/// newest row is the selected one.
pub open spec fn events_settled(e: EventsV, viewport: int) -> EventsV {
    let vis = events_on_screen(e);
    if vis.len() == 0 {
        e
    } else {
        let at = smaller(e.selected as int, vis.len() - 1);
        EventsV {
            selected: at as nat,
            selected_id: Some(e.rows[vis[at]].event.id),
            follow: at + 1 == vis.len(),
            offset: settled(at, e.offset as int, viewport, vis.len() as int) as nat,
            ..e
        }
    }
}

/// The selection moved, and scrolled to.
pub open spec fn events_moved_by(e: EventsV, delta: int, viewport: int) -> EventsV {
    let n = events_on_screen(e).len();
    if n == 0 {
        e
    } else {
        events_settled(
            EventsV { selected: clamped(e.selected + delta, 0, n - 1) as nat, ..e },
            viewport,
        )
    }
}

/// The selection put on a line, and scrolled to.
pub open spec fn events_moved_to(e: EventsV, at: int, viewport: int) -> EventsV {
    let n = events_on_screen(e).len();
    if n == 0 {
        e
    } else {
        events_settled(EventsV { selected: smaller(at, n - 1) as nat, ..e }, viewport)
    }
}

/// The rows were fetched under a filter that is no longer in force.
pub open spec fn is_stale(e: EventsV) -> bool {
    e.loaded_query != e.query
}

/// The keyboard given back, and the half-typed filter dropped.
pub open spec fn events_uncaptured(e: EventsV) -> EventsV {
    if e.filtering {
        events_resynced(EventsV { filtering: false, query: Seq::empty(), ..e })
    } else {
        e
    }
}

/// What is filtered, part by part, and whether the tail is live.
pub open spec fn tail_parts(e: EventsV) -> Seq<Seq<char>> {
    (match e.quest {
        Some(id) => seq![
            "quest "@ + match e.quest_slug {
                Some(slug) => slug,
                None => id,
            },
        ],
        None => Seq::empty(),
    }) + (if e.query.len() > 0 && !e.filtering {
        seq!["kind "@ + e.query]
    } else {
        Seq::empty()
    }) + seq![
        if e.follow {
            "tailing"@
        } else {
            "paused"@
        },
    ]
}

/// A tab before anything was loaded.
pub open spec fn empty_events() -> EventsV {
    EventsV {
        rows: Seq::empty(),
        selected: 0,
        selected_id: None,
        offset: 0,
        quest: None,
        quest_slug: None,
        query: Seq::empty(),
        filtering: false,
        loaded_query: Seq::empty(),
        follow: true,
        loaded: false,
    }
}

impl State {
    /// Nothing loaded yet, and following the tail.
    pub fn new() -> (r: State)
        ensures
            r@ == empty_events(),
    {
        State {
            rows: Vec::new(),
            selected: 0,
            selected_id: None,
            offset: 0,
            quest: None,
            quest_slug: None,
            query: String::new(),
            filtering: false,
            loaded_query: String::new(),
            follow: true,
            loaded: false,
        }
    }

    /// Whether the kind box has the keyboard.
    pub fn capturing(&self) -> (r: bool)
        ensures
            r == self@.filtering,
    {
        self.filtering
    }

    /// Whether this tab has ever been loaded.
    pub fn loaded(&self) -> (r: bool)
        ensures
            r == self@.loaded,
    {
        self.loaded
    }

    /// Whether the rows were fetched under a filter that is no longer in force.
    pub fn stale(&self) -> (r: bool)
        ensures
            r == is_stale(self@),
    {
        !same(self.loaded_query.as_str(), self.query.as_str())
    }

    /// Gives the keyboard back and drops the half-typed filter.
    pub fn cancel_capture(&mut self)
        ensures
            final(self)@ == events_uncaptured(old(self)@),
    {
        if self.filtering {
            self.filtering = false;
            self.query = String::new();
            self.resync();
        }
    }

    /// The filters currently hiding rows, plus whether the tail is live.
    pub fn filters(&self) -> (r: String)
        ensures
            r@ == joined(tail_parts(self@), " "@),
    {
        let mut on: Vec<String> = Vec::new();
        match &self.quest {
            Some(id) => {
                let name = match &self.quest_slug {
                    Some(slug) => slug.as_str(),
                    None => id.as_str(),
                };
                on.push(concat("quest ", name));
            },
            None => {},
        }
        if !self.query.as_str().is_empty() && !self.filtering {
            on.push(concat("kind ", self.query.as_str()));
        }
        on.push(
            owned(
                if self.follow {
                    "tailing"
                } else {
                    "paused"
                },
            ),
        );
        proof {
            assert(texts(on@) =~= tail_parts(self@));
        }
        join(&on, " ")
    }

    /// The kind box's text as patterns, or what is wrong with it.
    pub fn patterns(&self) -> (r: Result<Vec<KindPattern>, String>)
        ensures
            match kinds_of(self@.query) {
                Ok(ks) => r is Ok && kinds_view(r->Ok_0@) == ks,
                Err(why) => r is Err && r->Err_0@ == why,
            },
    {
        parse_kinds(self.query.as_str())
    }

    /// Whether one row survives the filters.
    fn passes(&self, row: &EventRow, kinds: &Option<Vec<KindPattern>>) -> (r: bool)
        requires
            match kinds_of(self@.query) {
                Ok(ks) => *kinds is Some && kinds_view((*kinds)->0@) == ks,
                Err(_) => *kinds is None,
            },
        ensures
            r == tail_takes(self@.quest, kinds_of(self@.query), *row),
    {
        match &self.quest {
            Some(q) => if !same(q.as_str(), row.event.quest_id.as_str()) {
                return false;
            },
            None => {},
        }
        match kinds {
            None => false,
            Some(kinds) => {
                let ghost ks = kinds_view(kinds@);
                assert(ks.len() == kinds.len());
                if kinds.len() == 0 {
                    return true;
                }
                let mut i: usize = 0;
                while i < kinds.len()
                    invariant
                        i <= kinds.len(),
                        ks == kinds_view(kinds@),
                        kinds_of(self@.query) == Ok::<Seq<KindV>, Seq<char>>(ks),
                        self@.quest is Some ==> self@.quest->0 == row.event.quest_id@,
                        forall|j: int|
                            0 <= j < i ==> !kind_matches(#[trigger] ks[j], row.event.kind@),
                    decreases kinds.len() - i,
                {
                    assert(ks[i as int] == kinds[i as int]@);
                    if kinds[i].matches(row.event.kind.as_str()) {
                        return true;
                    }
                    i += 1;
                }
                false
            },
        }
    }

    /// The rows actually on screen, after the quest and kind filters.
    pub fn visible(&self) -> (r: Vec<usize>)
        ensures
            places(r@) == events_on_screen(self@),
            forall|i: int| 0 <= i < r.len() ==> (#[trigger] r[i]) < self.rows.len(),
    {
        let ghost f = tail_filter(self@);
        let ghost p = |i: int| tail_takes(f.quest, kinds_of(f.query), f.rows[i]);
        let kinds: Option<Vec<KindPattern>> = match self.patterns() {
            Ok(ks) => Some(ks),
            Err(_) => None,
        };
        let mut out: Vec<usize> = Vec::new();
        let mut i: usize = 0;
        proof {
            assert(places(out@) =~= passing(0, p));
        }
        while i < self.rows.len()
            invariant
                i <= self.rows.len(),
                f == tail_filter(self@),
                p == (|i: int| tail_takes(f.quest, kinds_of(f.query), f.rows[i])),
                match kinds_of(self@.query) {
                    Ok(ks) => kinds is Some && kinds_view(kinds->0@) == ks,
                    Err(_) => kinds is None,
                },
                places(out@) == passing(i as int, p),
                forall|j: int| 0 <= j < out.len() ==> (#[trigger] out[j]) < self.rows.len(),
            decreases self.rows.len() - i,
        {
            if self.passes(&self.rows[i], &kinds) {
                let ghost before = out@;
                out.push(i);
                proof {
                    assert(places(out@) =~= places(before).push(i as int));
                }
            }
            i += 1;
        }
        out
    }

    /// The selected event.
    pub fn selected_row(&self) -> (r: Option<&EventRow>)
        ensures
            match r {
                Some(row) => event_selected(self@) == Some(*row),
                None => event_selected(self@) is None,
            },
    {
        let visible = self.visible();
        proof {
            assert(places(visible@).len() == visible.len());
        }
        if self.selected < visible.len() {
            proof {
                assert(places(visible@)[self.selected as int] == visible[self.selected as int]);
            }
            Some(&self.rows[visible[self.selected]])
        } else {
            None
        }
    }

    fn find_event(&self, visible: &Vec<usize>, id: i64) -> (r: Option<usize>)
        requires
            places(visible@) == events_on_screen(self@),
            forall|i: int|
                0 <= i < visible.len() ==> (#[trigger] visible[i]) < self.rows.len(),
        ensures
            match r {
                Some(n) => event_place(self@, id) == Some(n as nat) && n < visible.len(),
                None => event_place(self@, id) is None,
            },
    {
        let ghost e = self@;
        let ghost vis = events_on_screen(e);
        let ghost p = |i: int| e.rows[i].event.id == id;
        let mut n: usize = 0;
        proof {
            assert(vis.len() == visible.len());
        }
        while n < visible.len()
            invariant
                n <= visible.len(),
                e == self@,
                vis == places(visible@),
                vis == events_on_screen(e),
                p == (|i: int| e.rows[i].event.id == id),
                forall|i: int|
                    0 <= i < visible.len() ==> (#[trigger] visible[i]) < self.rows.len(),
                forall|j: int| 0 <= j < n ==> !p(#[trigger] vis[j]),
            decreases visible.len() - n,
        {
            assert(vis[n as int] == visible[n as int]);
            if self.rows[visible[n]].event.id == id {
                proof {
                    lemma_first_where_is(vis, p, n as int);
                }
                return Some(n);
            }
            n += 1;
        }
        proof {
            lemma_first_where_is(vis, p, vis.len() as int);
        }
        None
    }

    /// Keeps the selection on the event it was on, or on the newest one while
    /// the tail is live. Falls back to clamping the index when that event is
    /// gone or filtered away.
    pub fn resync(&mut self)
        ensures
            final(self)@ == events_resynced(old(self)@),
    {
        let visible = self.visible();
        let ghost vis = events_on_screen(self@);
        proof {
            assert(vis.len() == visible.len());
        }
        if visible.len() == 0 {
            self.selected = 0;
            self.selected_id = None;
            self.offset = 0;
            return ;
        }
        let found = match self.selected_id {
            Some(id) => self.find_event(&visible, id),
            None => None,
        };
        let at: usize = if self.follow {
            visible.len() - 1
        } else {
            match found {
                Some(n) => n,
                None => if self.selected <= visible.len() - 1 {
                    self.selected
                } else {
                    visible.len() - 1
                },
            }
        };
        proof {
            assert(vis[at as int] == visible[at as int]);
        }
        self.selected = at;
        self.selected_id = Some(self.rows[visible[at]].event.id);
        if self.offset > at {
            self.offset = at;
        }
    }

    /// Moves the selection by `delta` rows.
    pub fn move_by(&mut self, delta: i64, viewport: usize)
        ensures
            final(self)@ == events_moved_by(old(self)@, delta as int, viewport as int),
    {
        let visible = self.visible();
        proof {
            assert(places(visible@).len() == visible.len());
        }
        if visible.len() == 0 {
            return ;
        }
        self.selected = step(self.selected, delta, visible.len());
        self.settle(viewport);
    }

    /// Moves the selection to a row, or to the last one.
    pub fn move_to(&mut self, at: usize, viewport: usize)
        ensures
            final(self)@ == events_moved_to(old(self)@, at as int, viewport as int),
    {
        let visible = self.visible();
        proof {
            assert(places(visible@).len() == visible.len());
        }
        if visible.len() == 0 {
            return ;
        }
        self.selected = if at <= visible.len() - 1 {
            at
        } else {
            visible.len() - 1
        };
        self.settle(viewport);
    }

    /// Remembers which event is selected, whether that is the newest, and
    /// scrolls as far as it takes to keep it on screen. An arrow key away from
    /// the bottom is the user taking the wheel.
    pub fn settle(&mut self, viewport: usize)
        ensures
            final(self)@ == events_settled(old(self)@, viewport as int),
    {
        let visible = self.visible();
        let ghost vis = events_on_screen(self@);
        proof {
            assert(vis.len() == visible.len());
        }
        if visible.len() == 0 {
            return ;
        }
        let at: usize = if self.selected <= visible.len() - 1 {
            self.selected
        } else {
            visible.len() - 1
        };
        proof {
            assert(vis[at as int] == visible[at as int]);
        }
        self.selected = at;
        self.selected_id = Some(self.rows[visible[at]].event.id);
        self.follow = at == visible.len() - 1;
        self.offset = crate::list::settle(at, self.offset, viewport, visible.len());
    }
}

// ------------------------------------------------------------------- the keys

/// How many rows the body can show.
pub open spec fn page(a: AppV) -> int {
    let body = if a.height >= 2 {
        a.height - 2
    } else {
        0
    };
    let rows = body / mode_lines(mode_of(a)) as int;
    if rows >= 1 {
        rows
    } else {
        1
    }
}

/// How many rows the body can show. A tail is chronological: there are no group
/// headings to reserve for.
pub fn viewport(app: &App) -> (r: usize)
    ensures
        r == page(app@),
        1 <= r <= u16::MAX,
{
    let body: u16 = if app.height >= 2 {
        app.height - 2
    } else {
        0
    };
    let lines = app.row_mode().lines();
    let rows: u16 = body / lines;
    proof {
        assert(body as int / lines as int <= body as int) by (nonlinear_arith)
            requires
                lines >= 2,
                body >= 0,
        ;
    }
    if rows >= 1 {
        rows as usize
    } else {
        1
    }
}

/// The tab with another state behind it.
pub open spec fn with_events(a: AppV, e: EventsV) -> AppV {
    AppV { events: e, ..a }
}

/// The box on the status bar: the text, a caret, and how much it matches or what
/// is wrong with it.
pub open spec fn box_text(e: EventsV) -> Seq<char> {
    "/"@ + e.query + "\u{2588}  "@ + match kinds_of(e.query) {
        Ok(_) => decimal(events_on_screen(e).len()) + " matching"@,
        Err(why) => why,
    }
}

/// The box is the status bar.
pub open spec fn typed_box(a: AppV) -> AppV {
    saying(a, box_text(a.events))
}

/// The selection settled for the current terminal size.
pub open spec fn view_settled(a: AppV) -> AppV {
    with_events(a, events_settled(a.events, page(a)))
}

/// The detail panel flipped, unless there is nothing to show.
pub open spec fn detail_flipped(a: AppV) -> AppV {
    if event_selected(a.events) is Some {
        AppV { detail: !a.detail, ..a }
    } else {
        a
    }
}

/// A changed filter: the selection is put back on its event and the box says so.
pub open spec fn refiltered(a: AppV, query: Seq<char>) -> AppV {
    typed_box(with_events(a, events_resynced(EventsV { query, ..a.events })))
}

/// What a key does in the kind box.
pub open spec fn box_key(a: AppV, input: Input) -> (Action, AppV) {
    let e = a.events;
    match input {
        Input::Esc => (
            Action::Refresh,
            hushed(
                with_events(
                    a,
                    events_resynced(EventsV { filtering: false, query: Seq::empty(), ..e }),
                ),
            ),
        ),
        Input::Enter => {
            let b = with_events(a, EventsV { filtering: false, ..e });
            (
                if is_stale(e) {
                    Action::Refresh
                } else {
                    Action::Nothing
                },
                if e.query.len() == 0 {
                    hushed(b)
                } else {
                    match kinds_of(e.query) {
                        Ok(_) => saying(b, "kind "@ + e.query + " \u{b7} Esc clears"@),
                        Err(why) => saying(b, why + " \u{b7} Esc clears"@),
                    }
                },
            )
        },
        Input::Backspace => (
            Action::Refresh,
            refiltered(
                a,
                if e.query.len() > 0 {
                    e.query.drop_last()
                } else {
                    e.query
                },
            ),
        ),
        Input::Char(c) => (Action::Refresh, refiltered(a, e.query.push(c))),
        _ => (Action::Nothing, a),
    }
}

/// What Esc does: it peels the view back one layer at a time.
pub open spec fn esc_key(a: AppV) -> (Action, AppV) {
    let e = a.events;
    if a.detail {
        (Action::Nothing, AppV { detail: false, ..a })
    } else if e.query.len() > 0 {
        (
            Action::Refresh,
            saying(
                with_events(a, events_resynced(EventsV { query: Seq::empty(), ..e })),
                "kind filter cleared"@,
            ),
        )
    } else if e.quest is Some {
        (
            Action::Refresh,
            saying(
                with_events(a, events_resynced(EventsV { quest: None, quest_slug: None, ..e })),
                "all quests"@,
            ),
        )
    } else {
        (Action::Nothing, a)
    }
}

/// What a key does on this tab.
pub open spec fn key(a: AppV, input: Input) -> (Action, AppV) {
    let e = a.events;
    let p = page(a);
    if e.filtering {
        box_key(a, input)
    } else {
        match input {
            Input::Up | Input::Char('k') => (
                Action::Nothing,
                with_events(a, events_moved_by(e, -1, p)),
            ),
            Input::Down | Input::Char('j') => (
                Action::Nothing,
                with_events(a, events_moved_by(e, 1, p)),
            ),
            Input::PageUp => (Action::Nothing, with_events(a, events_moved_by(e, -p, p))),
            Input::PageDown => (Action::Nothing, with_events(a, events_moved_by(e, p, p))),
            Input::Home | Input::Char('g') => (
                Action::Nothing,
                with_events(a, events_moved_to(e, 0, p)),
            ),
            Input::End | Input::Char('G') => (
                Action::Nothing,
                with_events(a, events_moved_to(e, usize::MAX as int, p)),
            ),
            Input::Enter | Input::Char('d') => (Action::Nothing, detail_flipped(a)),
            Input::Char('/') => (
                Action::Nothing,
                typed_box(with_events(a, EventsV { filtering: true, ..e })),
            ),
            Input::Esc => esc_key(a),
            _ => (Action::Nothing, a),
        }
    }
}

/// What pasted text does on this tab: it goes into an open box, and nowhere
/// else.
pub open spec fn pasted_into(a: AppV, text: Seq<char>) -> (bool, AppV) {
    let clean = without_controls(text);
    if a.events.filtering && clean.len() > 0 {
        (true, refiltered(a, a.events.query + clean))
    } else {
        (false, a)
    }
}

/// Scrolls the selection back into view for the current terminal size.
pub fn settle_view(app: &mut App)
    requires
        old(app).wf(),
    ensures
        final(app).wf(),
        final(app)@ == view_settled(old(app)@),
{
    let p = viewport(app);
    app.events.settle(p);
}

/// The box is the status bar: there is no room for a second one.
fn typing(app: &mut App)
    requires
        old(app).wf(),
    ensures
        final(app).wf(),
        final(app)@ == typed_box(old(app)@),
{
    let note = match parse_kinds(app.events.query.as_str()) {
        Ok(_) => {
            let visible = app.events.visible();
            proof {
                assert(places(visible@).len() == visible.len());
            }
            concat(number(visible.len() as u64).as_str(), " matching")
        },
        Err(why) => why,
    };
    let mut message = concat3("/", app.events.query.as_str(), "\u{2588}  ");
    message.append(note.as_str());
    app.say(message.as_str());
}

/// Puts another text into the kind box.
fn refilter(app: &mut App, query: String)
    requires
        old(app).wf(),
    ensures
        final(app).wf(),
        final(app)@ == refiltered(old(app)@, query@),
{
    app.events.query = query;
    app.events.resync();
    typing(app);
}

/// The kind box. Only Esc, Enter and editing keys mean anything here; every
/// other character is a kind pattern.
fn filter_key(app: &mut App, input: Input) -> (r: Action)
    requires
        old(app).wf(),
    ensures
        final(app).wf(),
        (r, final(app)@) == box_key(old(app)@, input),
{
    match input {
        Input::Esc => {
            app.events.filtering = false;
            app.events.query = String::new();
            app.events.resync();
            app.status = String::new();
            Action::Refresh
        },
        Input::Enter => {
            app.events.filtering = false;
            let query = app.events.query.clone();
            let stale = app.events.stale();
            if query.as_str().is_empty() {
                app.status = String::new();
            } else {
                match parse_kinds(query.as_str()) {
                    Ok(_) => {
                        let message = concat3("kind ", query.as_str(), " \u{b7} Esc clears");
                        app.say(message.as_str());
                    },
                    // Closing the box does not make a bad pattern good: it still
                    // matches nothing, so it still has to say why.
                    Err(why) => {
                        let message = concat(why.as_str(), " \u{b7} Esc clears");
                        app.say(message.as_str());
                    },
                }
            }
            // A paste carries no action, so a filter that arrived that way is
            // fetched only when something asks: committing the box does.
            if stale {
                Action::Refresh
            } else {
                Action::Nothing
            }
        },
        Input::Backspace => {
            let chars = chars_of(app.events.query.as_str());
            let kept = if chars.len() > 0 {
                let kept = string_between(&chars, 0, chars.len() - 1);
                proof {
                    assert(kept@ =~= chars@.drop_last());
                }
                kept
            } else {
                app.events.query.clone()
            };
            refilter(app, kept);
            Action::Refresh
        },
        Input::Char(c) => {
            let mut grown = app.events.query.clone();
            grown.push(c);
            refilter(app, grown);
            Action::Refresh
        },
        _ => Action::Nothing,
    }
}

/// Pasted text into an open kind box. Ignored when the box is not open: a paste
/// is not a way to start one.
pub fn paste(app: &mut App, text: &str) -> (r: bool)
    requires
        old(app).wf(),
    ensures
        final(app).wf(),
        (r, final(app)@) == pasted_into(old(app)@, text@),
{
    if !app.events.filtering {
        return false;
    }
    let clean = cleaned(text);
    if clean.as_str().is_empty() {
        return false;
    }
    let grown = concat(app.events.query.as_str(), clean.as_str());
    refilter(app, grown);
    true
}

fn toggle_detail(app: &mut App)
    requires
        old(app).wf(),
    ensures
        final(app).wf(),
        final(app)@ == detail_flipped(old(app)@),
{
    if app.events.selected_row().is_some() {
        app.detail = !app.detail;
    }
}

/// Keys the shell did not claim.
pub fn handle(app: &mut App, input: Input) -> (r: Action)
    requires
        old(app).wf(),
    ensures
        final(app).wf(),
        (r, final(app)@) == key(old(app)@, input),
{
    if app.events.filtering {
        return filter_key(app, input);
    }
    let p = viewport(app);
    match input {
        Input::Up | Input::Char('k') => {
            app.events.move_by(-1, p);
            Action::Nothing
        },
        Input::Down | Input::Char('j') => {
            app.events.move_by(1, p);
            Action::Nothing
        },
        Input::PageUp => {
            app.events.move_by(-(p as i64), p);
            Action::Nothing
        },
        Input::PageDown => {
            app.events.move_by(p as i64, p);
            Action::Nothing
        },
        Input::Home | Input::Char('g') => {
            app.events.move_to(0, p);
            Action::Nothing
        },
        Input::End | Input::Char('G') => {
            app.events.move_to(usize::MAX, p);
            Action::Nothing
        },
        Input::Enter | Input::Char('d') => {
            toggle_detail(app);
            Action::Nothing
        },
        Input::Char('/') => {
            app.events.filtering = true;
            typing(app);
            Action::Nothing
        },
        Input::Esc => {
            if app.detail {
                app.detail = false;
                return Action::Nothing;
            }
            if !app.events.query.as_str().is_empty() {
                app.events.query = String::new();
                app.events.resync();
                app.say("kind filter cleared");
                // The rows the wider filter admits were never fetched.
                return Action::Refresh;
            }
            if app.events.quest.is_some() {
                app.events.quest = None;
                app.events.quest_slug = None;
                app.events.resync();
                app.say("all quests");
                return Action::Refresh;
            }
            Action::Nothing
        },
        _ => Action::Nothing,
    }
}

// -------------------------------------------------------------------- loading

/// What a reload of this tab reads.
#[derive(Debug, Clone, PartialEq, Eq)]
pub struct Wanted {
    /// The quest whose events are wanted; `None` is every quest.
    pub quest: Option<String>,
    /// The kinds that are wanted; none is every kind. They go to the loader and
    /// not only into the listing, so that filtering to a rare kind finds it
    /// behind a screenful of others.
    pub kinds: Vec<KindPattern>,
    /// How many of them at most.
    pub limit: usize,
}

/// A hand-off taken: a jump to what is happening in that quest now.
pub open spec fn focus_taken(a: AppV) -> AppV {
    match a.focus_quest {
        Some(quest) => AppV {
            focus_quest: None,
            events: EventsV {
                quest: Some(quest),
                quest_slug: None,
                selected_id: None,
                offset: 0,
                follow: true,
                ..a.events
            },
            ..a
        },
        None => a,
    }
}

/// Starts a reload. A hand-off is consumed rather than read, so it happens once
/// and Esc can clear the filter for good afterwards. A kind box that cannot be
/// read asks for every kind; nothing of it is shown.
pub fn refresh_begin(app: &mut App) -> (r: Wanted)
    requires
        old(app).wf(),
    ensures
        final(app).wf(),
        final(app)@ == focus_taken(old(app)@),
        opt_text(r.quest) == final(app)@.events.quest,
        kinds_view(r.kinds@) == match kinds_of(final(app)@.events.query) {
            Ok(ks) => ks,
            Err(_) => Seq::empty(),
        },
        r.limit == TAIL,
{
    match app.focus_quest.take() {
        Some(quest) => {
            app.events.quest = Some(quest);
            app.events.quest_slug = None;
            app.events.selected_id = None;
            app.events.offset = 0;
            app.events.follow = true;
        },
        None => {},
    }
    let kinds: Vec<KindPattern> = match app.events.patterns() {
        Ok(ks) => ks,
        Err(_) => {
            let none: Vec<KindPattern> = Vec::new();
            proof {
                assert(kinds_view(none@) =~= Seq::empty());
            }
            none
        },
    };
    Wanted { quest: clone_opt(&app.events.quest), kinds, limit: TAIL }
}

/// A reloaded tab. The slug is the one the quest has now: a rename elsewhere
/// would otherwise leave the filter naming a slug that is gone.
pub open spec fn reloaded(a: AppV, slug: Option<Seq<char>>, rows: Seq<EventRow>) -> AppV {
    let b = view_settled(
        with_events(
            a,
            events_resynced(
                EventsV {
                    quest_slug: if a.events.quest is Some {
                        slug
                    } else {
                        None
                    },
                    rows,
                    loaded_query: a.events.query,
                    loaded: true,
                    ..a.events
                },
            ),
        ),
    );
    if b.events.filtering {
        typed_box(b)
    } else {
        b
    }
}

/// Puts a reload into the tab. An open box reports how many rows match, and the
/// reload is what decided that.
pub fn refresh(app: &mut App, slug: Option<String>, rows: Vec<EventRow>)
    requires
        old(app).wf(),
    ensures
        final(app).wf(),
        final(app)@ == reloaded(old(app)@, opt_text(slug), rows@),
{
    app.events.quest_slug = if app.events.quest.is_some() {
        slug
    } else {
        None
    };
    app.events.rows = rows;
    app.events.loaded_query = app.events.query.clone();
    app.events.loaded = true;
    app.events.resync();
    settle_view(app);
    if app.events.filtering {
        typing(app);
    }
}

} // verus!
