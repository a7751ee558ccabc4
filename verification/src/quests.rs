//! The Quests tab: the listing behind its filters, the selection, the keymap
//! and the prompts.
//!
//! The listing itself is loaded elsewhere and handed to [`refresh`]; this module
//! decides what of it is on screen, which quest is selected, and what a key
//! does.
use vstd::prelude::*;
use vstd::string::*;
use crate::app::{
    hushed, mode_of, on_tab, opened, saying, Action, App, AppV, Prompt, PromptV, Tab, Target,
    TargetV,
};
use crate::form::{
    action_row, choice_of, cleaned, empty_form, find_field, options_or_none, trimmed_of,
    with_field, without_controls, Commit, FieldV, Form, FormV,
};
use crate::keys::Input;
use crate::layout::mode_lines;
use crate::list::{
    clamped, first_where, lemma_first_where_is, passing, places, settled, smaller, step,
};
use crate::model::{
    error_text, DisplayState, Event, Link, QError, Quest, QuestRow, QuestState, QuestView, Remote,
    Template,
};
use crate::quest_lines::{link_cell, link_words};
use crate::text::{
    before, chars_of, clone_opt, clone_strings, comes_before, concat, concat3, contains, decimal,
    has_text, join, joined, lowercase, number, opt_text, owned, same, same_opt, string_between,
    texts, to_lowercase,
};

verus! {

// ------------------------------------------------------------------ anchors

/// Which quest the selection, or a loaded set of events, is on.
///
/// Not the id alone: an id is unique only per machine, so with a remote machine
/// in the listing two rows can carry the same one. `remote` is part of it as
/// well as the machine's name, because a local quest can carry a remote's name.
#[derive(Debug, Clone, PartialEq, Eq)]
pub struct Anchor {
    pub remote: bool,
    pub machine: String,
    pub id: String,
}

/// An anchor as a value.
pub ghost struct AnchorV {
    pub remote: bool,
    pub machine: Seq<char>,
    pub id: Seq<char>,
}

impl View for Anchor {
    type V = AnchorV;

    open spec fn view(&self) -> AnchorV {
        AnchorV { remote: self.remote, machine: self.machine@, id: self.id@ }
    }
}

/// The quest a row is about.
pub open spec fn anchor_of(row: QuestRow) -> AnchorV {
    AnchorV {
        remote: row.origin is Remote,
        machine: row.view.quest.machine@,
        id: row.view.quest.id@,
    }
}

/// A quest of this machine's own database.
pub open spec fn local_anchor(quest: Quest) -> AnchorV {
    AnchorV { remote: false, machine: quest.machine@, id: quest.id@ }
}

/// What an optional anchor is as a value.
pub open spec fn opt_anchor(a: Option<Anchor>) -> Option<AnchorV> {
    match a {
        Some(a) => Some(a@),
        None => None,
    }
}

impl Anchor {
    /// The quest a row is about.
    pub fn of(row: &QuestRow) -> (r: Anchor)
        ensures
            r@ == anchor_of(*row),
    {
        Anchor {
            remote: row.origin.is_remote(),
            machine: row.view.quest.machine.clone(),
            id: row.view.quest.id.clone(),
        }
    }

    /// A quest in this machine's own database.
    pub fn local(quest: &Quest) -> (r: Anchor)
        ensures
            r@ == local_anchor(*quest),
    {
        Anchor { remote: false, machine: quest.machine.clone(), id: quest.id.clone() }
    }

    /// Whether this is the quest that row is about.
    fn is_of(&self, row: &QuestRow) -> (r: bool)
        ensures
            r == (self@ == anchor_of(*row)),
    {
        self.remote == row.origin.is_remote() && same(
            self.machine.as_str(),
            row.view.quest.machine.as_str(),
        ) && same(self.id.as_str(), row.view.quest.id.as_str())
    }

    /// The same anchor.
    pub fn copy(&self) -> (r: Anchor)
        ensures
            r == *self,
    {
        Anchor { remote: self.remote, machine: self.machine.clone(), id: self.id.clone() }
    }
}

/// Whether two optional anchors are the same.
pub fn same_anchor(a: &Option<Anchor>, b: &Option<Anchor>) -> (r: bool)
    ensures
        r == (opt_anchor(*a) == opt_anchor(*b)),
{
    match (a, b) {
        (Some(x), Some(y)) => x.remote == y.remote && same(
            x.machine.as_str(),
            y.machine.as_str(),
        ) && same(x.id.as_str(), y.id.as_str()),
        (None, None) => true,
        _ => false,
    }
}

// ------------------------------------------------------------------- grouping

/// How many groups a listing can be split into.
pub const GROUPS: u8 = 4;

/// The group a quest belongs to: needs you, active, idle, finished.
pub open spec fn rank_of(view: QuestView) -> u8 {
    if view.needs_you {
        0
    } else {
        match view.display_state {
            DisplayState::Active => 1,
            DisplayState::Idle => 2,
            DisplayState::Finished => 3,
        }
    }
}

/// The group a quest belongs to.
pub fn rank(view: &QuestView) -> (r: u8)
    ensures
        r == rank_of(*view),
        r < GROUPS,
{
    if view.needs_you {
        0
    } else {
        match view.display_state {
            DisplayState::Active => 1,
            DisplayState::Idle => 2,
            DisplayState::Finished => 3,
        }
    }
}

/// The heading of a group.
pub open spec fn group_heading(rank: u8) -> Seq<char> {
    if rank == 0 {
        "needs you"@
    } else if rank == 1 {
        "active"@
    } else if rank == 2 {
        "idle"@
    } else {
        "finished"@
    }
}

/// The heading of a group.
pub fn group_title(rank: u8) -> (r: &'static str)
    ensures
        r@ == group_heading(rank),
{
    if rank == 0 {
        "needs you"
    } else if rank == 1 {
        "active"
    } else if rank == 2 {
        "idle"
    } else {
        "finished"
    }
}

/// Row `a` belongs above row `b`: by group, and within one the quest that was
/// touched last comes first.
pub open spec fn belongs_above(a: QuestRow, b: QuestRow) -> bool {
    ||| rank_of(a.view) < rank_of(b.view)
    ||| rank_of(a.view) == rank_of(b.view) && a.view.quest.updated_at > b.view.quest.updated_at
}

/// No row belongs above the one before it.
pub open spec fn is_ranked(rows: Seq<QuestRow>) -> bool {
    forall|i: int, j: int|
        0 <= i < j < rows.len() ==> !belongs_above(#[trigger] rows[j], #[trigger] rows[i])
}

/// Where a row goes into a ranked listing: behind every row that it does not
/// belong above.
pub open spec fn rank_place(rows: Seq<QuestRow>, row: QuestRow) -> int
    decreases rows.len(),
{
    if rows.len() == 0 {
        0
    } else if belongs_above(row, rows.last()) {
        rank_place(rows.drop_last(), row)
    } else {
        rows.len() as int
    }
}

/// The rows, ranked; rows of equal rank stay in the order they came in.
pub open spec fn ranked(rows: Seq<QuestRow>) -> Seq<QuestRow>
    decreases rows.len(),
{
    if rows.len() == 0 {
        rows
    } else {
        let before = ranked(rows.drop_last());
        before.insert(rank_place(before, rows.last()), rows.last())
    }
}

fn above(a: &QuestRow, b: &QuestRow) -> (r: bool)
    ensures
        r == belongs_above(*a, *b),
{
    let x = rank(&a.view);
    let y = rank(&b.view);
    x < y || (x == y && a.view.quest.updated_at > b.view.quest.updated_at)
}

proof fn lemma_rank_place(rows: Seq<QuestRow>, row: QuestRow)
    ensures
        0 <= rank_place(rows, row) <= rows.len(),
        forall|j: int|
            rank_place(rows, row) <= j < rows.len() ==> belongs_above(row, #[trigger] rows[j]),
        rank_place(rows, row) > 0 ==> !belongs_above(row, rows[rank_place(rows, row) - 1]),
    decreases rows.len(),
{
    if rows.len() > 0 && belongs_above(row, rows.last()) {
        let front = rows.drop_last();
        lemma_rank_place(front, row);
        assert forall|j: int| rank_place(rows, row) <= j < rows.len() implies belongs_above(
            row,
            #[trigger] rows[j],
        ) by {
            if j < front.len() {
                assert(rows[j] == front[j]);
            }
        }
    }
}

proof fn lemma_rank_place_is(rows: Seq<QuestRow>, row: QuestRow, at: int)
    requires
        0 <= at <= rows.len(),
        forall|j: int| at <= j < rows.len() ==> belongs_above(row, #[trigger] rows[j]),
        at > 0 ==> !belongs_above(row, rows[at - 1]),
    ensures
        rank_place(rows, row) == at,
    decreases rows.len(),
{
    if at < rows.len() {
        assert(belongs_above(row, rows[rows.len() - 1]));
        let front = rows.drop_last();
        assert forall|j: int| at <= j < front.len() implies belongs_above(
            row,
            #[trigger] front[j],
        ) by {
            assert(front[j] == rows[j]);
        }
        lemma_rank_place_is(front, row, at);
    }
}

/// Ranks a listing.
pub fn sort_quests(rows: Vec<QuestRow>) -> (r: Vec<QuestRow>)
    ensures
        r@ == ranked(rows@),
{
    let mut rest = rows;
    let ghost all = rows@;
    // Taken from the back and inserted from the front, so the rows are reversed
    // once first.
    let mut stack: Vec<QuestRow> = Vec::new();
    proof {
        assert(all.take(all.len() as int) =~= all);
    }
    while rest.len() > 0
        invariant
            rest@ == all.take(rest.len() as int),
            rest.len() <= all.len(),
            stack.len() == all.len() - rest.len(),
            forall|i: int|
                0 <= i < stack.len() ==> #[trigger] stack[i] == all[all.len() - 1 - i],
        decreases rest.len(),
    {
        let ghost before = rest@;
        match rest.pop() {
            Some(row) => {
                proof {
                    assert(rest@ =~= all.take(rest.len() as int));
                    assert(row == all[rest.len() as int]);
                }
                stack.push(row);
            },
            None => {},
        }
    }
    let mut out: Vec<QuestRow> = Vec::new();
    proof {
        assert(all.take(0) =~= Seq::empty());
    }
    while stack.len() > 0
        invariant
            stack.len() <= all.len(),
            forall|i: int|
                0 <= i < stack.len() ==> #[trigger] stack[i] == all[all.len() - 1 - i],
            out@ == ranked(all.take(all.len() - stack.len())),
        decreases stack.len(),
    {
        let ghost done = all.len() - stack.len();
        match stack.pop() {
            Some(row) => {
                let mut at: usize = out.len();
                while at > 0 && above(&row, &out[at - 1])
                    invariant
                        at <= out.len(),
                        forall|j: int|
                            at <= j < out.len() ==> belongs_above(row, #[trigger] out@[j]),
                    decreases at,
                {
                    at -= 1;
                }
                proof {
                    lemma_rank_place_is(out@, row, at as int);
                    assert(row == all[done as int]);
                    assert(all.take(done + 1).drop_last() =~= all.take(done as int));
                    assert(all.take(done + 1).last() == row);
                }
                out.insert(at, row);
            },
            None => {},
        }
    }
    proof {
        assert(all.take(all.len() as int) =~= all);
    }
    out
}

/// Ranking orders a listing and loses nothing.
pub proof fn ranking_orders_the_listing(rows: Seq<QuestRow>)
    ensures
        is_ranked(ranked(rows)),
        ranked(rows).to_multiset() == rows.to_multiset(),
        ranked(rows).len() == rows.len(),
    decreases rows.len(),
{
    broadcast use vstd::seq_lib::group_to_multiset_ensures;

    if rows.len() > 0 {
        let front = rows.drop_last();
        let row = rows.last();
        let before = ranked(front);
        let at = rank_place(before, row);
        let after = ranked(rows);
        ranking_orders_the_listing(front);
        lemma_rank_place(before, row);
        assert(after == before.insert(at, row));
        assert forall|i: int, j: int| 0 <= i < j < after.len() implies !belongs_above(
            #[trigger] after[j],
            #[trigger] after[i],
        ) by {
            let x = if i < at {
                i
            } else {
                i - 1
            };
            let y = if j < at {
                j
            } else {
                j - 1
            };
            if i != at {
                assert(after[i] == before[x]);
            }
            if j != at {
                assert(after[j] == before[y]);
            }
            if i == at {
                assert(belongs_above(row, before[y]));
            } else if j == at {
                assert(!belongs_above(row, before[at - 1]));
                if x < at - 1 {
                    assert(!belongs_above(before[at - 1], before[x]));
                }
            } else {
                assert(!belongs_above(before[y], before[x]));
            }
        }
        assert(rows =~= front.push(row));
    }
}

// ---------------------------------------------------------------------- state

/// What the tab knows.
#[derive(Debug, Clone, PartialEq, Eq)]
pub struct State {
    /// The listing as last loaded: ranked, with the last remote round folded in.
    pub rows: Vec<QuestRow>,
    /// The rows the last remote round brought back.
    pub remote: Vec<QuestRow>,
    /// Links per row, index-aligned with `rows`.
    pub links: Vec<Vec<Link>>,
    /// The selected quest's most recent events.
    pub events: Vec<Event>,
    /// Which quest `events` was read for.
    pub events_for: Option<Anchor>,
    /// Index into the visible rows.
    pub selected: usize,
    /// The selected quest, so a reload that reorders keeps the selection on the
    /// same quest rather than on the same line.
    pub selected_id: Option<Anchor>,
    /// First row drawn.
    pub offset: usize,
    /// Whether finished quests are shown.
    pub show_finished: bool,
    /// The machine filter; `None` is every machine.
    pub machine: Option<String>,
    /// The search, and whether its box is open.
    pub query: String,
    pub searching: bool,
    /// Every template, for the new-quest form.
    pub templates: Vec<Template>,
    /// Every workflow name, for the new-quest form.
    pub workflows: Vec<String>,
}

/// The tab as a value.
pub ghost struct QuestsV {
    pub rows: Seq<QuestRow>,
    pub remote: Seq<QuestRow>,
    pub links: Seq<Vec<Link>>,
    pub events: Seq<Event>,
    pub events_for: Option<AnchorV>,
    pub selected: nat,
    pub selected_id: Option<AnchorV>,
    pub offset: nat,
    pub show_finished: bool,
    pub machine: Option<Seq<char>>,
    pub query: Seq<char>,
    pub searching: bool,
    pub templates: Seq<Template>,
    pub workflows: Seq<Seq<char>>,
}

impl View for State {
    type V = QuestsV;

    open spec fn view(&self) -> QuestsV {
        QuestsV {
            rows: self.rows@,
            remote: self.remote@,
            links: self.links@,
            events: self.events@,
            events_for: opt_anchor(self.events_for),
            selected: self.selected as nat,
            selected_id: opt_anchor(self.selected_id),
            offset: self.offset as nat,
            show_finished: self.show_finished,
            machine: opt_text(self.machine),
            query: self.query@,
            searching: self.searching,
            templates: self.templates@,
            workflows: texts(self.workflows@),
        }
    }
}

/// The part of the tab that decides which rows are on screen.
pub ghost struct FilterV {
    pub rows: Seq<QuestRow>,
    pub show_finished: bool,
    pub machine: Option<Seq<char>>,
    pub query: Seq<char>,
}

/// The filters of the tab.
pub open spec fn filter_of(q: QuestsV) -> FilterV {
    FilterV {
        rows: q.rows,
        show_finished: q.show_finished,
        machine: q.machine,
        query: q.query,
    }
}

/// The search finds a text, whatever the case.
pub open spec fn finds(query: Seq<char>, text: Seq<char>) -> bool {
    has_text(lowercase(text), lowercase(query))
}

/// A row gets through the filters: finished quests only on demand, one machine's
/// quests or all of them, and the search in the slug, the goal, the id or the
/// machine.
pub open spec fn passes_filter(f: FilterV, row: QuestRow) -> bool {
    let quest = row.view.quest;
    &&& f.show_finished || row.view.display_state != DisplayState::Finished
    &&& match f.machine {
        Some(m) => m == quest.machine@,
        None => true,
    }
    &&& f.query.len() == 0 || finds(f.query, quest.slug@) || finds(
        f.query,
        match quest.goal {
            Some(g) => g@,
            None => Seq::empty(),
        },
    ) || finds(f.query, quest.id@) || finds(f.query, quest.machine@)
}

/// The rows a filter lets through.
pub open spec fn passing_rows(f: FilterV) -> Seq<int> {
    passing(f.rows.len() as int, |i: int| passes_filter(f, f.rows[i]))
}

/// The rows actually on screen.
pub open spec fn on_screen(q: QuestsV) -> Seq<int> {
    passing_rows(filter_of(q))
}

/// The selected row.
pub open spec fn selection(q: QuestsV) -> Option<QuestRow> {
    if q.selected < on_screen(q).len() {
        Some(q.rows[on_screen(q)[q.selected as int]])
    } else {
        None
    }
}

/// The selected row's links.
pub open spec fn selection_links(q: QuestsV) -> Seq<Link> {
    if q.selected < on_screen(q).len() && on_screen(q)[q.selected as int] < q.links.len() {
        q.links[on_screen(q)[q.selected as int]]@
    } else {
        Seq::empty()
    }
}

/// The selected quest's events, unless they were read for another.
pub open spec fn selection_events(q: QuestsV) -> Seq<Event> {
    if q.events_for is Some && q.events_for == q.selected_id {
        q.events
    } else {
        Seq::empty()
    }
}

/// Where a quest is on screen.
pub open spec fn place_of(q: QuestsV, anchor: AnchorV) -> Option<nat> {
    first_where(on_screen(q), |i: int| anchor_of(q.rows[i]) == anchor)
}

/// The selection kept on the quest it was on, or on the line it was on where
/// that quest is gone.
pub open spec fn resynced(q: QuestsV) -> QuestsV {
    let vis = on_screen(q);
    if vis.len() == 0 {
        QuestsV { selected: 0, selected_id: None, offset: 0, ..q }
    } else {
        let found = match q.selected_id {
            Some(anchor) => place_of(q, anchor),
            None => None,
        };
        let at = match found {
            Some(n) => n as int,
            None => smaller(q.selected as int, vis.len() - 1),
        };
        QuestsV {
            selected: at as nat,
            selected_id: Some(anchor_of(q.rows[vis[at]])),
            offset: smaller(smaller(q.offset as int, at), vis.len() - 1) as nat,
            ..q
        }
    }
}

/// The selection remembered, and scrolled to.
pub open spec fn settled_in(q: QuestsV, viewport: int) -> QuestsV {
    let vis = on_screen(q);
    QuestsV {
        selected_id: match selection(q) {
            Some(row) => Some(anchor_of(row)),
            None => None,
        },
        offset: settled(q.selected as int, q.offset as int, viewport, vis.len() as int) as nat,
        ..q
    }
}

/// The selection moved, and scrolled to.
pub open spec fn moved_by(q: QuestsV, delta: int, viewport: int) -> QuestsV {
    let n = on_screen(q).len();
    if n == 0 {
        q
    } else {
        settled_in(
            QuestsV { selected: clamped(q.selected + delta, 0, n - 1) as nat, ..q },
            viewport,
        )
    }
}

/// The selection put on a line, and scrolled to.
pub open spec fn moved_to(q: QuestsV, at: int, viewport: int) -> QuestsV {
    let n = on_screen(q).len();
    if n == 0 {
        q
    } else {
        settled_in(QuestsV { selected: smaller(at, n - 1) as nat, ..q }, viewport)
    }
}

/// The selection put on a quest, whether or not it is there yet.
pub open spec fn focused_on(q: QuestsV, anchor: AnchorV) -> QuestsV {
    QuestsV {
        selected: match place_of(q, anchor) {
            Some(n) => n,
            None => q.selected,
        },
        selected_id: Some(anchor),
        ..q
    }
}

/// The keyboard given back, and the half-typed search dropped.
pub open spec fn uncaptured(q: QuestsV) -> QuestsV {
    if q.searching {
        resynced(QuestsV { searching: false, query: Seq::empty(), ..q })
    } else {
        q
    }
}

/// What is filtered, part by part. While the search box is open it is the
/// indicator itself.
pub open spec fn filter_parts(q: QuestsV) -> Seq<Seq<char>> {
    (if q.query.len() > 0 && !q.searching {
        seq!["/"@ + q.query]
    } else {
        Seq::empty()
    }) + (match q.machine {
        Some(m) => seq!["m "@ + m],
        None => Seq::empty(),
    }) + (if q.show_finished {
        seq!["+finished"@]
    } else {
        Seq::empty()
    })
}

/// A tab before anything was loaded.
pub open spec fn empty_quests() -> QuestsV {
    QuestsV {
        rows: Seq::empty(),
        remote: Seq::empty(),
        links: Seq::empty(),
        events: Seq::empty(),
        events_for: None,
        selected: 0,
        selected_id: None,
        offset: 0,
        show_finished: false,
        machine: None,
        query: Seq::empty(),
        searching: false,
        templates: Seq::empty(),
        workflows: Seq::empty(),
    }
}

impl State {
    /// Nothing loaded yet.
    pub fn new() -> (r: State)
        ensures
            r@ == empty_quests(),
    {
        let r = State {
            rows: Vec::new(),
            remote: Vec::new(),
            links: Vec::new(),
            events: Vec::new(),
            events_for: None,
            selected: 0,
            selected_id: None,
            offset: 0,
            show_finished: false,
            machine: None,
            query: String::new(),
            searching: false,
            templates: Vec::new(),
            workflows: Vec::new(),
        };
        proof {
            assert(texts(r.workflows@) =~= Seq::empty());
        }
        r
    }

    /// Whether the search box has the keyboard.
    pub fn capturing(&self) -> (r: bool)
        ensures
            r == self@.searching,
    {
        self.searching
    }

    /// Gives the keyboard back and drops the half-typed query: an armed capture
    /// behind another tab is invisible. Dropping the query widens the listing
    /// under the selection, which is put back on its own quest.
    pub fn cancel_capture(&mut self)
        ensures
            final(self)@ == uncaptured(old(self)@),
    {
        if self.searching {
            self.searching = false;
            self.query = String::new();
            self.resync();
        }
    }

    /// The filters currently hiding or revealing rows.
    pub fn filters(&self) -> (r: String)
        ensures
            r@ == joined(filter_parts(self@), " "@),
    {
        let mut on: Vec<String> = Vec::new();
        if !self.query.as_str().is_empty() && !self.searching {
            on.push(concat("/", self.query.as_str()));
        }
        match &self.machine {
            Some(m) => on.push(concat("m ", m.as_str())),
            None => {},
        }
        if self.show_finished {
            on.push(owned("+finished"));
        }
        proof {
            assert(texts(on@) =~= filter_parts(self@));
        }
        join(&on, " ")
    }

    /// Whether one row survives the filters.
    pub fn passes(&self, row: &QuestRow) -> (r: bool)
        ensures
            r == passes_filter(filter_of(self@), *row),
    {
        let quest = &row.view.quest;
        let finished = match row.view.display_state {
            DisplayState::Finished => true,
            _ => false,
        };
        if !self.show_finished && finished {
            return false;
        }
        match &self.machine {
            Some(m) => if !same(m.as_str(), quest.machine.as_str()) {
                return false;
            },
            None => {},
        }
        if self.query.as_str().is_empty() {
            return true;
        }
        let needle = to_lowercase(self.query.as_str());
        let blank = String::new();
        let goal = match &quest.goal {
            Some(g) => g.as_str(),
            None => blank.as_str(),
        };
        contains(to_lowercase(quest.slug.as_str()).as_str(), needle.as_str()) || contains(
            to_lowercase(goal).as_str(),
            needle.as_str(),
        ) || contains(to_lowercase(quest.id.as_str()).as_str(), needle.as_str()) || contains(
            to_lowercase(quest.machine.as_str()).as_str(),
            needle.as_str(),
        )
    }

    /// The rows actually on screen, after the filters.
    pub fn visible(&self) -> (r: Vec<usize>)
        ensures
            places(r@) == on_screen(self@),
            forall|i: int| 0 <= i < r.len() ==> (#[trigger] r[i]) < self.rows.len(),
    {
        let ghost f = filter_of(self@);
        let ghost p = |i: int| passes_filter(f, f.rows[i]);
        let mut out: Vec<usize> = Vec::new();
        let mut i: usize = 0;
        proof {
            assert(places(out@) =~= passing(0, p));
        }
        while i < self.rows.len()
            invariant
                i <= self.rows.len(),
                f == filter_of(self@),
                p == (|i: int| passes_filter(f, f.rows[i])),
                places(out@) == passing(i as int, p),
                forall|j: int| 0 <= j < out.len() ==> (#[trigger] out[j]) < self.rows.len(),
            decreases self.rows.len() - i,
        {
            if self.passes(&self.rows[i]) {
                let ghost before = out@;
                out.push(i);
                proof {
                    assert(places(out@) =~= places(before).push(i as int));
                }
            }
            i += 1;
        }
        out
    }

    /// The selected row.
    pub fn selected_row(&self) -> (r: Option<&QuestRow>)
        ensures
            match r {
                Some(row) => selection(self@) == Some(*row),
                None => selection(self@) is None,
            },
    {
        let visible = self.visible();
        proof {
            assert(places(visible@).len() == visible.len());
        }
        if self.selected < visible.len() {
            proof {
                assert(places(visible@)[self.selected as int] == visible[self.selected as int]);
            }
            Some(&self.rows[visible[self.selected]])
        } else {
            None
        }
    }

    /// The selected row's links, where they are loaded.
    pub fn selected_links(&self) -> (r: Option<&Vec<Link>>)
        ensures
            match r {
                Some(links) => links@ == selection_links(self@),
                None => selection_links(self@).len() == 0,
            },
    {
        let visible = self.visible();
        proof {
            assert(places(visible@).len() == visible.len());
        }
        if self.selected < visible.len() {
            let at = visible[self.selected];
            proof {
                assert(places(visible@)[self.selected as int] == at);
            }
            if at < self.links.len() {
                return Some(&self.links[at]);
            }
        }
        None
    }

    /// The selected quest's events, unless they were read for another: a
    /// selection the reload has not caught up with shows nothing.
    pub fn selected_events(&self) -> (r: Option<&Vec<Event>>)
        ensures
            match r {
                Some(events) => events@ == selection_events(self@),
                None => selection_events(self@).len() == 0,
            },
    {
        if self.events_for.is_some() && same_anchor(&self.events_for, &self.selected_id) {
            Some(&self.events)
        } else {
            None
        }
    }

    /// Where a quest is among the visible rows.
    fn find_anchor(&self, visible: &Vec<usize>, anchor: &Anchor) -> (r: Option<usize>)
        requires
            places(visible@) == on_screen(self@),
            forall|i: int|
                0 <= i < visible.len() ==> (#[trigger] visible[i]) < self.rows.len(),
        ensures
            match r {
                Some(n) => place_of(self@, anchor@) == Some(n as nat) && n < visible.len(),
                None => place_of(self@, anchor@) is None,
            },
    {
        let ghost vis = on_screen(self@);
        let ghost rows = self@.rows;
        let ghost a = anchor@;
        let ghost p = |i: int| anchor_of(rows[i]) == a;
        let mut n: usize = 0;
        proof {
            assert(vis.len() == visible.len());
        }
        while n < visible.len()
            invariant
                n <= visible.len(),
                vis == places(visible@),
                vis == on_screen(self@),
                rows == self@.rows,
                a == anchor@,
                p == (|i: int| anchor_of(rows[i]) == a),
                forall|i: int|
                    0 <= i < visible.len() ==> (#[trigger] visible[i]) < self.rows.len(),
                forall|j: int| 0 <= j < n ==> !p(#[trigger] vis[j]),
            decreases visible.len() - n,
        {
            assert(vis[n as int] == visible[n as int]);
            if anchor.is_of(&self.rows[visible[n]]) {
                proof {
                    lemma_first_where_is(vis, p, n as int);
                }
                return Some(n);
            }
            n += 1;
        }
        proof {
            lemma_first_where_is(vis, p, vis.len() as int);
        }
        None
    }

    /// Keeps the selection on the quest it was on; falls back to clamping the
    /// index when that quest is gone or filtered away.
    pub fn resync(&mut self)
        ensures
            final(self)@ == resynced(old(self)@),
    {
        let visible = self.visible();
        let ghost vis = on_screen(self@);
        proof {
            assert(vis.len() == visible.len());
        }
        if visible.len() == 0 {
            self.selected = 0;
            self.selected_id = None;
            self.offset = 0;
            return ;
        }
        let found = match &self.selected_id {
            Some(anchor) => self.find_anchor(&visible, anchor),
            None => None,
        };
        let at: usize = match found {
            Some(n) => n,
            None => if self.selected <= visible.len() - 1 {
                self.selected
            } else {
                visible.len() - 1
            },
        };
        proof {
            assert(vis[at as int] == visible[at as int]);
        }
        self.selected = at;
        self.selected_id = Some(Anchor::of(&self.rows[visible[at]]));
        if self.offset > at {
            self.offset = at;
        }
    }

    /// Puts the selection on a specific quest, after creating or resuming one.
    /// The next reload finds it by its anchor wherever it has been ranked: it
    /// may not be in the listing yet.
    pub fn focus_on(&mut self, anchor: Anchor)
        ensures
            final(self)@ == focused_on(old(self)@, anchor@),
    {
        let visible = self.visible();
        match self.find_anchor(&visible, &anchor) {
            Some(at) => {
                self.selected = at;
            },
            None => {},
        }
        self.selected_id = Some(anchor);
    }

    /// Moves the selection by `delta` rows.
    pub fn move_by(&mut self, delta: i64, viewport: usize)
        ensures
            final(self)@ == moved_by(old(self)@, delta as int, viewport as int),
    {
        let visible = self.visible();
        proof {
            assert(places(visible@).len() == visible.len());
        }
        if visible.len() == 0 {
            return ;
        }
        self.selected = step(self.selected, delta, visible.len());
        self.settle(viewport);
    }

    /// Moves the selection to a row, or to the last one.
    pub fn move_to(&mut self, at: usize, viewport: usize)
        ensures
            final(self)@ == moved_to(old(self)@, at as int, viewport as int),
    {
        let visible = self.visible();
        proof {
            assert(places(visible@).len() == visible.len());
        }
        if visible.len() == 0 {
            return ;
        }
        self.selected = if at <= visible.len() - 1 {
            at
        } else {
            visible.len() - 1
        };
        self.settle(viewport);
    }

    /// Remembers which quest is selected, and scrolls only as far as it takes to
    /// keep it on screen.
    pub fn settle(&mut self, viewport: usize)
        ensures
            final(self)@ == settled_in(old(self)@, viewport as int),
    {
        let visible = self.visible();
        proof {
            assert(places(visible@).len() == visible.len());
        }
        let anchor = match self.selected_row() {
            Some(row) => Some(Anchor::of(row)),
            None => None,
        };
        self.selected_id = anchor;
        self.offset = crate::list::settle(self.selected, self.offset, viewport, visible.len());
    }
}

// ------------------------------------------------------------------- the page

/// Some row on screen belongs to that group.
pub open spec fn group_shown(q: QuestsV, rank: u8) -> bool {
    exists|j: int|
        0 <= j < on_screen(q).len() && rank_of(q.rows[#[trigger] on_screen(q)[j]].view) == rank
}

/// One for a group that is shown.
pub open spec fn heading_lines(q: QuestsV, rank: u8) -> int {
    if group_shown(q, rank) {
        1
    } else {
        0
    }
}

/// How many rows the body can show: each group that is there costs a line.
pub open spec fn page(a: AppV) -> int {
    let body = if a.height >= 2 {
        a.height - 2
    } else {
        0
    };
    let headings = heading_lines(a.quests, 0) + heading_lines(a.quests, 1) + heading_lines(
        a.quests,
        2,
    ) + heading_lines(a.quests, 3);
    let room = if body >= headings {
        body - headings
    } else {
        0
    };
    let rows = room / mode_lines(mode_of(a)) as int;
    if rows >= 1 {
        rows
    } else {
        1
    }
}

/// Whether some row on screen belongs to that group.
fn shows_group(state: &State, visible: &Vec<usize>, want: u8) -> (r: bool)
    requires
        places(visible@) == on_screen(state@),
        forall|i: int| 0 <= i < visible.len() ==> (#[trigger] visible[i]) < state.rows.len(),
    ensures
        r == group_shown(state@, want),
{
    let ghost q = state@;
    let ghost vis = on_screen(q);
    let mut j: usize = 0;
    proof {
        assert(vis.len() == visible.len());
    }
    while j < visible.len()
        invariant
            j <= visible.len(),
            q == state@,
            vis == on_screen(q),
            vis == places(visible@),
            forall|i: int| 0 <= i < visible.len() ==> (#[trigger] visible[i]) < state.rows.len(),
            forall|i: int| 0 <= i < j ==> rank_of(q.rows[#[trigger] vis[i]].view) != want,
        decreases visible.len() - j,
    {
        assert(vis[j as int] == visible[j as int]);
        if rank(&state.rows[visible[j]].view) == want {
            return true;
        }
        j += 1;
    }
    false
}

/// How many rows the body can show. The listing's own headings are reserved
/// rather than all of them: a listing with nothing finished pays three, not
/// four.
pub fn viewport(app: &App) -> (r: usize)
    ensures
        r == page(app@),
        1 <= r <= u16::MAX,
{
    let body: u16 = if app.height >= 2 {
        app.height - 2
    } else {
        0
    };
    let visible = app.quests.visible();
    let mut headings: u16 = 0;
    if shows_group(&app.quests, &visible, 0) {
        headings += 1;
    }
    if shows_group(&app.quests, &visible, 1) {
        headings += 1;
    }
    if shows_group(&app.quests, &visible, 2) {
        headings += 1;
    }
    if shows_group(&app.quests, &visible, 3) {
        headings += 1;
    }
    let room: u16 = if body >= headings {
        body - headings
    } else {
        0
    };
    let lines = app.row_mode().lines();
    let rows: u16 = room / lines;
    proof {
        assert(room as int / lines as int <= room as int) by (nonlinear_arith)
            requires
                lines >= 2,
                room >= 0,
        ;
    }
    if rows >= 1 {
        rows as usize
    } else {
        1
    }
}

/// The tab with another state behind it.
pub open spec fn with_quests(a: AppV, q: QuestsV) -> AppV {
    AppV { quests: q, ..a }
}

/// The selection settled for the current terminal size.
pub open spec fn view_settled(a: AppV) -> AppV {
    with_quests(a, settled_in(a.quests, page(a)))
}

/// Scrolls the selection back into view for the current terminal size, after a
/// reload that reordered the rows and after a resize.
pub fn settle_view(app: &mut App)
    requires
        old(app).wf(),
    ensures
        final(app).wf(),
        final(app)@ == view_settled(old(app)@),
{
    let p = viewport(app);
    app.quests.settle(p);
}

// -------------------------------------------------------------------- loading

/// A reloaded tab: the rows ranked with the last remote round folded in, the
/// selection kept on its quest and in view, and the events forgotten until they
/// are read again.
pub open spec fn reloaded(
    a: AppV,
    rows: Seq<QuestRow>,
    links: Seq<Vec<Link>>,
    templates: Seq<Template>,
    workflows: Seq<Seq<char>>,
) -> AppV {
    let b = view_settled(
        with_quests(a, resynced(QuestsV { rows, links, templates, workflows, ..a.quests })),
    );
    with_quests(b, QuestsV { events: Seq::empty(), events_for: None, ..b.quests })
}

/// The rows of a reload: the local listing with the last remote round folded in,
/// ranked. The remote rows are the last round's, whatever its age: a machine
/// that is down never slows a tick down.
pub fn merge(local: Vec<QuestRow>, remote: Vec<QuestRow>) -> (r: Vec<QuestRow>)
    ensures
        r@ == ranked(local@ + remote@),
{
    let mut rows = local;
    let mut more = remote;
    rows.append(&mut more);
    sort_quests(rows)
}

/// Whether a row's links can be looked up here: links live in the database of
/// the machine that owns the quest, and a lookup by a remote id would show some
/// local quest's links under it.
pub fn wants_links(row: &QuestRow) -> (r: bool)
    ensures
        r == !(row.origin is Remote),
{
    !row.origin.is_remote()
}

/// The workflow names the new-quest form offers: those that were read, or the
/// ones that are built in. A form that offered nothing would be worse.
pub fn workflows_or_builtins(read: Option<Vec<String>>, builtin: Vec<String>) -> (r: Vec<String>)
    ensures
        r@ == match read {
            Some(names) => names@,
            None => builtin@,
        },
{
    match read {
        Some(names) => names,
        None => builtin,
    }
}

/// Puts a reload into the tab. The rows come merged and ranked. The selection is
/// settled as well as put back on its quest: a reload can reorder the list under
/// it.
pub fn refresh(
    app: &mut App,
    rows: Vec<QuestRow>,
    links: Vec<Vec<Link>>,
    templates: Vec<Template>,
    workflows: Vec<String>,
)
    requires
        old(app).wf(),
    ensures
        final(app).wf(),
        final(app)@ == reloaded(old(app)@, rows@, links@, templates@, texts(workflows@)),
{
    app.quests.rows = rows;
    app.quests.links = links;
    app.quests.templates = templates;
    app.quests.workflows = workflows;
    app.quests.resync();
    settle_view(app);
    app.quests.events = Vec::new();
    app.quests.events_for = None;
}

/// How many events the detail panel shows.
pub const EVENTS: usize = 10;

/// What bringing the selection's events in line takes.
#[derive(Debug, Clone, PartialEq, Eq)]
pub enum Sync {
    /// They are in line.
    Nothing,
    /// There is nothing to read: no selection, or one on another machine.
    Clear,
    /// Read the last events of that quest, so many at most.
    Fetch { quest: String, limit: usize },
}

/// A sync as a value.
pub ghost enum SyncV {
    Nothing,
    Clear,
    Fetch { quest: Seq<char>, limit: nat },
}

impl View for Sync {
    type V = SyncV;

    open spec fn view(&self) -> SyncV {
        match *self {
            Sync::Nothing => SyncV::Nothing,
            Sync::Clear => SyncV::Clear,
            Sync::Fetch { quest, limit } => SyncV::Fetch { quest: quest@, limit: limit as nat },
        }
    }
}

/// The selection is on another machine.
pub open spec fn on_remote(q: QuestsV) -> bool {
    selection(q) is Some && selection(q)->0.origin is Remote
}

/// What bringing the selection's events in line takes.
pub open spec fn sync_needed(q: QuestsV) -> SyncV {
    if q.events_for == q.selected_id {
        SyncV::Nothing
    } else {
        match q.selected_id {
            Some(anchor) => if on_remote(q) {
                SyncV::Clear
            } else {
                SyncV::Fetch { quest: anchor.id, limit: EVENTS as nat }
            },
            None => SyncV::Clear,
        }
    }
}

/// What bringing the selection's events in line takes. Nothing unless the
/// selection moved, which is what keeps the arrow keys off the database.
pub fn sync_step(app: &App) -> (r: Sync)
    ensures
        r@ == sync_needed(app@.quests),
{
    if same_anchor(&app.quests.events_for, &app.quests.selected_id) {
        return Sync::Nothing;
    }
    let remote = match app.quests.selected_row() {
        Some(row) => row.origin.is_remote(),
        None => false,
    };
    match &app.quests.selected_id {
        Some(anchor) => if remote {
            Sync::Clear
        } else {
            Sync::Fetch { quest: anchor.id.clone(), limit: EVENTS }
        },
        None => Sync::Clear,
    }
}

/// The tab with the selection's events in it, as many as the panel shows.
pub open spec fn synced(q: QuestsV, events: Seq<Event>) -> QuestsV {
    QuestsV {
        events: if events.len() <= EVENTS {
            events
        } else {
            events.take(EVENTS as int)
        },
        events_for: q.selected_id,
        ..q
    }
}

/// Once the selection's events were put into the tab they are in line: a second
/// look asks for nothing. There are no more of them than the panel shows, and the
/// rows and the selection are as they were.
pub proof fn a_second_look_asks_for_nothing(q: QuestsV, events: Seq<Event>)
    ensures
        sync_needed(synced(q, events)) == SyncV::Nothing,
        synced(q, events).events.len() <= EVENTS,
        synced(q, events).rows == q.rows,
        synced(q, events).selected == q.selected,
        synced(q, events).selected_id == q.selected_id,
        events.len() <= EVENTS ==> synced(q, events).events == events,
        synced(synced(q, events), events) == synced(q, events),
{
}

/// Puts the selection's events into the tab. No more than [`EVENTS`] of what was
/// read are kept.
pub fn sync(app: &mut App, events: Vec<Event>)
    requires
        old(app).wf(),
    ensures
        final(app).wf(),
        final(app)@ == with_quests(old(app)@, synced(old(app)@.quests, events@)),
{
    let anchor = match &app.quests.selected_id {
        Some(a) => Some(a.copy()),
        None => None,
    };
    let mut events = events;
    if events.len() > EVENTS {
        events.truncate(EVENTS);
    }
    app.quests.events = events;
    app.quests.events_for = anchor;
}

// ------------------------------------------------------------------- the keys

/// The keys that read or write this machine's database. On a remote row they
/// would all run against the wrong one: an id is unique only per machine.
pub open spec fn is_local_only(c: char) -> bool {
    c == 's' || c == 'e' || c == 'r' || c == 'c' || c == 'R' || c == 'b' || c == 'l'
}

/// The command a refused key stands for.
pub open spec fn command_for(c: char) -> Seq<char> {
    if c == 's' {
        "q sessions"@
    } else if c == 'e' {
        "q events"@
    } else if c == 'r' {
        "q rename"@
    } else if c == 'c' {
        "q close"@
    } else if c == 'R' {
        "q resume"@
    } else if c == 'b' {
        "q brief"@
    } else if c == 'l' {
        "q links"@
    } else {
        "q show"@
    }
}

/// The command a refused key stands for, so the refusal hands over something to
/// run rather than a dead end.
pub fn cli_equivalent(c: char) -> (r: &'static str)
    ensures
        r@ == command_for(c),
{
    match c {
        's' => "q sessions",
        'e' => "q events",
        'r' => "q rename",
        'c' => "q close",
        'R' => "q resume",
        'b' => "q brief",
        'l' => "q links",
        _ => "q show",
    }
}

/// What a refused key says.
pub open spec fn refusal(row: QuestRow, c: char) -> Seq<char> {
    row.view.quest.slug@ + " runs on "@ + row.view.quest.machine@
        + "; the TUI does not proxy `"@ + seq![c] + "` yet \u{b7} run `"@ + command_for(c) + " "@
        + row.view.quest.slug@ + "` in a shell, or o to enter"@
}

/// Refuses a key because the selection lives on another machine. Entering a
/// remote quest goes over ssh and is never refused.
pub fn refuse_remote(app: &mut App, c: char) -> (r: bool)
    requires
        old(app).wf(),
    ensures
        final(app).wf(),
        r == on_remote(old(app)@.quests),
        final(app)@ == if r {
            saying(old(app)@, refusal(selection(old(app)@.quests)->0, c))
        } else {
            old(app)@
        },
{
    let message = match app.quests.selected_row() {
        Some(row) => if row.origin.is_remote() {
            let slug = row.view.quest.slug.as_str();
            let mut text = concat3(slug, " runs on ", row.view.quest.machine.as_str());
            text.append("; the TUI does not proxy `");
            let ghost a = text@;
            text.push(c);
            proof {
                assert(text@ =~= a + seq![c]);
            }
            text.append("` yet \u{b7} run `");
            text.append(cli_equivalent(c));
            text.append(" ");
            text.append(slug);
            text.append("` in a shell, or o to enter");
            text
        } else {
            return false;
        },
        None => {
            return false;
        },
    };
    app.say(message.as_str());
    true
}

/// The machine a remote selection lives on, or `None` when the selection is this
/// machine's or there is none.
pub fn selected_remote(app: &App) -> (r: Option<String>)
    ensures
        match r {
            Some(m) => on_remote(app@.quests) && m@ == selection(
                app@.quests,
            )->0.view.quest.machine@,
            None => !on_remote(app@.quests),
        },
{
    match app.quests.selected_row() {
        Some(row) => if row.origin.is_remote() {
            Some(row.view.quest.machine.clone())
        } else {
            None
        },
        None => None,
    }
}

/// The quest an attach or a brief would run against.
pub fn selected_quest(app: &App) -> (r: Option<Quest>)
    ensures
        match r {
            Some(quest) => selection(app@.quests) is Some && quest == selection(
                app@.quests,
            )->0.view.quest,
            None => selection(app@.quests) is None,
        },
{
    match app.quests.selected_row() {
        Some(row) => Some(row.view.quest.copy()),
        None => None,
    }
}

/// The search box on the status bar: the text, a caret, and how much it matches.
pub open spec fn box_text(q: QuestsV) -> Seq<char> {
    "/"@ + q.query + "\u{2588}  "@ + decimal(on_screen(q).len()) + " matching"@
}

/// The box is the status bar.
pub open spec fn typed_box(a: AppV) -> AppV {
    saying(a, box_text(a.quests))
}

/// A changed search: the selection is put back on its quest and the box says so.
pub open spec fn researched(a: AppV, query: Seq<char>) -> AppV {
    typed_box(with_quests(a, resynced(QuestsV { query, ..a.quests })))
}

/// What a key does in the search box.
pub open spec fn box_key(a: AppV, input: Input) -> (Action, AppV) {
    let q = a.quests;
    (
        Action::Nothing,
        match input {
            Input::Esc => hushed(
                with_quests(a, resynced(QuestsV { searching: false, query: Seq::empty(), ..q })),
            ),
            Input::Enter => {
                let b = with_quests(a, QuestsV { searching: false, ..q });
                if q.query.len() == 0 {
                    hushed(b)
                } else {
                    saying(b, "filter /"@ + q.query + " \u{b7} Esc clears"@)
                }
            },
            Input::Backspace => researched(
                a,
                if q.query.len() > 0 {
                    q.query.drop_last()
                } else {
                    q.query
                },
            ),
            Input::Char(c) => researched(a, q.query.push(c)),
            _ => a,
        },
    )
}

/// The detail panel flipped, unless there is nothing to show.
pub open spec fn detail_flipped(a: AppV) -> AppV {
    if selection(a.quests) is Some {
        AppV { detail: !a.detail, ..a }
    } else {
        a
    }
}

/// The selection handed to another tab, which reads it on its next reload.
pub open spec fn handed_over(a: AppV, tab: Tab, what: Seq<char>) -> (Action, AppV) {
    match selection(a.quests) {
        Some(row) => (
            Action::Refresh,
            saying(
                on_tab(AppV { focus_quest: Some(row.view.quest.id@), ..a }, tab),
                what + " of "@ + row.view.quest.slug@,
            ),
        ),
        None => (Action::Nothing, a),
    }
}

/// The least machine of some rows, of those that come behind `low`.
pub open spec fn least_machine(rows: Seq<QuestRow>, low: Option<Seq<char>>) -> Option<Seq<char>>
    decreases rows.len(),
{
    if rows.len() == 0 {
        None
    } else {
        let found = least_machine(rows.drop_last(), low);
        let here = rows.last().view.quest.machine@;
        if low is Some && !comes_before(low->0, here) {
            found
        } else {
            match found {
                Some(f) => if comes_before(here, f) {
                    Some(here)
                } else {
                    found
                },
                None => Some(here),
            }
        }
    }
}

/// Some row is of that machine.
pub open spec fn has_machine(rows: Seq<QuestRow>, machine: Seq<char>) -> bool {
    exists|i: int| 0 <= i < rows.len() && (#[trigger] rows[i]).view.quest.machine@ == machine
}

/// The machine filter one step on: through the machines of the listing in order,
/// and back to all of them.
pub open spec fn next_machine(q: QuestsV) -> Option<Seq<char>> {
    match q.machine {
        None => least_machine(q.rows, None),
        Some(m) => if has_machine(q.rows, m) {
            least_machine(q.rows, Some(m))
        } else {
            None
        },
    }
}

/// The machine filter cycled.
pub open spec fn machine_cycled(a: AppV) -> AppV {
    let b = with_quests(a, resynced(QuestsV { machine: next_machine(a.quests), ..a.quests }));
    saying(
        b,
        match b.quests.machine {
            Some(m) => "machine "@ + m,
            None => "all machines"@,
        },
    )
}

/// The words of all the links.
pub open spec fn all_words(links: Seq<Link>) -> Seq<Seq<char>> {
    Seq::new(links.len(), |i: int| link_words(links[i]))
}

/// The panel opened and the links on the bar.
pub open spec fn links_shown(a: AppV) -> AppV {
    if selection(a.quests) is Some {
        let links = selection_links(a.quests);
        saying(
            AppV { detail: true, ..a },
            if links.len() == 0 {
                "no links"@
            } else {
                joined(all_words(links), " \u{b7} "@)
            },
        )
    } else {
        a
    }
}

/// What Esc does: it closes the panel, then clears the search.
pub open spec fn esc_key(a: AppV) -> AppV {
    if a.detail {
        AppV { detail: false, ..a }
    } else if a.quests.query.len() > 0 {
        saying(
            with_quests(a, resynced(QuestsV { query: Seq::empty(), ..a.quests })),
            "search cleared"@,
        )
    } else {
        a
    }
}

/// Finished quests shown or hidden. They were never fetched, so this needs a
/// reload.
pub open spec fn finished_flipped(a: AppV) -> AppV {
    let q = resynced(QuestsV { show_finished: !a.quests.show_finished, ..a.quests });
    saying(
        with_quests(a, q),
        if q.show_finished {
            "showing finished quests"@
        } else {
            "finished quests hidden"@
        },
    )
}

/// An action, where there is a selection to act on.
pub open spec fn if_selected(a: AppV, action: Action) -> Action {
    if selection(a.quests) is Some {
        action
    } else {
        Action::Nothing
    }
}

/// What a key does on this tab.
pub open spec fn key(a: AppV, input: Input) -> (Action, AppV) {
    let q = a.quests;
    let p = page(a);
    if q.searching {
        box_key(a, input)
    } else if input is Char && is_local_only(input->Char_0) && on_remote(q) {
        (Action::Nothing, saying(a, refusal(selection(q)->0, input->Char_0)))
    } else {
        match input {
            Input::Up | Input::Char('k') => (Action::Nothing, with_quests(a, moved_by(q, -1, p))),
            Input::Down | Input::Char('j') => (Action::Nothing, with_quests(a, moved_by(q, 1, p))),
            Input::PageUp => (Action::Nothing, with_quests(a, moved_by(q, -p, p))),
            Input::PageDown => (Action::Nothing, with_quests(a, moved_by(q, p, p))),
            Input::Home | Input::Char('g') => (Action::Nothing, with_quests(a, moved_to(q, 0, p))),
            Input::End | Input::Char('G') => (
                Action::Nothing,
                with_quests(a, moved_to(q, usize::MAX as int, p)),
            ),
            Input::Char('o') => (if_selected(a, Action::Attach), a),
            Input::Enter => (Action::Nothing, detail_flipped(a)),
            Input::Esc => (Action::Nothing, esc_key(a)),
            Input::Char('s') => handed_over(a, Tab::Sessions, "sessions"@),
            Input::Char('e') => handed_over(a, Tab::Events, "events"@),
            Input::Char('f') => (Action::Refresh, finished_flipped(a)),
            Input::Char('m') => (Action::Nothing, machine_cycled(a)),
            Input::Char('/') => (
                Action::Nothing,
                typed_box(with_quests(a, QuestsV { searching: true, ..q })),
            ),
            Input::Char('n') => (Action::Nothing, opened(a, PromptV::NewQuest, new_form(a))),
            Input::Char('r') => (Action::Nothing, rename_opened(a)),
            Input::Char('c') => (Action::Nothing, close_opened(a)),
            Input::Char('R') => (Action::Nothing, resume_opened(a)),
            Input::Char('b') => (if_selected(a, Action::Brief), a),
            Input::Char('l') => (Action::Nothing, links_shown(a)),
            _ => (Action::Nothing, a),
        }
    }
}

/// What pasted text does on this tab: it goes into an open box, and nowhere
/// else.
pub open spec fn pasted_into(a: AppV, text: Seq<char>) -> (bool, AppV) {
    let clean = without_controls(text);
    if a.quests.searching && clean.len() > 0 {
        (true, researched(a, a.quests.query + clean))
    } else {
        (false, a)
    }
}

/// The box is the status bar: there is no room for a second one.
fn typing(app: &mut App)
    requires
        old(app).wf(),
    ensures
        final(app).wf(),
        final(app)@ == typed_box(old(app)@),
{
    let visible = app.quests.visible();
    proof {
        assert(places(visible@).len() == visible.len());
    }
    let mut message = concat3("/", app.quests.query.as_str(), "\u{2588}  ");
    message.append(number(visible.len() as u64).as_str());
    message.append(" matching");
    app.say(message.as_str());
}

/// Puts another text into the search box.
fn research(app: &mut App, query: String)
    requires
        old(app).wf(),
    ensures
        final(app).wf(),
        final(app)@ == researched(old(app)@, query@),
{
    app.quests.query = query;
    app.quests.resync();
    typing(app);
}

/// The search box. Only Esc, Enter and editing keys mean anything here; every
/// other character is text.
fn search_key(app: &mut App, input: Input) -> (r: Action)
    requires
        old(app).wf(),
    ensures
        final(app).wf(),
        (r, final(app)@) == box_key(old(app)@, input),
{
    match input {
        Input::Esc => {
            app.quests.searching = false;
            app.quests.query = String::new();
            app.quests.resync();
            app.status = String::new();
        },
        Input::Enter => {
            app.quests.searching = false;
            let query = app.quests.query.clone();
            if query.as_str().is_empty() {
                app.status = String::new();
            } else {
                let message = concat3("filter /", query.as_str(), " \u{b7} Esc clears");
                app.say(message.as_str());
            }
        },
        Input::Backspace => {
            let chars = chars_of(app.quests.query.as_str());
            let kept = if chars.len() > 0 {
                let kept = string_between(&chars, 0, chars.len() - 1);
                proof {
                    assert(kept@ =~= chars@.drop_last());
                }
                kept
            } else {
                app.quests.query.clone()
            };
            research(app, kept);
        },
        Input::Char(c) => {
            let mut grown = app.quests.query.clone();
            grown.push(c);
            research(app, grown);
        },
        _ => {},
    }
    Action::Nothing
}

/// Pasted text into an open search box. Ignored when the box is not open: a
/// paste is not a way to start one.
pub fn paste(app: &mut App, text: &str) -> (r: bool)
    requires
        old(app).wf(),
    ensures
        final(app).wf(),
        (r, final(app)@) == pasted_into(old(app)@, text@),
{
    if !app.quests.searching {
        return false;
    }
    let clean = cleaned(text);
    if clean.as_str().is_empty() {
        return false;
    }
    let grown = concat(app.quests.query.as_str(), clean.as_str());
    research(app, grown);
    true
}

fn toggle_detail(app: &mut App)
    requires
        old(app).wf(),
    ensures
        final(app).wf(),
        final(app)@ == detail_flipped(old(app)@),
{
    if app.quests.selected_row().is_some() {
        app.detail = !app.detail;
    }
}

/// The action, where there is a selection to act on.
fn on_selection(app: &App, action: Action) -> (r: Action)
    ensures
        r == if_selected(app@, action),
{
    match app.quests.selected_row() {
        Some(_) => action,
        None => Action::Nothing,
    }
}

/// Hands the selection to another tab. The target tab has to reload before it
/// can honour the filter, which is what makes it a hand-off rather than a tab
/// switch.
fn hand_over(app: &mut App, tab: Tab, what: &str) -> (r: Action)
    requires
        old(app).wf(),
    ensures
        final(app).wf(),
        (r, final(app)@) == handed_over(old(app)@, tab, what@),
{
    let (id, message) = match app.quests.selected_row() {
        Some(row) => (
            row.view.quest.id.clone(),
            concat3(what, " of ", row.view.quest.slug.as_str()),
        ),
        None => {
            return Action::Nothing;
        },
    };
    app.focus_quest = Some(id);
    app.select(tab);
    app.say(message.as_str());
    Action::Refresh
}

/// Hands the selection to the Sessions tab.
pub fn sessions_of_selection(app: &mut App) -> (r: Action)
    requires
        old(app).wf(),
    ensures
        final(app).wf(),
        (r, final(app)@) == handed_over(old(app)@, Tab::Sessions, "sessions"@),
{
    hand_over(app, Tab::Sessions, "sessions")
}

/// Hands the selection to the Events tab.
pub fn events_of_selection(app: &mut App) -> (r: Action)
    requires
        old(app).wf(),
    ensures
        final(app).wf(),
        (r, final(app)@) == handed_over(old(app)@, Tab::Events, "events"@),
{
    hand_over(app, Tab::Events, "events")
}

/// The least machine of the rows, of those that come behind `low`.
fn least(rows: &Vec<QuestRow>, low: &Option<String>) -> (r: Option<String>)
    ensures
        opt_text(r) == least_machine(rows@, opt_text(*low)),
{
    let mut found: Option<String> = None;
    let mut i: usize = 0;
    proof {
        assert(rows@.take(0) =~= Seq::empty());
    }
    while i < rows.len()
        invariant
            i <= rows.len(),
            opt_text(found) == least_machine(rows@.take(i as int), opt_text(*low)),
        decreases rows.len() - i,
    {
        let here = rows[i].view.quest.machine.as_str();
        proof {
            assert(rows@.take(i as int + 1).drop_last() =~= rows@.take(i as int));
        }
        let behind = match low {
            Some(l) => before(l.as_str(), here),
            None => true,
        };
        let better = match &found {
            Some(f) => before(here, f.as_str()),
            None => true,
        };
        if behind && better {
            found = Some(owned(here));
        }
        i += 1;
    }
    proof {
        assert(rows@.take(rows.len() as int) =~= rows@);
    }
    found
}

/// Cycles the machine filter through the machines of the listing, in order and
/// back to all of them.
pub fn cycle_machine(app: &mut App)
    requires
        old(app).wf(),
    ensures
        final(app).wf(),
        final(app)@ == machine_cycled(old(app)@),
{
    let next = match &app.quests.machine {
        None => least(&app.quests.rows, &app.quests.machine),
        Some(m) => {
            let mut listed: bool = false;
            let mut i: usize = 0;
            while i < app.quests.rows.len()
                invariant
                    i <= app.quests.rows.len(),
                    app.quests.machine == Some(*m),
                    listed <==> exists|j: int|
                        0 <= j < i && (
                        #[trigger] app.quests.rows@[j]).view.quest.machine@ == m@,
                decreases app.quests.rows.len() - i,
            {
                if same(app.quests.rows[i].view.quest.machine.as_str(), m.as_str()) {
                    listed = true;
                }
                i += 1;
            }
            if listed {
                least(&app.quests.rows, &app.quests.machine)
            } else {
                None
            }
        },
    };
    app.quests.machine = next;
    app.quests.resync();
    let message = match &app.quests.machine {
        Some(m) => concat("machine ", m.as_str()),
        None => owned("all machines"),
    };
    app.say(message.as_str());
}

/// Opens the panel and puts the links on the bar.
fn show_links(app: &mut App)
    requires
        old(app).wf(),
    ensures
        final(app).wf(),
        final(app)@ == links_shown(old(app)@),
{
    if app.quests.selected_row().is_none() {
        return ;
    }
    let message = match app.quests.selected_links() {
        Some(links) => if links.len() == 0 {
            owned("no links")
        } else {
            let mut cells: Vec<String> = Vec::new();
            let mut i: usize = 0;
            while i < links.len()
                invariant
                    i <= links.len(),
                    texts(cells@) =~= all_words(links@).take(i as int),
                decreases links.len() - i,
            {
                let ghost before = cells@;
                let words = link_cell(&links[i]);
                cells.push(words);
                proof {
                    assert(texts(cells@) =~= texts(before).push(words@));
                }
                i += 1;
            }
            proof {
                assert(texts(cells@) =~= all_words(links@));
            }
            join(&cells, " \u{b7} ")
        },
        None => owned("no links"),
    };
    app.detail = true;
    app.say(message.as_str());
}

/// Keys the shell did not claim. Anything needing the terminal leaves through an
/// [`Action`], never from in here.
#[verifier::rlimit(50)]
pub fn handle(app: &mut App, input: Input) -> (r: Action)
    requires
        old(app).wf(),
    ensures
        final(app).wf(),
        (r, final(app)@) == key(old(app)@, input),
{
    if app.quests.searching {
        return search_key(app, input);
    }
    match input {
        Input::Char(c) => {
            let local = c == 's' || c == 'e' || c == 'r' || c == 'c' || c == 'R' || c == 'b' || c
                == 'l';
            if local {
                let refused = refuse_remote(app, c);
                if refused {
                    return Action::Nothing;
                }
            }
        },
        _ => {},
    }
    let p = viewport(app);
    match input {
        Input::Up | Input::Char('k') => {
            app.quests.move_by(-1, p);
            Action::Nothing
        },
        Input::Down | Input::Char('j') => {
            app.quests.move_by(1, p);
            Action::Nothing
        },
        Input::PageUp => {
            app.quests.move_by(-(p as i64), p);
            Action::Nothing
        },
        Input::PageDown => {
            app.quests.move_by(p as i64, p);
            Action::Nothing
        },
        Input::Home | Input::Char('g') => {
            app.quests.move_to(0, p);
            Action::Nothing
        },
        Input::End | Input::Char('G') => {
            app.quests.move_to(usize::MAX, p);
            Action::Nothing
        },
        Input::Char('o') => on_selection(app, Action::Attach),
        Input::Enter => {
            toggle_detail(app);
            Action::Nothing
        },
        Input::Esc => {
            if app.detail {
                app.detail = false;
            } else if !app.quests.query.as_str().is_empty() {
                app.quests.query = String::new();
                app.quests.resync();
                app.say("search cleared");
            }
            Action::Nothing
        },
        Input::Char('s') => sessions_of_selection(app),
        Input::Char('e') => events_of_selection(app),
        Input::Char('f') => {
            app.quests.show_finished = !app.quests.show_finished;
            app.quests.resync();
            if app.quests.show_finished {
                app.say("showing finished quests");
            } else {
                app.say("finished quests hidden");
            }
            Action::Refresh
        },
        Input::Char('m') => {
            cycle_machine(app);
            Action::Nothing
        },
        Input::Char('/') => {
            app.quests.searching = true;
            typing(app);
            Action::Nothing
        },
        Input::Char('n') => {
            open_new(app);
            Action::Nothing
        },
        Input::Char('r') => {
            open_rename(app);
            Action::Nothing
        },
        Input::Char('c') => {
            open_close(app);
            Action::Nothing
        },
        Input::Char('R') => {
            open_resume(app);
            Action::Nothing
        },
        Input::Char('b') => on_selection(app, Action::Brief),
        Input::Char('l') => {
            show_links(app);
            Action::Nothing
        },
        _ => Action::Nothing,
    }
}

// ------------------------------------------------------------------ the forms

pub const F_NAME: &'static str = "name";

pub const F_GOAL: &'static str = "goal";

pub const F_DIR: &'static str = "dir";

pub const F_WORKFLOW: &'static str = "workflow";

pub const F_MACHINE: &'static str = "machine";

pub const F_TEMPLATE: &'static str = "template";

pub const F_BEADS: &'static str = "beads epic";

pub const F_SLUG: &'static str = "slug";

pub const F_CLOSE_EPIC: &'static str = "close beads epic";

pub const F_PROMPT: &'static str = "prompt";

/// The template select's "no template" option. Parenthesised, so no template
/// name can collide with it: a name is a slug.
pub const NO_TEMPLATE: &'static str = "(none)";

/// The "leave it unset" workflow choice.
pub const NO_WORKFLOW: &'static str = "(none)";

/// An empty text field.
pub open spec fn text_field(label: Seq<char>, value: Seq<char>, blank: Seq<char>) -> FieldV {
    FieldV::Text { label, before: value, after: Seq::empty(), blank }
}

/// A select on its first option.
pub open spec fn select_field(label: Seq<char>, options: Seq<Seq<char>>) -> FieldV {
    FieldV::Select { label, options: options_or_none(options), at: 0, guarded: false }
}

/// The names of some templates.
pub open spec fn template_names(templates: Seq<Template>) -> Seq<Seq<char>> {
    Seq::new(templates.len(), |i: int| templates[i].name@)
}

/// The new-quest form: name, goal, dir, workflow, machine, template, beads epic,
/// and the action row last, so that typing still lands in the first field.
pub open spec fn new_form(a: AppV) -> FormV {
    let base = FormV {
        hint: "Tab field \u{b7} \u{2190}\u{2192} chooses \u{b7} \u{23ce} runs the action \u{b7} Esc cancels"@,
        ..empty_form("new quest"@)
    };
    let f1 = with_field(base, text_field(F_NAME@, Seq::empty(), "(auto)"@));
    let f2 = with_field(f1, text_field(F_GOAL@, Seq::empty(), "(none)"@));
    let f3 = with_field(f2, text_field(F_DIR@, Seq::empty(), "(where q was started)"@));
    let f4 = with_field(
        f3,
        select_field(F_WORKFLOW@, seq![NO_WORKFLOW@] + a.quests.workflows),
    );
    let f5 = with_field(f4, select_field(F_MACHINE@, a.machines));
    let f6 = with_field(
        f5,
        select_field(F_TEMPLATE@, seq![NO_TEMPLATE@] + template_names(a.quests.templates)),
    );
    let f7 = with_field(f6, FieldV::Toggle { label: F_BEADS@, on: true });
    let f8 = if a.quests.templates.len() > 0 {
        with_field(
            f7,
            FieldV::Note(
                "a template fills goal \u{b7} dir \u{b7} workflow left blank, and brings its beads repo and the master's first prompt"@,
            ),
        )
    } else {
        f7
    };
    with_field(f8, action_row("create"@))
}

/// What a prompt records about the quest it was opened against.
pub open spec fn target_for(row: QuestRow) -> TargetV {
    TargetV {
        quest: row.view.quest.id@,
        slug: row.view.quest.slug@,
        created_at: row.view.quest.created_at,
        finished: row.view.display_state == DisplayState::Finished,
        epic: opt_text(row.view.quest.beads_epic),
    }
}

/// The rename form. A rename destroys nothing and starts nothing, so Enter is
/// just Enter.
pub open spec fn rename_form(row: QuestRow) -> FormV {
    let base = FormV {
        hint: "\u{23ce} renames \u{b7} Esc cancels"@,
        commit: Commit::Harmless,
        ..empty_form("rename "@ + row.view.quest.slug@)
    };
    let f1 = with_field(base, text_field(F_SLUG@, row.view.quest.slug@, Seq::empty()));
    with_field(f1, FieldV::Note("lowercase kebab-case, at most 40 characters"@))
}

/// The close form: the action row first, on `cancel`; then what closing does.
pub open spec fn close_form(a: AppV, row: QuestRow) -> FormV {
    let slug = row.view.quest.slug@;
    let base = FormV {
        hint: "\u{2190}\u{2192} chooses \u{b7} \u{23ce} runs the action \u{b7} Esc cancels"@,
        ..empty_form("close "@ + slug + "?"@)
    };
    let f1 = with_field(base, action_row("close"@));
    let f2 = if row.view.display_state == DisplayState::Finished {
        with_field(
            f1,
            FieldV::Note("already finished \u{2014} only the epic is left to do"@),
        )
    } else {
        with_field(
            f1,
            FieldV::Note(
                "kills tmux "@ + a.tmux_prefix + slug + " \u{b7} ends "@ + decimal(
                    row.view.live_sessions as nat,
                ) + " live session(s)"@,
            ),
        )
    };
    let f3 = match row.view.quest.beads_epic {
        Some(epic) => with_field(
            with_field(f2, FieldV::Toggle { label: F_CLOSE_EPIC@, on: false }),
            FieldV::Note("epic "@ + epic@),
        ),
        None => with_field(f2, FieldV::Note("no beads epic"@)),
    };
    with_field(f3, FieldV::Note("brain summary (--summarize) lands with brain integration"@))
}

/// The resume form: a prompt for the new master, and the action row.
pub open spec fn resume_form(row: QuestRow) -> FormV {
    let base = FormV {
        hint: "Tab field \u{b7} \u{2190}\u{2192} chooses \u{b7} \u{23ce} runs the action \u{b7} Esc cancels"@,
        ..empty_form("resume "@ + row.view.quest.slug@)
    };
    let f1 = with_field(
        base,
        text_field(
            F_PROMPT@,
            Seq::empty(),
            "(none \u{2014} the master comes up on its brief)"@,
        ),
    );
    let f2 = with_field(
        f1,
        FieldV::Note("spawns a new master; the old session rows stay as history"@),
    );
    with_field(f2, action_row("resume"@))
}

/// The rename prompt over the selection.
pub open spec fn rename_opened(a: AppV) -> AppV {
    match selection(a.quests) {
        Some(row) => opened(a, PromptV::Rename(target_for(row)), rename_form(row)),
        None => a,
    }
}

/// The close prompt over the selection.
pub open spec fn close_opened(a: AppV) -> AppV {
    match selection(a.quests) {
        Some(row) => opened(a, PromptV::Close(target_for(row)), close_form(a, row)),
        None => a,
    }
}

/// The resume prompt over the selection.
pub open spec fn resume_opened(a: AppV) -> AppV {
    match selection(a.quests) {
        Some(row) => opened(a, PromptV::Resume(target_for(row)), resume_form(row)),
        None => a,
    }
}

/// Opens the new-quest form. It starts a tmux session and an agent inside it:
/// not something a stray Enter gets to do.
fn open_new(app: &mut App)
    requires
        old(app).wf(),
    ensures
        final(app).wf(),
        final(app)@ == opened(old(app)@, PromptV::NewQuest, new_form(old(app)@)),
{
    let none = String::new();
    let mut workflows: Vec<String> = Vec::new();
    workflows.push(owned(NO_WORKFLOW));
    let mut names = clone_strings(&app.quests.workflows);
    let ghost given = names@;
    workflows.append(&mut names);
    proof {
        assert(texts(workflows@) =~= seq![NO_WORKFLOW@] + texts(given));
    }
    let mut templates: Vec<String> = Vec::new();
    templates.push(owned(NO_TEMPLATE));
    let mut i: usize = 0;
    while i < app.quests.templates.len()
        invariant
            i <= app.quests.templates.len(),
            texts(templates@) =~= seq![NO_TEMPLATE@] + template_names(
                app.quests.templates@,
            ).take(i as int),
        decreases app.quests.templates.len() - i,
    {
        let ghost before = templates@;
        let name = app.quests.templates[i].name.clone();
        templates.push(name);
        proof {
            assert(texts(templates@) =~= texts(before).push(name@));
        }
        i += 1;
    }
    proof {
        assert(template_names(app.quests.templates@).take(app.quests.templates.len() as int)
            =~= template_names(app.quests.templates@));
    }
    let machines = clone_strings(&app.machines);
    let has_templates = !app.quests.templates.is_empty();
    let form = Form::new("new quest").hint(
        "Tab field \u{b7} \u{2190}\u{2192} chooses \u{b7} \u{23ce} runs the action \u{b7} Esc cancels",
    );
    let form = form.text(F_NAME, none.as_str(), "(auto)");
    let form = form.text(F_GOAL, none.as_str(), "(none)");
    let form = form.text(F_DIR, none.as_str(), "(where q was started)");
    let form = form.select(F_WORKFLOW, workflows, 0);
    let form = form.select(F_MACHINE, machines, 0);
    let form = form.select(F_TEMPLATE, templates, 0);
    let form = form.toggle(F_BEADS, true);
    let form = if has_templates {
        form.note(
            "a template fills goal \u{b7} dir \u{b7} workflow left blank, and brings its beads repo and the master's first prompt",
        )
    } else {
        form
    };
    let form = form.action("create");
    app.open(Prompt::NewQuest, form);
}

/// What a prompt records about the quest it was opened against.
pub fn target_of(row: &QuestRow) -> (r: Target)
    ensures
        r@ == target_for(*row),
{
    Target {
        quest: row.view.quest.id.clone(),
        slug: row.view.quest.slug.clone(),
        created_at: row.view.quest.created_at,
        finished: match row.view.display_state {
            DisplayState::Finished => true,
            _ => false,
        },
        epic: clone_opt(&row.view.quest.beads_epic),
    }
}

/// Opens the rename form over the selection.
fn open_rename(app: &mut App)
    requires
        old(app).wf(),
    ensures
        final(app).wf(),
        final(app)@ == rename_opened(old(app)@),
{
    let (target, form) = match app.quests.selected_row() {
        Some(row) => {
            let slug = row.view.quest.slug.as_str();
            let none = String::new();
            let form = Form::new(concat("rename ", slug).as_str()).harmless();
            let form = form.hint("\u{23ce} renames \u{b7} Esc cancels");
            let form = form.text(F_SLUG, slug, none.as_str());
            (target_of(row), form.note("lowercase kebab-case, at most 40 characters"))
        },
        None => {
            return ;
        },
    };
    app.open(Prompt::Rename(target), form);
}

/// Opens the close form over the selection. A bare Enter aborts: the
/// affirmative is one arrow key away.
fn open_close(app: &mut App)
    requires
        old(app).wf(),
    ensures
        final(app).wf(),
        final(app)@ == close_opened(old(app)@),
{
    let (target, form) = match app.quests.selected_row() {
        Some(row) => {
            let slug = row.view.quest.slug.as_str();
            let target = target_of(row);
            let form = Form::new(concat3("close ", slug, "?").as_str());
            let form = form.hint(
                "\u{2190}\u{2192} chooses \u{b7} \u{23ce} runs the action \u{b7} Esc cancels",
            );
            let form = form.action("close");
            let form = if target.finished {
                form.note("already finished \u{2014} only the epic is left to do")
            } else {
                let mut text = concat3("kills tmux ", app.tmux_prefix.as_str(), slug);
                text.append(" \u{b7} ends ");
                text.append(number(row.view.live_sessions).as_str());
                text.append(" live session(s)");
                form.note(text.as_str())
            };
            let form = match &row.view.quest.beads_epic {
                Some(epic) => form.toggle(F_CLOSE_EPIC, false).note(
                    concat("epic ", epic.as_str()).as_str(),
                ),
                None => form.note("no beads epic"),
            };
            (target, form.note("brain summary (--summarize) lands with brain integration"))
        },
        None => {
            return ;
        },
    };
    app.open(Prompt::Close(target), form);
}

/// Opens the resume form over the selection.
fn open_resume(app: &mut App)
    requires
        old(app).wf(),
    ensures
        final(app).wf(),
        final(app)@ == resume_opened(old(app)@),
{
    let (target, form) = match app.quests.selected_row() {
        Some(row) => {
            let none = String::new();
            let form = Form::new(concat("resume ", row.view.quest.slug.as_str()).as_str());
            let form = form.hint(
                "Tab field \u{b7} \u{2190}\u{2192} chooses \u{b7} \u{23ce} runs the action \u{b7} Esc cancels",
            );
            let form = form.text(
                F_PROMPT,
                none.as_str(),
                "(none \u{2014} the master comes up on its brief)",
            );
            let form = form.note("spawns a new master; the old session rows stay as history");
            (target_of(row), form.action("resume"))
        },
        None => {
            return ;
        },
    };
    app.open(Prompt::Resume(target), form);
}

// --------------------------------------------------------------- running them

/// The complaint about a quest that is no longer there.
pub open spec fn is_gone(e: QError, target: TargetV) -> bool {
    e is NotFound && error_text(e) == "quest "@ + target.slug + " ("@ + target.quest + ") is gone"@
}

/// The complaint about a quest that was renamed.
pub open spec fn is_renamed(e: QError, target: TargetV, slug: Seq<char>) -> bool {
    e is Invalid && error_text(e) == target.slug + " was renamed to "@ + slug
        + " while this box was up; Esc and try again"@
}

/// A quest that was read again is the one the box was opened against, under the
/// name the box gave it.
pub open spec fn still_it(target: TargetV, fetched: Option<Quest>, r: Result<Quest, QError>) -> bool {
    if fetched is Some && fetched->0.created_at == target.created_at {
        if fetched->0.slug@ == target.slug {
            r == Ok::<Quest, QError>(fetched->0)
        } else {
            r is Err && is_renamed(r->Err_0, target, fetched->0.slug@)
        }
    } else {
        r is Err && is_gone(r->Err_0, target)
    }
}

/// The quest the box was opened against, out of what its id leads to now. The id
/// alone is not identity: it can be handed to a new quest once the old one is
/// removed, and the creation time is the column nothing can change. The slug is
/// checked too, because the box put it in its title.
pub fn quest_for(target: &Target, fetched: Option<Quest>) -> (r: Result<Quest, QError>)
    ensures
        still_it(target@, fetched, r),
{
    match fetched {
        Some(quest) => if quest.created_at == target.created_at {
            if same(quest.slug.as_str(), target.slug.as_str()) {
                return Ok(quest);
            }
            let mut text = concat3(
                target.slug.as_str(),
                " was renamed to ",
                quest.slug.as_str(),
            );
            text.append(" while this box was up; Esc and try again");
            return Err(QError::Invalid(text));
        },
        None => {},
    }
    let mut text = concat3("quest ", target.slug.as_str(), " (");
    text.append(target.quest.as_str());
    text.append(") is gone");
    Err(QError::NotFound(text))
}

/// An epic, or that there is none.
pub open spec fn epic_text(epic: Option<Seq<char>>) -> Seq<char> {
    match epic {
        Some(e) => e,
        None => "none"@,
    }
}

/// The complaint about a quest whose state is not what the box says.
pub open spec fn is_otherwise(e: QError, slug: Seq<char>, finished: bool) -> bool {
    e is Invalid && error_text(e) == slug + " is "@ + (if finished {
        "finished"@
    } else {
        "running"@
    }) + " now, which is not what this box says; Esc and try again"@
}

/// The complaint about a quest whose epic is not what the box says.
pub open spec fn is_other_epic(
    e: QError,
    slug: Seq<char>,
    now: Option<Seq<char>>,
    was: Option<Seq<char>>,
) -> bool {
    e is Invalid && error_text(e) == slug + "'s beads epic is "@ + epic_text(now) + " now, not "@
        + epic_text(was) + " as this box says; Esc and try again"@
}

/// A quest that was read again is still what the box said about it.
pub open spec fn still_so(target: TargetV, fetched: Option<Quest>, r: Result<Quest, QError>) -> bool {
    if fetched is Some && fetched->0.created_at == target.created_at && fetched->0.slug@
        == target.slug {
        let quest = fetched->0;
        let finished = quest.state == QuestState::Finished;
        if finished != target.finished {
            r is Err && is_otherwise(r->Err_0, quest.slug@, finished)
        } else if opt_text(quest.beads_epic) != target.epic {
            r is Err && is_other_epic(
                r->Err_0,
                quest.slug@,
                opt_text(quest.beads_epic),
                target.epic,
            )
        } else {
            r == Ok::<Quest, QError>(quest)
        }
    } else {
        still_it(target, fetched, r)
    }
}

/// The same, for the prompts whose text depends on whether the quest is finished
/// and on its epic: acting on anything else would do something the user was
/// never shown.
pub fn quest_for_state(target: &Target, fetched: Option<Quest>) -> (r: Result<Quest, QError>)
    ensures
        still_so(target@, fetched, r),
{
    let quest = match quest_for(target, fetched) {
        Ok(quest) => quest,
        Err(e) => {
            return Err(e);
        },
    };
    let finished = match quest.state {
        QuestState::Finished => true,
        QuestState::Active => false,
    };
    if finished != target.finished {
        let now = if finished {
            "finished"
        } else {
            "running"
        };
        let mut text = concat3(quest.slug.as_str(), " is ", now);
        text.append(" now, which is not what this box says; Esc and try again");
        return Err(QError::Invalid(text));
    }
    if !same_opt(&quest.beads_epic, &target.epic) {
        let now = match &quest.beads_epic {
            Some(e) => e.as_str(),
            None => "none",
        };
        let was = match &target.epic {
            Some(e) => e.as_str(),
            None => "none",
        };
        let mut text = concat3(quest.slug.as_str(), "'s beads epic is ", now);
        text.append(" now, not ");
        text.append(was);
        text.append(" as this box says; Esc and try again");
        return Err(QError::Invalid(text));
    }
    Ok(quest)
}

/// What a submitted form comes down to.
#[derive(Debug, Clone, PartialEq, Eq)]
pub enum Job {
    /// Create a quest from the form.
    Create,
    Rename { quest: Quest, slug: String },
    Close { quest: Quest, close_epic: bool },
    Resume { quest: Quest, prompt: Option<String> },
}

/// Whether the toggle of that label is on.
pub open spec fn toggle_on(f: FormV, label: Seq<char>) -> bool {
    match find_field(f.fields, label) {
        Some(FieldV::Toggle { on, .. }) => on,
        _ => false,
    }
}

/// A text, unless it is blank.
pub open spec fn unless_blank(s: Seq<char>) -> Option<Seq<char>> {
    if s.len() > 0 {
        Some(s)
    } else {
        None
    }
}

/// What a submitted form comes down to, given what the id of its quest leads to
/// now: the job, or why it cannot be done.
pub open spec fn job_for(
    prompt: PromptV,
    form: FormV,
    fetched: Option<Quest>,
    r: Result<Job, QError>,
) -> bool {
    match prompt {
        PromptV::NewQuest => r is Ok && r->Ok_0 is Create,
        PromptV::Rename(target) => match r {
            Ok(job) => {
                &&& job is Rename
                &&& still_it(target, fetched, Ok(job->Rename_quest))
                &&& job->slug@ == trimmed_of(form, F_SLUG@)
            },
            Err(e) => still_it(target, fetched, Err(e)),
        },
        PromptV::Close(target) => match r {
            Ok(job) => {
                &&& job is Close
                &&& still_so(target, fetched, Ok(job->Close_quest))
                &&& job->close_epic == toggle_on(form, F_CLOSE_EPIC@)
            },
            Err(e) => still_so(target, fetched, Err(e)),
        },
        PromptV::Resume(target) => match r {
            Ok(job) => {
                &&& job is Resume
                &&& still_so(target, fetched, Ok(job->Resume_quest))
                &&& opt_text(job->prompt) == unless_blank(trimmed_of(form, F_PROMPT@))
            },
            Err(e) => still_so(target, fetched, Err(e)),
        },
    }
}

/// What a submitted form comes down to. The quest is the one the box was opened
/// against, read again now by its id, and never whatever is selected: a tick can
/// have reordered the listing while the prompt was up.
pub fn submit(prompt: &Prompt, form: &Form, fetched: Option<Quest>) -> (r: Result<Job, QError>)
    requires
        form.wf(),
    ensures
        job_for(prompt@, form@, fetched, r),
{
    match prompt {
        Prompt::NewQuest => Ok(Job::Create),
        Prompt::Rename(target) => match quest_for(target, fetched) {
            Ok(quest) => Ok(Job::Rename { quest, slug: owned(form.trimmed(F_SLUG)) }),
            Err(e) => Err(e),
        },
        Prompt::Close(target) => match quest_for_state(target, fetched) {
            Ok(quest) => Ok(Job::Close { quest, close_epic: form.is_on(F_CLOSE_EPIC) }),
            Err(e) => Err(e),
        },
        Prompt::Resume(target) => match quest_for_state(target, fetched) {
            Ok(quest) => {
                let prompt = match form.optional(F_PROMPT) {
                    Some(p) => Some(owned(p)),
                    None => None,
                };
                Ok(Job::Resume { quest, prompt })
            },
            Err(e) => Err(e),
        },
    }
}

/// The workflow the form chose.
pub open spec fn workflow_of(f: FormV) -> Option<Seq<char>> {
    let choice = choice_of(f, F_WORKFLOW@);
    if choice.len() > 0 && choice != NO_WORKFLOW@ {
        Some(choice)
    } else {
        None
    }
}

/// The form's workflow, or `None` for "left blank", which is what lets a chosen
/// template's own workflow fill it in.
pub fn chosen_workflow(form: &Form) -> (r: Option<&str>)
    requires
        form.wf(),
    ensures
        match r {
            Some(w) => workflow_of(form@) == Some(w@),
            None => workflow_of(form@) is None,
        },
{
    let choice = form.choice(F_WORKFLOW);
    if choice.is_empty() || same(choice, NO_WORKFLOW) {
        None
    } else {
        Some(choice)
    }
}

/// Where the template of that name is.
pub open spec fn template_named(templates: Seq<Template>, name: Seq<char>) -> Option<Template>
    decreases templates.len(),
{
    if templates.len() == 0 {
        None
    } else if templates[0].name@ == name {
        Some(templates[0])
    } else {
        template_named(templates.drop_first(), name)
    }
}

/// The template the form chose; the "no template" option is the name of none.
pub fn chosen_template<'a>(app: &'a App, form: &Form) -> (r: Option<&'a Template>)
    requires
        form.wf(),
    ensures
        match r {
            Some(t) => template_named(
                app@.quests.templates,
                choice_of(form@, F_TEMPLATE@),
            ) == Some(*t),
            None => template_named(
                app@.quests.templates,
                choice_of(form@, F_TEMPLATE@),
            ) is None,
        },
{
    let name = form.choice(F_TEMPLATE);
    let ghost all = app.quests.templates@;
    let mut i: usize = 0;
    proof {
        assert(all.skip(0) =~= all);
    }
    while i < app.quests.templates.len()
        invariant
            i <= app.quests.templates.len(),
            all == app.quests.templates@,
            name@ == choice_of(form@, F_TEMPLATE@),
            template_named(all, name@) == template_named(all.skip(i as int), name@),
        decreases app.quests.templates.len() - i,
    {
        proof {
            assert(all.skip(i as int)[0] == all[i as int]);
            assert(all.skip(i as int).drop_first() =~= all.skip(i as int + 1));
        }
        if same(app.quests.templates[i].name.as_str(), name) {
            return Some(&app.quests.templates[i]);
        }
        i += 1;
    }
    None
}

/// What a template that needs arguments is answered with: the command first,
/// because the form's error line is one row wide and the actionable half has to
/// survive.
pub fn expand_error(name: &str, why: &str) -> (r: QError)
    ensures
        r is Invalid,
        error_text(r) == "run it from the CLI: q tpl run "@ + name@ + " --arg k=v \u{2014} "@ + why@,
{
    let mut text = concat3("run it from the CLI: q tpl run ", name, " --arg k=v \u{2014} ");
    text.append(why);
    QError::Invalid(text)
}

/// What a new quest is made of.
#[derive(Debug, Clone, PartialEq, Eq)]
pub struct NewQuest {
    pub template: Option<String>,
    pub name: Option<String>,
    pub goal: Option<String>,
    pub dir: Option<String>,
    pub workflow: Option<String>,
    pub repo: Option<String>,
    pub prompt: Option<String>,
    pub no_beads: bool,
    pub machine: String,
    /// Whether the quest is created on another machine, over ssh.
    pub remote: bool,
}

/// What was typed, or else what the template supplies.
pub open spec fn typed_or(
    typed: Option<Seq<char>>,
    supplied: Option<Seq<char>>,
) -> Option<Seq<char>> {
    match typed {
        Some(t) => Some(t),
        None => supplied,
    }
}

/// Some remote has that name.
pub open spec fn is_remote_name(remotes: Seq<Remote>, name: Seq<char>) -> bool {
    exists|i: int| 0 <= i < remotes.len() && (#[trigger] remotes[i]).name@ == name
}

/// What the template supplies, field by field.
pub open spec fn supplied_by(template: Option<Template>, pick: spec_fn(Template) -> Option<String>) -> Option<
    Seq<char>,
> {
    match template {
        Some(t) => opt_text(pick(t)),
        None => None,
    }
}

/// What the new-quest form and a template come to: the template supplies what
/// the form was left blank for, and never overrides something typed.
pub open spec fn is_new_quest(
    n: NewQuest,
    form: FormV,
    template: Option<Template>,
    remotes: Seq<Remote>,
) -> bool {
    &&& opt_text(n.template) == supplied_by(template, |t: Template| Some(t.name))
    &&& opt_text(n.name) == unless_blank(trimmed_of(form, F_NAME@))
    &&& opt_text(n.goal) == typed_or(
        unless_blank(trimmed_of(form, F_GOAL@)),
        supplied_by(template, |t: Template| t.goal),
    )
    &&& opt_text(n.dir) == typed_or(
        unless_blank(trimmed_of(form, F_DIR@)),
        supplied_by(template, |t: Template| t.dir),
    )
    &&& opt_text(n.workflow) == typed_or(
        workflow_of(form),
        supplied_by(template, |t: Template| t.workflow),
    )
    &&& opt_text(n.repo) == supplied_by(template, |t: Template| t.repo)
    &&& opt_text(n.prompt) == supplied_by(template, |t: Template| t.prompt)
    &&& n.no_beads == !toggle_on(form, F_BEADS@)
    &&& n.machine@ == choice_of(form, F_MACHINE@)
    &&& n.remote == is_remote_name(remotes, choice_of(form, F_MACHINE@))
}

/// What was typed, or else what was supplied.
fn given(typed: Option<&str>, supplied: &Option<String>) -> (r: Option<String>)
    ensures
        opt_text(r) == typed_or(
            match typed {
                Some(t) => Some(t@),
                None => None,
            },
            opt_text(*supplied),
        ),
{
    match typed {
        Some(t) => Some(owned(t)),
        None => clone_opt(supplied),
    }
}

/// What the new-quest form and the template it chose come to. `template` is the
/// chosen one with its own placeholders filled in: a goal typed into the form is
/// taken literally. The machine select is not a label: a remote there means the
/// quest is created on that machine.
pub fn create(form: &Form, template: Option<&Template>, remotes: &Vec<Remote>) -> (r: NewQuest)
    requires
        form.wf(),
    ensures
        is_new_quest(
            r,
            form@,
            match template {
                Some(t) => Some(*t),
                None => None,
            },
            remotes@,
        ),
{
    let none: Option<String> = None;
    let machine = form.choice(F_MACHINE);
    let mut remote: bool = false;
    let mut i: usize = 0;
    while i < remotes.len()
        invariant
            i <= remotes.len(),
            remote <==> exists|j: int|
                0 <= j < i && (#[trigger] remotes@[j]).name@ == machine@,
        decreases remotes.len() - i,
    {
        if same(remotes[i].name.as_str(), machine) {
            remote = true;
        }
        i += 1;
    }
    let name = given(form.optional(F_NAME), &none);
    let goal = form.optional(F_GOAL);
    let dir = form.optional(F_DIR);
    let workflow = chosen_workflow(form);
    let no_beads = !form.is_on(F_BEADS);
    match template {
        Some(t) => NewQuest {
            template: Some(t.name.clone()),
            name,
            goal: given(goal, &t.goal),
            dir: given(dir, &t.dir),
            workflow: given(workflow, &t.workflow),
            repo: clone_opt(&t.repo),
            prompt: clone_opt(&t.prompt),
            no_beads,
            machine: owned(machine),
            remote,
        },
        None => NewQuest {
            template: None,
            name,
            goal: given(goal, &none),
            dir: given(dir, &none),
            workflow: given(workflow, &none),
            repo: None,
            prompt: None,
            no_beads,
            machine: owned(machine),
            remote,
        },
    }
}

/// The selection on a quest of this machine, with a message.
pub open spec fn landed_on(a: AppV, quest: Quest, message: Seq<char>) -> AppV {
    saying(with_quests(a, focused_on(a.quests, local_anchor(quest))), message)
}

fn land_on(app: &mut App, quest: &Quest, message: &str)
    requires
        old(app).wf(),
    ensures
        final(app).wf(),
        final(app)@ == landed_on(old(app)@, *quest, message@),
{
    app.quests.focus_on(Anchor::local(quest));
    app.say(message);
}

/// A quest was created here: the selection goes to it.
pub fn created_here(app: &mut App, quest: &Quest)
    requires
        old(app).wf(),
    ensures
        final(app).wf(),
        final(app)@ == landed_on(
            old(app)@,
            *quest,
            "created "@ + quest.slug@ + " \u{b7} o enters it"@,
        ),
{
    let message = concat3("created ", quest.slug.as_str(), " \u{b7} o enters it");
    land_on(app, quest, message.as_str());
}

/// What is said of a quest that was created on another machine.
pub open spec fn created_text(slug: Seq<char>, machine: Seq<char>, template: Option<Seq<char>>) -> Seq<
    char,
> {
    "created "@ + slug + " on "@ + machine + " \u{b7} it appears at the next remote tick"@
        + match template {
        Some(t) => " \u{b7} not linked to template "@ + t + " (it is this machine's)"@,
        None => Seq::empty(),
    }
}

/// A quest was created on another machine: its row arrives with the next remote
/// round, so the selection stays. A template of this machine is no link there.
pub fn created_there(app: &mut App, slug: &str, machine: &str, template: Option<&str>)
    requires
        old(app).wf(),
    ensures
        final(app).wf(),
        final(app)@ == saying(
            old(app)@,
            created_text(
                slug@,
                machine@,
                match template {
                    Some(t) => Some(t@),
                    None => None,
                },
            ),
        ),
{
    let mut message = concat3("created ", slug, " on ");
    message.append(machine);
    message.append(" \u{b7} it appears at the next remote tick");
    let ghost a = message@;
    match template {
        Some(t) => {
            let note = concat3(
                " \u{b7} not linked to template ",
                t,
                " (it is this machine's)",
            );
            message.append(note.as_str());
        },
        None => {
            proof {
                assert(a + Seq::<char>::empty() =~= a);
            }
        },
    }
    app.say(message.as_str());
}

/// A quest was renamed: the selection stays on it, under its new slug.
pub fn rename_quest(app: &mut App, quest: &Quest, described: &str)
    requires
        old(app).wf(),
    ensures
        final(app).wf(),
        final(app)@ == landed_on(old(app)@, *quest, described@),
{
    land_on(app, quest, described);
}

/// A quest was closed. The selection is deliberately not moved: where the quest
/// drops out of the listing, it lands on the row that took its place.
pub fn close_quest(app: &mut App, described: &str)
    requires
        old(app).wf(),
    ensures
        final(app).wf(),
        final(app)@ == saying(old(app)@, described@),
{
    app.say(described);
}

/// A quest was resumed: the selection goes to it.
pub fn resume_quest(app: &mut App, quest: &Quest, described: &str)
    requires
        old(app).wf(),
    ensures
        final(app).wf(),
        final(app)@ == landed_on(old(app)@, *quest, described@ + " \u{b7} o enters it"@),
{
    let message = concat(described, " \u{b7} o enters it");
    land_on(app, quest, message.as_str());
}

} // verus!
