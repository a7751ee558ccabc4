//! What the dashboard's operations come to, stated of the operations themselves.
use vstd::prelude::*;
use vstd::string::*;
use crate::app::{Action, App, AppV, Prompt, PromptV};
use crate::event_laws::{asks_for, is_readable};
use crate::events;
use crate::form::Form;
use crate::model::{error_text, DisplayState, QError, Quest, QuestRow, Remote, Template};
use crate::quest_laws::{goal_said, if_any, is_as_shown, lemma_said, mentions, was_typed};
use crate::quests;
use crate::quests::{
    close_quest, create, created_here, created_there, expand_error, merge, rename_quest,
    resume_quest, selected_quest, selected_remote, selection, submit, wants_links,
    workflows_or_builtins, Job, NewQuest, F_GOAL, F_PROMPT, F_SLUG,
};
use crate::shell::{
    absorb, entered_far, land_step, peek_text, proxy_args, report_refresh, report_sync, LandStep,
    Landing, Loop, RemoteResult,
};
use crate::shell_laws::rows_by_machine;
use crate::text::{has_text, opt_text, texts};

verus! {

// ---------------------------------------------------------------- the listing

/// A finished round leaves the rows of every machine in the state, also of one that
/// complained, and none but those.
pub proof fn absorbing_a_round_keeps_every_row(app: &mut App, results: Vec<RemoteResult>, i: int)
    requires
        call_ensures(absorb, (app, results), ()),
    ensures
        final(app)@.quests.remote == rows_by_machine(results@).flatten(),
        0 <= i < results.len() && results[i].note is Some ==> final(app)@.remote_note is Some
            && has_text(final(app)@.remote_note->0, results[i].note->0@),
        final(app)@.quests.rows == old(app)@.quests.rows,
{
    crate::shell_laws::a_round_keeps_the_rows_of_every_machine(old(app)@, results@);
    if 0 <= i < results.len() {
        crate::shell_laws::a_round_says_every_complaint(old(app)@, results@, i);
    }
}

/// A merged listing holds every quest of this machine and every quest of the last
/// round, each as often as it was there, and nothing else; the more urgent come
/// first.
pub proof fn a_merge_loses_nothing(
    local: Vec<QuestRow>,
    remote: Vec<QuestRow>,
    r: Vec<QuestRow>,
    i: int,
    j: int,
)
    requires
        call_ensures(merge, (local, remote), r),
    ensures
        r.len() == local.len() + remote.len(),
        r@.to_multiset() == local@.to_multiset().add(remote@.to_multiset()),
        0 <= i < j < r.len() && r[j].view.needs_you ==> r[i].view.needs_you,
{
    let all = local@ + remote@;
    crate::quests::ranking_orders_the_listing(all);
    vstd::seq_lib::lemma_multiset_commutative(local@, remote@);
    all.to_multiset_ensures();
    r@.to_multiset_ensures();
    if 0 <= i < j < r.len() {
        crate::quest_laws::a_ranked_listing_goes_by_urgency(all, i, j);
    }
}

/// Rows that are equally urgent and were touched at the same time stay in the order
/// they came in.
pub proof fn equals_stay_in_order(rows: Seq<QuestRow>, row: QuestRow)
    ensures
        ({
            let alike = |x: QuestRow|
                !crate::quests::belongs_above(x, row) && !crate::quests::belongs_above(row, x);
            crate::quests::ranked(rows).filter(alike) == rows.filter(alike)
        }),
    decreases rows.len(),
{
    let alike = |x: QuestRow|
        !crate::quests::belongs_above(x, row) && !crate::quests::belongs_above(row, x);
    if rows.len() > 0 {
        let front = rows.drop_last();
        let last = rows.last();
        let before = crate::quests::ranked(front);
        let at = crate::quests::rank_place(before, last);
        equals_stay_in_order(front, row);
        lemma_behind(before, last);
        let x = before.take(at);
        let y = before.skip(at);
        assert(before =~= x + y);
        assert(before.insert(at, last) =~= x + seq![last] + y);
        assert(rows =~= front + seq![last]);
        Seq::filter_distributes_over_add(x, y, alike);
        Seq::filter_distributes_over_add(x + seq![last], y, alike);
        Seq::filter_distributes_over_add(x, seq![last], alike);
        Seq::filter_distributes_over_add(front, seq![last], alike);
        if alike(last) {
            assert forall|i: int| 0 <= i < y.len() implies !alike(#[trigger] y[i]) by {
                assert(y[i] == before[at + i]);
            }
            lemma_none(y, alike);
            assert(x.filter(alike) + y.filter(alike) =~= x.filter(alike));
            assert(x.filter(alike) + seq![last].filter(alike) + y.filter(alike) =~= x.filter(alike)
                + seq![last].filter(alike));
        } else {
            lemma_none(seq![last], alike);
            assert(x.filter(alike) + seq![last].filter(alike) + y.filter(alike) =~= x.filter(alike)
                + y.filter(alike));
            assert(front.filter(alike) + seq![last].filter(alike) =~= front.filter(alike));
        }
    }
}

proof fn lemma_behind(list: Seq<QuestRow>, row: QuestRow)
    ensures
        0 <= crate::quests::rank_place(list, row) <= list.len(),
        forall|i: int|
            crate::quests::rank_place(list, row) <= i < list.len() ==> crate::quests::belongs_above(
                row,
                #[trigger] list[i],
            ),
    decreases list.len(),
{
    if list.len() > 0 && crate::quests::belongs_above(row, list.last()) {
        let front = list.drop_last();
        lemma_behind(front, row);
        assert forall|i: int|
            crate::quests::rank_place(list, row) <= i < list.len() implies crate::quests::belongs_above(
            row,
            #[trigger] list[i],
        ) by {
            if i < front.len() {
                assert(front[i] == list[i]);
            }
        }
    }
}

proof fn lemma_none(s: Seq<QuestRow>, p: spec_fn(QuestRow) -> bool)
    requires
        forall|i: int| 0 <= i < s.len() ==> !p(#[trigger] s[i]),
    ensures
        s.filter(p).len() == 0,
    decreases s.len(),
{
    reveal(Seq::filter);
    if s.len() > 0 {
        assert(!p(s[s.len() - 1]));
        assert forall|i: int| 0 <= i < s.drop_last().len() implies !p(
            #[trigger] s.drop_last()[i],
        ) by {
            assert(s.drop_last()[i] == s[i]);
        }
        lemma_none(s.drop_last(), p);
    }
}

/// A row survives the filters exactly where it is not a hidden finished quest, is of
/// the machine that was picked, if one was, and holds the query, if there is one,
/// anywhere in its slug, its goal, its id or its machine.
pub proof fn a_row_survives_the_filters(s: &quests::State, row: &QuestRow, r: bool)
    requires
        call_ensures(quests::State::passes, (s, row), r),
    ensures
        r <==> {
            let quest = row.view.quest;
            let q = s@;
            &&& row.view.display_state == DisplayState::Finished ==> q.show_finished
            &&& q.machine is Some ==> quest.machine@ == q.machine->0
            &&& q.query.len() > 0 ==> mentions(quest.slug@, q.query) || mentions(
                goal_said(quest),
                q.query,
            ) || mentions(quest.id@, q.query) || mentions(quest.machine@, q.query)
        },
{
    let quest = row.view.quest;
    crate::quest_laws::lemma_mentions(quest.slug@, s@.query);
    crate::quest_laws::lemma_mentions(goal_said(quest), s@.query);
    crate::quest_laws::lemma_mentions(quest.id@, s@.query);
    crate::quest_laws::lemma_mentions(quest.machine@, s@.query);
}

/// The links of a row are looked up here only where the quest is this machine's.
pub proof fn links_are_looked_up_at_home(row: &QuestRow, r: bool)
    requires
        call_ensures(wants_links, (row,), r),
    ensures
        r <==> row.origin is Local,
{
}

/// The workflows that are offered are those that were read, and the built-in ones
/// only where none could be read.
pub proof fn workflows_are_those_that_were_read(
    read: Option<Vec<String>>,
    builtin: Vec<String>,
    r: Vec<String>,
)
    requires
        call_ensures(workflows_or_builtins, (read, builtin), r),
    ensures
        read is Some ==> r@ == read->0@,
        read is None ==> r@ == builtin@,
{
}

/// What an attach or a brief runs against is the selected quest, and the machine it
/// goes to is the one of a selected row of another machine.
pub proof fn an_action_is_about_the_selection(app: &App, r: Option<Quest>, m: Option<String>)
    requires
        call_ensures(selected_quest, (app,), r),
        call_ensures(selected_remote, (app,), m),
    ensures
        r is Some <==> selection(app@.quests) is Some,
        r is Some ==> r->0 == selection(app@.quests)->0.view.quest,
        m is Some <==> selection(app@.quests) is Some && selection(app@.quests)->0.origin is Remote,
        m is Some ==> m->0@ == selection(app@.quests)->0.view.quest.machine@,
{
}

// ------------------------------------------------------------------- the forms

/// A new quest has the goal that was typed, whatever the template says, and the
/// template's where none was typed.
pub proof fn creating_takes_the_typed_goal(
    form: &Form,
    template: Option<&Template>,
    remotes: &Vec<Remote>,
    r: NewQuest,
    i: int,
    a: Seq<char>,
    m: Seq<char>,
    b: Seq<char>,
)
    requires
        call_ensures(create, (form, template, remotes), r),
        was_typed(form@, F_GOAL@, i, a, m, b),
    ensures
        m.len() > 0 ==> r.goal is Some && r.goal->0@ == m,
        m.len() == 0 && template is None ==> r.goal is None,
        m.len() == 0 && template is Some ==> opt_text(r.goal) == opt_text(template->0.goal),
{
    let t = match template {
        Some(t) => Some(*t),
        None => None,
    };
    crate::quest_laws::a_typed_goal_wins(r, form@, t, remotes@, i, a, m, b);
}

/// A resume hands on exactly the prompt that was typed, and a rename exactly the
/// slug.
pub proof fn submitting_hands_on_what_was_typed(
    prompt: &Prompt,
    form: &Form,
    quest: Quest,
    r: Result<Job, QError>,
    i: int,
    a: Seq<char>,
    m: Seq<char>,
    b: Seq<char>,
)
    requires
        call_ensures(submit, (prompt, form, Some(quest)), r),
        prompt@ is Resume || prompt@ is Rename,
        is_as_shown(
            match prompt@ {
                PromptV::Resume(t) => t,
                _ => prompt@->Rename_0,
            },
            quest,
        ),
        was_typed(
            form@,
            if prompt@ is Resume {
                F_PROMPT@
            } else {
                F_SLUG@
            },
            i,
            a,
            m,
            b,
        ),
    ensures
        prompt@ is Resume ==> r is Ok && r->Ok_0 is Resume && r->Ok_0->Resume_quest == quest
            && opt_text(r->Ok_0->prompt) == if_any(m),
        prompt@ is Rename ==> r is Ok && r->Ok_0 is Rename && r->Ok_0->Rename_quest == quest
            && r->Ok_0->slug@ == m,
{
    match prompt@ {
        PromptV::Resume(t) => {
            crate::quest_laws::a_resume_hands_on_what_was_typed(t, form@, quest, r, i, a, m, b);
        },
        PromptV::Rename(t) => {
            crate::quest_laws::a_rename_hands_on_what_was_typed(t, form@, quest, r, i, a, m, b);
        },
        _ => {},
    }
}

/// A template that needs arguments is answered with the command that takes them and
/// with what is missing.
pub proof fn a_template_that_needs_arguments_says_so(name: &str, why: &str, r: QError)
    requires
        call_ensures(expand_error, (name, why), r),
    ensures
        has_text(error_text(r), "q tpl run "@ + name@),
        has_text(error_text(r), why@),
{
    reveal_strlit("run it from the CLI: q tpl run ");
    reveal_strlit("q tpl run ");
    let t = error_text(r);
    let front = "run it from the CLI: q tpl run "@.take(21);
    assert("run it from the CLI: q tpl run "@ =~= front + "q tpl run "@);
    let mid = " --arg k=v \u{2014} "@;
    assert(t =~= front + ("q tpl run "@ + name@) + (mid + why@));
    lemma_said(t, front, "q tpl run "@ + name@, mid + why@);
    assert(t =~= ("run it from the CLI: q tpl run "@ + name@ + mid) + why@ + Seq::empty());
    lemma_said(t, "run it from the CLI: q tpl run "@ + name@ + mid, why@, Seq::empty());
}

/// A quest that was created or resumed here is selected by its machine and its id
/// and is said by name; a renamed one stays selected; a closed one moves nothing.
pub proof fn the_selection_goes_to_what_was_made(
    created: &mut App,
    renamed: &mut App,
    resumed: &mut App,
    closed: &mut App,
    quest: &Quest,
    described: &str,
)
    requires
        call_ensures(created_here, (created, quest), ()),
        call_ensures(rename_quest, (renamed, quest, described), ()),
        call_ensures(resume_quest, (resumed, quest, described), ()),
        call_ensures(close_quest, (closed, described), ()),
    ensures
        is_selected_by_id(final(created)@, *quest),
        has_text(final(created)@.status, quest.slug@),
        final(created)@.quests.rows == old(created)@.quests.rows,
        is_selected_by_id(final(renamed)@, *quest),
        final(renamed)@.status == described@,
        is_selected_by_id(final(resumed)@, *quest),
        has_text(final(resumed)@.status, described@),
        final(closed)@.quests == old(closed)@.quests,
        final(closed)@.status == described@,
{
    let d = " \u{b7} o enters it"@;
    lemma_said(final(created)@.status, "created "@, quest.slug@, d);
    lemma_said(final(resumed)@.status, Seq::empty(), described@, d);
}

/// The selection is remembered as that quest of this machine.
pub open spec fn is_selected_by_id(a: AppV, quest: Quest) -> bool {
    &&& a.quests.selected_id is Some
    &&& a.quests.selected_id->0.id == quest.id@
    &&& a.quests.selected_id->0.machine == quest.machine@
    &&& !a.quests.selected_id->0.remote
}

/// A quest that was created on another machine is said by its slug and its machine,
/// with the template that it is not linked to; the selection stays.
pub proof fn what_was_made_elsewhere_is_said(
    app: &mut App,
    slug: &str,
    machine: &str,
    template: Option<&str>,
)
    requires
        call_ensures(created_there, (app, slug, machine, template), ()),
    ensures
        has_text(final(app)@.status, slug@),
        has_text(final(app)@.status, machine@),
        template is Some ==> has_text(final(app)@.status, template->0@),
        final(app)@.quests == old(app)@.quests,
{
    let s = final(app)@.status;
    let x = " \u{b7} it appears at the next remote tick"@;
    let y = match template {
        Some(t) => " \u{b7} not linked to template "@ + t@ + " (it is this machine's)"@,
        None => Seq::empty(),
    };
    assert(s == "created "@ + slug@ + " on "@ + machine@ + x + y);
    assert(s =~= "created "@ + slug@ + (" on "@ + machine@ + x + y));
    lemma_said(s, "created "@, slug@, " on "@ + machine@ + x + y);
    assert(s =~= ("created "@ + slug@ + " on "@) + machine@ + (x + y));
    lemma_said(s, "created "@ + slug@ + " on "@, machine@, x + y);
    if template is Some {
        assert(s =~= ("created "@ + slug@ + " on "@ + machine@ + x) + y + Seq::empty());
        lemma_said(s, "created "@ + slug@ + " on "@ + machine@ + x, y, Seq::empty());
        crate::line_laws::lemma_inner(
            s,
            " \u{b7} not linked to template "@,
            template->0@,
            " (it is this machine's)"@,
        );
    }
}

// ------------------------------------------------------------------ the reports

/// A failed reload is kept until one succeeds; a look at the selection that
/// succeeded clears nothing, and one that failed is kept as well.
pub proof fn a_failed_reload_is_kept_until_one_succeeds(
    reloaded: &mut App,
    looked: &mut App,
    result: Result<(), QError>,
)
    requires
        call_ensures(report_refresh, (reloaded, result), ()),
        call_ensures(report_sync, (looked, result), ()),
    ensures
        result is Ok ==> final(reloaded)@.refresh_error is None,
        result is Ok ==> final(looked)@ == old(looked)@,
        result is Err ==> final(reloaded)@.refresh_error is Some && has_text(
            final(reloaded)@.refresh_error->0,
            error_text(result->Err_0),
        ),
        result is Err ==> final(looked)@.refresh_error is Some && has_text(
            final(looked)@.refresh_error->0,
            error_text(result->Err_0),
        ),
        final(reloaded)@.quests == old(reloaded)@.quests,
        final(reloaded)@.status == old(reloaded)@.status,
{
    if result is Err {
        crate::shell_laws::a_failure_says_why(Seq::empty(), result->Err_0);
    }
}

/// Back from another machine it is said from where; a failure says what could not be
/// entered, where, and why.
pub proof fn coming_back_from_elsewhere_says_from_where(
    name: &str,
    machine: &str,
    session: &str,
    attached: &Result<(), QError>,
    r: String,
)
    requires
        call_ensures(entered_far, (name, machine, session, attached), r),
    ensures
        has_text(r@, machine@),
        attached is Ok ==> has_text(r@, session@),
        attached is Err ==> has_text(r@, name@) && has_text(r@, error_text(attached->Err_0)),
{
    if attached is Ok {
        lemma_three("back from "@, machine@, ":"@, session@);
    } else {
        let what = "enter "@ + name@ + " on "@ + machine@;
        crate::shell_laws::a_failure_says_why(what, attached->Err_0);
        lemma_three("enter "@, name@, " on "@, machine@);
        crate::tmux_laws::lemma_occurs_through(r@, what, name@);
        crate::tmux_laws::lemma_occurs_through(r@, what, machine@);
    }
}

proof fn lemma_three(a: Seq<char>, x: Seq<char>, b: Seq<char>, y: Seq<char>)
    ensures
        has_text(a + x + b + y, x),
        has_text(a + x + b + y, y),
{
    let t = a + x + b + y;
    assert(t =~= a + x + (b + y));
    lemma_said(t, a, x, b + y);
    lemma_said(t, a + x + b, y, Seq::empty());
}

/// A peek shows whose pane it is, which, and all that stands in it.
pub proof fn a_peek_shows_the_pane(name: &str, pane: &str, text: &str, r: String)
    requires
        call_ensures(peek_text, (name, pane, text), r),
    ensures
        has_text(r@, name@),
        has_text(r@, pane@),
        has_text(r@, text@),
{
    let x = " \u{b7} pane "@;
    let y = "\n\n"@;
    let z = "\n"@;
    assert(r@ =~= "# "@ + name@ + (x + pane@ + y + text@ + z));
    lemma_said(r@, "# "@, name@, x + pane@ + y + text@ + z);
    assert(r@ =~= ("# "@ + name@ + x) + pane@ + (y + text@ + z));
    lemma_said(r@, "# "@ + name@ + x, pane@, y + text@ + z);
    assert(r@ =~= ("# "@ + name@ + x + pane@ + y) + text@ + z);
    lemma_said(r@, "# "@ + name@ + x + pane@ + y, text@, z);
}

/// A command on another machine is about that quest on that machine.
pub proof fn a_command_elsewhere_names_its_quest(
    sub: &str,
    slug: &str,
    machine: &str,
    r: Vec<String>,
)
    requires
        call_ensures(proxy_args, (sub, slug, machine), r),
    ensures
        r.len() == 4,
        r[0]@ == sub@,
        r[1]@ == slug@,
        r[3]@ == machine@,
{
    let t = texts(r@);
    assert(t.len() == 4);
    assert(t[0] == r[0]@ && t[1] == r[1]@ && t[3] == r[3]@);
}

/// A terminal that comes back is lent, and one that does not is given away with every
/// warning said first.
pub proof fn no_warning_is_lost_on_landing(landing: &Landing, come_back: bool, r: LandStep)
    requires
        call_ensures(land_step, (landing, come_back), r),
    ensures
        come_back ==> r is Lend,
        !come_back ==> r is Give && texts(r->Give_0@) == texts(landing.warnings@),
{
}

// -------------------------------------------------------------------- the loop

/// A loop starts with everything to draw and nothing due. What was drawn is clean,
/// and a reload that is done is not due any more; neither forgets the other.
pub proof fn a_loop_keeps_what_is_due(
    start: Loop,
    tick: u64,
    now: u64,
    drawn: &mut Loop,
    refreshed: &mut Loop,
)
    requires
        call_ensures(Loop::new, (tick, now), start),
        call_ensures(Loop::drawn, (drawn,), ()),
        call_ensures(Loop::refreshed, (refreshed,), ()),
    ensures
        start.dirty && !start.refresh_due && !start.stopped && start.last_tick == now && start.tick
            == tick,
        !final(drawn).dirty,
        final(drawn).refresh_due == old(drawn).refresh_due,
        final(drawn).last_tick == old(drawn).last_tick,
        !final(refreshed).refresh_due,
        final(refreshed).dirty == old(refreshed).dirty,
        final(refreshed).last_tick == old(refreshed).last_tick,
{
}

/// A loop waits until the next tick is due and no longer.
pub proof fn a_loop_waits_for_its_tick(l: &Loop, now: u64, r: u64)
    requires
        call_ensures(Loop::timeout, (l, now), r),
    ensures
        now >= l.last_tick + l.tick ==> r == 0,
        l.last_tick <= now < l.last_tick + l.tick ==> now + r == l.last_tick + l.tick,
        r <= l.tick,
{
}

/// A reload that is due stays due, and so does what has to be drawn.
pub proof fn what_is_due_stays_due(l: &mut Loop, action: Action, changed: bool)
    requires
        call_ensures(Loop::heard, (l, action, changed), ()),
    ensures
        old(l).refresh_due ==> final(l).refresh_due,
        old(l).dirty ==> final(l).dirty,
        changed ==> final(l).dirty,
        action == Action::Refresh ==> final(l).refresh_due,
        action == Action::Nothing ==> final(l).refresh_due == old(l).refresh_due && final(l).dirty
            == (old(l).dirty || changed),
        final(l).last_tick == old(l).last_tick && final(l).tick == old(l).tick,
{
}

// -------------------------------------------------------------- what is read

/// A reload of the tail reads the events of the quest that is filtered for, and of
/// every kind the box spells, one pattern for each of its words; a box that cannot be
/// read asks for every kind. A quest that was handed over is the one that is filtered
/// for from now on.
pub proof fn a_reload_reads_what_is_filtered(app: &mut App, r: events::Wanted, i: int)
    requires
        call_ensures(events::refresh_begin, (app,), r),
    ensures
        opt_text(r.quest) == final(app)@.events.quest,
        old(app)@.focus_quest is Some ==> opt_text(r.quest) == old(app)@.focus_quest,
        old(app)@.focus_quest is None ==> opt_text(r.quest) == old(app)@.events.quest,
        final(app)@.focus_quest is None,
        r.limit == events::TAIL,
        final(app)@.events.query == old(app)@.events.query,
        ({
            let ws = events::words(old(app)@.events.query);
            let readable = forall|k: int| 0 <= k < ws.len() ==> is_readable(#[trigger] ws[k]);
            &&& !readable ==> r.kinds.len() == 0
            &&& readable ==> r.kinds.len() == ws.len()
            &&& readable && 0 <= i < ws.len() ==> forall|kind: Seq<char>| #[trigger]
                events::kind_matches(r.kinds[i]@, kind) <==> asks_for(ws[i], kind)
        }),
{
    let q = old(app)@.events.query;
    let ws = events::words(q);
    crate::event_laws::the_words_of_a_box_are_its_patterns(ws, i);
    let ks = events::kinds_view(r.kinds@);
    assert(ks.len() == r.kinds.len());
    if 0 <= i < ks.len() {
        assert(ks[i] == r.kinds[i]@);
    }
}

/// A pager is run with the words of what is configured, and with `less -R` where that
/// is blank.
pub proof fn a_pager_is_run_with_its_words(configured: &str, r: Vec<String>)
    requires
        call_ensures(crate::pager::command, (configured,), r),
    ensures
        r.len() > 0,
        crate::text_laws::all_space(configured@) ==> texts(r@) == seq!["less"@, "-R"@],
        !crate::text_laws::all_space(configured@) ==> texts(r@) == crate::pager::words(configured@),
{
    lemma_words_of_space(configured@);
}

proof fn lemma_words_of_space(s: Seq<char>)
    ensures
        crate::pager::words(s).len() == 0 <==> crate::text_laws::all_space(s),
    decreases s.len(),
{
    if s.len() > 0 {
        if crate::text::is_space(s[0]) {
            assert(crate::pager::word_end(s) == 0);
            lemma_words_of_space(s.drop_first());
            let rest = s.drop_first();
            if crate::text_laws::all_space(rest) {
                assert forall|i: int| 0 <= i < s.len() implies crate::text::is_space(
                    #[trigger] s[i],
                ) by {
                    if i > 0 {
                        assert(s[i] == rest[i - 1]);
                    }
                }
            }
            if crate::text_laws::all_space(s) {
                assert forall|i: int| 0 <= i < rest.len() implies crate::text::is_space(
                    #[trigger] rest[i],
                ) by {
                    assert(rest[i] == s[i + 1]);
                }
            }
        } else {
            lemma_word_end_within(s);
        }
    }
}

proof fn lemma_word_end_within(s: Seq<char>)
    ensures
        0 <= crate::pager::word_end(s) <= s.len(),
        s.len() > 0 && !crate::text::is_space(s[0]) ==> crate::pager::word_end(s) >= 1,
    decreases s.len(),
{
    if s.len() > 0 && !crate::text::is_space(s[0]) {
        lemma_word_end_within(s.drop_first());
    }
}

/// A word of a pager's command ends at white space, however much of it follows.
pub proof fn a_pagers_words_stand_between_white_space(
    w: Seq<char>,
    gap: Seq<char>,
    rest: Seq<char>,
)
    requires
        w.len() > 0,
        forall|i: int| 0 <= i < w.len() ==> !crate::text::is_space(#[trigger] w[i]),
        crate::text_laws::all_space(gap),
        gap.len() > 0 || rest.len() == 0,
    ensures
        crate::pager::words(w + gap + rest) == seq![w] + crate::pager::words(rest),
{
    let s = w + gap + rest;
    let n = w.len() as int;
    lemma_word_end_at(s, n);
    assert(s.take(n) =~= w);
    assert(s.skip(n) =~= gap + rest);
    lemma_gap(gap, rest);
}

proof fn lemma_word_end_at(s: Seq<char>, n: int)
    requires
        0 <= n <= s.len(),
        n < s.len() ==> crate::text::is_space(s[n]),
        forall|i: int| 0 <= i < n ==> !crate::text::is_space(#[trigger] s[i]),
    ensures
        crate::pager::word_end(s) == n,
    decreases s.len(),
{
    if n > 0 {
        assert(!crate::text::is_space(s[0]));
        assert forall|i: int| 0 <= i < n - 1 implies !crate::text::is_space(
            #[trigger] s.drop_first()[i],
        ) by {
            assert(s.drop_first()[i] == s[i + 1]);
        }
        lemma_word_end_at(s.drop_first(), n - 1);
    }
}

proof fn lemma_gap(gap: Seq<char>, rest: Seq<char>)
    requires
        crate::text_laws::all_space(gap),
    ensures
        crate::pager::words(gap + rest) == crate::pager::words(rest),
    decreases gap.len(),
{
    let s = gap + rest;
    if gap.len() > 0 {
        assert(crate::text::is_space(gap[0]));
        assert(s[0] == gap[0]);
        assert(s.drop_first() =~= gap.drop_first() + rest);
        let g = gap.drop_first();
        assert forall|i: int| 0 <= i < g.len() implies crate::text::is_space(#[trigger] g[i]) by {
            assert(g[i] == gap[i + 1]);
        }
        lemma_gap(g, rest);
    } else {
        assert(s =~= rest);
    }
}

// ------------------------------------------------------------------ the prompts

/// A prompt knows the quest it was opened against, and only a new quest has none.
pub proof fn a_prompt_knows_its_quest(p: &Prompt, id: Option<&str>)
    requires
        call_ensures(Prompt::quest, (p,), id),
    ensures
        p@ is NewQuest <==> id is None,
        p@ is Rename ==> id->0@ == p@->Rename_0.quest,
        p@ is Close ==> id->0@ == p@->Close_0.quest,
        p@ is Resume ==> id->0@ == p@->Resume_0.quest,
{
}

/// A form that is run is taken down first, as it was.
pub proof fn a_form_is_run_once(app: &mut App, r: Option<crate::app::Modal>)
    requires
        call_ensures(crate::shell::take_modal, (app,), r),
    ensures
        r == old(app).modal,
        final(app)@.modal is None,
        final(app)@.quests == old(app)@.quests && final(app)@.status == old(app)@.status,
{
}

} // verus!
