//! What the Quests tab promises, in terms of what is in the rows, in the fields
//! and in the answers.
use vstd::prelude::*;
use vstd::string::*;
use crate::app::{AppV, PromptV, TargetV};
use crate::form::{find_field, label_of, FieldV, FormV};
use crate::laws::the_screen_shows_exactly_what_passes;
use crate::model::{
    error_text, DisplayState, Event, Link, QError, Quest, QuestRow, QuestState, Remote, Template,
};
use crate::quests::{
    anchor_of, belongs_above, is_new_quest, job_for, local_anchor, on_screen, ranked,
    ranking_orders_the_listing, reloaded, resynced, selection, selection_events, selection_links,
    still_so, sync_needed, template_named, Job, NewQuest, QuestsV, SyncV, F_BEADS, F_CLOSE_EPIC,
    F_DIR, F_GOAL, F_MACHINE, F_NAME, F_PROMPT, F_SLUG, F_WORKFLOW,
};
use crate::text::{is_space, lowercase, opt_text};
use crate::text_laws::{
    a_text_occurs_wherever_it_stands, all_space, trimming_takes_the_white_space_around,
    what_occurs_stands_somewhere,
};

verus! {

// ----------------------------------------------------------------- the listing

/// The text holds the query somewhere, whatever the case of either.
pub open spec fn mentions(text: Seq<char>, query: Seq<char>) -> bool {
    exists|a: Seq<char>, b: Seq<char>| lowercase(text) == #[trigger] (a + lowercase(query) + b)
}

pub(crate) proof fn lemma_mentions(text: Seq<char>, query: Seq<char>)
    ensures
        crate::quests::finds(query, text) == mentions(text, query),
{
    if crate::quests::finds(query, text) {
        let (a, b) = what_occurs_stands_somewhere(lowercase(text), lowercase(query));
        assert(lowercase(text) == a + lowercase(query) + b);
    }
    if mentions(text, query) {
        let (a, b) = choose|a: Seq<char>, b: Seq<char>|
            lowercase(text) == #[trigger] (a + lowercase(query) + b);
        a_text_occurs_wherever_it_stands(a, lowercase(query), b);
    }
}

/// What the goal of a quest says; nothing where it has none.
pub open spec fn goal_said(quest: Quest) -> Seq<char> {
    match quest.goal {
        Some(g) => g@,
        None => Seq::empty(),
    }
}

/// A row is on screen exactly where it is not a finished quest that is hidden, is
/// of the machine that was picked, if one was, and holds the query, if there is
/// one, somewhere in its slug, its goal, its id or its machine.
pub proof fn a_quest_is_listed_exactly_where_the_filters_let_it(q: QuestsV, i: int)
    requires
        0 <= i < q.rows.len(),
    ensures
        ({
            let view = q.rows[i].view;
            on_screen(q).contains(i) <==> {
                &&& view.display_state == DisplayState::Finished ==> q.show_finished
                &&& q.machine is Some ==> view.quest.machine@ == q.machine->0
                &&& q.query.len() > 0 ==> {
                    ||| mentions(view.quest.slug@, q.query)
                    ||| mentions(goal_said(view.quest), q.query)
                    ||| mentions(view.quest.id@, q.query)
                    ||| mentions(view.quest.machine@, q.query)
                }
            }
        }),
{
    the_screen_shows_exactly_what_passes(q, i);
    let quest = q.rows[i].view.quest;
    lemma_mentions(quest.slug@, q.query);
    lemma_mentions(goal_said(quest), q.query);
    lemma_mentions(quest.id@, q.query);
    lemma_mentions(quest.machine@, q.query);
}

/// A search finds a text at any place of a slug, a goal, an id or a machine: with
/// nothing else filtered, a row that holds the query there is on screen.
pub proof fn a_search_finds_a_text_anywhere(q: QuestsV, i: int, a: Seq<char>, b: Seq<char>)
    requires
        0 <= i < q.rows.len(),
        q.show_finished || q.rows[i].view.display_state != DisplayState::Finished,
        q.machine is None,
        ({
            let quest = q.rows[i].view.quest;
            let held = a + lowercase(q.query) + b;
            ||| lowercase(quest.slug@) == held
            ||| lowercase(goal_said(quest)) == held
            ||| lowercase(quest.id@) == held
            ||| lowercase(quest.machine@) == held
        }),
    ensures
        on_screen(q).contains(i),
{
    a_quest_is_listed_exactly_where_the_filters_let_it(q, i);
}

/// Turning a filter off never hides a row.
pub proof fn a_filter_turned_off_hides_nothing(q: QuestsV, i: int)
    requires
        0 <= i < q.rows.len(),
        on_screen(q).contains(i),
    ensures
        on_screen((QuestsV { machine: None, ..q })).contains(i),
        on_screen((QuestsV { query: Seq::empty(), ..q })).contains(i),
        on_screen((QuestsV { show_finished: true, ..q })).contains(i),
{
    a_quest_is_listed_exactly_where_the_filters_let_it(q, i);
    a_quest_is_listed_exactly_where_the_filters_let_it(QuestsV { machine: None, ..q }, i);
    a_quest_is_listed_exactly_where_the_filters_let_it(QuestsV { query: Seq::empty(), ..q }, i);
    a_quest_is_listed_exactly_where_the_filters_let_it(QuestsV { show_finished: true, ..q }, i);
}

/// A ranked listing holds the same rows. The quests that need somebody come first,
/// then the active, then the idle and then the finished ones, and within each of
/// these the one that was touched last comes first.
pub proof fn a_ranked_listing_goes_by_urgency(rows: Seq<QuestRow>, i: int, j: int)
    requires
        0 <= i < j < rows.len(),
    ensures
        ranked(rows).to_multiset() == rows.to_multiset(),
        ranked(rows).len() == rows.len(),
        ({
            let x = ranked(rows)[i].view;
            let y = ranked(rows)[j].view;
            &&& y.needs_you ==> x.needs_you
            &&& !x.needs_you && !y.needs_you ==> {
                &&& y.display_state == DisplayState::Active ==> x.display_state
                    == DisplayState::Active
                &&& x.display_state == DisplayState::Finished ==> y.display_state
                    == DisplayState::Finished
            }
            &&& x.needs_you && y.needs_you ==> x.quest.updated_at >= y.quest.updated_at
            &&& !x.needs_you && !y.needs_you && x.display_state == y.display_state
                ==> x.quest.updated_at >= y.quest.updated_at
        }),
{
    ranking_orders_the_listing(rows);
    assert(!belongs_above(ranked(rows)[j], ranked(rows)[i]));
}

/// A reload puts in what was read and leaves the filters as they were.
pub proof fn a_reload_puts_in_what_was_read(
    a: AppV,
    rows: Seq<QuestRow>,
    links: Seq<Vec<Link>>,
    templates: Seq<Template>,
    workflows: Seq<Seq<char>>,
)
    ensures
        ({
            let b = reloaded(a, rows, links, templates, workflows);
            &&& b.quests.rows == rows
            &&& b.quests.links == links
            &&& b.quests.templates == templates
            &&& b.quests.workflows == workflows
            &&& b.quests.remote == a.quests.remote
            &&& b.quests.query == a.quests.query
            &&& b.quests.machine == a.quests.machine
            &&& b.quests.show_finished == a.quests.show_finished
            &&& b.quests.searching == a.quests.searching
            &&& b.tab == a.tab && b.status == a.status && b.detail == a.detail
            &&& b.events == a.events && b.focus_quest == a.focus_quest
        }),
{
}

/// Two rows are told apart by their id and by whether they are of this machine,
/// and remote ones by their machine too.
pub proof fn a_quest_is_known_by_its_machine_and_its_id(x: QuestRow, y: QuestRow)
    ensures
        anchor_of(x) == anchor_of(y) <==> {
            &&& x.view.quest.id@ == y.view.quest.id@
            &&& x.origin is Remote <==> y.origin is Remote
            &&& x.view.quest.machine@ == y.view.quest.machine@
        },
        x.origin is Local ==> anchor_of(x) == local_anchor(x.view.quest),
{
}

/// Where the selected quest is gone, the selection stays on its line, or goes to
/// the last one where the listing became shorter.
pub proof fn a_quest_that_is_gone_leaves_its_line_selected(q: QuestsV)
    requires
        on_screen(q).len() > 0,
        forall|j: int|
            0 <= j < on_screen(q).len() ==> Some(anchor_of(q.rows[#[trigger] on_screen(q)[j]]))
                != q.selected_id,
    ensures
        q.selected < on_screen(q).len() ==> resynced(q).selected == q.selected,
        q.selected >= on_screen(q).len() ==> resynced(q).selected + 1 == on_screen(q).len(),
{
    if let Some(anchor) = q.selected_id {
        crate::list::lemma_first_where(
            on_screen(q),
            |i: int| anchor_of(q.rows[i]) == anchor,
        );
    }
}

// ------------------------------------------------------------ the panel's data

/// The panel's links are those of the selected row, and its events are those that
/// were read for it.
pub proof fn the_panel_shows_the_selected_row(q: QuestsV)
    requires
        q.selected < on_screen(q).len(),
        on_screen(q)[q.selected as int] < q.links.len(),
    ensures
        selection(q) == Some(q.rows[on_screen(q)[q.selected as int]]),
        selection_links(q) == q.links[on_screen(q)[q.selected as int]]@,
        q.selected_id is Some && q.events_for == q.selected_id ==> selection_events(q) == q.events,
        q.events_for != q.selected_id ==> selection_events(q).len() == 0,
{
}

/// Events are read for the selected quest, ten at most, whenever they were read
/// for another; never for a quest of another machine, and never twice.
pub proof fn events_are_read_for_the_selected_quest(q: QuestsV)
    requires
        selection(q) is Some,
        q.selected_id == Some(anchor_of(selection(q)->0)),
    ensures
        q.events_for == q.selected_id <==> sync_needed(q) is Nothing,
        q.events_for != q.selected_id && selection(q)->0.origin is Local ==> sync_needed(q) == (
        SyncV::Fetch { quest: selection(q)->0.view.quest.id@, limit: 10 }),
        q.events_for != q.selected_id && selection(q)->0.origin is Remote ==> sync_needed(q)
            is Clear,
{
}

// ------------------------------------------------------------- reading a form

/// The first row of that label is row `i`.
pub open spec fn is_row(form: FormV, label: Seq<char>, i: int) -> bool {
    &&& 0 <= i < form.fields.len()
    &&& label_of(form.fields[i]) == label
    &&& forall|j: int| 0 <= j < i ==> label_of(#[trigger] form.fields[j]) != label
}

/// Row `i` is where that label is looked up, it is a text, and `m` was typed into
/// it with nothing but white space around.
pub open spec fn was_typed(
    form: FormV,
    label: Seq<char>,
    i: int,
    a: Seq<char>,
    m: Seq<char>,
    b: Seq<char>,
) -> bool {
    &&& is_row(form, label, i)
    &&& form.fields[i] is Text
    &&& form.fields[i]->before + form.fields[i]->after == a + m + b
    &&& all_space(a) && all_space(b)
    &&& m.len() > 0 ==> !is_space(m[0]) && !is_space(m.last())
}

/// Row `i` is where that label is looked up, and it is a select that shows that
/// option.
pub open spec fn was_chosen(form: FormV, label: Seq<char>, i: int, option: Seq<char>) -> bool {
    &&& is_row(form, label, i)
    &&& form.fields[i] is Select
    &&& form.fields[i]->at < form.fields[i]->options.len()
    &&& form.fields[i]->options[form.fields[i]->at as int] == option
}

/// Row `i` is where that label is looked up, and it is a switch in that position.
pub open spec fn was_switched(form: FormV, label: Seq<char>, i: int, on: bool) -> bool {
    is_row(form, label, i) && form.fields[i] == (FieldV::Toggle { label, on })
}

/// What was typed, unless it was nothing.
pub open spec fn if_any(m: Seq<char>) -> Option<Seq<char>> {
    if m.len() > 0 {
        Some(m)
    } else {
        None
    }
}

proof fn lemma_row(fields: Seq<FieldV>, label: Seq<char>, i: int)
    requires
        0 <= i < fields.len(),
        label_of(fields[i]) == label,
        forall|j: int| 0 <= j < i ==> label_of(#[trigger] fields[j]) != label,
    ensures
        find_field(fields, label) == Some(fields[i]),
    decreases fields.len(),
{
    if i > 0 {
        assert(label_of(fields[0]) != label);
        let rest = fields.drop_first();
        assert forall|j: int| 0 <= j < i - 1 implies label_of(#[trigger] rest[j]) != label by {
            assert(rest[j] == fields[j + 1]);
        }
        lemma_row(rest, label, i - 1);
    }
}

proof fn lemma_typed(
    form: FormV,
    label: Seq<char>,
    i: int,
    a: Seq<char>,
    m: Seq<char>,
    b: Seq<char>,
)
    requires
        was_typed(form, label, i, a, m, b),
    ensures
        crate::form::trimmed_of(form, label) == m,
{
    lemma_row(form.fields, label, i);
    trimming_takes_the_white_space_around(a, m, b);
}

proof fn lemma_chosen(form: FormV, label: Seq<char>, i: int, option: Seq<char>)
    requires
        was_chosen(form, label, i, option),
    ensures
        crate::form::choice_of(form, label) == option,
{
    lemma_row(form.fields, label, i);
}

// ----------------------------------------------------------------- the prompts

/// What was read under the id is the quest a box was opened against, and it is
/// still what the box said of it.
pub open spec fn is_as_shown(target: TargetV, quest: Quest) -> bool {
    &&& quest.created_at == target.created_at
    &&& quest.slug@ == target.slug
    &&& (quest.state == QuestState::Finished) == target.finished
    &&& opt_text(quest.beads_epic) == target.epic
}

/// A resume whose quest is as the box showed it goes ahead, for that quest, with
/// exactly what was typed into the prompt field as the new master's prompt, and
/// with none where nothing was typed.
pub proof fn a_resume_hands_on_what_was_typed(
    target: TargetV,
    form: FormV,
    quest: Quest,
    r: Result<Job, QError>,
    i: int,
    a: Seq<char>,
    m: Seq<char>,
    b: Seq<char>,
)
    requires
        job_for(PromptV::Resume(target), form, Some(quest), r),
        is_as_shown(target, quest),
        was_typed(form, F_PROMPT@, i, a, m, b),
    ensures
        r is Ok && r->Ok_0 is Resume,
        r->Ok_0->Resume_quest == quest,
        opt_text(r->Ok_0->prompt) == if_any(m),
{
    lemma_typed(form, F_PROMPT@, i, a, m, b);
}

/// A rename of a quest that is still the one the box was opened against goes
/// ahead, for that quest, to exactly the slug that was typed.
pub proof fn a_rename_hands_on_what_was_typed(
    target: TargetV,
    form: FormV,
    quest: Quest,
    r: Result<Job, QError>,
    i: int,
    a: Seq<char>,
    m: Seq<char>,
    b: Seq<char>,
)
    requires
        job_for(PromptV::Rename(target), form, Some(quest), r),
        quest.created_at == target.created_at,
        quest.slug@ == target.slug,
        was_typed(form, F_SLUG@, i, a, m, b),
    ensures
        r is Ok && r->Ok_0 is Rename,
        r->Ok_0->Rename_quest == quest,
        r->Ok_0->slug@ == m,
{
    lemma_typed(form, F_SLUG@, i, a, m, b);
}

/// A close whose quest is as the box showed it goes ahead, for that quest, and
/// closes the epic exactly where its switch was on. A box without the switch
/// closes none.
pub proof fn a_close_closes_the_epic_only_on_demand(
    target: TargetV,
    form: FormV,
    quest: Quest,
    r: Result<Job, QError>,
    i: int,
    on: bool,
)
    requires
        job_for(PromptV::Close(target), form, Some(quest), r),
        is_as_shown(target, quest),
        was_switched(form, F_CLOSE_EPIC@, i, on) || (!on && find_field(
            form.fields,
            F_CLOSE_EPIC@,
        ) is None),
    ensures
        r is Ok && r->Ok_0 is Close,
        r->Ok_0->Close_quest == quest,
        r->Ok_0->close_epic == on,
{
    if was_switched(form, F_CLOSE_EPIC@, i, on) {
        lemma_row(form.fields, F_CLOSE_EPIC@, i);
    }
}

/// A new quest is always made, whatever is read under whichever id.
pub proof fn a_new_quest_needs_no_other(form: FormV, fetched: Option<Quest>, r: Result<Job, QError>)
    requires
        job_for(PromptV::NewQuest, form, fetched, r),
    ensures
        r is Ok && r->Ok_0 is Create,
{
}

/// Whatever prompt it is, a quest that is gone, or whose id was handed to another,
/// is not found, and one that was renamed is refused. A close and a resume are
/// refused too where the quest was finished or resumed meanwhile, or has another
/// epic.
pub proof fn a_prompt_is_refused_where_the_quest_is_not_as_shown(
    prompt: PromptV,
    target: TargetV,
    form: FormV,
    fetched: Option<Quest>,
    r: Result<Job, QError>,
)
    requires
        prompt == PromptV::Rename(target) || prompt == PromptV::Close(target) || prompt
            == PromptV::Resume(target),
        job_for(prompt, form, fetched, r),
    ensures
        fetched is None ==> r is Err && r->Err_0 is NotFound,
        fetched is Some && fetched->0.created_at != target.created_at ==> r is Err && r->Err_0
            is NotFound,
        fetched is Some && fetched->0.created_at == target.created_at && fetched->0.slug@
            != target.slug ==> r is Err && r->Err_0 is Invalid,
        !(prompt is Rename) && fetched is Some && fetched->0.created_at == target.created_at
            && !is_as_shown(target, fetched->0) ==> r is Err && r->Err_0 is Invalid,
        r is Ok ==> fetched is Some,
{
}

/// A refusal says what became of the quest: its id and slug where it is gone, both
/// slugs where it was renamed, both epics where that changed.
pub proof fn a_refusal_says_what_changed(
    target: TargetV,
    fetched: Option<Quest>,
    r: Result<Quest, QError>,
)
    requires
        still_so(target, fetched, r),
        r is Err,
    ensures
        fetched is None ==> crate::text::has_text(error_text(r->Err_0), target.slug)
            && crate::text::has_text(error_text(r->Err_0), target.quest),
        fetched is Some && fetched->0.created_at == target.created_at ==> crate::text::has_text(
            error_text(r->Err_0),
            fetched->0.slug@,
        ),
        fetched is Some && fetched->0.created_at == target.created_at && fetched->0.slug@
            == target.slug && (fetched->0.state == QuestState::Finished) == target.finished ==> {
            &&& fetched->0.beads_epic is Some ==> crate::text::has_text(
                error_text(r->Err_0),
                fetched->0.beads_epic->0@,
            )
            &&& target.epic is Some ==> crate::text::has_text(
                error_text(r->Err_0),
                target.epic->0,
            )
        },
{
    let said = error_text(r->Err_0);
    if fetched is Some && fetched->0.created_at == target.created_at {
        let slug = fetched->0.slug@;
        if slug != target.slug {
            lemma_said(
                said,
                target.slug + " was renamed to "@,
                slug,
                " while this box was up; Esc and try again"@,
            );
        } else {
            let finished = fetched->0.state == QuestState::Finished;
            if finished != target.finished {
                let state = if finished {
                    "finished"@
                } else {
                    "running"@
                };
                lemma_said(
                    said,
                    Seq::empty(),
                    slug,
                    " is "@ + state + " now, which is not what this box says; Esc and try again"@,
                );
            } else {
                let now = crate::quests::epic_text(opt_text(fetched->0.beads_epic));
                let was = crate::quests::epic_text(target.epic);
                let tail = " as this box says; Esc and try again"@;
                lemma_said(
                    said,
                    Seq::empty(),
                    slug,
                    "'s beads epic is "@ + now + " now, not "@ + was + tail,
                );
                lemma_said(
                    said,
                    slug + "'s beads epic is "@,
                    now,
                    " now, not "@ + was + tail,
                );
                lemma_said(
                    said,
                    slug + "'s beads epic is "@ + now + " now, not "@,
                    was,
                    tail,
                );
            }
        }
    } else {
        lemma_said(said, "quest "@, target.slug, " ("@ + target.quest + ") is gone"@);
        lemma_said(said, "quest "@ + target.slug + " ("@, target.quest, ") is gone"@);
    }
}

pub(crate) proof fn lemma_said(s: Seq<char>, a: Seq<char>, m: Seq<char>, b: Seq<char>)
    requires
        s =~= a + m + b,
    ensures
        crate::text::has_text(s, m),
{
    a_text_occurs_wherever_it_stands(a, m, b);
}

// --------------------------------------------------------------- a new quest

/// What was typed as the goal is the goal, whatever the template says. Only where
/// nothing was typed is the template's taken, and without either there is none.
pub proof fn a_typed_goal_wins(
    n: NewQuest,
    form: FormV,
    template: Option<Template>,
    remotes: Seq<Remote>,
    i: int,
    a: Seq<char>,
    m: Seq<char>,
    b: Seq<char>,
)
    requires
        is_new_quest(n, form, template, remotes),
        was_typed(form, F_GOAL@, i, a, m, b),
    ensures
        m.len() > 0 ==> n.goal is Some && n.goal->0@ == m,
        m.len() == 0 && template is None ==> n.goal is None,
        m.len() == 0 && template is Some ==> opt_text(n.goal) == opt_text(template->0.goal),
{
    lemma_typed(form, F_GOAL@, i, a, m, b);
}

/// What was typed as the directory is the directory, whatever the template says.
/// Only where nothing was typed is the template's taken, and without either there
/// is none.
pub proof fn a_typed_directory_wins(
    n: NewQuest,
    form: FormV,
    template: Option<Template>,
    remotes: Seq<Remote>,
    i: int,
    a: Seq<char>,
    m: Seq<char>,
    b: Seq<char>,
)
    requires
        is_new_quest(n, form, template, remotes),
        was_typed(form, F_DIR@, i, a, m, b),
    ensures
        m.len() > 0 ==> n.dir is Some && n.dir->0@ == m,
        m.len() == 0 && template is None ==> n.dir is None,
        m.len() == 0 && template is Some ==> opt_text(n.dir) == opt_text(template->0.dir),
{
    lemma_typed(form, F_DIR@, i, a, m, b);
}

/// What was typed as the name is the name. No template has one to give.
pub proof fn a_name_is_what_was_typed(
    n: NewQuest,
    form: FormV,
    template: Option<Template>,
    remotes: Seq<Remote>,
    i: int,
    a: Seq<char>,
    m: Seq<char>,
    b: Seq<char>,
)
    requires
        is_new_quest(n, form, template, remotes),
        was_typed(form, F_NAME@, i, a, m, b),
    ensures
        m.len() > 0 ==> n.name is Some && n.name->0@ == m,
        m.len() == 0 ==> n.name is None,
{
    lemma_typed(form, F_NAME@, i, a, m, b);
}

/// The workflow that was chosen is the workflow, whatever the template says. Only
/// where the row reads `(none)` is the template's taken, and without either there
/// is none.
pub proof fn a_chosen_workflow_wins(
    n: NewQuest,
    form: FormV,
    template: Option<Template>,
    remotes: Seq<Remote>,
    i: int,
    option: Seq<char>,
)
    requires
        is_new_quest(n, form, template, remotes),
        was_chosen(form, F_WORKFLOW@, i, option),
        option.len() > 0,
    ensures
        option != "(none)"@ ==> n.workflow is Some && n.workflow->0@ == option,
        option == "(none)"@ && template is None ==> n.workflow is None,
        option == "(none)"@ && template is Some ==> opt_text(n.workflow) == opt_text(
            template->0.workflow,
        ),
{
    lemma_chosen(form, F_WORKFLOW@, i, option);
}

/// A new quest is made on the machine that was chosen, which is another one
/// exactly where a remote has that name. The epic is made unless its switch was
/// off.
pub proof fn a_new_quest_is_made_where_and_how_it_was_chosen(
    n: NewQuest,
    form: FormV,
    template: Option<Template>,
    remotes: Seq<Remote>,
    i: int,
    option: Seq<char>,
    j: int,
    on: bool,
)
    requires
        is_new_quest(n, form, template, remotes),
        was_chosen(form, F_MACHINE@, i, option),
        was_switched(form, F_BEADS@, j, on),
    ensures
        n.machine@ == option,
        n.remote <==> exists|k: int|
            0 <= k < remotes.len() && (#[trigger] remotes[k]).name@ == option,
        n.no_beads == !on,
{
    lemma_chosen(form, F_MACHINE@, i, option);
    lemma_row(form.fields, F_BEADS@, j);
}

/// A template gives its name, its repository and its prompt to the quest it makes;
/// without a template there are none.
pub proof fn a_template_gives_what_no_field_asks_for(
    n: NewQuest,
    form: FormV,
    template: Option<Template>,
    remotes: Seq<Remote>,
)
    requires
        is_new_quest(n, form, template, remotes),
    ensures
        template is Some ==> {
            &&& n.template is Some && n.template->0@ == template->0.name@
            &&& opt_text(n.repo) == opt_text(template->0.repo)
            &&& opt_text(n.prompt) == opt_text(template->0.prompt)
        },
        template is None ==> n.template is None && n.repo is None && n.prompt is None,
{
}

/// The template that was chosen is one of that name; there is none only where no
/// template has that name.
pub proof fn a_template_is_found_by_its_name(templates: Seq<Template>, name: Seq<char>, i: int)
    requires
        0 <= i < templates.len(),
    ensures
        templates[i].name@ == name ==> template_named(templates, name) is Some,
        template_named(templates, name) is Some ==> template_named(templates, name)->0.name@ == name
            && templates.contains(template_named(templates, name)->0),
    decreases templates.len(),
{
    if templates[0].name@ == name {
        assert(templates.contains(templates[0]));
    } else {
        let rest = templates.drop_first();
        if i > 0 {
            assert(templates[i] == rest[i - 1]);
            a_template_is_found_by_its_name(rest, name, i - 1);
        } else if rest.len() > 0 {
            a_template_is_found_by_its_name(rest, name, 0);
        }
        if template_named(rest, name) is Some {
            let t = template_named(rest, name)->0;
            let k = choose|k: int| 0 <= k < rest.len() && rest[k] == t;
            assert(templates[k + 1] == t);
        }
    }
}

/// What was read for the selected quest is kept from its first event on, as many as
/// the panel shows, and is known to be that quest's.
pub proof fn the_first_events_are_kept(q: QuestsV, events: Seq<Event>, i: int)
    requires
        q.selected_id is Some,
    ensures
        ({
            let s = crate::quests::synced(q, events);
            &&& s.events.len() == if events.len() <= 10 {
                events.len() as int
            } else {
                10
            }
            &&& 0 <= i < s.events.len() ==> s.events[i] == events[i]
            &&& crate::quests::selection_events(s) == s.events
            &&& s.rows == q.rows && s.selected == q.selected && s.selected_id == q.selected_id
        }),
{
}

/// Putting the selection back on its quest scrolls only as far up as the selection
/// is, and never further.
pub proof fn a_resync_scrolls_no_further_than_it_must(q: QuestsV)
    requires
        on_screen(q).len() > 0,
    ensures
        ({
            let r = crate::quests::resynced(q);
            &&& q.offset <= r.selected && q.offset < on_screen(q).len() ==> r.offset == q.offset
            &&& r.offset <= r.selected && r.offset <= q.offset
            &&& r.rows == q.rows && r.query == q.query && r.machine == q.machine
        }),
{
}

/// A group takes a line for its heading exactly where one of its quests is on screen.
pub proof fn a_group_is_headed_where_it_is_on_screen(q: QuestsV, rank: u8, k: int)
    ensures
        0 <= crate::quests::heading_lines(q, rank) <= 1,
        0 <= k < on_screen(q).len() && crate::quests::rank_of(q.rows[on_screen(q)[k]].view) == rank
            ==> crate::quests::heading_lines(q, rank) == 1,
        (forall|j: int|
            0 <= j < on_screen(q).len() ==> crate::quests::rank_of(
                q.rows[#[trigger] on_screen(q)[j]].view,
            ) != rank) ==> crate::quests::heading_lines(q, rank) == 0,
{
}

/// A reload forgets the events that were read, so that those of the selected quest
/// are read again.
pub proof fn a_reload_reads_the_events_again(
    a: AppV,
    rows: Seq<QuestRow>,
    links: Seq<Vec<Link>>,
    templates: Seq<Template>,
    workflows: Seq<Seq<char>>,
)
    ensures
        ({
            let q = reloaded(a, rows, links, templates, workflows).quests;
            &&& q.events.len() == 0 && q.events_for is None
            &&& q.selected_id is Some && selection(q) is Some && selection(q)->0.origin is Local
                ==> sync_needed(q) is Fetch
        }),
{
}

} // verus!
