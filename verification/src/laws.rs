//! What holds of the dashboard as a whole, whatever it is told.
use vstd::prelude::*;
use vstd::string::*;
use crate::app::{
    app_key, app_mouse, app_paste, arrived, is_capturing, modal_key, on_tab, opened, quitting,
    saying, shell_key, started, status_shown, status_ticks, tab_key, Action, AppV, Tab, TargetV,
};
use crate::events;
use crate::events::{
    event_selected, events_moved_by, events_moved_to, events_on_screen, events_resynced,
    events_settled, is_stale, kinds_of, tail_filter, tail_takes, with_events, EventsV,
};
use crate::form::{
    action_row, empty_form, find_field, is_confirmed, is_guarded, label_of, with_field,
    without_controls,
    Commit, FieldV, FormV, ACTION, CANCEL,
};
use crate::keys::{digit_of, normalized, Input, MouseInput};
use crate::list::{
    a_settled_list_shows_its_selection, clamped, lemma_first_where, lemma_passing, settled, smaller,
};
use crate::model::{Config, EventRow, Link, Quest, QuestRow, QuestState, Template};
use crate::quests;
use crate::quests::{
    anchor_of, close_form, filter_of, has_machine, is_local_only, least_machine, moved_by, moved_to,
    new_form, next_machine, on_remote, on_screen, passes_filter, refusal, rename_form, resume_form,
    resynced, select_field, selection, selection_events, settled_in, still_it, still_so, text_field,
    with_quests, QuestsV,
};
use crate::shell::{applied, Event};
use crate::text::{comes_before, opt_text, order_is_transitive, texts_are_ordered};

verus! {

// ------------------------------------------------------------------- the shell

/// Ctrl-C quits, from everywhere: out of the help overlay, out of a form and out
/// of a box that is being typed in.
pub proof fn control_c_always_quits(a: AppV)
    ensures
        app_key(a, Input::Ctrl('c')) == quitting(a),
{
}

/// While the help overlay is up nothing behind it moves: a key closes it, quits
/// or does nothing.
pub proof fn the_overlay_swallows_every_key(a: AppV, input: Input)
    requires
        a.help,
    ensures
        ({
            let (action, b) = app_key(a, input);
            ||| action == Action::Nothing && b == a
            ||| action == Action::Nothing && b == (AppV { help: false, ..a })
            ||| action == Action::Quit && b == (AppV { should_quit: true, ..a })
        }),
{
}

/// With a form up every key but Ctrl-C is the form's: none of them quits,
/// switches tabs, opens the help or reloads, and only Esc takes the form down.
pub proof fn a_form_takes_every_key(a: AppV, input: Input)
    requires
        a.modal is Some,
        !a.help,
        input != Input::Ctrl('c'),
    ensures
        ({
            let (action, b) = app_key(a, input);
            &&& action == Action::Nothing || action == Action::Submit
            &&& action == Action::Submit ==> input == Input::Enter && is_confirmed(a.modal->0.form)
            &&& b.tab == a.tab && b.help == a.help && b.should_quit == a.should_quit
            &&& b.refreshes == a.refreshes && b.detail == a.detail
            &&& b.quests == a.quests && b.events == a.events
            &&& b.modal is Some <==> input != Input::Esc
            &&& b.modal is Some ==> b.modal->0.prompt == a.modal->0.prompt
        }),
{
}

/// While a box is being typed in, a character is text: none of them quits,
/// switches tabs, opens the help or reloads the dashboard's count.
pub proof fn a_box_takes_every_character(a: AppV, c: char)
    requires
        is_capturing(a),
        a.modal is None,
        !a.help,
    ensures
        ({
            let b = app_key(a, Input::Char(c)).1;
            &&& b.tab == a.tab && b.help == a.help && b.should_quit == a.should_quit
            &&& b.refreshes == a.refreshes && b.detail == a.detail && b.modal is None
            &&& a.tab == Tab::Quests ==> b.quests.query == a.quests.query.push(c)
                && b.quests.searching
            &&& a.tab == Tab::Events ==> b.events.query == a.events.query.push(c)
                && b.events.filtering
        }),
{
}

/// Only the tab in front can be reading text.
pub open spec fn captures_in_front(a: AppV) -> bool {
    &&& a.quests.searching ==> a.tab == Tab::Quests
    &&& a.events.filtering ==> a.tab == Tab::Events
}

/// Nothing is ever captured behind an inactive tab: it holds at the start, and
/// no key, paste or mouse gesture changes it.
pub proof fn captures_stay_in_front(
    a: AppV,
    config: Config,
    machine: Seq<char>,
    input: Input,
    ev: MouseInput,
    text: Seq<char>,
)
    requires
        captures_in_front(a),
    ensures
        captures_in_front(started(config, machine)),
        captures_in_front(app_key(a, input).1),
        captures_in_front(app_mouse(a, ev).1),
        captures_in_front(app_paste(a, text).1),
{
    lemma_captures_key(a, input);
    lemma_captures_key(a, Input::Up);
    lemma_captures_key(a, Input::Down);
    if let MouseInput::Click { col, .. } = ev {
        lemma_captures_arrived(
            a,
            choose|tab: Tab| #[trigger] crate::app::tab_covers(tab, col as int),
        );
    }
}

proof fn lemma_captures_arrived(a: AppV, tab: Tab)
    requires
        captures_in_front(a),
    ensures
        captures_in_front(arrived(a, tab).1),
        a.tab != tab ==> !is_capturing(arrived(a, tab).1),
{
}

proof fn lemma_captures_quests(a: AppV, input: Input)
    requires
        captures_in_front(a),
        a.tab == Tab::Quests,
    ensures
        captures_in_front(quests::key(a, input).1),
{
    let b = AppV { focus_quest: Some(selection(a.quests)->0.view.quest.id@), ..a };
    lemma_captures_arrived(b, Tab::Sessions);
    lemma_captures_arrived(b, Tab::Events);
    let (action, c) = quests::key(a, input);
    if a.quests.searching {
        assert(c.tab == a.tab && c.events == a.events);
    } else if input == Input::Char('s') || input == Input::Char('e') {
        assert(captures_in_front(c));
    } else {
        assert(c.tab == a.tab && c.events == a.events);
    }
}

proof fn lemma_captures_events(a: AppV, input: Input)
    requires
        captures_in_front(a),
        a.tab == Tab::Events,
    ensures
        captures_in_front(events::key(a, input).1),
{
    let c = events::key(a, input).1;
    assert(c.tab == a.tab && c.quests == a.quests);
}

proof fn lemma_captures_key(a: AppV, input: Input)
    requires
        captures_in_front(a),
    ensures
        captures_in_front(app_key(a, input).1),
{
    if a.tab == Tab::Quests {
        lemma_captures_quests(a, input);
    }
    if a.tab == Tab::Events {
        lemma_captures_events(a, input);
    }
    lemma_captures_tab(a, input);
    if a.modal is Some {
        let b = modal_key(a, input).1;
        assert(b.tab == a.tab && b.quests == a.quests && b.events == a.events);
    } else if !is_capturing(a) && !a.help {
        lemma_captures_shell(a, input);
    }
}

proof fn lemma_captures_tab(a: AppV, input: Input)
    requires
        captures_in_front(a),
        a.tab == Tab::Quests ==> captures_in_front(quests::key(a, input).1),
        a.tab == Tab::Events ==> captures_in_front(events::key(a, input).1),
    ensures
        captures_in_front(tab_key(a, input).1),
{
}

proof fn lemma_captures_shell(a: AppV, input: Input)
    requires
        captures_in_front(a),
    ensures
        shell_key(a, input) is Some ==> captures_in_front((shell_key(a, input)->0).1),
{
    lemma_captures_arrived(a, crate::app::tab_after(a.tab));
    lemma_captures_arrived(a, crate::app::tab_before(a.tab));
    if let Some(d) = digit_of(input) {
        if let Some(tab) = crate::app::tab_of_digit(d) {
            lemma_captures_arrived(a, tab);
        }
    }
}

/// Leaving a tab gives the keyboard back, and whatever was half-typed is
/// dropped.
pub proof fn leaving_a_tab_gives_the_keyboard_back(a: AppV, tab: Tab)
    requires
        captures_in_front(a),
        a.tab != tab,
    ensures
        !is_capturing(on_tab(a, tab)),
        on_tab(a, tab).modal is None,
        a.quests.searching ==> on_tab(a, tab).quests.query.len() == 0,
        a.events.filtering ==> on_tab(a, tab).events.query.len() == 0,
{
}

/// A wheel nudge never reaches an open form.
pub proof fn the_wheel_never_moves_a_form(a: AppV)
    requires
        a.modal is Some,
        !a.help,
    ensures
        app_mouse(a, MouseInput::ScrollUp) == (Action::Nothing, a),
        app_mouse(a, MouseInput::ScrollDown) == (Action::Nothing, a),
{
}

/// A message gives the bar back after its time, and text being typed never does.
pub proof fn a_message_is_transient(a: AppV, message: Seq<char>, later: u64)
    requires
        message.len() > 0,
        later >= a.ticks,
    ensures
        ({
            let b = AppV { ticks: later, ..saying(a, message) };
            status_shown(b) == if is_capturing(a) || later - a.ticks < status_ticks(a) {
                Some(message)
            } else {
                None
            }
        }),
{
}

// ------------------------------------------------------- the quests' selection

/// The selection is on a row that is on screen and remembered by its quest, or
/// there is nothing on screen and nothing is remembered.
pub open spec fn quests_anchored(q: QuestsV) -> bool {
    if on_screen(q).len() == 0 {
        q.selected_id is None
    } else {
        selection(q) is Some && q.selected_id == Some(anchor_of(selection(q)->0))
    }
}

/// However the listing was changed, resyncing anchors the selection again.
pub proof fn resyncing_anchors_the_quests(q: QuestsV)
    ensures
        quests_anchored(resynced(q)),
        on_screen(resynced(q)) == on_screen(q),
{
    lemma_resynced(q);
}

proof fn lemma_resynced(q: QuestsV)
    ensures
        quests_anchored(resynced(q)),
        filter_of(resynced(q)) == filter_of(q),
        resynced(q).selected < on_screen(q).len() || on_screen(q).len() == 0,
{
    let vis = on_screen(q);
    if let Some(anchor) = q.selected_id {
        lemma_first_where(vis, |i: int| anchor_of(q.rows[i]) == anchor);
    }
}

/// A selection that was anchored stays anchored through a move.
proof fn lemma_moved(q: QuestsV, delta: int, at: int, viewport: int)
    requires
        quests_anchored(q),
        at >= 0,
    ensures
        quests_anchored(moved_by(q, delta, viewport)),
        quests_anchored(moved_to(q, at, viewport)),
        quests_anchored(settled_in(q, viewport)),
{
    let vis = on_screen(q);
    if vis.len() > 0 {
        let p = QuestsV { selected: clamped(q.selected + delta, 0, vis.len() - 1) as nat, ..q };
        assert(filter_of(p) == filter_of(q));
        assert(filter_of(settled_in(p, viewport)) == filter_of(q));
        let m = QuestsV { selected: smaller(at, vis.len() - 1) as nat, ..q };
        assert(filter_of(m) == filter_of(q));
        assert(filter_of(settled_in(m, viewport)) == filter_of(q));
    }
    assert(filter_of(settled_in(q, viewport)) == filter_of(q));
}

/// A reload that reorders the listing keeps the selection on the quest it was
/// on, wherever that quest is now, as long as it is still on screen. Two quests
/// that share an id are told apart by their machine.
pub proof fn a_reload_keeps_the_selection_on_its_quest(q: QuestsV, rows: Seq<QuestRow>, i: int)
    requires
        quests_anchored(q),
        q.selected_id is Some,
        ({
            let r = QuestsV { rows, ..q };
            0 <= i < on_screen(r).len() && anchor_of(rows[on_screen(r)[i]]) == q.selected_id->0
        }),
    ensures
        ({
            let r = resynced(QuestsV { rows, ..q });
            selection(r) is Some && anchor_of(selection(r)->0) == q.selected_id->0
                && r.selected_id == q.selected_id
        }),
{
    let r = QuestsV { rows, ..q };
    let anchor = q.selected_id->0;
    let p = |j: int| anchor_of(r.rows[j]) == anchor;
    lemma_first_where(on_screen(r), p);
    assert(p(on_screen(r)[i]));
    assert(filter_of(resynced(r)) == filter_of(r));
}

/// No key leaves the selection pointing at a row it does not name: whatever key
/// arrives, an anchored selection is anchored afterwards.
pub proof fn every_key_keeps_the_quests_anchored(a: AppV, input: Input)
    requires
        quests_anchored(a.quests),
    ensures
        quests_anchored(app_key(a, input).1.quests),
{
    lemma_tab_keeps_quests(a, input);
    lemma_on_tab_keeps_quests(a, crate::app::tab_after(a.tab));
    lemma_on_tab_keeps_quests(a, crate::app::tab_before(a.tab));
    if let Some(d) = digit_of(input) {
        if let Some(tab) = crate::app::tab_of_digit(d) {
            lemma_on_tab_keeps_quests(a, tab);
        }
    }
}

proof fn lemma_on_tab_keeps_quests(a: AppV, tab: Tab)
    requires
        quests_anchored(a.quests),
    ensures
        quests_anchored(on_tab(a, tab).quests),
{
    lemma_resynced(QuestsV { searching: false, query: Seq::empty(), ..a.quests });
}

#[verifier::rlimit(40)]
proof fn lemma_tab_keeps_quests(a: AppV, input: Input)
    requires
        quests_anchored(a.quests),
    ensures
        quests_anchored(tab_key(a, input).1.quests),
{
    let q = a.quests;
    if a.tab == Tab::Quests {
        let p = quests::page(a);
        if q.searching {
            lemma_box_keeps_quests(a, input);
        } else {
            lemma_moved(q, -1, 0, p);
            lemma_moved(q, 1, usize::MAX as int, p);
            lemma_moved(q, -p, 0, p);
            lemma_moved(q, p, 0, p);
            lemma_on_tab_keeps_quests(
                AppV { focus_quest: Some(selection(q)->0.view.quest.id@), ..a },
                Tab::Sessions,
            );
            lemma_on_tab_keeps_quests(
                AppV { focus_quest: Some(selection(q)->0.view.quest.id@), ..a },
                Tab::Events,
            );
            lemma_resynced(QuestsV { query: Seq::empty(), ..q });
            lemma_resynced(QuestsV { show_finished: !q.show_finished, ..q });
            lemma_resynced(QuestsV { machine: next_machine(q), ..q });
            let s = QuestsV { searching: true, ..q };
            assert(filter_of(s) == filter_of(q));
        }
    }
}

proof fn lemma_box_keeps_quests(a: AppV, input: Input)
    requires
        quests_anchored(a.quests),
    ensures
        quests_anchored(quests::box_key(a, input).1.quests),
{
    let q = a.quests;
    lemma_resynced(QuestsV { searching: false, query: Seq::empty(), ..q });
    let s = QuestsV { searching: false, ..q };
    assert(filter_of(s) == filter_of(q));
    if q.query.len() > 0 {
        lemma_resynced(QuestsV { query: q.query.drop_last(), ..q });
    }
    lemma_resynced(QuestsV { query: q.query, ..q });
    if let Input::Char(c) = input {
        lemma_resynced(QuestsV { query: q.query.push(c), ..q });
    }
}

/// A reload leaves the selection anchored and in view, shows no events but those
/// that are read again, and does not touch an open prompt.
pub proof fn a_reload_settles_the_quests(
    a: AppV,
    rows: Seq<QuestRow>,
    links: Seq<Vec<Link>>,
    templates: Seq<Template>,
    workflows: Seq<Seq<char>>,
)
    ensures
        ({
            let b = quests::reloaded(a, rows, links, templates, workflows);
            &&& quests_anchored(b.quests)
            &&& selection_events(b.quests).len() == 0
            &&& b.modal == a.modal
            &&& b.quests.query == a.quests.query && b.quests.machine == a.quests.machine
            &&& b.quests.show_finished == a.quests.show_finished
            &&& on_screen(b.quests).len() > 0 ==> b.quests.offset <= b.quests.selected
                < b.quests.offset + quests::page(with_quests(a, b.quests))
        }),
{
    let q = QuestsV { rows, links, templates, workflows, ..a.quests };
    lemma_resynced(q);
    let r = resynced(q);
    let b = with_quests(a, r);
    let p = quests::page(b);
    lemma_moved(r, 0, 0, p);
    let s = settled_in(r, p);
    let c = QuestsV { events: Seq::empty(), events_for: None, ..s };
    assert(filter_of(c) == filter_of(s));
    assert(filter_of(s) == filter_of(r));
    lemma_page(b, with_quests(a, c));
    if on_screen(r).len() > 0 {
        a_settled_list_shows_its_selection(
            r.selected as int,
            r.offset as int,
            p,
            on_screen(r).len() as int,
        );
    }
}

/// How many rows fit depends on what is on screen and on the terminal alone.
proof fn lemma_page(a: AppV, b: AppV)
    requires
        filter_of(a.quests) == filter_of(b.quests),
        a.height == b.height,
        a.width == b.width,
        a.rows == b.rows,
    ensures
        quests::page(a) == quests::page(b),
{
    assert(on_screen(a.quests) == on_screen(b.quests));
    assert(a.quests.rows == b.quests.rows);
    assert forall|rank: u8| #[trigger] quests::group_shown(a.quests, rank) == quests::group_shown(
        b.quests,
        rank,
    ) by {}
}

/// Laying out a frame keeps the selection where it is and brings it into view.
pub proof fn drawing_keeps_the_selection_in_view(a: AppV)
    requires
        quests_anchored(a.quests),
        on_screen(a.quests).len() > 0,
    ensures
        ({
            let b = quests::view_settled(a);
            &&& quests_anchored(b.quests)
            &&& b.quests.selected == a.quests.selected
            &&& b.quests.selected_id == a.quests.selected_id
            &&& b.quests.offset <= b.quests.selected < b.quests.offset + quests::page(a)
        }),
{
    let q = a.quests;
    lemma_moved(q, 0, 0, quests::page(a));
    assert(filter_of(settled_in(q, quests::page(a))) == filter_of(q));
    a_settled_list_shows_its_selection(
        q.selected as int,
        q.offset as int,
        quests::page(a),
        on_screen(q).len() as int,
    );
}

/// The panel shows the selected quest's events or none: never another quest's.
pub proof fn events_belong_to_the_selection(q: QuestsV)
    ensures
        selection_events(q).len() > 0 ==> q.events_for is Some && q.events_for == q.selected_id,
{
}

/// What is on screen passes the filters, comes in the order of the listing, and
/// nothing that passes is missing.
pub proof fn the_screen_shows_exactly_what_passes(q: QuestsV, i: int)
    requires
        0 <= i < q.rows.len(),
    ensures
        on_screen(q).contains(i) <==> passes_filter(filter_of(q), q.rows[i]),
        forall|j: int, k: int|
            0 <= j < k < on_screen(q).len() ==> #[trigger] on_screen(q)[j] < #[trigger] on_screen(
                q,
            )[k],
{
    let f = filter_of(q);
    let p = |j: int| passes_filter(f, f.rows[j]);
    lemma_passing(f.rows.len() as int, p);
    if p(i) {
        crate::list::lemma_passing_complete(f.rows.len() as int, p, i);
    }
    if on_screen(q).contains(i) {
        let j = choose|j: int| 0 <= j < on_screen(q).len() && on_screen(q)[j] == i;
        assert(p(on_screen(q)[j]));
    }
}

// ------------------------------------------------------------ other machines

/// A key that reads or writes this machine's database never acts on a row of
/// another machine: it only says why.
pub proof fn local_keys_never_touch_a_remote_row(a: AppV, c: char)
    requires
        a.tab == Tab::Quests,
        !a.help,
        !is_capturing(a),
        is_local_only(c),
        on_remote(a.quests),
    ensures
        app_key(a, Input::Char(c)) == (
            Action::Nothing,
            saying(a, refusal(selection(a.quests)->0, c)),
        ),
{
}

/// The least machine behind `low` is one of the listing's, lies behind `low`,
/// and no other of the listing lies between the two.
proof fn lemma_least_machine(rows: Seq<QuestRow>, low: Option<Seq<char>>)
    ensures
        match least_machine(rows, low) {
            Some(m) => {
                &&& has_machine(rows, m)
                &&& low is Some ==> comes_before(low->0, m)
                &&& forall|i: int|
                    0 <= i < rows.len() && (low is Some ==> comes_before(
                        low->0,
                        (#[trigger] rows[i]).view.quest.machine@,
                    )) ==> !comes_before(rows[i].view.quest.machine@, m)
            },
            None => forall|i: int|
                0 <= i < rows.len() ==> low is Some && !comes_before(
                    low->0,
                    (#[trigger] rows[i]).view.quest.machine@,
                ),
        },
    decreases rows.len(),
{
    if rows.len() > 0 {
        let front = rows.drop_last();
        lemma_least_machine(front, low);
        let here = rows.last().view.quest.machine@;
        let found = least_machine(front, low);
        assert(rows[rows.len() - 1].view.quest.machine@ == here);
        if let Some(f) = found {
            let i = choose|i: int|
                0 <= i < front.len() && (#[trigger] front[i]).view.quest.machine@ == f;
            assert(rows[i].view.quest.machine@ == f);
            texts_are_ordered(here, f);
        }
        texts_are_ordered(here, here);
        assert forall|i: int| 0 <= i < front.len() implies #[trigger] rows[i] == front[i] by {}
        if let Some(m) = least_machine(rows, low) {
            assert forall|i: int|
                0 <= i < rows.len() && (low is Some ==> comes_before(
                    low->0,
                    (#[trigger] rows[i]).view.quest.machine@,
                )) implies !comes_before(rows[i].view.quest.machine@, m) by {
                if i < front.len() {
                    assert(rows[i] == front[i]);
                    if found is Some {
                        assert(!comes_before(front[i].view.quest.machine@, found->0));
                        if m == here && found->0 != here && comes_before(
                            rows[i].view.quest.machine@,
                            here,
                        ) {
                            order_is_transitive(rows[i].view.quest.machine@, here, found->0);
                        }
                    }
                }
            }
        }
    }
}

/// The machine filter steps through the listing's machines in order: the next
/// one is of the listing, lies behind the current one, and skips none.
pub proof fn the_machine_filter_skips_none(q: QuestsV, i: int)
    requires
        0 <= i < q.rows.len(),
        q.machine is Some ==> has_machine(q.rows, q.machine->0),
    ensures
        match next_machine(q) {
            Some(m) => {
                &&& has_machine(q.rows, m)
                &&& q.machine is Some ==> comes_before(q.machine->0, m)
                &&& !comes_before(q.rows[i].view.quest.machine@, m) || (q.machine is Some
                    && !comes_before(q.machine->0, q.rows[i].view.quest.machine@))
            },
            None => q.machine is Some && !comes_before(
                q.machine->0,
                q.rows[i].view.quest.machine@,
            ),
        },
{
    lemma_least_machine(q.rows, q.machine);
}

// ----------------------------------------------------------------- the prompts

/// A prompt acts on the quest it was opened against or on none: what is handed
/// on was created when that quest was and still has the slug the box named.
pub proof fn a_prompt_never_reaches_a_stranger(
    target: TargetV,
    fetched: Option<Quest>,
    quest: Quest,
)
    requires
        still_it(target, fetched, Ok(quest)),
    ensures
        fetched == Some(quest),
        quest.created_at == target.created_at,
        quest.slug@ == target.slug,
{
}

/// And where the box said whether it was finished and named an epic, those still
/// hold too.
pub proof fn a_prompt_acts_on_what_it_showed(
    target: TargetV,
    fetched: Option<Quest>,
    quest: Quest,
)
    requires
        still_so(target, fetched, Ok(quest)),
    ensures
        fetched == Some(quest),
        quest.created_at == target.created_at,
        quest.slug@ == target.slug,
        (quest.state == QuestState::Finished) == target.finished,
        opt_text(quest.beads_epic) == target.epic,
{
}

proof fn lemma_labels()
    ensures
        ACTION@ != CANCEL@,
        ACTION@ != quests::F_NAME@,
        ACTION@ != quests::F_GOAL@,
        ACTION@ != quests::F_DIR@,
        ACTION@ != quests::F_WORKFLOW@,
        ACTION@ != quests::F_MACHINE@,
        ACTION@ != quests::F_TEMPLATE@,
        ACTION@ != quests::F_BEADS@,
        ACTION@ != quests::F_SLUG@,
        ACTION@ != quests::F_CLOSE_EPIC@,
        ACTION@ != quests::F_PROMPT@,
        ACTION@.len() > 0,
{
    reveal_strlit("action");
    reveal_strlit("cancel");
    reveal_strlit("name");
    reveal_strlit("goal");
    reveal_strlit("dir");
    reveal_strlit("workflow");
    reveal_strlit("machine");
    reveal_strlit("template");
    reveal_strlit("beads epic");
    reveal_strlit("slug");
    reveal_strlit("close beads epic");
    reveal_strlit("prompt");
    assert(ACTION@[0] == 'a');
    assert(CANCEL@[0] == 'c');
    assert(quests::F_PROMPT@[0] == 'p');
}

/// Which row of a form is its action row, if it has one.
pub open spec fn action_in(f: FormV) -> Option<FieldV> {
    find_field(f.fields, ACTION@)
}

proof fn lemma_action_in(f: FormV, field: FieldV)
    ensures
        action_in(with_field(f, field)) == match action_in(f) {
            Some(x) => Some(x),
            None => if label_of(field) == ACTION@ {
                Some(field)
            } else {
                None
            },
        },
{
    lemma_find_push(f.fields, field);
}

proof fn lemma_find_push(fields: Seq<FieldV>, x: FieldV)
    ensures
        find_field(fields.push(x), ACTION@) == match find_field(fields, ACTION@) {
            Some(y) => Some(y),
            None => if label_of(x) == ACTION@ {
                Some(x)
            } else {
                None
            },
        },
    decreases fields.len(),
{
    if fields.len() == 0 {
        assert(fields.push(x).drop_first() =~= fields);
        assert(find_field(fields.push(x).drop_first(), ACTION@) is None);
    } else {
        assert(fields.push(x).drop_first() =~= fields.drop_first().push(x));
        lemma_find_push(fields.drop_first(), x);
    }
}

/// A form that destroys or starts something: it has an action row, which no text
/// can move, and the row still reads `cancel`.
pub open spec fn is_disarmed(f: FormV) -> bool {
    &&& action_in(f) is Some
    &&& is_guarded(action_in(f)->0)
    &&& !is_confirmed(f)
}

/// Whatever the listing holds, the prompts that start or destroy something come
/// up disarmed: a bare Enter runs none of them, and neither does any text. The
/// rename prompt, which destroys nothing, is submitted by Enter.
pub proof fn destructive_prompts_come_up_disarmed(a: AppV, row: QuestRow)
    ensures
        is_disarmed(new_form(a)),
        is_disarmed(close_form(a, row)),
        is_disarmed(resume_form(row)),
        is_confirmed(rename_form(row)),
{
    lemma_labels();
    lemma_new_form(a);
    lemma_close_form(a, row);
    let base = FormV {
        hint: resume_form(row).hint,
        ..empty_form("resume "@ + row.view.quest.slug@)
    };
    let f1 = with_field(
        base,
        text_field(
            quests::F_PROMPT@,
            Seq::empty(),
            "(none \u{2014} the master comes up on its brief)"@,
        ),
    );
    let note = FieldV::Note("spawns a new master; the old session rows stay as history"@);
    let f2 = with_field(f1, note);
    lemma_action_in(base, f1.fields.last());
    lemma_action_in(f1, note);
    lemma_action_in(f2, action_row("resume"@));
    assert(resume_form(row) == with_field(f2, action_row("resume"@)));
    let rbase = FormV {
        hint: rename_form(row).hint,
        commit: Commit::Harmless,
        ..empty_form("rename "@ + row.view.quest.slug@)
    };
    let field = text_field(quests::F_SLUG@, row.view.quest.slug@, Seq::empty());
    let r1 = with_field(rbase, field);
    let rnote = FieldV::Note("lowercase kebab-case, at most 40 characters"@);
    lemma_action_in(rbase, field);
    lemma_action_in(r1, rnote);
    assert(rename_form(row) == with_field(r1, rnote));
}

proof fn lemma_new_form(a: AppV)
    ensures
        is_disarmed(new_form(a)),
{
    lemma_labels();
    let base = FormV { hint: new_form(a).hint, ..empty_form("new quest"@) };
    let x1 = text_field(quests::F_NAME@, Seq::empty(), "(auto)"@);
    let f1 = with_field(base, x1);
    let x2 = text_field(quests::F_GOAL@, Seq::empty(), "(none)"@);
    let f2 = with_field(f1, x2);
    let x3 = text_field(quests::F_DIR@, Seq::empty(), "(where q was started)"@);
    let f3 = with_field(f2, x3);
    let x4 = select_field(
        quests::F_WORKFLOW@,
        seq![quests::NO_WORKFLOW@] + a.quests.workflows,
    );
    let f4 = with_field(f3, x4);
    let x5 = select_field(quests::F_MACHINE@, a.machines);
    let f5 = with_field(f4, x5);
    let x6 = select_field(
        quests::F_TEMPLATE@,
        seq![quests::NO_TEMPLATE@] + quests::template_names(a.quests.templates),
    );
    let f6 = with_field(f5, x6);
    let x7 = FieldV::Toggle { label: quests::F_BEADS@, on: true };
    let f7 = with_field(f6, x7);
    let x8 = FieldV::Note(
        "a template fills goal \u{b7} dir \u{b7} workflow left blank, and brings its beads repo and the master's first prompt"@,
    );
    let f8 = if a.quests.templates.len() > 0 {
        with_field(f7, x8)
    } else {
        f7
    };
    let last = action_row("create"@);
    lemma_action_in(base, x1);
    lemma_action_in(f1, x2);
    lemma_action_in(f2, x3);
    lemma_action_in(f3, x4);
    lemma_action_in(f4, x5);
    lemma_action_in(f5, x6);
    lemma_action_in(f6, x7);
    lemma_action_in(f7, x8);
    lemma_action_in(f8, last);
    assert(new_form(a) == with_field(f8, last));
}

proof fn lemma_close_form(a: AppV, row: QuestRow)
    ensures
        is_disarmed(close_form(a, row)),
{
    lemma_labels();
    let f = close_form(a, row);
    let base = FormV {
        hint: f.hint,
        ..empty_form("close "@ + row.view.quest.slug@ + "?"@)
    };
    let first = action_row("close"@);
    let f1 = with_field(base, first);
    lemma_action_in(base, first);
    let x2 = f.fields[1];
    let f2 = with_field(f1, x2);
    lemma_action_in(f1, x2);
    let last = FieldV::Note("brain summary (--summarize) lands with brain integration"@);
    match row.view.quest.beads_epic {
        Some(epic) => {
            let x3 = FieldV::Toggle { label: quests::F_CLOSE_EPIC@, on: false };
            let x4 = FieldV::Note("epic "@ + epic@);
            let f3 = with_field(f2, x3);
            let f4 = with_field(f3, x4);
            lemma_action_in(f2, x3);
            lemma_action_in(f3, x4);
            lemma_action_in(f4, last);
            assert(f == with_field(f4, last));
        },
        None => {
            let x3 = FieldV::Note("no beads epic"@);
            let f3 = with_field(f2, x3);
            lemma_action_in(f2, x3);
            lemma_action_in(f3, last);
            assert(f == with_field(f3, last));
        },
    }
}

// --------------------------------------------------------- the events' selection

/// The selection is on an event that is on screen and remembered by its id, or
/// there is nothing on screen and nothing is remembered.
pub open spec fn events_anchored(e: EventsV) -> bool {
    if events_on_screen(e).len() == 0 {
        e.selected_id is None
    } else {
        event_selected(e) is Some && e.selected_id == Some(event_selected(e)->0.event.id)
    }
}

proof fn lemma_events_resynced(e: EventsV)
    ensures
        events_anchored(events_resynced(e)),
        tail_filter(events_resynced(e)) == tail_filter(e),
        events_resynced(e).selected < events_on_screen(e).len() || events_on_screen(e).len() == 0,
{
    if let Some(id) = e.selected_id {
        lemma_first_where(events_on_screen(e), |i: int| e.rows[i].event.id == id);
    }
}

proof fn lemma_events_settled(e: EventsV, viewport: int)
    requires
        events_on_screen(e).len() > 0 || e.selected_id is None,
    ensures
        events_anchored(events_settled(e, viewport)),
        tail_filter(events_settled(e, viewport)) == tail_filter(e),
{
    assert(tail_filter(events_settled(e, viewport)) == tail_filter(e));
}

/// However the tail was changed, resyncing anchors the selection again, and a
/// tail that is being followed stays on its newest event.
pub proof fn resyncing_anchors_the_tail(e: EventsV)
    ensures
        events_anchored(events_resynced(e)),
        events_on_screen(events_resynced(e)) == events_on_screen(e),
        e.follow && events_on_screen(e).len() > 0 ==> events_resynced(e).selected + 1
            == events_on_screen(e).len(),
{
    lemma_events_resynced(e);
}

/// Once settled, the tail follows exactly while its newest event is selected,
/// and the selection is in view.
pub proof fn the_tail_follows_its_newest_row(e: EventsV, viewport: int)
    requires
        events_on_screen(e).len() > 0,
        viewport >= 1,
    ensures
        ({
            let s = events_settled(e, viewport);
            &&& s.follow <==> s.selected + 1 == events_on_screen(s).len()
            &&& s.offset <= s.selected < s.offset + viewport
            &&& s.offset > 0 ==> s.offset + viewport <= events_on_screen(s).len()
        }),
{
    let at = smaller(e.selected as int, events_on_screen(e).len() - 1);
    assert(tail_filter(events_settled(e, viewport)) == tail_filter(e));
    a_settled_list_shows_its_selection(
        at,
        e.offset as int,
        viewport,
        events_on_screen(e).len() as int,
    );
}

/// Going to the end resumes the tail.
pub proof fn going_to_the_end_resumes_the_tail(e: EventsV, viewport: int)
    requires
        0 < events_on_screen(e).len() <= usize::MAX,
    ensures
        events_moved_to(e, usize::MAX as int, viewport).follow,
{
    let m = EventsV {
        selected: smaller(usize::MAX as int, events_on_screen(e).len() - 1) as nat,
        ..e
    };
    assert(tail_filter(m) == tail_filter(e));
}

/// No key leaves the selection pointing at an event it does not name.
pub proof fn every_key_keeps_the_tail_anchored(a: AppV, input: Input)
    requires
        events_anchored(a.events),
    ensures
        events_anchored(app_key(a, input).1.events),
{
    lemma_tab_keeps_events(a, input);
    lemma_on_tab_keeps_events(a, crate::app::tab_after(a.tab));
    lemma_on_tab_keeps_events(a, crate::app::tab_before(a.tab));
    lemma_on_tab_keeps_events(
        AppV { focus_quest: Some(selection(a.quests)->0.view.quest.id@), ..a },
        Tab::Sessions,
    );
    lemma_on_tab_keeps_events(
        AppV { focus_quest: Some(selection(a.quests)->0.view.quest.id@), ..a },
        Tab::Events,
    );
    if let Some(d) = digit_of(input) {
        if let Some(tab) = crate::app::tab_of_digit(d) {
            lemma_on_tab_keeps_events(a, tab);
        }
    }
}

proof fn lemma_on_tab_keeps_events(a: AppV, tab: Tab)
    requires
        events_anchored(a.events),
    ensures
        events_anchored(on_tab(a, tab).events),
{
    lemma_events_resynced(EventsV { filtering: false, query: Seq::empty(), ..a.events });
}

proof fn lemma_tab_keeps_events(a: AppV, input: Input)
    requires
        events_anchored(a.events),
    ensures
        events_anchored(events::key(a, input).1.events),
{
    let e = a.events;
    let p = events::page(a);
    lemma_events_resynced(EventsV { filtering: false, query: Seq::empty(), ..e });
    lemma_events_resynced(EventsV { query: Seq::empty(), ..e });
    lemma_events_resynced(EventsV { quest: None, quest_slug: None, ..e });
    if e.query.len() > 0 {
        lemma_events_resynced(EventsV { query: e.query.drop_last(), ..e });
    }
    lemma_events_resynced(EventsV { query: e.query, ..e });
    if let Input::Char(c) = input {
        lemma_events_resynced(EventsV { query: e.query.push(c), ..e });
    }
    let closed = EventsV { filtering: false, ..e };
    assert(tail_filter(closed) == tail_filter(e));
    let open = EventsV { filtering: true, ..e };
    assert(tail_filter(open) == tail_filter(e));
    lemma_events_moved(e, -1, 0, p);
    lemma_events_moved(e, 1, usize::MAX as int, p);
    lemma_events_moved(e, -p, 0, p);
    lemma_events_moved(e, p, 0, p);
}

proof fn lemma_events_moved(e: EventsV, delta: int, at: int, viewport: int)
    requires
        events_anchored(e),
        at >= 0,
    ensures
        events_anchored(events_moved_by(e, delta, viewport)),
        events_anchored(events_moved_to(e, at, viewport)),
{
    let n = events_on_screen(e).len();
    if n > 0 {
        let m = EventsV { selected: clamped(e.selected + delta, 0, n - 1) as nat, ..e };
        assert(tail_filter(m) == tail_filter(e));
        lemma_events_settled(m, viewport);
        let t = EventsV { selected: smaller(at, n - 1) as nat, ..e };
        assert(tail_filter(t) == tail_filter(e));
        lemma_events_settled(t, viewport);
    }
}

/// What is on screen of the tail passes the filters, comes in the order of the
/// log, and nothing that passes is missing.
pub proof fn the_tail_shows_exactly_what_passes(e: EventsV, i: int)
    requires
        0 <= i < e.rows.len(),
    ensures
        events_on_screen(e).contains(i) <==> tail_takes(e.quest, kinds_of(e.query), e.rows[i]),
        forall|j: int, k: int|
            0 <= j < k < events_on_screen(e).len() ==> #[trigger] events_on_screen(e)[j]
                < #[trigger] events_on_screen(e)[k],
{
    let f = tail_filter(e);
    let p = |j: int| tail_takes(f.quest, kinds_of(f.query), f.rows[j]);
    lemma_passing(f.rows.len() as int, p);
    if p(i) {
        crate::list::lemma_passing_complete(f.rows.len() as int, p, i);
    }
    if events_on_screen(e).contains(i) {
        let j = choose|j: int| 0 <= j < events_on_screen(e).len() && events_on_screen(e)[j] == i;
        assert(p(events_on_screen(e)[j]));
    }
}

/// Every reload leaves the tail's selection on an event it names.
pub proof fn a_reload_anchors_the_tail(a: AppV, slug: Option<Seq<char>>, rows: Seq<EventRow>)
    ensures
        events_anchored(events::reloaded(a, slug, rows).events),
        events::reloaded(a, slug, rows).events.loaded,
{
    let r = EventsV {
        quest_slug: if a.events.quest is Some {
            slug
        } else {
            None
        },
        rows,
        loaded_query: a.events.query,
        loaded: true,
        ..a.events
    };
    let s = events_resynced(r);
    lemma_events_resynced(r);
    lemma_events_settled(s, events::page(with_events(a, s)));
}

/// A reload keeps whoever reads further up on the event they were on, as long as
/// it is still on screen, and keeps whoever follows the tail on its newest event.
pub proof fn a_reload_keeps_the_reader_in_place(
    a: AppV,
    slug: Option<Seq<char>>,
    rows: Seq<EventRow>,
    i: int,
)
    requires
        ({
            let r = EventsV { rows, ..a.events };
            &&& 0 <= i < events_on_screen(r).len()
            &&& a.events.follow || a.events.selected_id == Some(
                rows[events_on_screen(r)[i]].event.id,
            )
        }),
    ensures
        ({
            let e = events::reloaded(a, slug, rows).events;
            &&& events_anchored(e)
            &&& e.rows == rows
            &&& a.events.follow ==> e.follow && e.selected + 1 == events_on_screen(e).len()
            &&& !a.events.follow ==> e.selected_id == a.events.selected_id
        }),
{
    let r = EventsV {
        quest_slug: if a.events.quest is Some {
            slug
        } else {
            None
        },
        rows,
        loaded_query: a.events.query,
        loaded: true,
        ..a.events
    };
    assert(tail_filter(r) == tail_filter(EventsV { rows, ..a.events }));
    let s = events_resynced(r);
    lemma_events_resynced(r);
    if !a.events.follow {
        let id = a.events.selected_id->0;
        let p = |j: int| r.rows[j].event.id == id;
        lemma_first_where(events_on_screen(r), p);
        assert(p(events_on_screen(r)[i]));
    }
    let b = with_events(a, s);
    lemma_events_settled(s, events::page(b));
}

// ---------------------------------------------------------------- every event

/// A dashboard that has just been started names no row on either tab, and none is
/// on screen.
pub proof fn a_fresh_dashboard_is_anchored(config: Config, machine: Seq<char>)
    ensures
        quests_anchored(started(config, machine).quests),
        events_anchored(started(config, machine).events),
{
}

/// Whatever a terminal reports, keys, clicks, the wheel, pasted text or another
/// size, both tabs keep their selection on a row they name.
pub proof fn every_event_keeps_the_selections_anchored(a: AppV, ev: Event)
    requires
        quests_anchored(a.quests),
        events_anchored(a.events),
    ensures
        quests_anchored(applied(a, ev).2.quests),
        events_anchored(applied(a, ev).2.events),
{
    match ev {
        Event::Key(key) => {
            if let Some(input) = normalized(key) {
                every_key_keeps_the_quests_anchored(a, input);
                every_key_keeps_the_tail_anchored(a, input);
            }
        },
        Event::Mouse(m) => {
            every_key_keeps_the_quests_anchored(a, Input::Up);
            every_key_keeps_the_tail_anchored(a, Input::Up);
            every_key_keeps_the_quests_anchored(a, Input::Down);
            every_key_keeps_the_tail_anchored(a, Input::Down);
            let tab = choose|tab: Tab| #[trigger]
                crate::app::tab_covers(tab, m.column as int);
            lemma_on_tab_keeps_quests(a, tab);
            lemma_on_tab_keeps_events(a, tab);
        },
        Event::Paste(text) => {
            let clean = without_controls(text@);
            lemma_resynced(QuestsV { query: a.quests.query + clean, ..a.quests });
            lemma_events_resynced(EventsV { query: a.events.query + clean, ..a.events });
        },
        _ => {},
    }
}

// ------------------------------------------------------------------ staleness

/// The dashboard after some events, one after the other.
pub open spec fn after_events(a: AppV, evs: Seq<Event>) -> AppV
    decreases evs.len(),
{
    if evs.len() == 0 {
        a
    } else {
        applied(after_events(a, evs.drop_last()), evs.last()).2
    }
}

/// Nothing a terminal reports, and no switch of tabs, touches what the tail was
/// loaded under: only a reload does.
pub proof fn only_a_reload_changes_what_was_loaded(a: AppV, ev: Event, tab: Tab)
    ensures
        applied(a, ev).2.events.loaded_query == a.events.loaded_query,
        applied(a, ev).2.events.loaded == a.events.loaded,
        on_tab(a, tab).events.loaded_query == a.events.loaded_query,
        on_tab(a, tab).events.loaded == a.events.loaded,
{
    match ev {
        Event::Key(key) => {
            if let Some(input) = normalized(key) {
                lemma_key_keeps_loaded(a, input);
            }
        },
        Event::Mouse(m) => {
            lemma_key_keeps_loaded(a, Input::Up);
            lemma_key_keeps_loaded(a, Input::Down);
        },
        _ => {},
    }
}

/// What the tail was loaded under, and whether it was.
spec fn loaded_under(a: AppV) -> (Seq<char>, bool) {
    (a.events.loaded_query, a.events.loaded)
}

proof fn lemma_key_keeps_loaded(a: AppV, input: Input)
    ensures
        loaded_under(app_key(a, input).1) == loaded_under(a),
{
    lemma_quests_key_keeps_loaded(a, input);
    lemma_events_key_keeps_loaded(a, input);
}

proof fn lemma_events_key_keeps_loaded(a: AppV, input: Input)
    ensures
        loaded_under(events::key(a, input).1) == loaded_under(a),
{
}

#[verifier::rlimit(40)]
proof fn lemma_quests_key_keeps_loaded(a: AppV, input: Input)
    ensures
        loaded_under(quests::key(a, input).1) == loaded_under(a),
{
}

proof fn lemma_after_events(a: AppV, evs: Seq<Event>)
    ensures
        after_events(a, evs).events.loaded_query == a.events.loaded_query,
    decreases evs.len(),
{
    if evs.len() > 0 {
        lemma_after_events(a, evs.drop_last());
        only_a_reload_changes_what_was_loaded(
            after_events(a, evs.drop_last()),
            evs.last(),
            Tab::Quests,
        );
    }
}

/// A reload leaves nothing stale. Through whatever keys, clicks, pastes and
/// switches of tabs follow, the tail is stale exactly while the filter differs
/// from the one it was loaded under.
pub proof fn the_tail_is_stale_while_the_filter_differs(
    a: AppV,
    slug: Option<Seq<char>>,
    rows: Seq<EventRow>,
    evs: Seq<Event>,
)
    ensures
        ({
            let b = events::reloaded(a, slug, rows);
            let c = after_events(b, evs);
            &&& b.events.query == a.events.query
            &&& !is_stale(b.events)
            &&& is_stale(c.events) <==> c.events.query != a.events.query
        }),
{
    lemma_after_events(events::reloaded(a, slug, rows), evs);
}

/// A tail that was never loaded is stale exactly while there is a filter.
pub proof fn a_fresh_tail_is_stale_while_there_is_a_filter(
    config: Config,
    machine: Seq<char>,
    evs: Seq<Event>,
)
    ensures
        ({
            let c = after_events(started(config, machine), evs);
            is_stale(c.events) <==> c.events.query.len() > 0
        }),
{
    lemma_after_events(started(config, machine), evs);
    let c = after_events(started(config, machine), evs);
    assert(c.events.query.len() == 0 ==> c.events.query =~= Seq::empty());
}

/// Typing a character into the kind box and deleting it again leaves the filter,
/// and with it the staleness, as it was.
pub proof fn typing_and_deleting_leaves_the_filter(a: AppV, c: char)
    requires
        a.tab == Tab::Events,
        a.events.filtering,
        !a.help,
        a.modal is None,
    ensures
        ({
            let b = app_key(app_key(a, Input::Char(c)).1, Input::Backspace).1;
            &&& b.events.query == a.events.query
            &&& is_stale(b.events) == is_stale(a.events)
        }),
{
    assert(a.events.query.push(c).drop_last() =~= a.events.query);
}

} // verus!
