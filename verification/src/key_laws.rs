//! What each key does, in terms of what is on screen and what is remembered.
use vstd::prelude::*;
use vstd::string::*;
use crate::app::{
    app_key, app_mouse, app_paste, chips_shown, is_capturing, Action, AppV, Tab, TargetV,
};
use crate::events;
use crate::events::{event_selected, events_on_screen, tail_filter, EventsV};
use crate::form::{label_of, without_controls, FieldV};
use crate::keys::{
    normalized, normalized_mouse, Input, KeyCode, KeyEvent, MouseButton, MouseEvent, MouseEventKind,
    MouseInput,
};
use crate::list::smaller;
use crate::model::{DisplayState, QuestRow};
use crate::quest_laws::lemma_said;
use crate::quests;
use crate::quests::{filter_of, has_machine, on_screen, refusal, selection, selection_links};
use crate::text::{has_text, opt_text};

verus! {

/// The tab is in front and reads commands: no overlay, no form and no box is up.
pub open spec fn commands(a: AppV, tab: Tab) -> bool {
    a.tab == tab && !a.help && a.modal is None && !is_capturing(a)
}

// ------------------------------------------------------------------- the shell

/// `q` quits, `?` puts the overlay up, `x` asks for a reload, and nothing else of
/// the dashboard changes by them.
pub proof fn the_shells_own_keys(a: AppV)
    requires
        commands(a, a.tab),
    ensures
        app_key(a, Input::Char('q')) == (Action::Quit, AppV { should_quit: true, ..a }),
        app_key(a, Input::Char('?')) == (Action::Nothing, AppV { help: true, ..a }),
        app_key(a, Input::Char('x')).0 == Action::Refresh,
        app_key(a, Input::Char('x')).1.quests == a.quests,
        app_key(a, Input::Char('x')).1.events == a.events,
        app_key(a, Input::Char('x')).1.tab == a.tab,
        a.refreshes < u64::MAX ==> app_key(a, Input::Char('x')).1.refreshes == a.refreshes + 1,
{
}

/// The overlay goes at `?`, `q`, Esc and Enter, and at a click, and leaves the
/// dashboard as it was.
pub proof fn the_overlay_goes_as_it_came(a: AppV, col: u16, row: u16)
    requires
        a.help,
    ensures
        app_key(a, Input::Char('?')) == (Action::Nothing, AppV { help: false, ..a }),
        app_key(a, Input::Char('q')) == (Action::Nothing, AppV { help: false, ..a }),
        app_key(a, Input::Esc) == (Action::Nothing, AppV { help: false, ..a }),
        app_key(a, Input::Enter) == (Action::Nothing, AppV { help: false, ..a }),
        app_mouse(a, MouseInput::Click { col, row }) == (
            Action::Nothing,
            AppV { help: false, ..a },
        ),
        app_mouse(a, MouseInput::ScrollUp) == (Action::Nothing, a),
        app_mouse(a, MouseInput::ScrollDown) == (Action::Nothing, a),
{
}

/// A digit brings the tab of that number to the front: `1` the quests, `2` the
/// sessions, `3` the templates and `4` the events. Another digit does nothing.
pub proof fn a_digit_brings_its_tab_to_the_front(a: AppV)
    requires
        commands(a, a.tab),
    ensures
        app_key(a, Input::Char('1')).1.tab == Tab::Quests,
        app_key(a, Input::Char('2')).1.tab == Tab::Sessions,
        app_key(a, Input::Char('3')).1.tab == Tab::Templates,
        app_key(a, Input::Char('4')).1.tab == Tab::Events,
        app_key(a, Input::Char('5')) == (Action::Nothing, a),
        app_key(a, Input::Char('9')) == (Action::Nothing, a),
        app_key(a, Input::Char('0')) == (Action::Nothing, a),
{
}

/// Tab goes through the tabs from the quests to the events and around, and
/// back-Tab goes the other way.
pub proof fn tab_and_back_tab_go_around(a: AppV)
    requires
        commands(a, a.tab),
    ensures
        a.tab == Tab::Quests ==> app_key(a, Input::Tab).1.tab == Tab::Sessions,
        a.tab == Tab::Sessions ==> app_key(a, Input::Tab).1.tab == Tab::Templates,
        a.tab == Tab::Templates ==> app_key(a, Input::Tab).1.tab == Tab::Events,
        a.tab == Tab::Events ==> app_key(a, Input::Tab).1.tab == Tab::Quests,
        a.tab == Tab::Quests ==> app_key(a, Input::BackTab).1.tab == Tab::Events,
        a.tab == Tab::Events ==> app_key(a, Input::BackTab).1.tab == Tab::Templates,
        a.tab == Tab::Templates ==> app_key(a, Input::BackTab).1.tab == Tab::Sessions,
        a.tab == Tab::Sessions ==> app_key(a, Input::BackTab).1.tab == Tab::Quests,
{
}

/// Another tab in front keeps what each tab holds: its rows, its committed filter
/// and its selection. Arriving on a tail whose filter changed asks for a reload.
pub proof fn another_tab_keeps_what_the_tabs_hold(a: AppV, tab: Tab)
    requires
        commands(a, a.tab),
        tab != a.tab,
    ensures
        ({
            let b = crate::app::on_tab(a, tab);
            &&& b.tab == tab
            &&& b.quests == a.quests && b.events == a.events
            &&& b.status.len() == 0
            &&& b.detail == a.detail && b.help == a.help && b.refresh_error == a.refresh_error
        }),
        tab == Tab::Events && a.events.query != a.events.loaded_query ==> app_key(
            a,
            Input::Char('4'),
        ).0 == Action::Refresh,
        tab == Tab::Events && a.events.query == a.events.loaded_query ==> app_key(
            a,
            Input::Char('4'),
        ).0 == Action::Nothing,
{
}

/// The wheel is the arrow keys, where no form and no overlay is up.
pub proof fn the_wheel_is_the_arrow_keys(a: AppV)
    requires
        !a.help,
        a.modal is None,
    ensures
        app_mouse(a, MouseInput::ScrollUp) == app_key(a, Input::Up),
        app_mouse(a, MouseInput::ScrollDown) == app_key(a, Input::Down),
{
}

/// A click below the tab bar, or to the right of it, does nothing.
pub proof fn a_click_off_the_tab_bar_does_nothing(a: AppV, col: u16, row: u16)
    requires
        !a.help,
        row > 0 || col >= a.tab_bar_width,
    ensures
        app_mouse(a, MouseInput::Click { col, row }) == (Action::Nothing, a),
{
}

/// What leads the status bar names every filter that is on, and what the last
/// round complained of.
pub proof fn the_bar_names_every_filter(a: AppV)
    ensures
        a.remote_note is Some ==> has_text(chips_shown(a), a.remote_note->0),
        a.tab == Tab::Quests && a.quests.query.len() > 0 && !a.quests.searching ==> has_text(
            chips_shown(a),
            a.quests.query,
        ),
        a.tab == Tab::Quests && a.quests.machine is Some ==> has_text(
            chips_shown(a),
            a.quests.machine->0,
        ),
        a.tab == Tab::Quests && a.quests.show_finished ==> has_text(
            chips_shown(a),
            "+finished"@,
        ),
        a.tab == Tab::Events && a.events.query.len() > 0 && !a.events.filtering ==> has_text(
            chips_shown(a),
            a.events.query,
        ),
        a.tab == Tab::Events && a.events.quest is Some ==> has_text(
            chips_shown(a),
            match a.events.quest_slug {
                Some(slug) => slug,
                None => a.events.quest->0,
            },
        ),
        a.tab == Tab::Events ==> has_text(
            chips_shown(a),
            if a.events.follow {
                "tailing"@
            } else {
                "paused"@
            },
        ),
{
    let f = crate::app::filters_shown(a);
    let all = chips_shown(a);
    if let Some(note) = a.remote_note {
        if f.len() == 0 {
            lemma_said(all, Seq::empty(), note, Seq::empty());
        } else {
            lemma_said(all, f + " \u{b7} "@, note, Seq::empty());
        }
    }
    if a.tab == Tab::Quests {
        let parts = quests::filter_parts(a.quests);
        let x = "/"@ + a.quests.query;
        if a.quests.query.len() > 0 && !a.quests.searching {
            assert(parts[0] == x);
            lemma_part(a, parts, 0, "/"@, a.quests.query);
        }
        if a.quests.machine is Some {
            let at: int = if a.quests.query.len() > 0 && !a.quests.searching {
                1
            } else {
                0
            };
            assert(parts[at] == "m "@ + a.quests.machine->0);
            lemma_part(a, parts, at, "m "@, a.quests.machine->0);
        }
        if a.quests.show_finished {
            let at = parts.len() - 1;
            assert(parts[at] == "+finished"@);
            assert(parts[at] =~= Seq::<char>::empty() + "+finished"@);
            lemma_part(a, parts, at, Seq::empty(), "+finished"@);
        }
    }
    if a.tab == Tab::Events {
        let parts = events::tail_parts(a.events);
        if a.events.quest is Some {
            let slug = match a.events.quest_slug {
                Some(slug) => slug,
                None => a.events.quest->0,
            };
            assert(parts[0] == "quest "@ + slug);
            lemma_part(a, parts, 0, "quest "@, slug);
        }
        if a.events.query.len() > 0 && !a.events.filtering {
            let at: int = if a.events.quest is Some {
                1
            } else {
                0
            };
            assert(parts[at] == "kind "@ + a.events.query);
            lemma_part(a, parts, at, "kind "@, a.events.query);
        }
        let live = if a.events.follow {
            "tailing"@
        } else {
            "paused"@
        };
        let at = parts.len() - 1;
        assert(parts[at] == live);
        assert(parts[at] =~= Seq::<char>::empty() + live);
        lemma_part(a, parts, at, Seq::empty(), live);
    }
}

proof fn lemma_part(a: AppV, parts: Seq<Seq<char>>, i: int, front: Seq<char>, m: Seq<char>)
    requires
        0 <= i < parts.len(),
        parts[i] == front + m,
        crate::app::filters_shown(a) == crate::text::joined(parts, " "@),
    ensures
        has_text(chips_shown(a), m),
{
    let f = crate::app::filters_shown(a);
    crate::text_laws::joining_keeps_every_part(parts, " "@, i);
    let (x, y) = crate::text_laws::what_occurs_stands_somewhere(f, parts[i]);
    match a.remote_note {
        Some(note) => {
            if f.len() == 0 {
                assert(m =~= Seq::empty());
                lemma_said(chips_shown(a), Seq::empty(), m, note);
            } else {
                lemma_said(chips_shown(a), x + front, m, y + " \u{b7} "@ + note);
            }
        },
        None => {
            lemma_said(chips_shown(a), x + front, m, y);
        },
    }
}

// ----------------------------------------------------- moving over the quests

/// What moving over the listing leaves alone.
pub open spec fn only_moved(a: AppV, b: AppV) -> bool {
    &&& b.quests.rows == a.quests.rows
    &&& on_screen(b.quests) == on_screen(a.quests)
    &&& b.quests.query == a.quests.query && b.quests.machine == a.quests.machine
    &&& b.quests.show_finished == a.quests.show_finished
    &&& b.events == a.events && b.tab == a.tab && b.modal == a.modal && b.status == a.status
    &&& b.detail == a.detail
}

/// The arrows, and `j` and `k`, move the selection by one row and stop at the
/// ends. A page moves it by what fits on screen, `g` and Home to the first row,
/// `G` and End to the last.
pub proof fn keys_move_the_selected_quest(a: AppV)
    requires
        commands(a, Tab::Quests),
        a.quests.selected < on_screen(a.quests).len() <= usize::MAX,
    ensures
        ({
            let n = on_screen(a.quests).len() as int;
            let at = a.quests.selected as int;
            let down = app_key(a, Input::Down).1;
            let up = app_key(a, Input::Up).1;
            let p = quests::page(a);
            &&& only_moved(a, down) && only_moved(a, up)
            &&& down.quests.selected == if at + 1 < n {
                at + 1
            } else {
                at
            }
            &&& up.quests.selected == if at > 0 {
                at - 1
            } else {
                0
            }
            &&& app_key(a, Input::Char('j')) == app_key(a, Input::Down)
            &&& app_key(a, Input::Char('k')) == app_key(a, Input::Up)
            &&& app_key(a, Input::PageDown).1.quests.selected == if at + p < n {
                at + p
            } else {
                n - 1
            }
            &&& app_key(a, Input::PageUp).1.quests.selected == if at >= p {
                at - p
            } else {
                0
            }
            &&& app_key(a, Input::Home).1.quests.selected == 0
            &&& app_key(a, Input::Char('g')).1.quests.selected == 0
            &&& app_key(a, Input::End).1.quests.selected == n - 1
            &&& app_key(a, Input::Char('G')).1.quests.selected == n - 1
        }),
{
    let d = app_key(a, Input::Down).1;
    let u = app_key(a, Input::Up).1;
    assert(filter_of(d.quests) == filter_of(a.quests));
    assert(filter_of(u.quests) == filter_of(a.quests));
}

/// The page is what fits: one row more, with the headings of the groups that are
/// there, would not, unless there is hardly room for one.
pub proof fn a_page_of_quests_is_what_fits(a: AppV)
    requires
        a.height >= 2,
    ensures
        ({
            let lines = crate::layout::mode_lines(crate::app::mode_of(a)) as int;
            let headings = crate::drawn::headings_below(a.quests, None);
            let p = quests::page(a);
            &&& p >= 1
            &&& p > 1 ==> p * lines + headings <= a.height - 2
            &&& (p + 1) * lines + headings > a.height - 2
        }),
{
    let lines = crate::layout::mode_lines(crate::app::mode_of(a)) as int;
    let h = crate::drawn::headings_below(a.quests, None);
    let room = if a.height - 2 >= h {
        a.height - 2 - h
    } else {
        0
    };
    let p = room / lines;
    assert(p * lines <= room && room < (p + 1) * lines) by (nonlinear_arith)
        requires
            p == room / lines,
            lines > 0,
            room >= 0,
    ;
    if p < 1 {
        assert(2 * lines > room) by (nonlinear_arith)
            requires
                room < (p + 1) * lines,
                p < 1,
                lines > 0,
        ;
    }
}

/// The same of the tail, which has no headings.
pub proof fn a_page_of_events_is_what_fits(a: AppV)
    requires
        a.height >= 2,
    ensures
        ({
            let lines = crate::layout::mode_lines(crate::app::mode_of(a)) as int;
            let p = events::page(a);
            &&& p >= 1
            &&& p > 1 ==> p * lines <= a.height - 2
            &&& (p + 1) * lines > a.height - 2
        }),
{
    let lines = crate::layout::mode_lines(crate::app::mode_of(a)) as int;
    let room = a.height - 2;
    let p = room / lines;
    assert(p * lines <= room && room < (p + 1) * lines) by (nonlinear_arith)
        requires
            p == room / lines,
            lines > 0,
            room >= 0,
    ;
    if p < 1 {
        assert(2 * lines > room) by (nonlinear_arith)
            requires
                room < (p + 1) * lines,
                p < 1,
                lines > 0,
        ;
    }
}

// --------------------------------------------------- acting on a quest by keys

/// `o` attaches to the selected quest, wherever it runs, and `b` briefs one of
/// this machine; with nothing selected they do nothing.
pub proof fn keys_act_on_the_selected_quest(a: AppV)
    requires
        commands(a, Tab::Quests),
    ensures
        selection(a.quests) is Some ==> app_key(a, Input::Char('o')) == (Action::Attach, a),
        selection(a.quests) is None ==> app_key(a, Input::Char('o')) == (Action::Nothing, a),
        selection(a.quests) is Some && selection(a.quests)->0.origin is Local ==> app_key(
            a,
            Input::Char('b'),
        ) == (Action::Brief, a),
        selection(a.quests) is None ==> app_key(a, Input::Char('b')) == (Action::Nothing, a),
{
}

/// What a prompt remembers of a row is what the row says: its id, its slug, when
/// it was created, whether it is finished and its epic.
pub open spec fn is_about(t: TargetV, row: QuestRow) -> bool {
    &&& t.quest == row.view.quest.id@
    &&& t.slug == row.view.quest.slug@
    &&& t.created_at == row.view.quest.created_at
    &&& t.finished == (row.view.display_state == DisplayState::Finished)
    &&& t.epic == opt_text(row.view.quest.beads_epic)
}

/// `r`, `c` and `R` put up a prompt about the selected quest of this machine, and
/// `n` one about none. Nothing is done yet, and nothing else changes.
pub proof fn keys_put_up_prompts_about_the_selected_quest(a: AppV)
    requires
        commands(a, Tab::Quests),
        selection(a.quests) is Some,
        selection(a.quests)->0.origin is Local,
    ensures
        ({
            let row = selection(a.quests)->0;
            let r = app_key(a, Input::Char('r'));
            let c = app_key(a, Input::Char('c'));
            let s = app_key(a, Input::Char('R'));
            let n = app_key(a, Input::Char('n'));
            &&& r.0 == Action::Nothing && c.0 == Action::Nothing && s.0 == Action::Nothing
            &&& r.1.modal is Some && r.1.modal->0.prompt is Rename && is_about(
                r.1.modal->0.prompt->Rename_0,
                row,
            )
            &&& c.1.modal is Some && c.1.modal->0.prompt is Close && is_about(
                c.1.modal->0.prompt->Close_0,
                row,
            )
            &&& s.1.modal is Some && s.1.modal->0.prompt is Resume && is_about(
                s.1.modal->0.prompt->Resume_0,
                row,
            )
            &&& n.0 == Action::Nothing && n.1.modal is Some && n.1.modal->0.prompt is NewQuest
            &&& r.1.quests == a.quests && c.1.quests == a.quests && s.1.quests == a.quests
            &&& n.1.quests == a.quests
        }),
{
}

/// With nothing selected there is nothing to prompt about.
pub proof fn no_prompt_without_a_quest(a: AppV)
    requires
        commands(a, Tab::Quests),
        selection(a.quests) is None,
    ensures
        app_key(a, Input::Char('r')) == (Action::Nothing, a),
        app_key(a, Input::Char('c')) == (Action::Nothing, a),
        app_key(a, Input::Char('R')) == (Action::Nothing, a),
        app_key(a, Input::Char('s')) == (Action::Nothing, a),
        app_key(a, Input::Char('e')) == (Action::Nothing, a),
        app_key(a, Input::Char('l')) == (Action::Nothing, a),
        app_key(a, Input::Enter) == (Action::Nothing, a),
{
}

/// `s` and `e` hand the selected quest of this machine to the sessions and to the
/// events: its id is left for the other tab to take, which is reloaded.
pub proof fn keys_hand_the_selected_quest_over(a: AppV)
    requires
        commands(a, Tab::Quests),
        selection(a.quests) is Some,
        selection(a.quests)->0.origin is Local,
    ensures
        ({
            let id = selection(a.quests)->0.view.quest.id@;
            let s = app_key(a, Input::Char('s'));
            let e = app_key(a, Input::Char('e'));
            &&& s.0 == Action::Refresh && s.1.tab == Tab::Sessions && s.1.focus_quest == Some(id)
            &&& e.0 == Action::Refresh && e.1.tab == Tab::Events && e.1.focus_quest == Some(id)
        }),
{
}

/// Handed to the events, a quest is the one whose events are then read: `e` and the
/// reload it asks for leave the tail on that quest.
pub proof fn a_handed_quest_is_what_the_tail_shows(a: AppV)
    requires
        commands(a, Tab::Quests),
        selection(a.quests) is Some,
        selection(a.quests)->0.origin is Local,
    ensures
        events::focus_taken(app_key(a, Input::Char('e')).1).events.quest == Some(
            selection(a.quests)->0.view.quest.id@,
        ),
{
}

/// The refusal of a key on a row of another machine names the quest, the machine,
/// the key and the command to run instead.
pub proof fn a_refusal_names_the_way_around(row: QuestRow, c: char)
    ensures
        has_text(refusal(row, c), row.view.quest.slug@),
        has_text(refusal(row, c), row.view.quest.machine@),
        has_text(refusal(row, c), seq![c]),
        has_text(refusal(row, c), quests::command_for(c)),
{
    let slug = row.view.quest.slug@;
    let machine = row.view.quest.machine@;
    let x = "; the TUI does not proxy `"@;
    let y = "` yet \u{b7} run `"@;
    let z = "` in a shell, or o to enter"@;
    let k = quests::command_for(c);
    lemma_refusal(slug, " runs on "@, machine, x, seq![c], y, k, " "@, z);
}

proof fn lemma_refusal(
    slug: Seq<char>,
    w: Seq<char>,
    machine: Seq<char>,
    x: Seq<char>,
    c: Seq<char>,
    y: Seq<char>,
    k: Seq<char>,
    b: Seq<char>,
    z: Seq<char>,
)
    ensures
        ({
            let s = slug + w + machine + x + c + y + k + b + slug + z;
            has_text(s, slug) && has_text(s, machine) && has_text(s, c) && has_text(s, k)
        }),
{
    let s = slug + w + machine + x + c + y + k + b + slug + z;
    assert(s =~= (slug + w + machine + x + c + y + k + b) + slug + z);
    lemma_said(s, slug + w + machine + x + c + y + k + b, slug, z);
    let t3 = x + c + y + k + b + slug + z;
    assert(s =~= (slug + w) + machine + t3);
    lemma_said(s, slug + w, machine, t3);
    let t2 = y + k + b + slug + z;
    assert(s =~= (slug + w + machine + x) + c + t2);
    lemma_said(s, slug + w + machine + x, c, t2);
    let t1 = b + slug + z;
    assert(s =~= (slug + w + machine + x + c + y) + k + t1);
    lemma_said(s, slug + w + machine + x + c + y, k, t1);
}

// ------------------------------------------------------- filtering the quests

/// `f` shows the finished quests or hides them, and asks for a reload. `m` picks
/// another machine and says which. `/` opens the box on the query there is.
pub proof fn keys_set_the_filters(a: AppV)
    requires
        commands(a, Tab::Quests),
    ensures
        ({
            let f = app_key(a, Input::Char('f'));
            let m = app_key(a, Input::Char('m'));
            let s = app_key(a, Input::Char('/'));
            &&& f.0 == Action::Refresh
            &&& f.1.quests.show_finished == !a.quests.show_finished
            &&& f.1.quests.query == a.quests.query && f.1.quests.machine == a.quests.machine
            &&& f.1.quests.rows == a.quests.rows
            &&& m.0 == Action::Nothing
            &&& m.1.quests.machine == quests::next_machine(a.quests)
            &&& m.1.quests.query == a.quests.query && m.1.quests.show_finished
                == a.quests.show_finished
            &&& m.1.quests.machine is Some ==> has_text(m.1.status, m.1.quests.machine->0)
            &&& s.0 == Action::Nothing && s.1.quests.searching
            &&& s.1.quests.query == a.quests.query && s.1.quests.rows == a.quests.rows
        }),
{
    let m = app_key(a, Input::Char('m')).1;
    if m.quests.machine is Some {
        lemma_said(m.status, "machine "@, m.quests.machine->0, Seq::empty());
    }
}

/// A machine that has gone from the listing is no filter any more: `m` goes back to
/// all of them.
pub proof fn a_machine_that_is_gone_is_no_filter(a: AppV)
    requires
        commands(a, Tab::Quests),
        a.quests.machine is Some,
        !has_machine(a.quests.rows, a.quests.machine->0),
    ensures
        app_key(a, Input::Char('m')).1.quests.machine is None,
{
}

/// In the search box a character goes behind the query and Backspace takes the last
/// one off; Enter keeps the query and closes the box, Esc closes it and drops the
/// query. Whatever is typed, the rows are the same and the box says the query.
pub proof fn the_search_box_edits_the_query(a: AppV, c: char)
    requires
        a.tab == Tab::Quests,
        !a.help,
        a.modal is None,
        a.quests.searching,
    ensures
        ({
            let t = app_key(a, Input::Char(c)).1;
            let b = app_key(a, Input::Backspace).1;
            let e = app_key(a, Input::Enter).1;
            let x = app_key(a, Input::Esc).1;
            &&& t.quests.query == a.quests.query.push(c) && t.quests.searching
            &&& has_text(t.status, a.quests.query.push(c))
            &&& t.quests.rows == a.quests.rows
            &&& a.quests.query.len() > 0 ==> b.quests.query == a.quests.query.drop_last()
            &&& a.quests.query.len() == 0 ==> b.quests.query == a.quests.query
            &&& b.quests.searching
            &&& e.quests.query == a.quests.query && !e.quests.searching
            &&& x.quests.query.len() == 0 && !x.quests.searching
            &&& app_key(a, Input::Char(c)).0 == Action::Nothing
            &&& app_key(a, Input::Enter).0 == Action::Nothing
            &&& e.quests.rows == a.quests.rows && x.quests.rows == a.quests.rows
            &&& e.quests.machine == a.quests.machine && x.quests.machine == a.quests.machine
        }),
{
    let t = app_key(a, Input::Char(c)).1;
    lemma_said(
        t.status,
        "/"@,
        a.quests.query.push(c),
        "\u{2588}  "@ + crate::text::decimal(on_screen(t.quests).len()) + " matching"@,
    );
}

/// Esc on the listing closes the panel first, and then drops the search.
pub proof fn esc_peels_the_quests_back(a: AppV)
    requires
        commands(a, Tab::Quests),
    ensures
        ({
            let b = app_key(a, Input::Esc).1;
            &&& app_key(a, Input::Esc).0 == Action::Nothing
            &&& a.detail ==> b == (AppV { detail: false, ..a })
            &&& !a.detail && a.quests.query.len() > 0 ==> b.quests.query.len() == 0
            &&& !a.detail && a.quests.query.len() == 0 ==> b == a
            &&& b.quests.machine == a.quests.machine && b.quests.show_finished
                == a.quests.show_finished
        }),
{
}

/// Enter opens the panel of the selected quest and closes it; `l` opens it and says
/// every link.
pub proof fn keys_open_the_panel(a: AppV, i: int)
    requires
        commands(a, Tab::Quests),
        selection(a.quests) is Some,
        selection(a.quests)->0.origin is Local,
        0 <= i < selection_links(a.quests).len(),
    ensures
        app_key(a, Input::Enter) == (Action::Nothing, AppV { detail: !a.detail, ..a }),
        app_key(a, Input::Char('l')).1.detail,
        has_text(
            app_key(a, Input::Char('l')).1.status,
            crate::quest_lines::link_words(selection_links(a.quests)[i]),
        ),
{
    let links = selection_links(a.quests);
    let words = quests::all_words(links);
    assert(words[i] == crate::quest_lines::link_words(links[i]));
    crate::text_laws::joining_keeps_every_part(words, " \u{b7} "@, i);
}

/// Pasted text goes into the open box of the tab in front, without its control
/// characters, and nowhere else.
pub proof fn pasted_text_goes_into_the_open_box(a: AppV, text: Seq<char>)
    requires
        !a.help,
        a.modal is None,
    ensures
        ({
            let clean = without_controls(text);
            let (changed, b) = app_paste(a, text);
            &&& !is_capturing(a) ==> !changed && b == a
            &&& a.tab == Tab::Quests && a.quests.searching && clean.len() > 0 ==> changed
                && b.quests.query == a.quests.query + clean
            &&& a.tab == Tab::Events && a.events.filtering && clean.len() > 0 ==> changed
                && b.events.query == a.events.query + clean
            &&& clean.len() == 0 ==> !changed && b == a
        }),
{
}

// ------------------------------------------------------- moving over the tail

/// The arrows, and `j` and `k`, move over the tail by one event and stop at the
/// ends. A page moves by what fits on screen, `g` and Home go to the oldest, `G`
/// and End to the newest.
pub proof fn keys_move_the_selected_event(a: AppV)
    requires
        commands(a, Tab::Events),
        a.events.selected < events_on_screen(a.events).len() <= usize::MAX,
    ensures
        ({
            let n = events_on_screen(a.events).len() as int;
            let at = a.events.selected as int;
            let down = app_key(a, Input::Down).1;
            let up = app_key(a, Input::Up).1;
            let p = events::page(a);
            &&& down.events.rows == a.events.rows && down.events.query == a.events.query
            &&& down.quests == a.quests && down.tab == a.tab
            &&& down.events.selected == if at + 1 < n {
                at + 1
            } else {
                at
            }
            &&& up.events.selected == if at > 0 {
                at - 1
            } else {
                0
            }
            &&& app_key(a, Input::Char('j')) == app_key(a, Input::Down)
            &&& app_key(a, Input::Char('k')) == app_key(a, Input::Up)
            &&& app_key(a, Input::PageDown).1.events.selected == if at + p < n {
                at + p
            } else {
                n - 1
            }
            &&& app_key(a, Input::PageUp).1.events.selected == if at >= p {
                at - p
            } else {
                0
            }
            &&& app_key(a, Input::Home).1.events.selected == 0
            &&& app_key(a, Input::Char('g')).1.events.selected == 0
            &&& app_key(a, Input::End).1.events.selected == n - 1
            &&& app_key(a, Input::Char('G')).1.events.selected == n - 1
        }),
{
    let e = a.events;
    assert forall|at: nat| events_on_screen(#[trigger] moved_event(e, at)) == events_on_screen(
        e,
    ) by {
        assert(tail_filter(moved_event(e, at)) == tail_filter(e));
    }
    let n = events_on_screen(e).len() as int;
    let at = e.selected as int;
    let p = events::page(a);
    let _ = moved_event(e, crate::list::clamped(at + 1, 0, n - 1) as nat);
    let _ = moved_event(e, crate::list::clamped(at - 1, 0, n - 1) as nat);
    let _ = moved_event(e, crate::list::clamped(at + p, 0, n - 1) as nat);
    let _ = moved_event(e, crate::list::clamped(at - p, 0, n - 1) as nat);
    let _ = moved_event(e, smaller(0, n - 1) as nat);
    let _ = moved_event(e, smaller(usize::MAX as int, n - 1) as nat);
}

spec fn moved_event(e: EventsV, at: nat) -> EventsV {
    EventsV { selected: at, ..e }
}

/// Enter and `d` open the panel of the selected event and close it.
pub proof fn keys_open_the_event(a: AppV)
    requires
        commands(a, Tab::Events),
    ensures
        event_selected(a.events) is Some ==> app_key(a, Input::Enter) == (
            Action::Nothing,
            AppV { detail: !a.detail, ..a },
        ),
        event_selected(a.events) is None ==> app_key(a, Input::Enter) == (Action::Nothing, a),
        app_key(a, Input::Char('d')) == app_key(a, Input::Enter),
{
}

/// In the kind box a character goes behind the filter and Backspace takes the last
/// one off, each with a reload; Enter keeps the filter and closes the box, and
/// reloads where the rows were read under another; Esc closes it and drops the
/// filter.
pub proof fn the_kind_box_edits_the_filter(a: AppV, c: char)
    requires
        a.tab == Tab::Events,
        !a.help,
        a.modal is None,
        a.events.filtering,
    ensures
        ({
            let t = app_key(a, Input::Char(c));
            let b = app_key(a, Input::Backspace);
            let e = app_key(a, Input::Enter);
            let x = app_key(a, Input::Esc);
            &&& t.0 == Action::Refresh && b.0 == Action::Refresh && x.0 == Action::Refresh
            &&& t.1.events.query == a.events.query.push(c) && t.1.events.filtering
            &&& has_text(t.1.status, a.events.query.push(c))
            &&& a.events.query.len() > 0 ==> b.1.events.query == a.events.query.drop_last()
            &&& a.events.query.len() == 0 ==> b.1.events.query == a.events.query
            &&& e.1.events.query == a.events.query && !e.1.events.filtering
            &&& e.0 == Action::Refresh <==> a.events.query != a.events.loaded_query
            &&& x.1.events.query.len() == 0 && !x.1.events.filtering
            &&& t.1.events.quest == a.events.quest && x.1.events.quest == a.events.quest
            &&& t.1.events.rows == a.events.rows && x.1.events.rows == a.events.rows
        }),
{
    let t = app_key(a, Input::Char(c)).1;
    let note = match events::kinds_of(t.events.query) {
        Ok(_) => crate::text::decimal(events_on_screen(t.events).len()) + " matching"@,
        Err(why) => why,
    };
    lemma_said(t.status, "/"@, a.events.query.push(c), "\u{2588}  "@ + note);
}

/// Esc on the tail closes the panel first, then drops the kinds and then the quest,
/// each of which is read again.
pub proof fn esc_peels_the_tail_back(a: AppV)
    requires
        commands(a, Tab::Events),
    ensures
        ({
            let (action, b) = app_key(a, Input::Esc);
            &&& a.detail ==> action == Action::Nothing && b == (AppV { detail: false, ..a })
            &&& !a.detail && a.events.query.len() > 0 ==> action == Action::Refresh
                && b.events.query.len() == 0 && b.events.quest == a.events.quest
            &&& !a.detail && a.events.query.len() == 0 && a.events.quest is Some ==> action
                == Action::Refresh && b.events.quest is None && b.events.quest_slug is None
            &&& !a.detail && a.events.query.len() == 0 && a.events.quest is None ==> action
                == Action::Nothing && b == a
        }),
{
}

// -------------------------------------------------------------------- raw keys

/// A key that goes down without Ctrl is itself.
pub proof fn a_plain_key_is_itself(c: char)
    ensures
        normalized((KeyEvent { code: KeyCode::Char(c), control: false, release: false })) == Some(
            Input::Char(c),
        ),
        normalized((KeyEvent { code: KeyCode::Esc, control: false, release: false })) == Some(
            Input::Esc,
        ),
        normalized((KeyEvent { code: KeyCode::Tab, control: false, release: false })) == Some(
            Input::Tab,
        ),
        normalized((KeyEvent { code: KeyCode::BackTab, control: false, release: false })) == Some(
            Input::BackTab,
        ),
        normalized((KeyEvent { code: KeyCode::Up, control: false, release: false })) == Some(
            Input::Up,
        ),
        normalized((KeyEvent { code: KeyCode::Down, control: false, release: false })) == Some(
            Input::Down,
        ),
        normalized((KeyEvent { code: KeyCode::Left, control: false, release: false })) == Some(
            Input::Left,
        ),
        normalized((KeyEvent { code: KeyCode::Right, control: false, release: false })) == Some(
            Input::Right,
        ),
        normalized((KeyEvent { code: KeyCode::PageUp, control: false, release: false })) == Some(
            Input::PageUp,
        ),
        normalized((KeyEvent { code: KeyCode::PageDown, control: false, release: false })) == Some(
            Input::PageDown,
        ),
        normalized((KeyEvent { code: KeyCode::Home, control: false, release: false })) == Some(
            Input::Home,
        ),
        normalized((KeyEvent { code: KeyCode::End, control: false, release: false })) == Some(
            Input::End,
        ),
        normalized((KeyEvent { code: KeyCode::Backspace, control: false, release: false }))
            == Some(Input::Backspace),
        normalized((KeyEvent { code: KeyCode::Delete, control: false, release: false })) == Some(
            Input::Delete,
        ),
{
}

/// Ctrl with a letter is that letter with Ctrl, in lower case, and never the letter
/// itself; with `j` and `m` alone it is Enter.
pub proof fn a_control_key_is_no_text(c: char)
    requires
        'a' <= c <= 'z',
    ensures
        ({
            let key = normalized(
                (KeyEvent { code: KeyCode::Char(c), control: true, release: false }),
            );
            &&& c == 'j' || c == 'm' ==> key == Some(Input::Enter)
            &&& c != 'j' && c != 'm' ==> key == Some(Input::Ctrl(c))
        }),
{
}

/// A left click is a click where it was, the wheel scrolls the way it turned, and
/// everything else of the mouse is nothing.
pub proof fn a_click_is_where_it_was(column: u16, row: u16, ev: MouseEvent)
    ensures
        normalized_mouse(
            (MouseEvent { kind: MouseEventKind::Down(MouseButton::Left), column, row }),
        ) == Some(MouseInput::Click { col: column, row }),
        normalized_mouse((MouseEvent { kind: MouseEventKind::ScrollUp, column, row })) == Some(
            MouseInput::ScrollUp,
        ),
        normalized_mouse((MouseEvent { kind: MouseEventKind::ScrollDown, column, row })) == Some(
            MouseInput::ScrollDown,
        ),
        normalized_mouse(ev) is Some ==> ev.kind == MouseEventKind::Down(MouseButton::Left)
            || ev.kind == MouseEventKind::ScrollUp || ev.kind == MouseEventKind::ScrollDown,
{
}

/// A digit stands for the number that it spells.
pub proof fn a_digit_is_its_number(n: nat, c: char)
    requires
        n < 10,
        crate::text::decimal(n) == seq![c],
    ensures
        crate::keys::digit_of(Input::Char(c)) == Some(n as u32),
{
    assert(crate::text::decimal(n)[0] == c);
}

// ------------------------------------------------------------ what prompts show

/// A rename starts from the slug there is, and Enter runs it. A resume starts from no
/// prompt, and a close leaves the epic alone; both are armed on their action row. The
/// title of each names the quest.
pub proof fn a_prompt_shows_the_quest_it_is_about(a: AppV, row: QuestRow)
    ensures
        ({
            let f = quests::rename_form(row);
            &&& has_text(f.title, row.view.quest.slug@)
            &&& f.fields[0] is Text && label_of(f.fields[0]) == quests::F_SLUG@
            &&& f.fields[0]->before + f.fields[0]->after == row.view.quest.slug@
            &&& f.commit == crate::form::Commit::Harmless
        }),
        ({
            let f = quests::resume_form(row);
            &&& has_text(f.title, row.view.quest.slug@)
            &&& f.fields[0] is Text && label_of(f.fields[0]) == quests::F_PROMPT@
            &&& (f.fields[0]->before + f.fields[0]->after).len() == 0
            &&& f.fields.last() is Select && f.fields.last()->guarded
            &&& f.fields.last()->options == seq!["cancel"@, "resume"@] && f.fields.last()->at == 0
        }),
        ({
            let f = quests::close_form(a, row);
            let epic = row.view.quest.beads_epic;
            &&& has_text(f.title, row.view.quest.slug@)
            &&& f.fields[0] is Select && f.fields[0]->guarded && f.fields[0]->at == 0
            &&& f.fields[0]->options == seq!["cancel"@, "close"@]
            &&& row.view.display_state != DisplayState::Finished ==> f.fields[1] is Note
                && has_text(f.fields[1]->Note_0, a.tmux_prefix + row.view.quest.slug@) && has_text(
                f.fields[1]->Note_0,
                crate::text::decimal(row.view.live_sessions as nat),
            )
            &&& epic is Some ==> f.fields[2] == (FieldV::Toggle {
                label: quests::F_CLOSE_EPIC@,
                on: false,
            }) && f.fields[3] is Note && has_text(f.fields[3]->Note_0, epic->0@)
            &&& epic is None ==> forall|i: int|
                1 <= i < f.fields.len() ==> (#[trigger] f.fields[i]) is Note
        }),
{
    let slug = row.view.quest.slug@;
    lemma_said(quests::rename_form(row).title, "rename "@, slug, Seq::empty());
    lemma_said(quests::resume_form(row).title, "resume "@, slug, Seq::empty());
    lemma_said(quests::close_form(a, row).title, "close "@, slug, "?"@);
    let r = quests::rename_form(row);
    assert(r.fields[0]->before + r.fields[0]->after =~= slug);
    let f = quests::close_form(a, row);
    let n = crate::text::decimal(row.view.live_sessions as nat);
    let name = a.tmux_prefix + slug;
    if row.view.display_state != DisplayState::Finished {
        let t = f.fields[1]->Note_0;
        assert(t =~= "kills tmux "@ + name + (" \u{b7} ends "@ + n + " live session(s)"@));
        lemma_said(t, "kills tmux "@, name, " \u{b7} ends "@ + n + " live session(s)"@);
        assert(t =~= ("kills tmux "@ + name + " \u{b7} ends "@) + n + " live session(s)"@);
        lemma_said(t, "kills tmux "@ + name + " \u{b7} ends "@, n, " live session(s)"@);
    }
    if let Some(epic) = row.view.quest.beads_epic {
        lemma_said(f.fields[3]->Note_0, "epic "@, epic@, Seq::empty());
    }
}

/// The form of a new quest starts blank, with an epic asked for, and offers every
/// workflow, every machine and every template there is.
pub proof fn a_new_quest_can_be_anything_there_is(a: AppV, i: int)
    requires
        a.machines.len() > 0,
    ensures
        ({
            let f = quests::new_form(a);
            let w = f.fields[3];
            let m = f.fields[4];
            let t = f.fields[5];
            &&& label_of(f.fields[0]) == quests::F_NAME@ && label_of(f.fields[1]) == quests::F_GOAL@
            &&& label_of(f.fields[2]) == quests::F_DIR@
            &&& forall|k: int|
                0 <= k < 3 ==> (#[trigger] f.fields[k]) is Text && (f.fields[k]->before
                    + f.fields[k]->after).len() == 0
            &&& w is Select && label_of(w) == quests::F_WORKFLOW@ && w->at == 0
            &&& w->options.len() == a.quests.workflows.len() + 1
            &&& 0 <= i < a.quests.workflows.len() ==> w->options[i + 1] == a.quests.workflows[i]
            &&& m is Select && label_of(m) == quests::F_MACHINE@ && m->at == 0
            &&& m->options == a.machines
            &&& t is Select && label_of(t) == quests::F_TEMPLATE@ && t->at == 0
            &&& t->options.len() == a.quests.templates.len() + 1
            &&& 0 <= i < a.quests.templates.len() ==> t->options[i + 1]
                == a.quests.templates[i].name@
            &&& f.fields[6] == (FieldV::Toggle { label: quests::F_BEADS@, on: true })
            &&& f.fields.last() is Select && f.fields.last()->guarded && f.fields.last()->at == 0
            &&& f.fields.last()->options == seq!["cancel"@, "create"@]
            &&& f.focus == Some(0nat)
        }),
{
}

/// A quest that is handed over is said by its slug.
pub proof fn a_handed_quest_is_named(a: AppV)
    requires
        commands(a, Tab::Quests),
        selection(a.quests) is Some,
        selection(a.quests)->0.origin is Local,
    ensures
        has_text(
            app_key(a, Input::Char('e')).1.status,
            selection(a.quests)->0.view.quest.slug@,
        ),
        has_text(
            app_key(a, Input::Char('s')).1.status,
            selection(a.quests)->0.view.quest.slug@,
        ),
{
    let slug = selection(a.quests)->0.view.quest.slug@;
    lemma_said(app_key(a, Input::Char('e')).1.status, "events"@ + " of "@, slug, Seq::empty());
    lemma_said(app_key(a, Input::Char('s')).1.status, "sessions"@ + " of "@, slug, Seq::empty());
}

/// The command that stands in for a key on another machine does what the key does.
pub proof fn a_command_does_what_its_key_does()
    ensures
        quests::command_for('s') == "q sessions"@,
        quests::command_for('e') == "q events"@,
        quests::command_for('r') == "q rename"@,
        quests::command_for('c') == "q close"@,
        quests::command_for('R') == "q resume"@,
        quests::command_for('b') == "q brief"@,
        quests::command_for('l') == "q links"@,
{
}

/// A message stays for eight seconds, in whole ticks and for one tick at least, and
/// then it is gone, unless something is being typed.
pub proof fn a_message_stays_for_seconds(a: AppV, n: int)
    requires
        a.status.len() > 0,
        a.tick_secs >= 1,
        n == a.ticks - a.status_at,
        n >= 0,
    ensures
        is_capturing(a) ==> crate::app::status_shown(a) == Some(a.status),
        (n + 1) * a.tick_secs <= crate::app::STATUS_SECS || n == 0 ==> crate::app::status_shown(a)
            == Some(a.status),
        !is_capturing(a) && n > 0 && (n + 1) * a.tick_secs > crate::app::STATUS_SECS
            ==> crate::app::status_shown(a) is None,
{
    let secs = a.tick_secs as int;
    let all = crate::app::STATUS_SECS as int;
    let q = all / secs;
    assert(q * secs <= all < (q + 1) * secs) by (nonlinear_arith)
        requires
            q == all / secs,
            secs >= 1,
            all >= 0,
    ;
    if n < q {
        assert((n + 1) * secs <= q * secs) by (nonlinear_arith)
            requires
                n < q,
                secs >= 1,
        ;
    } else {
        assert((n + 1) * secs >= (q + 1) * secs) by (nonlinear_arith)
            requires
                n >= q,
                secs >= 1,
        ;
    }
}

/// The search box says how many quests match what is typed so far.
pub proof fn the_search_box_counts_what_matches(a: AppV, c: char)
    requires
        a.tab == Tab::Quests,
        !a.help,
        a.modal is None,
        a.quests.searching,
    ensures
        ({
            let t = app_key(a, Input::Char(c)).1;
            let b = app_key(a, Input::Backspace).1;
            let n = crate::text::decimal(on_screen(t.quests).len());
            let m = crate::text::decimal(on_screen(b.quests).len());
            &&& has_text(t.status, n + " matching"@)
            &&& has_text(b.status, m + " matching"@) && has_text(b.status, b.quests.query)
        }),
{
    let t = app_key(a, Input::Char(c)).1;
    let b = app_key(a, Input::Backspace).1;
    lemma_box(t.quests.query, crate::text::decimal(on_screen(t.quests).len()));
    lemma_box(b.quests.query, crate::text::decimal(on_screen(b.quests).len()));
}

proof fn lemma_box(query: Seq<char>, n: Seq<char>)
    ensures
        has_text("/"@ + query + "\u{2588}  "@ + n + " matching"@, n + " matching"@),
        has_text("/"@ + query + "\u{2588}  "@ + n + " matching"@, query),
{
    lemma_five("/"@, query, "\u{2588}  "@, n, " matching"@);
    let s = "/"@ + query + "\u{2588}  "@ + n + " matching"@;
    lemma_said(s, "/"@ + query + "\u{2588}  "@, n + " matching"@, Seq::empty());
    lemma_said(s, "/"@, query, "\u{2588}  "@ + n + " matching"@);
}

/// Two ways to put five texts together.
proof fn lemma_five(a: Seq<char>, b: Seq<char>, c: Seq<char>, d: Seq<char>, e: Seq<char>)
    ensures
        a + b + c + d + e == a + b + c + (d + e) + Seq::<char>::empty(),
        a + b + c + d + e == a + b + (c + d + e),
{
    assert(a + b + c + d + e =~= a + b + c + (d + e) + Seq::<char>::empty());
    assert(a + b + c + d + e =~= a + b + (c + d + e));
}

/// With nothing filtered the bar names no filter.
pub proof fn the_bar_names_no_filter_that_is_off(a: AppV)
    ensures
        a.tab == Tab::Quests && a.quests.query.len() == 0 && a.quests.machine is None
            && !a.quests.show_finished ==> crate::app::filters_shown(a).len() == 0,
        a.tab == Tab::Events && a.events.query.len() == 0 && a.events.quest is None
            && a.events.follow ==> crate::app::filters_shown(a) == "tailing"@,
        a.tab == Tab::Events && a.events.query.len() == 0 && a.events.quest is None
            && !a.events.follow ==> crate::app::filters_shown(a) == "paused"@,
        a.tab == Tab::Sessions || a.tab == Tab::Templates ==> crate::app::filters_shown(a).len()
            == 0,
{
    if a.tab == Tab::Events && a.events.query.len() == 0 && a.events.quest is None {
        let parts = events::tail_parts(a.events);
        assert(parts.len() == 1);
    }
}

/// On an empty listing moving does nothing.
pub proof fn nothing_moves_on_an_empty_listing(a: AppV)
    requires
        commands(a, Tab::Quests),
        on_screen(a.quests).len() == 0,
    ensures
        app_key(a, Input::Down) == (Action::Nothing, a),
        app_key(a, Input::Up) == (Action::Nothing, a),
        app_key(a, Input::PageDown) == (Action::Nothing, a),
        app_key(a, Input::End) == (Action::Nothing, a),
{
}

/// Enter keeps the query in force and says how to get rid of it.
pub proof fn a_kept_query_is_said(a: AppV)
    requires
        !a.help,
        a.modal is None,
        is_capturing(a),
    ensures
        a.tab == Tab::Quests && a.quests.query.len() > 0 ==> has_text(
            app_key(a, Input::Enter).1.status,
            a.quests.query,
        ),
        a.tab == Tab::Quests && a.quests.query.len() == 0 ==> app_key(
            a,
            Input::Enter,
        ).1.status.len() == 0,
        a.tab == Tab::Events && a.events.query.len() > 0 && events::kinds_of(a.events.query) is Ok
            ==> has_text(app_key(a, Input::Enter).1.status, a.events.query),
        a.tab == Tab::Events && a.events.query.len() > 0 && events::kinds_of(a.events.query) is Err
            ==> has_text(
            app_key(a, Input::Enter).1.status,
            events::kinds_of(a.events.query)->Err_0,
        ),
        app_key(a, Input::Esc).1.status.len() == 0,
{
    let s = app_key(a, Input::Enter).1.status;
    let esc = " \u{b7} Esc clears"@;
    if a.tab == Tab::Quests && a.quests.query.len() > 0 {
        lemma_said(s, "filter /"@, a.quests.query, esc);
    }
    if a.tab == Tab::Events && a.events.query.len() > 0 {
        match events::kinds_of(a.events.query) {
            Ok(_) => {
                lemma_said(s, "kind "@, a.events.query, esc);
            },
            Err(why) => {
                lemma_said(s, Seq::empty(), why, esc);
            },
        }
    }
}

/// A new quest can be asked for whatever is selected, and the panel of any quest
/// opens and closes, also of one on another machine.
pub proof fn some_keys_work_on_every_row(a: AppV)
    requires
        commands(a, Tab::Quests),
    ensures
        app_key(a, Input::Char('n')).1.modal is Some,
        app_key(a, Input::Char('n')).1.modal->0.prompt is NewQuest,
        app_key(a, Input::Char('n')).1.modal->0.form == quests::new_form(a),
        selection(a.quests) is Some ==> app_key(a, Input::Enter) == (
            Action::Nothing,
            AppV { detail: !a.detail, ..a },
        ),
{
}

/// The tabs that are not loaded yet answer to the shell's keys alone.
pub proof fn an_empty_tab_answers_to_the_shell_alone(a: AppV, c: char)
    requires
        commands(a, Tab::Sessions) || commands(a, Tab::Templates),
        c != 'q' && c != '?' && c != 'x',
        !('0' <= c <= '9'),
    ensures
        app_key(a, Input::Char(c)) == (Action::Nothing, a),
        app_key(a, Input::Up) == (Action::Nothing, a),
        app_key(a, Input::Enter) == (Action::Nothing, a),
        app_key(a, Input::Esc) == (Action::Nothing, a),
{
}

/// A form that is up gets the keys and the pasted text: Esc takes it down and gives
/// the bar back, a submit leaves it up for the one who runs it, and whatever it does
/// with anything else, the tab behind it stays as it is.
pub proof fn a_form_that_is_up_gets_the_input(a: AppV, input: Input, text: Seq<char>)
    requires
        !a.help,
        a.modal is Some,
        input != Input::Ctrl('c'),
    ensures
        ({
            let form = a.modal->0.form;
            let (action, b) = app_key(a, input);
            let (outcome, edited) = crate::form::handled(form, input);
            &&& b.quests == a.quests && b.events == a.events && b.tab == a.tab
            &&& outcome == crate::form::Outcome::Cancel ==> action == Action::Nothing && b.modal
                is None && b.status.len() == 0
            &&& outcome == crate::form::Outcome::Submit ==> action == Action::Submit && b.modal
                is Some && b.modal->0.form == edited
            &&& outcome == crate::form::Outcome::Editing ==> action == Action::Nothing && b.modal
                is Some && b.modal->0.form == edited && b.status == a.status
            &&& b.modal is Some ==> b.modal->0.prompt == a.modal->0.prompt
            &&& app_paste(a, text).0 == crate::form::pasted(form, text).0
            &&& app_paste(a, text).1.modal is Some && app_paste(a, text).1.modal->0.form
                == crate::form::pasted(form, text).1
            &&& app_paste(a, text).1.modal->0.prompt == a.modal->0.prompt
            &&& app_paste(a, text).1.quests == a.quests
        }),
{
}

/// A box that is left for another tab is closed, and what was half typed into it is
/// no filter; a form that is left is gone.
pub proof fn what_is_half_typed_is_dropped(a: AppV, tab: Tab)
    requires
        tab != a.tab,
    ensures
        ({
            let b = crate::app::on_tab(a, tab);
            &&& b.modal is None
            &&& a.tab == Tab::Quests && a.quests.searching ==> !b.quests.searching
                && b.quests.query.len() == 0 && b.quests.rows == a.quests.rows
            &&& a.tab == Tab::Events && a.events.filtering ==> !b.events.filtering
                && b.events.query.len() == 0 && b.events.rows == a.events.rows
            &&& a.tab == Tab::Quests && !a.quests.searching ==> b.quests == a.quests
            &&& a.tab == Tab::Events && !a.events.filtering ==> b.events == a.events
        }),
{
}

} // verus!
