//! What a frame shows: the tab bar, the status bar, the bodies of the tabs and the
//! overlay.
use vstd::prelude::*;
use vstd::string::*;
use crate::app::{
    app_mouse, arrived, chips_shown, dismissed, is_capturing, opened, own_help, shell_help, started,
    status_shown, tab_at, tab_column, tab_covers, tab_index, tab_label, tab_title, with_remotes,
    AppV, ModalV, PromptV, Tab, TAB_SEP,
};
use crate::event_lines::{
    cell_text, cells_text, empty_tail, event_head, event_panel, event_text, padded, payload_text,
    sanitized, widths_text, CellsV, Widths,
};
use crate::events::{event_selected, events_on_screen, EventsV};
use crate::form::FormV;
use crate::keys::MouseInput;
use crate::layout::{display_width, mode_lines, Rect};
use crate::model::{Config, EventRow, Remote};
use crate::paint::{LineV, Style};
use crate::quest_laws::lemma_said;
use crate::quest_lines::{empty_text, panel_text};
use crate::quests::{on_screen, selection, selection_events, selection_links};
use crate::screen::{
    aligned, bar_spans, boxed_lines, events_body, framed, help_of, hint_text, idle_text,
    key_columns, left_text, message_text, overlay_rows, quests_body, screen_of, status_of,
};
use crate::table::table_of;
use crate::text::{decimal, has_text, is_control, lines, signed};

verus! {

// ------------------------------------------------------------------- the start

/// The machines to choose from: this one first, then each remote once, under its
/// name.
pub proof fn every_machine_is_offered_once(known: Seq<Seq<char>>, remotes: Seq<Remote>, i: int)
    requires
        known.no_duplicates(),
    ensures
        with_remotes(known, remotes).len() >= known.len(),
        with_remotes(known, remotes).take(known.len() as int) == known,
        with_remotes(known, remotes).no_duplicates(),
        0 <= i < remotes.len() ==> with_remotes(known, remotes).contains(remotes[i].name@),
        forall|m: Seq<char>| #[trigger]
            with_remotes(known, remotes).contains(m) ==> known.contains(m) || exists|j: int|
                0 <= j < remotes.len() && (#[trigger] remotes[j]).name@ == m,
    decreases remotes.len(),
{
    let all = with_remotes(known, remotes);
    if remotes.len() == 0 {
        assert(all.take(known.len() as int) =~= known);
    } else {
        let front = remotes.drop_last();
        let before = with_remotes(known, front);
        let name = remotes.last().name@;
        every_machine_is_offered_once(known, front, i);
        if before.contains(name) {
            assert(all == before);
        } else {
            assert(all == before.push(name));
            assert(all.take(known.len() as int) =~= before.take(known.len() as int));
            assert(all[before.len() as int] == name);
        }
        assert(all.contains(name));
        if 0 <= i < front.len() {
            let k = choose|k: int| 0 <= k < before.len() && before[k] == front[i].name@;
            assert(all[k] == remotes[i].name@);
        }
        assert forall|m: Seq<char>| #[trigger] all.contains(m) implies known.contains(m)
            || exists|j: int| 0 <= j < remotes.len() && (#[trigger] remotes[j]).name@ == m by {
            if m == name {
                assert(remotes[remotes.len() - 1].name@ == m);
            } else {
                let k = choose|k: int| 0 <= k < all.len() && all[k] == m;
                assert(k < before.len());
                assert(before[k] == m);
                assert(before.contains(m));
                if !known.contains(m) {
                    let j = choose|j: int| 0 <= j < front.len() && (#[trigger] front[j]).name@ == m;
                    assert(remotes[j].name@ == m);
                }
            }
        }
    }
}

/// A dashboard starts on the quests, with what is configured and nothing loaded,
/// typed or said.
pub proof fn a_dashboard_starts_as_configured(config: Config, machine: Seq<char>)
    ensures
        ({
            let a = started(config, machine);
            &&& a.tab == Tab::Quests && !a.help && !a.should_quit && a.modal is None
            &&& a.machine == machine && a.rows == config.ui.rows && a.mouse == config.ui.mouse
            &&& a.tick_secs >= 1 && (config.ui.tick_local >= 1 ==> a.tick_secs
                == config.ui.tick_local)
            &&& a.tmux_prefix == config.tmux.session_prefix@
            &&& a.machines.len() >= 1 && a.machines[0] == machine
            &&& a.quests.rows.len() == 0 && a.quests.query.len() == 0 && !a.quests.searching
            &&& !a.quests.show_finished && a.quests.machine is None
            &&& a.events.rows.len() == 0 && a.events.query.len() == 0 && a.events.quest is None
            &&& a.events.follow && !a.events.loaded
            &&& a.refresh_error is None && a.remote_note is None && a.status.len() == 0
        }),
{
    let known = seq![machine];
    every_machine_is_offered_once(known, config.remotes@, 0);
    let all = with_remotes(known, config.remotes@);
    assert(all.take(1)[0] == known[0]);
}

/// A form that is put up says its title and how to get out; taken down, it takes
/// that with it.
pub proof fn a_form_says_what_it_is(a: AppV, prompt: PromptV, form: FormV)
    ensures
        opened(a, prompt, form).modal == Some(ModalV { prompt, form }),
        has_text(opened(a, prompt, form).status, form.title),
        has_text(opened(a, prompt, form).status, form.hint),
        opened(a, prompt, form).quests == a.quests,
        dismissed(opened(a, prompt, form)).modal is None,
        dismissed(opened(a, prompt, form)).status.len() == 0,
        dismissed(opened(a, prompt, form)).quests == a.quests,
{
    let s = opened(a, prompt, form).status;
    let d = " \u{b7} "@;
    assert(s =~= Seq::<char>::empty() + form.title + (d + form.hint));
    lemma_said(s, Seq::empty(), form.title, d + form.hint);
    assert(s =~= (form.title + d) + form.hint + Seq::empty());
    lemma_said(s, form.title + d, form.hint, Seq::empty());
}

// ----------------------------------------------------------------- the tab bar

/// The bar shows every tab in order, under its number and its title, and marks the
/// one in front and no other.
pub proof fn the_bar_shows_every_tab(front: Tab, tab: Tab)
    ensures
        ({
            let spans = bar_spans(front, 4);
            let at = 2 * tab_index(tab) + 1;
            &&& spans.len() == 8
            &&& spans[at].text == tab_label(tab)
            &&& spans[at].style == Style::Selected <==> tab == front
            &&& has_text(tab_label(tab), tab_title(tab))
            &&& has_text(tab_label(tab), decimal((tab_index(tab) + 1) as nat))
        }),
{
    let s0 = bar_spans(front, 0);
    let s1 = bar_spans(front, 1);
    let s2 = bar_spans(front, 2);
    let s3 = bar_spans(front, 3);
    let s4 = bar_spans(front, 4);
    assert(s0.len() == 1);
    assert(s1.len() == 2);
    assert(s2.len() == 4);
    assert(s3.len() == 6);
    assert(s4.len() == 8);
    assert(s4[1] == s3[1] && s3[1] == s2[1] && s2[1] == s1[1]);
    assert(s4[3] == s3[3] && s3[3] == s2[3]);
    assert(s4[5] == s3[5]);
    let t = tab_title(tab);
    let d = decimal((tab_index(tab) + 1) as nat);
    let l = tab_label(tab);
    assert(l =~= Seq::<char>::empty() + d + (" "@ + t));
    lemma_said(l, Seq::empty(), d, " "@ + t);
    assert(l =~= (d + " "@) + t + Seq::empty());
    lemma_said(l, d + " "@, t, Seq::empty());
}

/// A click on a label brings that tab to the front. The labels stand side by side,
/// so the column of a click lies in one of them at most.
pub proof fn a_click_on_a_label_selects_its_tab(a: AppV, tab: Tab, col: u16)
    requires
        !a.help,
        col < a.tab_bar_width,
        tab_column(tab_index(tab)) <= col < tab_column(tab_index(tab)) + display_width(
            tab_label(tab),
        ),
    ensures
        app_mouse(a, MouseInput::Click { col, row: 0 }) == arrived(a, tab),
        app_mouse(a, MouseInput::Click { col, row: 0 }).1.tab == tab,
{
    assert(tab_covers(tab, col as int));
    let chosen = choose|t: Tab| #[trigger] tab_covers(t, col as int);
    assert(tab_covers(chosen, col as int));
    lemma_columns();
    if tab_index(chosen) < tab_index(tab) {
        lemma_apart(chosen, tab);
    } else if tab_index(tab) < tab_index(chosen) {
        lemma_apart(tab, chosen);
    }
    assert(chosen == tab);
}

proof fn lemma_columns()
    ensures
        forall|i: int|
            0 <= i < 3 ==> #[trigger] tab_column(i) + display_width(tab_label(tab_at(i)))
                <= tab_column(i + 1),
{
    assert forall|i: int| 0 <= i < 3 implies #[trigger] tab_column(i) + display_width(
        tab_label(tab_at(i)),
    ) <= tab_column(i + 1) by {
        assert(tab_column(i + 1) == tab_column(i) + display_width(tab_label(tab_at(i)))
            + display_width(TAB_SEP@));
    }
}

proof fn lemma_apart(x: Tab, y: Tab)
    requires
        tab_index(x) < tab_index(y),
    ensures
        tab_column(tab_index(x)) + display_width(tab_label(x)) <= tab_column(tab_index(y)),
{
    lemma_columns();
    let i = tab_index(x);
    assert(tab_at(i) == x);
    assert(tab_column(i) + display_width(tab_label(tab_at(i))) <= tab_column(i + 1));
    if i + 1 < tab_index(y) {
        assert(tab_column(i + 1) + display_width(tab_label(tab_at(i + 1))) <= tab_column(i + 2));
        if i + 2 < tab_index(y) {
            assert(tab_column(i + 2) + display_width(tab_label(tab_at(i + 2))) <= tab_column(i + 3));
        }
    }
}

// -------------------------------------------------------------- the status bar

/// The bar says a failed reload, whatever else there is to say; what is being
/// typed stands on it even then; a message stands on it where nothing failed; and
/// with nothing to say it tells how the dashboard runs.
pub proof fn the_status_bar_says_what_matters(a: AppV)
    ensures
        a.refresh_error is Some ==> has_text(message_text(a), a.refresh_error->0),
        is_capturing(a) && a.status.len() > 0 ==> has_text(message_text(a), a.status),
        a.refresh_error is None && status_shown(a) is Some ==> has_text(
            message_text(a),
            status_shown(a)->0,
        ),
        a.refresh_error is None && status_shown(a) is None ==> {
            &&& message_text(a) == idle_text(a)
            &&& has_text(idle_text(a), a.machine)
            &&& has_text(idle_text(a), decimal(a.tick_secs as nat))
            &&& has_text(
                idle_text(a),
                if a.mouse {
                    "mouse on"@
                } else {
                    "mouse off"@
                },
            )
        },
{
    let m = message_text(a);
    let d = " \u{b7} "@;
    if let Some(e) = a.refresh_error {
        match status_shown(a) {
            Some(s) => {
                if is_capturing(a) {
                    assert(m =~= (" "@ + s + d) + e + Seq::empty());
                    lemma_said(m, " "@ + s + d, e, Seq::empty());
                    assert(m =~= " "@ + s + (d + e));
                    lemma_said(m, " "@, s, d + e);
                } else {
                    lemma_said(m, " "@, e, Seq::empty());
                }
            },
            None => {
                lemma_said(m, " "@, e, Seq::empty());
            },
        }
    } else {
        match status_shown(a) {
            Some(s) => {
                lemma_said(m, " "@, s, Seq::empty());
            },
            None => {
                reveal_strlit("s \u{b7} mouse ");
                reveal_strlit("mouse on");
                reveal_strlit("mouse off");
                reveal_strlit("on");
                reveal_strlit("off");
                let rows = decimal(mode_lines(crate::app::mode_of(a)) as nat);
                let tick = decimal(a.tick_secs as nat);
                let mouse = if a.mouse {
                    "on"@
                } else {
                    "off"@
                };
                let x = " \u{b7} rows "@ + rows + " \u{b7} tick "@ + tick + "s \u{b7} mouse "@ + mouse;
                assert(m =~= " "@ + a.machine + x);
                lemma_said(m, " "@, a.machine, x);
                let y = " "@ + a.machine + " \u{b7} rows "@ + rows + " \u{b7} tick "@;
                assert(m =~= y + tick + ("s \u{b7} mouse "@ + mouse));
                lemma_said(m, y, tick, "s \u{b7} mouse "@ + mouse);
                let full = if a.mouse {
                    "mouse on"@
                } else {
                    "mouse off"@
                };
                let z = seq!['s', ' ', '\u{b7}', ' '];
                assert("s \u{b7} mouse "@ + mouse =~= z + full);
                assert(m =~= (y + tick + z) + full + Seq::empty());
                lemma_said(m, y + tick + z, full, Seq::empty());
            },
        }
    }
}

/// The filters lead the bar, and the message follows them.
pub proof fn the_filters_lead_the_bar(a: AppV)
    ensures
        has_text(left_text(a), message_text(a)),
        chips_shown(a).len() > 0 ==> has_text(left_text(a), chips_shown(a)),
        chips_shown(a).len() > 0 ==> left_text(a).len() > message_text(a).len(),
        chips_shown(a).len() == 0 ==> left_text(a) == message_text(a),
{
    let l = left_text(a);
    let m = message_text(a);
    let c = chips_shown(a);
    if c.len() == 0 {
        lemma_said(l, Seq::empty(), m, Seq::empty());
    } else {
        assert(l =~= (" ["@ + c + "]"@) + m + Seq::empty());
        lemma_said(l, " ["@ + c + "]"@, m, Seq::empty());
        assert(l =~= " ["@ + c + ("]"@ + m));
        lemma_said(l, " ["@, c, "]"@ + m);
    }
}

/// Where there is room the bar says all of it, on its two sides.
pub proof fn the_bar_is_cut_only_where_it_must_be(a: AppV, area: Rect)
    ensures
        ({
            let s = status_of(a, area);
            &&& s.left.x == area.x && s.left.width + s.right.width == area.width
            &&& display_width(left_text(a)) <= s.left.width ==> s.message.text == left_text(a)
            &&& display_width(hint_text(a)) <= s.right.width ==> s.hint.text == hint_text(a)
        }),
{
}

// ------------------------------------------------------------------ the bodies

/// A panel shows the first of its lines that fit, each cut to its width, and
/// skips none.
pub proof fn a_box_shows_its_first_lines(all: Seq<LineV>, columns: int, height: int, i: int)
    requires
        columns > 0,
        height > 0,
    ensures
        boxed_lines(all, columns, height).len() == if all.len() <= height {
            all.len() as int
        } else {
            height
        },
        0 <= i < boxed_lines(all, columns, height).len() ==> {
            &&& boxed_lines(all, columns, height)[i].style == all[i].style
            &&& display_width(all[i].text) <= columns ==> boxed_lines(all, columns, height)[i]
                == all[i]
        },
{
}

/// The body of the quests: the listing, or what there is to say where it is empty,
/// and the panel of the selected quest where it is open.
pub proof fn the_quests_are_shown(a: AppV, area: Rect)
    requires
        area.height > 0,
        area.width > 0,
    ensures
        ({
            let b = quests_body(a, area);
            &&& b.panel is Some <==> a.detail && selection(a.quests) is Some
            &&& b.panel is None ==> b.list is Some
            &&& b.panel is Some ==> has_text(
                b.panel->0.title,
                selection(a.quests)->0.view.quest.slug@,
            )
            &&& b.list is Some && on_screen(a.quests).len() == 0 ==> b.list->0.lines == empty_text(
                a.quests,
            )
            &&& b.panel is Some && area.width - 4 >= 1 && area.height - 2 >= 1 && !(area.width
                >= crate::layout::WIDE_COLS) ==> b.panel->0.lines == boxed_lines(
                panel_text(
                    selection(a.quests)->0,
                    selection_links(a.quests),
                    selection_events(a.quests),
                ),
                area.width - 4,
                area.height - 2,
            )
        }),
{
    if a.detail && selection(a.quests) is Some {
        let slug = selection(a.quests)->0.view.quest.slug@;
        let t = quests_body(a, area).panel->0.title;
        lemma_said(t, " "@, slug, " "@);
    }
}

/// The body of the events: the tail, or what there is to say where it is empty,
/// and the panel of the selected event where it is open.
pub proof fn the_events_are_shown(a: AppV, area: Rect)
    requires
        area.height > 0,
        area.width > 0,
    ensures
        ({
            let b = events_body(a, area);
            &&& b.panel is Some <==> a.detail && event_selected(a.events) is Some
            &&& b.panel is None ==> b.list is Some
            &&& b.list is Some && events_on_screen(a.events).len() == 0 ==> b.list->0.lines
                == empty_tail(a.events)
        }),
{
}

/// A frame is laid out for the area it is drawn in, and shows a form and the
/// overlay exactly while they are up.
pub proof fn a_frame_shows_what_is_up(a: AppV, area: Rect)
    ensures
        framed(a, area).width == area.width,
        framed(a, area).height == area.height,
        framed(a, area).tab == a.tab,
        framed(a, area).modal == a.modal,
        screen_of(a, area).modal is Some <==> a.modal is Some,
        screen_of(a, area).help is Some <==> a.help,
        screen_of(a, area).header is Some <==> area.height > 0,
        screen_of(a, area).status is Some <==> area.height > 1,
        a.tab == Tab::Quests && area.height > 2 && area.width > 0 ==> screen_of(a, area).body.list
            is Some || screen_of(a, area).body.panel is Some,
        a.tab == Tab::Events && area.height > 2 && area.width > 0 ==> screen_of(a, area).body.list
            is Some || screen_of(a, area).body.panel is Some,
{
}

/// The overlay shows every key of the shell and every key of the tab, with what it
/// does.
pub proof fn the_overlay_shows_every_key(tab: Tab, area: Rect, i: int)
    ensures
        ({
            let rows = help_of(tab, area).1;
            let n = shell_help().len() as int;
            &&& 0 <= i < n ==> rows[i].1 == shell_help()[i].1 && has_text(
                rows[i].0,
                shell_help()[i].0,
            )
            &&& 0 <= i < own_help(tab).len() ==> rows[n + 1 + i].1 == own_help(tab)[i].1
                && has_text(rows[n + 1 + i].0, own_help(tab)[i].0)
            &&& rows.len() == n + if own_help(tab).len() == 0 {
                0
            } else {
                1 + own_help(tab).len()
            }
        }),
{
    let all = overlay_rows(tab);
    let keys = key_columns(all) as int;
    let rows = help_of(tab, area).1;
    let n = shell_help().len() as int;
    if 0 <= i < n {
        assert(all[i] == shell_help()[i]);
        lemma_aligned(all, keys, i);
    }
    if 0 <= i < own_help(tab).len() {
        assert(all[n + 1 + i] == own_help(tab)[i]);
        lemma_aligned(all, keys, n + 1 + i);
    }
}

proof fn lemma_aligned(rows: Seq<(Seq<char>, Seq<char>)>, keys: int, i: int)
    requires
        0 <= i < rows.len(),
    ensures
        aligned(rows, keys)[i].1 == rows[i].1,
        has_text(aligned(rows, keys)[i].0, rows[i].0),
{
    let k = rows[i].0;
    let t = aligned(rows, keys)[i].0;
    let blanks = if k.len() < keys {
        crate::text::repeated(' ', (keys - k.len()) as nat)
    } else {
        Seq::empty()
    };
    assert(t =~= blanks + k + Seq::empty());
    lemma_said(t, blanks, k, Seq::empty());
}

// ------------------------------------------------------------------ event rows

/// Text from outside keeps its length and every character that does nothing to the
/// terminal.
pub proof fn cleaning_keeps_what_is_harmless(s: Seq<char>, i: int)
    requires
        0 <= i < s.len(),
    ensures
        sanitized(s).len() == s.len(),
        !is_control(s[i]) ==> sanitized(s)[i] == s[i],
        is_control(s[i]) ==> !is_control(sanitized(s)[i]),
{
}

/// The columns of an event say its age, its quest, its session, its kind and its
/// payload, each where it fits as it is.
pub proof fn the_columns_of_an_event(row: EventRow)
    ensures
        ({
            let c = cells_text(row);
            let slug = sanitized(row.quest_slug@);
            let session = sanitized(row.session@);
            let kind = sanitized(row.event.kind@);
            let payload = sanitized(row.event.payload_line@);
            &&& c.age == row.event.age@
            &&& display_width(slug) <= crate::event_lines::QUEST_COLS ==> c.quest == slug
            &&& display_width(session) <= crate::event_lines::SESSION_COLS ==> c.session == session
            &&& display_width(kind) <= crate::event_lines::KIND_COLS ==> c.kind == kind
            &&& row.event.payload_line@.len() <= crate::event_lines::PAYLOAD_COLS && display_width(
                payload,
            ) <= crate::event_lines::PAYLOAD_COLS ==> c.payload == payload
        }),
{
}

/// Each column is as wide as the widest cell in it.
pub proof fn a_column_has_room_for_every_cell(e: EventsV, across: bool, n: int, i: int)
    requires
        0 <= i < n,
    ensures
        ({
            let w = widths_text(e, across, n);
            let c = cells_text(e.rows[events_on_screen(e)[i]]);
            &&& w.age >= display_width(c.age)
            &&& w.session >= display_width(c.session)
            &&& across ==> w.quest >= display_width(c.quest)
        }),
    decreases n,
{
    if i < n - 1 {
        a_column_has_room_for_every_cell(e, across, n - 1, i);
    }
}

/// The head of an event says its age and its session; its quest where more than
/// one can show up; its kind where it has no line of its own.
pub proof fn the_head_of_an_event(c: CellsV, w: Widths, across: bool, selected: bool, three: bool)
    ensures
        has_text(event_head(c, w, across, selected, three), c.age),
        has_text(event_head(c, w, across, selected, three), c.session),
        across ==> has_text(event_head(c, w, across, selected, three), c.quest),
        !three ==> has_text(event_head(c, w, across, selected, three), c.kind),
        event_head(c, w, across, true, three) != event_head(c, w, across, false, three),
{
    reveal_strlit("\u{25b8} ");
    reveal_strlit("  ");
    let h = event_head(c, w, across, selected, three);
    let mark = if selected {
        "\u{25b8} "@
    } else {
        "  "@
    };
    let age = padded(c.age, w.age as int);
    let quest = if across {
        padded(c.quest, w.quest as int) + " "@
    } else {
        Seq::empty()
    };
    let session = padded(c.session, w.session as int);
    let kind = if three {
        Seq::empty()
    } else {
        " "@ + c.kind
    };
    assert(h == mark + age + " "@ + quest + session + kind);
    assert(h =~= mark + age + (" "@ + quest + session + kind));
    lemma_said(h, mark, age, " "@ + quest + session + kind);
    lemma_padded(c.age, w.age as int);
    crate::tmux_laws::lemma_occurs_through(h, age, c.age);
    assert(h =~= (mark + age + " "@) + quest + (session + kind));
    lemma_said(h, mark + age + " "@, quest, session + kind);
    if across {
        let q = padded(c.quest, w.quest as int);
        lemma_padded(c.quest, w.quest as int);
        assert(quest =~= Seq::<char>::empty() + q + " "@);
        lemma_said(quest, Seq::empty(), q, " "@);
        crate::tmux_laws::lemma_occurs_through(h, quest, q);
        crate::tmux_laws::lemma_occurs_through(h, q, c.quest);
    }
    assert(h =~= (mark + age + " "@ + quest) + session + kind);
    lemma_said(h, mark + age + " "@ + quest, session, kind);
    lemma_padded(c.session, w.session as int);
    crate::tmux_laws::lemma_occurs_through(h, session, c.session);
    if !three {
        assert(h =~= (mark + age + " "@ + quest + session + " "@) + c.kind + Seq::empty());
        lemma_said(h, mark + age + " "@ + quest + session + " "@, c.kind, Seq::empty());
    }
    assert(event_head(c, w, across, true, three)[0] == '\u{25b8}');
    assert(event_head(c, w, across, false, three)[0] == ' ');
}

proof fn lemma_padded(s: Seq<char>, want: int)
    ensures
        has_text(padded(s, want), s),
{
    let t = padded(s, want);
    let blanks = if want > display_width(s) {
        crate::text::repeated(' ', (want - display_width(s)) as nat)
    } else {
        Seq::empty()
    };
    assert(t =~= Seq::<char>::empty() + s + blanks);
    lemma_said(t, Seq::empty(), s, blanks);
}

/// An event is drawn in two lines, its payload on the second, and on a narrow
/// terminal in three, its kind on the third; every line of the selected one is
/// marked and none of another.
pub proof fn an_event_is_drawn_in_two_lines_or_three(
    c: CellsV,
    w: Widths,
    across: bool,
    selected: bool,
    columns: int,
    per_row: int,
    i: int,
)
    ensures
        ({
            let ls = event_text(c, w, across, selected, columns, per_row);
            let indent = crate::quest_lines::INDENT@;
            &&& ls.len() == if per_row >= 3 {
                3int
            } else {
                2
            }
            &&& display_width(indent + c.payload) <= columns ==> ls[1].text == indent + c.payload
            &&& per_row >= 3 && display_width(indent + c.kind) <= columns ==> ls[2].text == indent
                + c.kind
            &&& 0 <= i < ls.len() ==> (ls[i].style == Style::Selected <==> selected)
        }),
{
}

/// The panel of an event says its kind, when it was, its quest, its session and its
/// number, and then its payload.
pub proof fn the_panel_of_an_event(row: EventRow, laid_out: Option<Seq<char>>, i: int)
    ensures
        ({
            let p = event_panel(row, laid_out);
            let payload = payload_text(crate::text::opt_text(row.event.payload), laid_out);
            &&& p[0].text == sanitized(row.event.kind@)
            &&& has_text(p[1].text, row.event.stamp@) && has_text(p[1].text, row.event.age@)
            &&& has_text(p[2].text, sanitized(row.quest_slug@)) && has_text(
                p[2].text,
                sanitized(row.session@),
            ) && has_text(p[2].text, signed(row.event.id as int))
            &&& 0 <= i < payload.len() ==> p[4 + i] == payload[i]
            &&& p.len() == 4 + payload.len()
        }),
{
    let p = event_panel(row, laid_out);
    let d = " \u{b7} "@;
    let s = row.event.stamp@;
    let a = row.event.age@;
    assert(p[1].text =~= Seq::<char>::empty() + s + (d + a + " ago"@));
    lemma_said(p[1].text, Seq::empty(), s, d + a + " ago"@);
    assert(p[1].text =~= (s + d) + a + " ago"@);
    lemma_said(p[1].text, s + d, a, " ago"@);
    let q = sanitized(row.quest_slug@);
    let t = sanitized(row.session@);
    let n = signed(row.event.id as int);
    let h = " \u{b7} #"@;
    assert(p[2].text =~= Seq::<char>::empty() + q + (d + t + h + n));
    lemma_said(p[2].text, Seq::empty(), q, d + t + h + n);
    assert(p[2].text =~= (q + d) + t + (h + n));
    lemma_said(p[2].text, q + d, t, h + n);
    assert(p[2].text =~= (q + d + t + h) + n + Seq::empty());
    lemma_said(p[2].text, q + d + t + h, n, Seq::empty());
}

/// A payload is shown line by line, laid out where it can be and as it is where it
/// cannot; one that is missing or null is said to be none.
pub proof fn a_payload_is_shown_line_by_line(
    payload: Option<Seq<char>>,
    laid_out: Option<Seq<char>>,
    i: int,
)
    ensures
        payload is None ==> payload_text(payload, laid_out).len() == 1 && payload_text(
            payload,
            laid_out,
        )[0].text == "no payload"@,
        payload is Some && laid_out == Some("null"@) ==> payload_text(payload, laid_out).len() == 1
            && payload_text(payload, laid_out)[0].text == "no payload"@,
        payload is Some && laid_out is Some && laid_out->0 != "null"@ ==> payload_text(
            payload,
            laid_out,
        ).len() == lines(laid_out->0).len() && (0 <= i < lines(laid_out->0).len() ==> payload_text(
            payload,
            laid_out,
        )[i].text == sanitized(lines(laid_out->0)[i])),
        payload is Some && laid_out is None ==> payload_text(payload, laid_out).len() == lines(
            payload->0,
        ).len() && (0 <= i < lines(payload->0).len() ==> payload_text(payload, laid_out)[i].text
            == sanitized(lines(payload->0)[i])),
{
}

/// An empty tail says why it is empty.
pub proof fn an_empty_tail_says_why(e: EventsV)
    ensures
        empty_tail(e).len() > 0,
        e.rows.len() > 0 || e.query.len() > 0 ==> empty_tail(e)[0].text
            == "no events match the filters"@,
        e.rows.len() == 0 && e.query.len() == 0 && e.loaded_query.len() > 0 ==> empty_tail(e)[0].text
            == "reloading the tail\u{2026}"@,
        e.rows.len() == 0 && e.query == e.loaded_query && e.query.len() == 0 && e.quest is None
            ==> empty_tail(e)[0].text == "no events yet"@,
        e.rows.len() == 0 && e.query == e.loaded_query && e.query.len() == 0 && e.quest is Some
            && e.quest_slug is Some ==> empty_tail(e)[0].text == "this quest has no events yet"@,
        e.rows.len() == 0 && e.query == e.loaded_query && e.query.len() == 0 && e.quest is Some
            && e.quest_slug is None ==> empty_tail(e)[0].text
            == "that quest is gone \u{b7} Esc for all quests"@,
{
}

// --------------------------------------------------------------------- tables

/// Of the pairs that set one key the last one counts, and a key that none sets is
/// not there.
pub proof fn the_last_pair_of_a_key_counts(pairs: Seq<(Seq<char>, Seq<char>)>, i: int)
    requires
        0 <= i < pairs.len(),
        forall|j: int| i < j < pairs.len() ==> (#[trigger] pairs[j]).0 != pairs[i].0,
    ensures
        table_of(pairs).dom().contains(pairs[i].0),
        table_of(pairs)[pairs[i].0] == pairs[i].1,
    decreases pairs.len(),
{
    if i < pairs.len() - 1 {
        assert(pairs[pairs.len() - 1].0 != pairs[i].0);
        let front = pairs.drop_last();
        assert forall|j: int| i < j < front.len() implies (#[trigger] front[j]).0 != front[i].0 by {
            assert(front[j] == pairs[j]);
        }
        the_last_pair_of_a_key_counts(front, i);
    }
}

/// A key that no pair sets is not in the table.
pub proof fn a_table_holds_no_other_key(pairs: Seq<(Seq<char>, Seq<char>)>, key: Seq<char>)
    requires
        forall|j: int| 0 <= j < pairs.len() ==> (#[trigger] pairs[j]).0 != key,
    ensures
        !table_of(pairs).dom().contains(key),
    decreases pairs.len(),
{
    if pairs.len() > 0 {
        assert(pairs[pairs.len() - 1].0 != key);
        let front = pairs.drop_last();
        assert forall|j: int| 0 <= j < front.len() implies (#[trigger] front[j]).0 != key by {
            assert(front[j] == pairs[j]);
        }
        a_table_holds_no_other_key(front, key);
    }
}

/// A tab is called by what it shows, and its number is its place on the bar.
pub proof fn a_tab_is_called_by_what_it_shows()
    ensures
        tab_title(Tab::Quests) == "Quests"@ && tab_index(Tab::Quests) == 0,
        tab_title(Tab::Sessions) == "Sessions"@ && tab_index(Tab::Sessions) == 1,
        tab_title(Tab::Templates) == "Templates"@ && tab_index(Tab::Templates) == 2,
        tab_title(Tab::Events) == "Events"@ && tab_index(Tab::Events) == 3,
{
}

/// The bar advertises the help and the way out on every tab, and a form its own way
/// out.
pub proof fn the_hint_names_the_way_out(a: AppV)
    ensures
        a.modal is None ==> has_text(hint_text(a), "? help"@) && has_text(hint_text(a), "q quit"@),
        a.modal is Some ==> has_text(hint_text(a), "Esc cancel"@),
{
    reveal_strlit("? help");
    reveal_strlit("q quit");
    reveal_strlit("Esc cancel");
    reveal_strlit(" Tab field \u{b7} \u{2190}\u{2192} choose \u{b7} Esc cancel ");
    reveal_strlit(" ? help \u{b7} o attach \u{b7} b brief \u{b7} q quit ");
    reveal_strlit(" ? help \u{b7} \u{23ce} enter \u{b7} p peek \u{b7} q quit ");
    reveal_strlit(" ? help \u{b7} / kind \u{b7} G tail \u{b7} q quit ");
    reveal_strlit(" ? help \u{b7} \u{23ce} run \u{b7} X export \u{b7} q quit ");
    let h = hint_text(a);
    let n = h.len() as int;
    if a.modal is Some {
        assert(h.subrange(n - 11, n - 1) =~= "Esc cancel"@);
        assert(crate::text::stands_at(h, "Esc cancel"@, n - 11));
    } else {
        assert(h.subrange(1, 7) =~= "? help"@);
        assert(crate::text::stands_at(h, "? help"@, 1));
        assert(h.subrange(n - 7, n - 1) =~= "q quit"@);
        assert(crate::text::stands_at(h, "q quit"@, n - 7));
    }
}

/// The header names the machine on its right, whole where there is room, and keeps
/// the tabs on its left; the two share the line.
pub proof fn the_header_names_the_machine(a: AppV, area: Rect)
    ensures
        ({
            let h = crate::screen::header_of(a, area);
            let name = " "@ + a.machine + " "@;
            &&& h.spans == bar_spans(a.tab, 4)
            &&& h.bar.x == area.x && h.bar.width + h.right.width == area.width
            &&& display_width(name) <= h.right.width ==> h.machine.text == name && has_text(
                h.machine.text,
                a.machine,
            )
        }),
{
    let name = " "@ + a.machine + " "@;
    lemma_said(name, " "@, a.machine, " "@);
}

/// The panel of the selected event is titled by its kind and holds the event, laid
/// out where its payload can be.
pub proof fn the_panel_is_that_of_the_selected_event(a: AppV, area: Rect)
    requires
        area.height > 2,
        area.width > 4,
        area.width < crate::layout::WIDE_COLS,
        a.detail,
        event_selected(a.events) is Some,
    ensures
        ({
            let row = event_selected(a.events)->0;
            let p = events_body(a, area).panel->0;
            let kind = sanitized(row.event.kind@);
            &&& display_width(kind) <= crate::event_lines::KIND_COLS ==> has_text(p.title, kind)
            &&& row.event.payload is Some ==> p.lines == event_panel(
                row,
                crate::json::json_pretty(row.event.payload->0@),
            )
            &&& row.event.payload is None ==> p.lines == event_panel(row, None)
        }),
{
    let row = event_selected(a.events)->0;
    let p = events_body(a, area).panel->0;
    lemma_said(
        p.title,
        " "@,
        cell_text(row.event.kind@, crate::event_lines::KIND_COLS as int),
        " "@,
    );
}

/// A narrow body shows the panel alone, and a wide one both side by side.
pub proof fn a_narrow_body_shows_one_thing(a: AppV, area: Rect)
    requires
        area.height > 0,
        area.width > 0,
        a.detail,
        selection(a.quests) is Some,
    ensures
        area.width < crate::layout::WIDE_COLS ==> quests_body(a, area).list is None,
        area.width >= crate::layout::WIDE_COLS ==> quests_body(a, area).list is Some,
{
}

/// From a line of the tail on every event that fits is drawn, in order and whole: row
/// `m` stands below the `above` lines of the rows before it.
pub proof fn every_event_that_fits_is_drawn(
    e: EventsV,
    w: Widths,
    columns: int,
    per_row: int,
    n: int,
    room: int,
    first: bool,
    m: int,
    above: int,
)
    requires
        per_row == 2 || per_row == 3,
        0 <= n <= m < events_on_screen(e).len(),
        above == (m - n) * per_row,
        above + per_row <= room,
    ensures
        ({
            let all = crate::event_lines::tail_text(e, w, columns, per_row, n, room, first);
            let row = e.rows[events_on_screen(e)[m]];
            &&& 0 <= above && above + per_row <= all.len()
            &&& all.subrange(above, above + per_row) == event_text(
                cells_text(row),
                w,
                e.quest is None,
                m == e.selected,
                columns,
                per_row,
            )
        }),
    decreases m - n,
{
    let vis = events_on_screen(e);
    let all = crate::event_lines::tail_text(e, w, columns, per_row, n, room, first);
    let one = event_text(
        cells_text(e.rows[vis[n]]),
        w,
        e.quest is None,
        n == e.selected,
        columns,
        per_row,
    );
    let rest = crate::event_lines::tail_text(
        e,
        w,
        columns,
        per_row,
        n + 1,
        room - per_row,
        false,
    );
    assert(above >= 0) by (nonlinear_arith)
        requires
            above == (m - n) * per_row,
            m >= n,
            per_row > 0,
    ;
    assert(one.len() == per_row);
    assert(all == one + rest);
    if m == n {
        assert(above == 0) by (nonlinear_arith)
            requires
                above == (m - n) * per_row,
                m == n,
        ;
        assert(all.subrange(0, per_row) =~= one);
    } else {
        let k = above - per_row;
        assert(k == (m - (n + 1)) * per_row) by (nonlinear_arith)
            requires
                above == (m - n) * per_row,
                k == above - per_row,
        ;
        every_event_that_fits_is_drawn(e, w, columns, per_row, n + 1, room - per_row, false, m, k);
        assert(all.subrange(above, above + per_row) =~= rest.subrange(k, k + per_row));
    }
}

/// A line is shared by its left band and its segment on the right: every cell of it
/// lies in exactly one of them.
pub proof fn a_line_is_shared(area: Rect, want: u16, x: int, y: int)
    requires
        area.x + area.width <= u16::MAX,
    ensures
        ({
            let (left, right) = crate::layout::cut_right(area, want);
            &&& crate::layout::holds_cell(area, x, y) <==> crate::layout::holds_cell(left, x, y)
                || crate::layout::holds_cell(right, x, y)
            &&& !(crate::layout::holds_cell(left, x, y) && crate::layout::holds_cell(right, x, y))
            &&& right.width <= want
        }),
{
    let t = (area.width + 2) / 3;
    assert(0 <= t <= area.width || area.width == 0);
}

/// An indented area loses its first column and nothing else; a box loses its frame.
pub proof fn an_indent_takes_one_column(area: Rect, x: int, y: int)
    requires
        area.x + area.width <= u16::MAX,
        area.width > 0,
    ensures
        crate::layout::holds_cell(crate::layout::indented(area), x, y)
            <==> crate::layout::holds_cell(area, x, y) && x != area.x,
        area.width >= 4 && area.height >= 2 ==> crate::layout::box_inside(area) == (
            area.width - 4,
            area.height - 2,
        ),
{
}

/// The overlay is wide enough for every key beside what it does, where the terminal is.
pub proof fn the_overlay_has_room_for_every_key(rows: Seq<(Seq<char>, Seq<char>)>, keys: int, i: int)
    requires
        0 <= i < rows.len(),
    ensures
        display_width(rows[i].0) <= key_columns(rows),
        keys >= 0 && keys + 2 + display_width(rows[i].1) <= usize::MAX ==> keys + 2
            + display_width(rows[i].1) <= crate::screen::row_columns(rows, keys),
    decreases rows.len(),
{
    if i < rows.len() - 1 {
        the_overlay_has_room_for_every_key(rows.drop_last(), keys, i);
    }
}

} // verus!
