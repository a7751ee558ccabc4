use questfleet::app::{tab_layout, Action, App, Tab};
use questfleet::keys::{Input, MouseInput};
use questfleet::layout::{width as columns_of, Rect, RowMode};
use questfleet::model::{
    Config, DisplayState, Event, Link, Origin, Progress, QError, Quest, QuestRow, QuestState,
    QuestView, Session, SessionRole, SessionStatus, Template,
};
use questfleet::quest_lines::{
    link_cell, link_cell_with, pack, panel_lines, pr_number, row_lines, session_line,
};
use questfleet::quests::{
    cli_equivalent, events_of_selection, handle, merge, refresh, selected_remote,
    sessions_of_selection, settle_view, sort_quests, sync, sync_step, viewport, wants_links,
    workflows_or_builtins, Anchor, State, Sync, EVENTS,
};
use questfleet::shell::report_refresh;
use questfleet::form::Drawing;
use questfleet::paint::{Line, Style};
use questfleet::screen::render;
use ratatui::buffer::Buffer;
use ratatui::style::Modifier;
use ratatui::widgets::{Block, Borders, Clear, Padding, Paragraph, Widget, Wrap};

fn quest(slug: &str, state: QuestState, updated_at: i64) -> Quest {
    Quest {
        id: format!("id-of-{slug}"),
        slug: slug.to_string(),
        goal: Some(format!("goal of {slug}")),
        machine: "laptop".to_string(),
        state,
        beads_epic: None,
        created_at: 1,
        updated_at,
    }
}

/// What a listing makes of a quest and its sessions.
fn view_of(quest: Quest, sessions: &[Session]) -> QuestView {
    let live: Vec<&Session> = sessions
        .iter()
        .filter(|s| s.status != SessionStatus::Ended)
        .collect();
    let needs_you = live.iter().any(|s| s.status == SessionStatus::Waiting);
    let busy = live.iter().any(|s| s.status == SessionStatus::Busy);
    let display_state = if quest.state == QuestState::Finished {
        DisplayState::Finished
    } else if busy || needs_you {
        DisplayState::Active
    } else {
        DisplayState::Idle
    };
    QuestView {
        display_state,
        needs_you,
        live_sessions: live.len() as u64,
        master_ctx_pct: live
            .iter()
            .find(|s| s.role == SessionRole::Master)
            .and_then(|s| s.ctx_pct),
        progress: None,
        state_cell: "state".to_string(),
        quest,
    }
}

fn row_from(quest: Quest, sessions: Vec<Session>, origin: Origin) -> QuestRow {
    QuestRow {
        goal_line: quest.goal.clone().unwrap_or_default(),
        age: "4m".to_string(),
        cwd_shown: "~/work".to_string(),
        view: view_of(quest, &sessions),
        sessions,
        origin,
    }
}

fn row(quest: Quest, sessions: Vec<Session>) -> QuestRow {
    row_from(quest, sessions, Origin::Local)
}

/// A row as another machine sent it: no sessions, and marked stale when it is an
/// old answer.
fn remote_row(machine: &str, slug: &str, state: QuestState, stale: bool) -> QuestRow {
    let mut q = quest(slug, state, 4);
    q.machine = machine.to_string();
    row_from(q, Vec::new(), Origin::Remote { stale })
}

/// A local and a remote row sharing an id.
fn colliding_rows() -> Vec<QuestRow> {
    let local = quest("local-one", QuestState::Active, 2);
    let mut far = remote_row("ws", "remote-one", QuestState::Active, false);
    far.view.quest.id.clone_from(&local.id);
    vec![row(local, Vec::new()), far]
}

fn session(quest_id: &str, role: SessionRole, status: SessionStatus) -> Session {
    Session {
        id: format!("s-of-{quest_id}"),
        quest_id: quest_id.to_string(),
        role,
        label: "master".to_string(),
        tmux_session: "q-x".to_string(),
        tmux_pane: "%1".to_string(),
        status,
        waiting_for: None,
        phase: None,
        ctx_pct: None,
        started_at: 0,
        ended_at: None,
    }
}

fn progress(closed: u64, total: u64) -> Progress {
    let filled = if total == 0 { 0 } else { (7 * closed / total) as usize };
    Progress {
        total,
        cell: format!("{closed}/{total}"),
        bar: format!("{}{}", "▓".repeat(filled), "░".repeat(7 - filled)),
        summary: format!("{closed}/{total} closed"),
    }
}

fn link(kind: &str, reference: &str) -> Link {
    Link {
        kind: kind.to_string(),
        reference: reference.to_string(),
        title: None,
        meta: None,
        title_line: String::new(),
        reference_line: reference.to_string(),
    }
}

fn app_with(rows: Vec<QuestRow>) -> App {
    let mut app = App::new(&Config::default(), "laptop");
    app.set_size(120, 30);
    let links = vec![Vec::new(); rows.len()];
    app.quests.rows = sort_quests(rows);
    app.quests.links = links;
    app.quests.resync();
    app
}

fn at(r: Rect) -> ratatui::layout::Rect {
    ratatui::layout::Rect::new(r.x, r.y, r.width, r.height)
}

fn style_of(style: Style) -> ratatui::style::Style {
    let plain = ratatui::style::Style::default();
    match style {
        Style::Plain => plain,
        Style::Bold => plain.add_modifier(Modifier::BOLD),
        Style::Dim => plain.add_modifier(Modifier::DIM),
        Style::Selected => plain.add_modifier(Modifier::BOLD | Modifier::REVERSED),
    }
}

fn span(l: &Line) -> ratatui::text::Span<'static> {
    ratatui::text::Span::styled(l.text.clone(), style_of(l.style))
}

fn lines(all: &[Line]) -> Vec<ratatui::text::Line<'static>> {
    all.iter()
        .map(|l| ratatui::text::Line::from(span(l)))
        .collect()
}

fn boxed(title: &str) -> Block<'static> {
    Block::default()
        .borders(Borders::ALL)
        .title(title.to_string())
        .padding(Padding::horizontal(1))
}

/// What a terminal of that size shows.
fn frame(app: &mut App, w: u16, h: u16) -> Buffer {
    let mut buffer = Buffer::empty(ratatui::layout::Rect::new(0, 0, w, h));
    let screen = render(app, Rect::new(0, 0, w, h));
    if let Some(header) = screen.header {
        let spans: Vec<_> = header.spans.iter().map(span).collect();
        Paragraph::new(ratatui::text::Line::from(spans)).render(at(header.bar), &mut buffer);
        Paragraph::new(span(&header.machine)).render(at(header.right), &mut buffer);
    }
    if let Some(list) = screen.body.list {
        Paragraph::new(lines(&list.lines)).render(at(list.area), &mut buffer);
    }
    if let Some(panel) = screen.body.panel {
        let block = boxed(&panel.title);
        let inner = block.inner(at(panel.area));
        block.render(at(panel.area), &mut buffer);
        let text = Paragraph::new(lines(&panel.lines));
        if panel.wrap {
            text.wrap(Wrap { trim: false }).render(inner, &mut buffer);
        } else {
            text.render(inner, &mut buffer);
        }
    }
    if let Some(status) = screen.status {
        Paragraph::new(span(&status.message)).render(at(status.left), &mut buffer);
        Paragraph::new(span(&status.hint)).render(at(status.right), &mut buffer);
    }
    match screen.modal {
        Some(Drawing::Cramped { row, line }) => {
            Clear.render(at(row), &mut buffer);
            Paragraph::new(span(&line)).render(at(row), &mut buffer);
        }
        Some(Drawing::Boxed { area, title, lines: all }) => {
            Clear.render(at(area), &mut buffer);
            Paragraph::new(lines(&all))
                .block(boxed(&title))
                .render(at(area), &mut buffer);
        }
        _ => {}
    }
    if let Some(help) = screen.help {
        let rows: Vec<ratatui::text::Line> = help
            .rows
            .iter()
            .map(|(k, d)| ratatui::text::Line::from(format!("{k}  {d}")))
            .collect();
        Clear.render(at(help.area), &mut buffer);
        Paragraph::new(rows)
            .block(boxed(" Keys "))
            .render(at(help.area), &mut buffer);
    }
    buffer
}

fn draw(app: &mut App, w: u16, h: u16) -> Vec<String> {
    let buffer = frame(app, w, h);
    (0..h)
        .map(|y| {
            (0..w)
                .map(|x| buffer.cell((x, y)).map(|c| c.symbol()).unwrap_or(" "))
                .collect::<String>()
                .trim_end()
                .to_string()
        })
        .collect()
}

fn screen(app: &mut App, w: u16, h: u16) -> String {
    draw(app, w, h).join("\n")
}

#[test]
fn the_selection_does_not_jump_to_a_local_row_with_the_same_id() {
    let mut state = State {
        rows: colliding_rows(),
        show_finished: true,
        ..State::new()
    };
    state.links = vec![Vec::new(); state.rows.len()];
    state.selected = 1;
    state.settle(10);
    assert_eq!(state.selected_row().unwrap().view.quest.slug, "remote-one");

    // What every tick does.
    state.resync();
    let row = state.selected_row().unwrap();
    assert_eq!(row.view.quest.slug, "remote-one", "the selection jumped");
    assert!(row.origin.is_remote());

    // …and `focus_on` latches onto the right one too.
    state.selected = 0;
    state.settle(10);
    assert_eq!(state.selected_row().unwrap().view.quest.slug, "local-one");
    let want = Anchor::of(&state.rows[1]);
    state.focus_on(want);
    assert_eq!(state.selected_row().unwrap().view.quest.slug, "remote-one");
}

/// The three groups, one Quest each, deliberately out of order.
fn grouped() -> App {
    let waiting = quest("needs-me", QuestState::Active, 10);
    let busy = quest("running", QuestState::Active, 20);
    let sleepy = quest("resting", QuestState::Active, 30);
    let done = quest("shipped", QuestState::Finished, 40);
    let w = vec![session(
        &waiting.id,
        SessionRole::Master,
        SessionStatus::Waiting,
    )];
    let b = vec![session(&busy.id, SessionRole::Master, SessionStatus::Busy)];
    let s = vec![session(
        &sleepy.id,
        SessionRole::Master,
        SessionStatus::Idle,
    )];
    app_with(vec![
        row(sleepy, s),
        row(done, Vec::new()),
        row(busy, b),
        row(waiting, w),
    ])
}

fn line_of(lines: &[String], needle: &str) -> Option<usize> {
    lines.iter().position(|l| l.contains(needle))
}

// --------------------------------------------------------------- render

#[test]
fn rows_are_grouped_needs_you_then_active_then_idle() {
    let mut app = grouped();
    let lines = draw(&mut app, 120, 30);
    let text = lines.join("\n");
    for group in ["needs you", "active", "idle"] {
        assert!(text.contains(group), "missing group {group}\n{text}");
    }
    let (needs, active, idle) = (
        line_of(&lines, "needs-me").unwrap(),
        line_of(&lines, "running").unwrap(),
        line_of(&lines, "resting").unwrap(),
    );
    assert!(needs < active && active < idle, "{text}");
    // Their headers sit directly above them.
    assert!(lines[needs - 1].contains("needs you"), "{text}");
    assert!(lines[active - 1].trim() == "active", "{text}");
    assert!(lines[idle - 1].trim() == "idle", "{text}");
}

#[test]
fn finished_quests_are_hidden_until_f() {
    let mut app = grouped();
    assert!(!screen(&mut app, 120, 30).contains("shipped"));
    app.quests.show_finished = true;
    app.quests.resync();
    let text = screen(&mut app, 120, 30);
    assert!(text.contains("shipped"), "{text}");
    assert!(text.contains("finished"), "{text}");
}

#[test]
fn f_toggles_the_flag_and_asks_for_a_reload() {
    let mut app = grouped();
    assert_eq!(handle(&mut app, Input::Char('f')), Action::Refresh);
    assert!(app.quests.show_finished);
    assert!(app.status.contains("showing finished"), "{}", app.status);
    assert_eq!(handle(&mut app, Input::Char('f')), Action::Refresh);
    assert!(!app.quests.show_finished);
}

#[test]
fn an_empty_listing_says_so_rather_than_drawing_nothing() {
    let mut app = app_with(Vec::new());
    let text = screen(&mut app, 120, 30);
    assert!(text.contains("no open quests"), "{text}");
    assert!(text.contains("n starts one"), "{text}");
    // Narrow, with the panel asked for: still no panic, still a message.
    app.detail = true;
    let text = screen(&mut app, 40, 12);
    assert!(text.contains("no open"), "{text}");
}

#[test]
fn a_filtered_out_listing_says_the_filters_did_it() {
    let mut app = grouped();
    app.quests.query = "nothing-matches-this".to_string();
    app.quests.resync();
    let text = screen(&mut app, 120, 30);
    assert!(text.contains("no quests match the filters"), "{text}");
}

#[test]
fn a_quest_with_no_sessions_and_no_epic_still_renders() {
    let mut q = quest("bare", QuestState::Active, 5);
    q.goal = None;
    q.beads_epic = None;
    let mut app = app_with(vec![row(q, Vec::new())]);
    let text = screen(&mut app, 120, 30);
    assert!(text.contains("bare"), "{text}");
    assert!(text.contains("no goal"), "{text}");
    // No sessions and no epic: neither fact is invented.
    assert!(!text.contains("sess"), "{text}");
    assert!(!text.contains("master ctx"), "{text}");
    app.detail = true;
    let text = screen(&mut app, 120, 30);
    assert!(text.contains("no epic"), "{text}");
    assert!(text.contains("none"), "{text}");
}

#[test]
fn both_row_modes_draw_every_line_of_the_selected_row() {
    let mut app = grouped();
    // Wide: two lines, the facts on the first.
    assert_eq!(app.row_mode(), RowMode::Two);
    let lines = draw(&mut app, 120, 30);
    let at = line_of(&lines, "needs-me").unwrap();
    assert!(lines[at].contains("laptop"), "{:?}", lines[at]);
    assert!(lines[at].contains("needs you"), "{:?}", lines[at]);
    assert!(lines[at + 1].contains("goal of needs-me"), "{:?}", lines);

    // Narrow: three lines, the facts on the third.
    let lines = draw(&mut app, 60, 30);
    assert_eq!(app.row_mode(), RowMode::Three);
    let at = line_of(&lines, "needs-me").unwrap();
    assert!(lines[at].contains("needs you"), "{:?}", lines[at]);
    assert!(lines[at + 1].contains("goal of"), "{:?}", lines[at + 1]);
    assert!(lines[at + 2].contains("laptop"), "{:?}", lines[at + 2]);
}

#[test]
fn a_wide_or_combining_name_never_overflows_the_row() {
    // Asserted on the lines themselves rather than on the rendered buffer:
    // a cell of it holds one column, so reading a wide glyph back
    // out of it and re-measuring counts its padding twice.
    let names = [
        "日本語のクエスト-とても長い名前です-ほんとうに",
        "cafe\u{301}-nai\u{308}ve-e\u{301}e\u{301}e\u{301}",
        &"x".repeat(200),
        "🚀-emoji-quest-🎯",
    ];
    for name in names {
        let mut q = quest(name, QuestState::Active, 9);
        q.goal = Some("a goal long enough to need cutting on every width".repeat(3));
        let mut r = row(q, Vec::new());
        r.view.progress = Some(progress(3, 7));
        for width in [200usize, 120, 100, 80, 70, 60, 40, 20, 10, 3, 1, 0] {
            for mode in [RowMode::Two, RowMode::Three] {
                for selected in [true, false] {
                    for line in row_lines(&r, &[], selected, mode, width) {
                        let text = line.text;
                        assert!(
                            columns_of(&text) <= width,
                            "{name:?} at {width} ({mode:?}): {text:?} is {} columns",
                            columns_of(&text)
                        );
                    }
                }
            }
        }
    }

    // And the renderer itself never panics on any of them, at any size.
    let rows: Vec<QuestRow> = names
        .iter()
        .map(|n| row(quest(n, QuestState::Active, 9), Vec::new()))
        .collect();
    let mut app = app_with(rows);
    for (w, h) in [
        (200, 40),
        (120, 30),
        (100, 20),
        (80, 20),
        (60, 20),
        (40, 12),
        (20, 8),
        (4, 3),
    ] {
        draw(&mut app, w, h);
        app.detail = !app.detail;
        draw(&mut app, w, h);
    }
}

#[test]
fn the_beads_bar_and_ctx_reading_reach_the_row() {
    let mut q = quest("shipping", QuestState::Active, 5);
    q.beads_epic = Some("bd-42".to_string());
    let mut master = session(&q.id, SessionRole::Master, SessionStatus::Busy);
    master.ctx_pct = Some(41);
    let mut r = row(q, vec![master]);
    r.view.progress = Some(progress(3, 7));
    let mut app = app_with(vec![r]);
    let lines = draw(&mut app, 120, 30);
    let at = line_of(&lines, "shipping").unwrap();
    assert!(lines[at].contains("3/7 ▓▓▓░░░░"), "{:?}", lines[at]);
    assert!(lines[at].contains("master ctx 41%"), "{:?}", lines[at]);
    assert!(lines[at].contains("1 sess"), "{:?}", lines[at]);
}

#[test]
fn the_detail_panel_shows_the_selected_quest() {
    let mut app = grouped();
    assert!(!app.detail);
    assert_eq!(handle(&mut app, Input::Enter), Action::Nothing);
    assert!(app.detail);
    let text = screen(&mut app, 120, 30);
    for want in [
        "needs-me",
        "goal of needs-me",
        "sessions",
        "links",
        "events",
        "beads",
    ] {
        assert!(text.contains(want), "missing {want}\n{text}");
    }
    // Still shows the list beside it at this width.
    assert!(text.contains("running"), "{text}");
    // Enter closes it again; `o` is the attach and leaves it alone.
    assert_eq!(handle(&mut app, Input::Char('o')), Action::Attach);
    assert!(app.detail);
    handle(&mut app, Input::Enter);
    assert!(!app.detail);
}

#[test]
fn a_narrow_terminal_gives_the_panel_the_whole_body() {
    let mut app = grouped();
    app.detail = true;
    let text = screen(&mut app, 60, 24);
    assert!(text.contains("needs-me"), "{text}");
    assert!(
        !text.contains("running"),
        "the list should be hidden\n{text}"
    );
}

// --------------------------------------------------------------- keymap

#[test]
fn movement_keeps_the_selection_on_its_quest_across_a_reorder() {
    let mut app = grouped();
    assert_eq!(
        app.quests.selected_row().unwrap().view.quest.slug,
        "needs-me"
    );
    handle(&mut app, Input::Char('j'));
    assert_eq!(
        app.quests.selected_row().unwrap().view.quest.slug,
        "running"
    );
    // A reload that reorders must not move the selection to another Quest:
    // `running` goes from the middle to the end, the index does not.
    app.quests.rows.rotate_left(1);
    app.quests.resync();
    assert_eq!(
        app.quests.selected_row().unwrap().view.quest.slug,
        "running"
    );
    assert_ne!(app.quests.selected, 1);
    app.quests.rows = sort_quests(app.quests.rows.clone());
    app.quests.resync();
    assert_eq!(
        app.quests.selected_row().unwrap().view.quest.slug,
        "running"
    );
    // The ends clamp rather than wrap.
    handle(&mut app, Input::Char('G'));
    assert_eq!(
        app.quests.selected_row().unwrap().view.quest.slug,
        "resting"
    );
    handle(&mut app, Input::Down);
    assert_eq!(
        app.quests.selected_row().unwrap().view.quest.slug,
        "resting"
    );
    handle(&mut app, Input::Char('g'));
    assert_eq!(
        app.quests.selected_row().unwrap().view.quest.slug,
        "needs-me"
    );
    handle(&mut app, Input::Up);
    assert_eq!(
        app.quests.selected_row().unwrap().view.quest.slug,
        "needs-me"
    );
}

#[test]
fn a_long_list_scrolls_only_as_far_as_the_selection_needs() {
    let rows: Vec<QuestRow> = (0..40)
        .map(|n| {
            row(
                quest(&format!("quest-{n:02}"), QuestState::Active, 100 - n),
                Vec::new(),
            )
        })
        .collect();
    let mut app = app_with(rows);
    app.set_size(120, 26);
    // The top of the list does not move while the selection is on screen.
    for _ in 0..3 {
        handle(&mut app, Input::Down);
    }
    assert_eq!(app.quests.offset, 0);
    let lines = draw(&mut app, 120, 26);
    assert!(line_of(&lines, "quest-00").is_some(), "{lines:?}");

    // Past the fold it scrolls, and the selection is always drawn.
    for n in 0..30 {
        handle(&mut app, Input::Down);
        let selected = app.quests.selected_row().unwrap().view.quest.slug.clone();
        let lines = draw(&mut app, 120, 26);
        assert!(
            line_of(&lines, &selected).is_some(),
            "step {n}: {selected} off screen\n{lines:#?}"
        );
    }
    // And back up again.
    for n in 0..33 {
        handle(&mut app, Input::Up);
        let selected = app.quests.selected_row().unwrap().view.quest.slug.clone();
        let lines = draw(&mut app, 120, 26);
        assert!(
            line_of(&lines, &selected).is_some(),
            "back {n}: {selected} off screen\n{lines:#?}"
        );
    }
    assert_eq!(app.quests.offset, 0);

    // A page jump and the ends behave the same way.
    for key in [
        Input::PageDown,
        Input::Char('G'),
        Input::PageUp,
        Input::Char('g'),
    ] {
        handle(&mut app, key);
        let selected = app.quests.selected_row().unwrap().view.quest.slug.clone();
        let lines = draw(&mut app, 120, 26);
        assert!(line_of(&lines, &selected).is_some(), "{key:?}\n{lines:#?}");
    }
}

#[test]
fn search_captures_the_keyboard_so_typing_does_not_quit() {
    let mut app = grouped();
    assert_eq!(app.handle(Input::Char('/')), Action::Nothing);
    assert!(app.quests.capturing());
    // `q` and `x` are the shell's keys — while typing they are text.
    for c in "run".chars() {
        app.handle(Input::Char(c));
    }
    app.handle(Input::Char('q'));
    assert!(!app.should_quit);
    assert_eq!(app.quests.query, "runq");
    app.handle(Input::Backspace);
    assert_eq!(app.quests.query, "run");
    assert_eq!(app.quests.visible().len(), 1);
    // The status bar is the box: the query, and how much it matched.
    assert!(app.status.starts_with("/run"), "{}", app.status);
    assert!(app.status.contains("1 matching"), "{}", app.status);
    let text = screen(&mut app, 120, 30);
    assert!(text.contains("running"), "{text}");
    assert!(!text.contains("resting"), "{text}");
    // Enter keeps the query and hands the keyboard back.
    app.handle(Input::Enter);
    assert!(!app.quests.capturing());
    assert_eq!(app.quests.query, "run");
    // Esc from the list clears it.
    app.handle(Input::Esc);
    assert!(app.quests.query.is_empty());
    assert_eq!(app.quests.visible().len(), 3);
}

#[test]
fn ctrl_c_still_quits_out_of_the_search_box() {
    let mut app = grouped();
    app.handle(Input::Char('/'));
    assert_eq!(app.handle(Input::Ctrl('c')), Action::Quit);
    assert!(app.should_quit);
}

#[test]
fn esc_in_the_box_cancels_the_search_entirely() {
    let mut app = grouped();
    app.handle(Input::Char('/'));
    for c in "run".chars() {
        app.handle(Input::Char(c));
    }
    app.handle(Input::Esc);
    assert!(!app.quests.capturing());
    assert!(app.quests.query.is_empty());
}

/// Leaving the tab drops the half-typed query, which widens `visible()`
/// under a `selected` index that was aimed at the narrowed list. Unless the
/// selection is re-anchored, the next frame settles the disagreement in
/// favour of the index and quietly moves the selection to a different
/// Quest — the one `Enter` attaches to from 4.3 on.
#[test]
fn cancelling_a_capture_on_a_tab_switch_keeps_the_same_quest_selected() {
    let rows: Vec<QuestRow> = (0..10)
        .map(|n| {
            row(
                quest(&format!("quest-{n:02}"), QuestState::Active, 100 - n),
                Vec::new(),
            )
        })
        .collect();
    let mut app = app_with(rows);
    // Hit-testing reads the width the header published; the click is only
    // meaningful after a frame has been drawn at this size.
    draw(&mut app, 120, 30);

    app.handle(Input::Char('/'));
    for c in "quest-07".chars() {
        app.handle(Input::Char(c));
    }
    assert_eq!(app.quests.visible().len(), 1);
    let want = app.quests.selected_row().unwrap().view.quest.clone();
    assert_eq!(want.slug, "quest-07");

    // Out to Sessions and back, by mouse — the one way out of the box that
    // is neither Esc nor Enter.
    let (_, _, sessions, _) = tab_layout()[1];
    app.handle_mouse(MouseInput::Click {
        col: sessions,
        row: 0,
    });
    let (_, _, quests, _) = tab_layout()[0];
    app.handle_mouse(MouseInput::Click {
        col: quests,
        row: 0,
    });
    assert_eq!(app.tab, Tab::Quests);
    assert!(!app.quests.capturing());
    assert_eq!(app.quests.visible().len(), 10, "the query outlived the tab");

    let text = screen(&mut app, 120, 30);
    assert_eq!(
        app.quests.selected_row().unwrap().view.quest.slug,
        "quest-07",
        "the tab switch relocated the selection\n{text}"
    );
    assert_eq!(
        app.quests.selected_id.as_ref().map(|a| a.id.as_str()),
        Some(want.id.as_str())
    );
}

#[test]
fn m_cycles_the_machines_present_and_back_to_all() {
    let ws = {
        let mut q = quest("remote", QuestState::Active, 4);
        q.machine = "ws".to_string();
        q
    };
    let mut app = app_with(vec![
        row(quest("local", QuestState::Active, 5), Vec::new()),
        row(ws, Vec::new()),
    ]);
    handle(&mut app, Input::Char('m'));
    assert_eq!(app.quests.machine.as_deref(), Some("laptop"));
    assert_eq!(app.quests.visible().len(), 1);
    handle(&mut app, Input::Char('m'));
    assert_eq!(app.quests.machine.as_deref(), Some("ws"));
    assert!(screen(&mut app, 120, 20).contains("remote"));
    handle(&mut app, Input::Char('m'));
    assert_eq!(app.quests.machine, None);
    assert_eq!(app.quests.visible().len(), 2);
}

#[test]
fn s_hands_the_selection_to_the_sessions_tab() {
    let mut app = grouped();
    let id = app.quests.selected_row().unwrap().view.quest.id.clone();
    assert_eq!(handle(&mut app, Input::Char('s')), Action::Refresh);
    assert_eq!(app.tab, Tab::Sessions);
    assert_eq!(app.focus_quest.as_deref(), Some(id.as_str()));
}

#[test]
fn handing_the_selection_to_sessions_tears_down_an_armed_capture() {
    let mut app = grouped();
    app.quests.searching = true;
    app.quests.query = "run".to_string();
    app.quests.resync();
    let want = app.quests.selected_row().unwrap().view.quest.id.clone();

    assert_eq!(sessions_of_selection(&mut app), Action::Refresh);
    assert_eq!(app.tab, Tab::Sessions);
    assert_eq!(app.focus_quest.as_deref(), Some(want.as_str()));
    assert!(
        !app.quests.capturing(),
        "the box is still holding the keyboard behind an inactive tab"
    );
    assert!(
        app.quests.query.is_empty(),
        "an uncommitted query outlived the tab: {:?}",
        app.quests.query
    );
    assert!(app.status.contains("sessions of running"), "{}", app.status);
}

#[test]
fn handing_the_selection_to_events_tears_down_an_armed_capture() {
    let mut app = grouped();
    app.quests.searching = true;
    app.quests.query = "run".to_string();
    app.quests.resync();
    let want = app.quests.selected_row().unwrap().view.quest.id.clone();

    assert_eq!(events_of_selection(&mut app), Action::Refresh);
    assert_eq!(app.tab, Tab::Events);
    assert_eq!(app.focus_quest.as_deref(), Some(want.as_str()));
    assert!(
        !app.quests.capturing(),
        "the box is still holding the keyboard behind an inactive tab"
    );
    assert!(
        app.quests.query.is_empty(),
        "an uncommitted query outlived the tab: {:?}",
        app.quests.query
    );
    assert!(app.status.contains("events of running"), "{}", app.status);
}

#[test]
fn the_prompt_keys_open_their_forms_against_the_selection() {
    for (key, title) in [
        ('n', "new quest"),
        ('r', "rename needs-me"),
        ('c', "close needs-me?"),
        ('R', "resume needs-me"),
    ] {
        let mut app = grouped();
        assert_eq!(handle(&mut app, Input::Char(key)), Action::Nothing);
        let modal = app
            .modal
            .as_ref()
            .unwrap_or_else(|| panic!("{key}: no form"));
        assert_eq!(modal.form.title, title, "{key}");
        assert!(!app.should_quit);
        // The target is carried by id, not by "whatever is selected then".
        let want = (key != 'n').then(|| app.quests.rows[0].view.quest.id.clone());
        assert_eq!(modal.prompt.quest().map(str::to_string), want, "{key}");
    }
}

/// With nothing selected there is nothing to rename, close or resume — and
/// arming a capture over an empty listing would leave a box asking about a
/// Quest that does not exist.
#[test]
fn the_selection_prompts_do_nothing_on_an_empty_listing() {
    for key in ['r', 'c', 'R'] {
        let mut app = app_with(Vec::new());
        assert_eq!(handle(&mut app, Input::Char(key)), Action::Nothing);
        assert!(app.modal.is_none(), "{key} armed a form with no Quest");
        assert!(!app.capturing());
    }
    // `n` needs no selection: it is how the first Quest gets made.
    let mut app = app_with(Vec::new());
    handle(&mut app, Input::Char('n'));
    assert!(app.modal.is_some());
}

#[test]
fn l_opens_the_panel_and_summarises_the_links() {
    let mut app = grouped();
    app.quests.links[0] = vec![
        {
            let mut l = link("pr", "https://github.com/acme/api/pull/4821");
            l.meta = Some(r#"{"ci":"✓"}"#.to_string());
            l
        },
        {
            let mut l = link("task", "https://app.productive.io/1/task/9");
            l.title = Some("Backfill CDC".to_string());
            l.title_line = "Backfill CDC".to_string();
            l
        },
    ];
    app.quests.resync();
    assert_eq!(handle(&mut app, Input::Char('l')), Action::Nothing);
    assert!(app.detail);
    assert!(app.status.contains("PR #4821 (CI ✓)"), "{}", app.status);
    assert!(app.status.contains("task Backfill CDC"), "{}", app.status);
    // And the row's second line carries them too. The panel is closed
    // first: its border title is the slug, and would be found instead.
    app.detail = false;
    let lines = draw(&mut app, 140, 30);
    let at = line_of(&lines, "needs-me").unwrap();
    assert!(lines[at + 1].contains("PR #4821"), "{:?}", lines[at + 1]);
    assert!(
        lines[at + 1].contains("task Backfill CDC"),
        "{:?}",
        lines[at + 1]
    );
}

#[test]
fn a_status_message_survives_a_successful_tick() {
    let mut app = grouped();
    handle(&mut app, Input::Char('m'));
    assert!(!app.status.is_empty());
    report_refresh(&mut app, Ok(()));
    assert!(
        app.status.contains("machine laptop"),
        "a tick wiped the message: {:?}",
        app.status
    );
    assert!(app.refresh_error.is_none());
    // A failed reload shows instead, and outranks the message.
    report_refresh(&mut app, Err(QError::Other("database is locked".to_string())));
    let text = screen(&mut app, 120, 30);
    assert!(
        text.contains("refresh failed: database is locked"),
        "{text}"
    );
    report_refresh(&mut app, Ok(()));
    let text = screen(&mut app, 120, 30);
    assert!(!text.contains("refresh failed"), "{text}");
    assert!(text.contains("machine laptop"), "{text}");
}

#[test]
fn the_help_overlay_lists_the_tabs_own_keys() {
    let mut app = grouped();
    app.help = true;
    let text = screen(&mut app, 120, 40);
    assert!(text.contains("toggle the detail panel"), "{text}");
    assert!(text.contains("cycle the machine filter"), "{text}");
    // The shell's keys are still there.
    assert!(text.contains("next / previous tab"), "{text}");
}



/// A reload can move the selected Quest below the fold — `resync` alone
/// only ever scrolls up, so the highlight would vanish until a keypress.
#[test]
fn a_reload_that_reorders_scrolls_the_selection_back_into_view() {
    let rows: Vec<QuestRow> = (0..40)
        .map(|n| {
            row(
                quest(&format!("quest-{n:02}"), QuestState::Active, 100 - n),
                Vec::new(),
            )
        })
        .collect();
    let mut app = app_with(rows);
    app.set_size(120, 26);
    handle(&mut app, Input::Char('g'));
    let selected = app.quests.selected_row().unwrap().view.quest.slug.clone();
    assert_eq!(selected, "quest-00");

    // The Quest the user is looking at drops to the bottom of the listing
    // (its group changed, or every other Quest was touched since).
    app.quests.rows.rotate_left(1);
    app.quests.resync();
    settle_view(&mut app);
    assert!(
        app.quests.selected >= app.quests.offset
            && app.quests.selected < app.quests.offset + viewport(&app),
        "selected {} outside [{}, {}) after the reorder",
        app.quests.selected,
        app.quests.offset,
        app.quests.offset + viewport(&app)
    );
    let lines = draw(&mut app, 120, 26);
    assert!(line_of(&lines, &selected).is_some(), "{lines:#?}");

    // A resize is the same problem: the viewport shrinks under a selection
    // that was comfortably on screen.
    let lines = draw(&mut app, 120, 10);
    assert!(line_of(&lines, &selected).is_some(), "{lines:#?}");
    let lines = draw(&mut app, 120, 8);
    assert!(line_of(&lines, &selected).is_some(), "{lines:#?}");
}

#[test]
fn a_grown_viewport_refills_the_listing() {
    let rows: Vec<QuestRow> = (0..20)
        .map(|n| {
            row(
                quest(&format!("quest-{n:02}"), QuestState::Active, n as i64),
                Vec::new(),
            )
        })
        .collect();
    let mut app = app_with(rows);
    // A short terminal with the cursor at the end pushes `offset` as far
    // forward as it goes.
    app.set_size(120, 12);
    handle(&mut app, Input::End);
    draw(&mut app, 120, 12);
    assert!(app.quests.offset > 0, "the short frame never scrolled");

    // Now the terminal grows past the whole listing. Every Quest fits, so
    // every Quest has to be on screen.
    let lines = draw(&mut app, 120, 60);
    for n in 0..20 {
        let slug = format!("quest-{n:02}");
        assert!(
            line_of(&lines, &slug).is_some(),
            "{slug} stranded: {lines:#?}"
        );
    }
    // And the pull-back went the whole way. Without this a clamp that only
    // came half the distance — `len - viewport / 2`, say — would still show
    // every row on a body this tall and pass the loop above.
    assert_eq!(app.quests.offset, 0, "the pull-back stopped short");
}

#[test]
fn a_grown_viewport_leaves_no_blank_line_a_row_could_have_filled() {
    let rows: Vec<QuestRow> = (0..60)
        .map(|n| {
            row(
                quest(&format!("quest-{n:02}"), QuestState::Active, n as i64),
                Vec::new(),
            )
        })
        .collect();
    let mut app = app_with(rows);
    app.set_size(120, 12);
    handle(&mut app, Input::End);
    draw(&mut app, 120, 12);
    assert!(app.quests.offset > 0, "the short frame never scrolled");

    // The grown terminal still cannot hold all 60, so rows stay above the
    // fold — and every body line the renderer left blank is a line one of
    // them could have used.
    let lines = draw(&mut app, 120, 30);
    assert!(app.quests.offset > 0, "the whole listing fit after all");
    let body = &lines[1..lines.len() - 1];
    let blank = body.iter().rev().take_while(|l| l.is_empty()).count();
    assert!(
        blank < RowMode::Two.lines() as usize,
        "{blank} blank body lines with {} rows above the fold:\n{}",
        app.quests.offset,
        lines.join("\n")
    );
    // The row that was stranded, named.
    assert!(
        line_of(&lines, "quest-12").is_some(),
        "quest-12 stranded:\n{}",
        lines.join("\n")
    );
}

/// A committed filter hides rows for as long as it is on; a one-shot
/// status message is gone by the next keypress.
#[test]
fn an_active_filter_stays_on_screen_after_the_message_that_set_it() {
    let mut app = grouped();
    app.handle(Input::Char('/'));
    for c in "run".chars() {
        app.handle(Input::Char(c));
    }
    app.handle(Input::Enter);
    // Another key speaks, and the search feedback is gone.
    handle(&mut app, Input::Char('l'));
    assert!(!app.status.contains("/run"), "{}", app.status);
    let text = screen(&mut app, 120, 30);
    assert!(text.contains("[/run]"), "the filter is invisible\n{text}");
    assert!(!text.contains("resting"), "{text}");

    // A refresh failure outranks the message and still does not hide it.
    report_refresh(&mut app, Err(QError::Other("database is locked".to_string())));
    let text = screen(&mut app, 120, 30);
    assert!(text.contains("[/run]"), "{text}");
    report_refresh(&mut app, Ok(()));

    // The machine filter is announced the same way. Two Escs: `l` opened
    // the detail panel, and Esc closes that before it clears the search.
    app.handle(Input::Esc);
    app.handle(Input::Esc);
    handle(&mut app, Input::Char('m'));
    handle(&mut app, Input::Char('l'));
    let text = screen(&mut app, 120, 30);
    assert!(text.contains("[m laptop]"), "{text}");
}

/// An epic nobody has filed an issue against yet has nothing to say.
#[test]
fn an_empty_epic_draws_no_bar_at_all() {
    let mut q = quest("fresh", QuestState::Active, 5);
    q.beads_epic = Some("bd-42".to_string());
    let mut r = row(q, Vec::new());
    r.view.progress = Some(progress(0, 0));
    let mut app = app_with(vec![r]);
    let text = screen(&mut app, 120, 30);
    assert!(text.contains("fresh"), "{text}");
    assert!(!text.contains("0/0"), "{text}");
    assert!(!text.contains('░'), "{text}");
}

#[test]
fn a_link_cell_reads_the_reference_and_any_enrichment() {
    let pr = |r: &str| link("pr", r);
    assert_eq!(link_cell(&pr("https://github.com/a/b/pull/7")), "PR #7");
    assert_eq!(link_cell(&pr("git@x/no-number")), "PR");
    let mut enriched = pr("https://github.com/a/b/pull/7");
    enriched.meta = Some(r#"{"state":"open","ci":"✓"}"#.to_string());
    assert_eq!(link_cell(&enriched), "PR #7 open (CI ✓)");
    assert_eq!(pr_number("https://github.com/a/b/pull/7?x=1"), Some("7"));
    assert_eq!(pr_number("https://github.com/a/b/pull/"), None);
}

// ------------------------------------------------------- remote rows

#[test]
fn a_row_from_a_machine_that_is_down_is_drawn_as_stale() {
    let mut app = app_with(vec![
        row(quest("here", QuestState::Active, 9), Vec::new()),
        remote_row("ws", "fresh", QuestState::Active, false),
        remote_row("box", "cached", QuestState::Active, true),
    ]);
    let text = screen(&mut app, 120, 20);
    assert!(text.contains("laptop"), "{text}");
    assert!(text.contains("ws"), "{text}");
    assert!(text.contains("box \u{26a0}"), "{text}");
}

#[test]
fn m_narrows_to_a_remote_machine_and_back() {
    let mut app = app_with(vec![
        row(quest("here", QuestState::Active, 9), Vec::new()),
        remote_row("ws", "over-there", QuestState::Active, false),
    ]);
    assert_eq!(app.quests.visible().len(), 2);

    handle(&mut app, Input::Char('m'));
    assert_eq!(app.quests.machine.as_deref(), Some("laptop"));
    assert_eq!(app.quests.visible().len(), 1);
    assert_eq!(app.quests.selected_row().unwrap().view.quest.slug, "here");

    handle(&mut app, Input::Char('m'));
    assert_eq!(app.quests.machine.as_deref(), Some("ws"));
    assert_eq!(app.quests.visible().len(), 1);
    assert_eq!(
        app.quests.selected_row().unwrap().view.quest.slug,
        "over-there"
    );
    assert!(app.filters().contains("m ws"));

    handle(&mut app, Input::Char('m'));
    assert_eq!(app.quests.machine, None);
    assert_eq!(app.quests.visible().len(), 2);
}

/// A machine name is searchable, so `/ws` narrows the merged listing the
/// same way `m` does.
#[test]
fn a_machine_name_is_part_of_the_search_haystack() {
    let mut app = app_with(vec![
        row(quest("here", QuestState::Active, 9), Vec::new()),
        remote_row("ws", "over-there", QuestState::Active, false),
    ]);
    app.quests.query = "ws".to_string();
    app.quests.resync();
    assert_eq!(app.quests.visible().len(), 1);
}

/// Every key but `o` runs against *this* machine's database, and a Quest
/// id is unique only per machine — so `c` on a remote row could otherwise
/// close a local Quest that happens to share the id.
#[test]
fn the_local_only_keys_are_refused_on_a_remote_row() {
    let mut app = app_with(vec![remote_row(
        "ws",
        "over-there",
        QuestState::Active,
        false,
    )]);
    for key in ['s', 'e', 'r', 'c', 'R', 'b', 'l'] {
        app.status.clear();
        let action = handle(&mut app, Input::Char(key));
        assert_eq!(action, Action::Nothing, "`{key}` acted on a remote row");
        assert!(app.modal.is_none(), "`{key}` opened a form");
        assert_eq!(app.tab, Tab::Quests, "`{key}` switched tabs");
        assert!(
            app.status.contains("runs on ws"),
            "`{key}` said nothing: {}",
            app.status
        );
        assert!(
            app.status.contains(cli_equivalent(key)) && app.status.contains("in a shell"),
            "`{key}` did not name what does work: {}",
            app.status
        );
        assert!(
            !app.status.contains("needs that machine"),
            "`{key}` still claims the CLI cannot do this: {}",
            app.status
        );
    }
    assert_eq!(handle(&mut app, Input::Char('o')), Action::Attach);
    // And a local row still answers all of them.
    let mut app = app_with(vec![row(quest("here", QuestState::Active, 9), Vec::new())]);
    assert_eq!(handle(&mut app, Input::Char('r')), Action::Nothing);
    assert!(app.modal.is_some(), "the rename form did not open");
}

#[test]
fn selected_remote_names_the_machine_only_for_a_remote_row() {
    let mut app = app_with(vec![
        row(quest("here", QuestState::Active, 9), Vec::new()),
        remote_row("ws", "over-there", QuestState::Active, false),
    ]);
    assert_eq!(selected_remote(&app), None);
    handle(&mut app, Input::Down);
    assert_eq!(selected_remote(&app).as_deref(), Some("ws"));
}

fn panel_text(row: &QuestRow, links: &[Link], events: &[Event]) -> Vec<String> {
    panel_lines(row, links, events)
        .into_iter()
        .map(|l| l.text)
        .collect()
}

/// The panel says where a remote Quest's sessions, links and events are
/// rather than claiming there are none: this `q` has never asked that
/// machine, and `none` reads as a fact about the Quest.
#[test]
fn the_panel_does_not_claim_a_remote_quest_is_empty() {
    let mut far = remote_row("ws", "over-there", QuestState::Active, false);
    far.view.live_sessions = 2;
    let lines = panel_text(&far, &[], &[]);

    assert!(
        lines.contains(&"2 live · on ws, not fetched".to_string()),
        "{lines:#?}"
    );
    // Sessions, links and events — all three, in one wording.
    assert_eq!(
        lines
            .iter()
            .filter(|l| l.contains("on ws, not fetched"))
            .count(),
        3,
        "{lines:#?}"
    );
    assert!(!lines.iter().any(|l| l == "none"), "{lines:#?}");

    let mut app = app_with(vec![far]);
    app.detail = true;
    let text = screen(&mut app, 140, 30);
    assert!(text.contains("on ws, not fetched"), "{text}");
}

/// …while a local Quest that really has nothing still says so.
#[test]
fn the_panel_still_says_none_for_an_empty_local_quest() {
    let here = row(quest("here", QuestState::Active, 9), Vec::new());
    let lines = panel_text(&here, &[], &[]);
    assert_eq!(
        lines.iter().filter(|l| *l == "none").count(),
        3,
        "{lines:#?}"
    );
    assert!(
        !lines.iter().any(|l| l.contains("not fetched")),
        "{lines:#?}"
    );
}

fn event(quest: &Quest, kind: &str) -> Event {
    Event {
        id: 1,
        quest_id: quest.id.clone(),
        kind: kind.to_string(),
        payload: None,
        age: "4m".to_string(),
        stamp: "2024-01-02 03:04:05".to_string(),
        payload_line: String::new(),
    }
}

/// One reload and what follows it before a redraw: the selection's events.
fn reload(app: &mut App, rows: Vec<QuestRow>, log: &[Event]) {
    let rows = merge(rows, app.quests.remote.clone());
    let links = rows
        .iter()
        .map(|r| {
            if wants_links(r) {
                vec![link("pr", "https://github.com/acme/api/pull/4821")]
            } else {
                Vec::new()
            }
        })
        .collect();
    refresh(app, rows, links, Vec::new(), Vec::new());
    resync_events(app, log);
}

fn resync_events(app: &mut App, log: &[Event]) {
    match sync_step(app) {
        Sync::Nothing => {}
        Sync::Clear => sync(app, Vec::new()),
        Sync::Fetch { quest, limit } => {
            let mut events: Vec<Event> =
                log.iter().filter(|e| e.quest_id == quest).cloned().collect();
            events.truncate(limit);
            sync(app, events);
        }
    }
}

#[test]
fn refresh_loads_the_listing_out_of_the_database() {
    let mut waiting = quest("needs-me", QuestState::Active, 1);
    waiting.goal = Some("unblock me".to_string());
    let mut s = session(&waiting.id, SessionRole::Master, SessionStatus::Waiting);
    s.ctx_pct = Some(41);
    let mut idle = quest("resting", QuestState::Active, 2);
    idle.goal = Some("later".to_string());
    let log = vec![event(&waiting, "quest.created")];

    let mut app = App::new(&Config::default(), "laptop");
    app.set_size(120, 30);
    reload(&mut app, vec![row(idle, Vec::new()), row(waiting, vec![s])], &log);

    assert_eq!(app.quests.rows.len(), 2);
    assert_eq!(
        app.quests.selected_row().unwrap().view.quest.slug,
        "needs-me"
    );
    assert_eq!(app.quests.events.len(), 1);
    let lines = draw(&mut app, 120, 30);
    let text = lines.join("\n");
    assert!(text.contains("needs you"), "{text}");
    assert!(text.contains("master ctx 41%"), "{text}");
    assert!(text.contains("PR #4821"), "{text}");
    assert!(
        line_of(&lines, "needs-me") < line_of(&lines, "resting"),
        "{text}"
    );
}

#[test]
fn the_detail_panel_never_shows_another_quests_events() {
    let first = quest("aaa-quest", QuestState::Active, 1);
    let master = session(&first.id, SessionRole::Master, SessionStatus::Waiting);
    let second = quest("bbb-quest", QuestState::Active, 2);
    let log = vec![
        event(&first, "event.for.aaa"),
        event(&second, "event.for.bbb"),
    ];
    let mut app = App::new(&Config::default(), "laptop");
    app.set_size(120, 30);
    reload(
        &mut app,
        vec![row(first, vec![master]), row(second, Vec::new())],
        &log,
    );
    app.detail = true;

    assert_eq!(
        app.quests.selected_row().unwrap().view.quest.slug,
        "aaa-quest"
    );
    let text = screen(&mut app, 120, 30);
    assert!(text.contains("event.for.aaa"), "{text}");

    // Move down. Until the events are read the panel may show none, but never
    // the previous quest's under this title.
    handle(&mut app, Input::Char('j'));
    assert_eq!(
        app.quests.selected_row().unwrap().view.quest.slug,
        "bbb-quest"
    );
    let text = screen(&mut app, 120, 30);
    assert!(
        !text.contains("event.for.aaa"),
        "the previous selection's events are still on screen\n{text}"
    );

    resync_events(&mut app, &log);
    let text = screen(&mut app, 120, 30);
    assert!(text.contains("event.for.bbb"), "{text}");
    assert!(!text.contains("event.for.aaa"), "{text}");

    handle(&mut app, Input::Char('k'));
    resync_events(&mut app, &log);
    let text = screen(&mut app, 120, 30);
    assert!(text.contains("event.for.aaa"), "{text}");
    assert!(!text.contains("event.for.bbb"), "{text}");
}

#[test]
fn a_remote_selection_reads_no_events_here() {
    let mut app = app_with(vec![remote_row("ws", "far", QuestState::Active, false)]);
    assert_eq!(sync_step(&app), Sync::Clear);
    sync(&mut app, Vec::new());
    assert_eq!(sync_step(&app), Sync::Nothing);
    assert!(!wants_links(&app.quests.rows[0]));
    let app = app_with(vec![row(quest("here", QuestState::Active, 1), Vec::new())]);
    assert_eq!(
        sync_step(&app),
        Sync::Fetch {
            quest: "id-of-here".to_string(),
            limit: EVENTS
        }
    );
}

#[test]
fn a_second_look_at_the_selections_events_asks_for_nothing() {
    let q = quest("here", QuestState::Active, 1);
    let many: Vec<Event> = (0..25).map(|n| event(&q, &format!("kind.{n}"))).collect();
    let mut app = app_with(vec![row(q, Vec::new())]);
    sync(&mut app, many);
    assert_eq!(sync_step(&app), Sync::Nothing);
    assert_eq!(app.quests.events.len(), 10);
    assert_eq!(app.quests.events[0].kind, "kind.0");
    assert_eq!(app.quests.selected_row().unwrap().view.quest.slug, "here");
}

#[test]
fn a_search_finds_whatever_the_case() {
    let mut shouted = quest("LOUD-quest", QuestState::Active, 2);
    shouted.goal = Some("ÉCLAIR".to_string());
    let mut app = app_with(vec![
        row(shouted, Vec::new()),
        row(quest("quiet", QuestState::Active, 1), Vec::new()),
    ]);
    for query in ["loud", "LOUD", "éclair", "Éclair"] {
        app.quests.query = query.to_string();
        app.quests.resync();
        assert_eq!(app.quests.visible(), [0], "{query}");
    }
}

#[test]
fn a_merged_listing_is_ranked_and_keeps_everything() {
    let rows = merge(
        vec![
            row(quest("old", QuestState::Active, 1), Vec::new()),
            row(quest("done", QuestState::Finished, 9), Vec::new()),
            row(quest("new", QuestState::Active, 5), Vec::new()),
        ],
        vec![remote_row("ws", "far", QuestState::Active, false)],
    );
    let slugs: Vec<&str> = rows.iter().map(|r| r.view.quest.slug.as_str()).collect();
    assert_eq!(slugs, ["new", "far", "old", "done"]);
}

#[test]
fn the_pieces_of_a_row() {
    assert_eq!(pack("left", "right", 20), "left           right");
    assert_eq!(pack("a long left half", "right", 12), "a lon… right");
    assert_eq!(pack("left", "right", 7), "left");
    assert_eq!(pack("left", "", 3), "le…");
    assert_eq!(pack("left", "right", 0), "");
    let mut s = session("q", SessionRole::Worker, SessionStatus::Waiting);
    s.waiting_for = Some("input".to_string());
    s.phase = Some("tests".to_string());
    s.ctx_pct = Some(7);
    assert_eq!(
        session_line(&s),
        "master worker waiting (input) · tests · ctx 7%"
    );
    assert_eq!(
        link_cell_with(
            &link("pr", "https://x/pull/12/files"),
            &Some("open".to_string()),
            &None
        ),
        "PR #12 open"
    );
    assert_eq!(link_cell(&link("task", "x")), "task");
    assert_eq!(link_cell(&link("doc", "x")), "doc x");
    assert_eq!(pr_number("https://x/pull/1/pull/23#f"), Some("23"));
}

#[test]
fn sessions_are_listed_living_first_then_the_master_then_by_age() {
    let mk = |label: &str, role, status, started_at| {
        let mut s = session("q", role, status);
        s.label = label.to_string();
        s.started_at = started_at;
        s
    };
    let sessions = vec![
        mk("ended", SessionRole::Master, SessionStatus::Ended, 0),
        mk("young", SessionRole::Worker, SessionStatus::Idle, 9),
        mk("old", SessionRole::Worker, SessionStatus::Idle, 3),
        mk("boss", SessionRole::Master, SessionStatus::Busy, 8),
    ];
    let r = row(quest("here", QuestState::Active, 9), sessions);
    let lines = panel_text(&r, &[], &[]);
    let at = lines.iter().position(|l| l == "sessions").unwrap();
    let labels: Vec<&str> = lines[at + 1..at + 5]
        .iter()
        .map(|l| l.split(' ').next().unwrap())
        .collect();
    assert_eq!(labels, ["boss", "old", "young", "ended"]);
}

#[test]
fn a_form_always_has_workflows_to_offer() {
    let read = vec!["mine".to_string()];
    let built_in = vec!["solo".to_string()];
    assert_eq!(
        workflows_or_builtins(Some(read.clone()), built_in.clone()),
        read
    );
    assert_eq!(workflows_or_builtins(None, built_in.clone()), built_in);
    let mut app = App::new(&Config::default(), "laptop");
    let templates: Vec<Template> = Vec::new();
    refresh(&mut app, Vec::new(), Vec::new(), templates, built_in);
    app.handle(Input::Char('n'));
    assert_eq!(app.modal.as_ref().unwrap().form.choice("workflow"), "(none)");
}

#[test]
fn long_texts_are_capped_in_characters_before_they_are_put_together() {
    let chars = |text: &str| text.chars().count();
    let mut titled = link("task", "x");
    titled.title = Some("t".repeat(100));
    titled.title_line = "t".repeat(100);
    assert_eq!(chars(&link_cell(&titled)), "task ".len() + 40);
    titled.kind = "doc".to_string();
    assert_eq!(chars(&link_cell(&titled)), "doc ".len() + 40);
    let plain = link("doc", &"r".repeat(100));
    assert_eq!(chars(&link_cell(&plain)), "doc ".len() + 40);

    let mut q = quest("here", QuestState::Active, 9);
    q.goal = Some("g".repeat(300));
    let mut long = event(&q, "note");
    long.payload_line = "p".repeat(300);
    // Thirty wide characters are under the cap, whatever columns they take.
    let mut wide = event(&q, "note");
    wide.payload_line = "日".repeat(30);
    let lines = panel_text(&row(q, Vec::new()), &[], &[long, wide]);
    assert_eq!(chars(&lines[1]), 200);
    let shown = &lines[lines.len() - 2];
    assert_eq!(chars(shown), "  4m note ".len() + 40);
    assert!(shown.ends_with("p…"), "{shown}");
    assert!(lines[lines.len() - 1].ends_with(&"日".repeat(30)));
}
