use questfleet::app::{help_rows, tab_at_column, tab_layout, Action, App, Prompt, Tab};
use questfleet::events::{self, refresh_begin};
use questfleet::form::{Form, ACTION};
use questfleet::keys::{
    Input, KeyCode, KeyEvent, MouseButton, MouseEvent, MouseEventKind, MouseInput,
};
use questfleet::layout::{right_segment, width, Rect, RowMode};
use questfleet::lifecycle::{arm_steps, Course, Flags, Step};
use questfleet::model::{
    Config, DisplayState, Origin, QError, Quest, QuestRow, QuestState, QuestView, Remote,
};
use questfleet::quests;
use questfleet::screen::hint;
use questfleet::shell::{
    absorb, advance_tick, apply_event, attach_want, cannot, child_said, cold, enter_local,
    enter_remote, entered, entered_far, first_line, is_handover, joined_line, land_step, landed,
    peek_text, proxy_args, proxy_read, proxy_write, report_refresh, report_sync, submitted,
    take_modal, warn, AttachWant, Ended, EnterTarget, Entering, EnteringFar, Event, LandStep,
    Landing, Loop, Paged, RemoteResult, SessionPick,
};
use questfleet::form::Drawing;
use questfleet::paint::{Line, Style};
use questfleet::screen::render;
use ratatui::buffer::Buffer;
use ratatui::style::Modifier;
use ratatui::widgets::{Block, Borders, Clear, Padding, Paragraph, Widget, Wrap};

const TABS: [Tab; 4] = [Tab::Quests, Tab::Sessions, Tab::Templates, Tab::Events];

fn app() -> App {
    App::new(&Config::default(), "laptop")
}

fn key(code: KeyCode) -> Event {
    Event::Key(KeyEvent {
        code,
        control: false,
        release: false,
    })
}

fn at(r: Rect) -> ratatui::layout::Rect {
    ratatui::layout::Rect::new(r.x, r.y, r.width, r.height)
}

fn style_of(style: Style) -> ratatui::style::Style {
    let plain = ratatui::style::Style::default();
    match style {
        Style::Plain => plain,
        Style::Bold => plain.add_modifier(Modifier::BOLD),
        Style::Dim => plain.add_modifier(Modifier::DIM),
        Style::Selected => plain.add_modifier(Modifier::BOLD | Modifier::REVERSED),
    }
}

fn span(l: &Line) -> ratatui::text::Span<'static> {
    ratatui::text::Span::styled(l.text.clone(), style_of(l.style))
}

fn lines(all: &[Line]) -> Vec<ratatui::text::Line<'static>> {
    all.iter()
        .map(|l| ratatui::text::Line::from(span(l)))
        .collect()
}

fn boxed(title: &str) -> Block<'static> {
    Block::default()
        .borders(Borders::ALL)
        .title(title.to_string())
        .padding(Padding::horizontal(1))
}

/// What a terminal of that size shows.
fn frame(app: &mut App, w: u16, h: u16) -> Buffer {
    let mut buffer = Buffer::empty(ratatui::layout::Rect::new(0, 0, w, h));
    let screen = render(app, Rect::new(0, 0, w, h));
    if let Some(header) = screen.header {
        let spans: Vec<_> = header.spans.iter().map(span).collect();
        Paragraph::new(ratatui::text::Line::from(spans)).render(at(header.bar), &mut buffer);
        Paragraph::new(span(&header.machine)).render(at(header.right), &mut buffer);
    }
    if let Some(list) = screen.body.list {
        Paragraph::new(lines(&list.lines)).render(at(list.area), &mut buffer);
    }
    if let Some(panel) = screen.body.panel {
        let block = boxed(&panel.title);
        let inner = block.inner(at(panel.area));
        block.render(at(panel.area), &mut buffer);
        let text = Paragraph::new(lines(&panel.lines));
        if panel.wrap {
            text.wrap(Wrap { trim: false }).render(inner, &mut buffer);
        } else {
            text.render(inner, &mut buffer);
        }
    }
    if let Some(status) = screen.status {
        Paragraph::new(span(&status.message)).render(at(status.left), &mut buffer);
        Paragraph::new(span(&status.hint)).render(at(status.right), &mut buffer);
    }
    match screen.modal {
        Some(Drawing::Cramped { row, line }) => {
            Clear.render(at(row), &mut buffer);
            Paragraph::new(span(&line)).render(at(row), &mut buffer);
        }
        Some(Drawing::Boxed { area, title, lines: all }) => {
            Clear.render(at(area), &mut buffer);
            Paragraph::new(lines(&all))
                .block(boxed(&title))
                .render(at(area), &mut buffer);
        }
        _ => {}
    }
    if let Some(help) = screen.help {
        let rows: Vec<ratatui::text::Line> = help
            .rows
            .iter()
            .map(|(k, d)| ratatui::text::Line::from(format!("{k}  {d}")))
            .collect();
        Clear.render(at(help.area), &mut buffer);
        Paragraph::new(rows)
            .block(boxed(" Keys "))
            .render(at(help.area), &mut buffer);
    }
    buffer
}

fn draw(app: &mut App, w: u16, h: u16) -> Vec<String> {
    let buffer = frame(app, w, h);
    (0..h)
        .map(|y| {
            (0..w)
                .map(|x| buffer.cell((x, y)).map(|c| c.symbol()).unwrap_or(" "))
                .collect::<String>()
                .trim_end()
                .to_string()
        })
        .collect()
}

/// Records the steps instead of performing them, with what was on as each of
/// them was issued, and can be told to fail at one of them.
#[derive(Debug, Default)]
struct FakeTerm {
    calls: Vec<&'static str>,
    snapshots: Vec<(&'static str, (bool, bool, bool, bool))>,
    fail_on: Option<&'static str>,
}

fn name_of(step: Step) -> &'static str {
    match step {
        Step::Raw(true) => "raw on",
        Step::Raw(false) => "raw off",
        Step::Alt(true) => "alt on",
        Step::Alt(false) => "alt off",
        Step::Paste(true) => "paste on",
        Step::Paste(false) => "paste off",
        Step::Mouse(true) => "mouse on",
        Step::Mouse(false) => "mouse off",
        Step::ShowCursor => "cursor show",
        Step::Flush => "flush",
    }
}

/// `(raw, alt, mouse, paste)`.
fn shown(flags: Flags) -> (bool, bool, bool, bool) {
    (flags.raw, flags.alt, flags.mouse, flags.paste)
}

impl FakeTerm {
    fn failing_at(step: &'static str) -> FakeTerm {
        FakeTerm {
            fail_on: Some(step),
            ..FakeTerm::default()
        }
    }

    fn walk(&mut self, mut course: Course) -> Course {
        while let Some(step) = course.begin() {
            let name = name_of(step);
            self.calls.push(name);
            self.snapshots.push((name, shown(course.flags)));
            course.end(self.fail_on != Some(name));
        }
        course
    }

    fn arm_only(&mut self, flags: &mut Flags, mouse: bool) -> bool {
        let course = self.walk(Course::arm(*flags, mouse));
        *flags = course.flags;
        !course.failed
    }

    fn arm(&mut self, flags: &mut Flags, mouse: bool) -> bool {
        let armed = self.arm_only(flags, mouse);
        if !armed {
            self.restore(flags);
        }
        armed
    }

    fn restore(&mut self, flags: &mut Flags) {
        *flags = self.walk(Course::restore(*flags)).flags;
    }
}

#[test]
fn the_guard_switches_back_exactly_what_arm_switched_on() {
    let mut flags = Flags::new();
    let mut term = FakeTerm::default();
    assert!(term.arm(&mut flags, true));
    assert_eq!(shown(flags), (true, true, true, true));
    term.restore(&mut flags);
    assert_eq!(
        term.calls,
        [
            "raw on",
            "alt on",
            "paste on",
            "mouse on",
            "cursor show",
            "mouse off",
            "paste off",
            "alt off",
            "raw off",
            "flush",
        ]
    );
    assert_eq!(shown(flags), (false, false, false, false));
}

#[test]
fn mouse_capture_is_left_alone_when_the_config_says_so() {
    let mut flags = Flags::new();
    let mut term = FakeTerm::default();
    assert!(term.arm(&mut flags, false));
    assert_eq!(shown(flags), (true, true, false, true));
    term.restore(&mut flags);
    // Nothing is undone that was never switched on.
    assert_eq!(
        term.calls,
        [
            "raw on",
            "alt on",
            "paste on",
            "cursor show",
            "paste off",
            "alt off",
            "raw off",
            "flush"
        ]
    );
}

#[test]
fn a_failure_part_way_through_arm_leaves_the_terminal_clean() {
    for (mouse, step, want) in [
        (
            true,
            "raw on",
            vec!["raw on", "cursor show", "raw off", "flush"],
        ),
        (
            true,
            "alt on",
            vec![
                "raw on",
                "alt on",
                "cursor show",
                "alt off",
                "raw off",
                "flush",
            ],
        ),
        (
            true,
            "paste on",
            vec![
                "raw on",
                "alt on",
                "paste on",
                "cursor show",
                "paste off",
                "alt off",
                "raw off",
                "flush",
            ],
        ),
        (
            true,
            "mouse on",
            vec![
                "raw on",
                "alt on",
                "paste on",
                "mouse on",
                "cursor show",
                "mouse off",
                "paste off",
                "alt off",
                "raw off",
                "flush",
            ],
        ),
        (
            false,
            "alt on",
            vec![
                "raw on",
                "alt on",
                "cursor show",
                "alt off",
                "raw off",
                "flush",
            ],
        ),
    ] {
        let mut flags = Flags::new();
        let mut term = FakeTerm::failing_at(step);
        assert!(!term.arm(&mut flags, mouse), "arm must fail at {step}");
        assert_eq!(term.calls, want, "failing at {step}");
        assert_eq!(flags, Flags::new(), "failing at {step}");
    }
}

#[test]
fn restore_shows_the_cursor_before_anything_else() {
    let mut flags = Flags::new();
    let mut term = FakeTerm::default();
    assert!(term.arm(&mut flags, true));
    term.calls.clear();
    term.restore(&mut flags);
    assert_eq!(term.calls[0], "cursor show");
    assert!(term.calls.contains(&"alt off"));
}

#[test]
fn every_flag_outlives_the_step_that_undoes_it() {
    let mut flags = Flags::new();
    let mut term = FakeTerm::default();
    assert!(term.arm(&mut flags, true));
    term.snapshots.clear();
    term.restore(&mut flags);
    assert_eq!(
        term.snapshots,
        [
            // (raw, alt, mouse, paste) as each step was issued.
            ("cursor show", (true, true, true, true)),
            ("mouse off", (true, true, true, true)),
            ("paste off", (true, true, false, true)),
            ("alt off", (true, true, false, false)),
            ("raw off", (true, false, false, false)),
            ("flush", (false, false, false, false)),
        ]
    );
    assert_eq!(shown(flags), (false, false, false, false));
}

#[test]
fn restoring_twice_is_a_no_op_the_second_time() {
    let mut flags = Flags::new();
    let mut term = FakeTerm::default();
    assert!(term.arm(&mut flags, true));
    term.restore(&mut flags);
    assert_eq!(shown(flags), (false, false, false, false));
    term.calls.clear();
    term.restore(&mut flags);
    assert!(term.calls.is_empty(), "{:?}", term.calls);
    // And with nothing ever armed.
    term.restore(&mut Flags::new());
    assert!(term.calls.is_empty(), "{:?}", term.calls);
}

#[test]
fn an_undo_step_that_fails_keeps_no_other_from_being_tried() {
    let mut flags = Flags::new();
    let mut term = FakeTerm::default();
    assert!(term.arm(&mut flags, true));
    term.calls.clear();
    term.fail_on = Some("mouse off");
    term.restore(&mut flags);
    assert_eq!(
        term.calls,
        [
            "cursor show",
            "mouse off",
            "paste off",
            "alt off",
            "raw off",
            "flush"
        ]
    );
    assert_eq!(flags, Flags::new());
}

#[test]
fn the_tui_arms_bracketed_paste_and_every_exit_disables_it() {
    let mut flags = Flags::new();
    let mut term = FakeTerm::default();
    assert!(term.arm(&mut flags, true));
    assert!(flags.paste, "pasted bytes still arrive as keys");
    term.restore(&mut flags);
    assert!(term.calls.contains(&"paste on"), "{:?}", term.calls);
    assert!(term.calls.contains(&"paste off"), "{:?}", term.calls);
    assert!(!flags.paste);
    for mouse in [false, true] {
        assert!(arm_steps(mouse).contains(&Step::Paste(true)));
    }
}

#[test]
fn a_handoff_leaves_tui_mode_and_comes_back_into_it() {
    let mut flags = Flags::new();
    let mut term = FakeTerm::default();
    assert!(term.arm(&mut flags, true));
    term.calls.clear();
    term.restore(&mut flags);
    assert_eq!(shown(flags), (false, false, false, false));
    assert!(term.arm_only(&mut flags, true));
    assert_eq!(shown(flags), (true, true, true, true));
    assert_eq!(
        term.calls,
        [
            "cursor show",
            "mouse off",
            "paste off",
            "alt off",
            "raw off",
            "flush",
            "raw on",
            "alt on",
            "paste on",
            "mouse on",
        ]
    );
}

#[test]
fn a_handoff_does_not_arm_mouse_capture_the_config_turned_off() {
    let mut flags = Flags::new();
    let mut term = FakeTerm::default();
    assert!(term.arm(&mut flags, false));
    term.calls.clear();
    term.restore(&mut flags);
    assert!(term.arm_only(&mut flags, false));
    assert_eq!(shown(flags), (true, true, false, true));
    assert_eq!(
        term.calls,
        [
            "cursor show",
            "paste off",
            "alt off",
            "raw off",
            "flush",
            "raw on",
            "alt on",
            "paste on"
        ]
    );
}

#[test]
fn a_resume_that_fails_still_leaves_the_guard_something_to_undo() {
    let mut flags = Flags::new();
    flags.raw = true;
    flags.alt = true;
    let mut term = FakeTerm::failing_at("alt on");
    term.restore(&mut flags);
    assert!(!term.arm_only(&mut flags, false));
    assert_eq!(shown(flags), (true, true, false, false));
    term.calls.clear();
    term.restore(&mut flags);
    assert_eq!(term.calls[0], "cursor show");
    assert_eq!(shown(flags), (false, false, false, false));
}

#[test]
fn the_tick_deadline_holds_its_period_and_resyncs_after_a_stall() {
    let second = 1_000_000_000u64;
    let tick = 2 * second;
    let t0 = 5 * second;
    // On the grid, and a little late: the next deadline does not slide by
    // however long the refresh took.
    assert_eq!(advance_tick(t0, t0 + tick, tick), t0 + tick);
    assert_eq!(advance_tick(t0, t0 + tick + 300_000_000, tick), t0 + tick);
    // More than a whole period behind: resync instead of firing a burst of
    // catch-up ticks.
    let late = t0 + 30 * second;
    assert_eq!(advance_tick(t0, late, tick), late);
}

#[test]
fn a_failed_refresh_lands_in_the_status_bar() {
    let mut app = app();
    report_refresh(&mut app, Err(QError::Other("database is locked".to_string())));
    assert_eq!(
        app.refresh_error.as_deref(),
        Some("refresh failed: database is locked")
    );
    let lines = draw(&mut app, 100, 10);
    assert!(
        lines
            .last()
            .unwrap()
            .contains("refresh failed: database is locked"),
        "{lines:?}"
    );

    // And the next reload that works takes the message away again.
    report_refresh(&mut app, Ok(()));
    assert!(app.refresh_error.is_none());
    let lines = draw(&mut app, 100, 10);
    assert!(lines.last().unwrap().contains("rows 2"), "{lines:?}");
}

#[test]
fn a_failed_refresh_does_not_evict_the_search_box() {
    let mut app = app();
    app.handle(Input::Char('/'));
    for c in "run".chars() {
        app.handle(Input::Char(c));
    }
    assert!(app.capturing());

    report_refresh(&mut app, Err(QError::Other("database is locked".to_string())));
    let lines = draw(&mut app, 100, 10);
    let bar = lines.last().unwrap();
    assert!(bar.contains("/run"), "the box was evicted: {bar}");
    assert!(
        bar.contains("refresh failed: database is locked"),
        "the failure went unsaid: {bar}"
    );
    assert!(app.capturing(), "the keyboard was handed back");

    // Once the box is closed the failure has the bar to itself again.
    app.handle(Input::Esc);
    assert!(!app.capturing());
    let lines = draw(&mut app, 100, 10);
    assert!(
        lines.last().unwrap().contains("refresh failed"),
        "{lines:?}"
    );
}

#[test]
fn a_successful_reload_leaves_a_keypress_message_alone() {
    let mut app = app();
    app.say("close cdc-backfill: lands later");
    for _ in 0..3 {
        report_refresh(&mut app, Ok(()));
    }
    assert_eq!(app.status, "close cdc-backfill: lands later");
    let lines = draw(&mut app, 100, 10);
    assert!(lines.last().unwrap().contains("lands later"), "{lines:?}");
    // A failure outranks it while it lasts, and does not destroy it.
    report_refresh(&mut app, Err(QError::Other("locked".to_string())));
    let lines = draw(&mut app, 100, 10);
    assert!(
        lines.last().unwrap().contains("refresh failed"),
        "{lines:?}"
    );
    report_refresh(&mut app, Ok(()));
    let lines = draw(&mut app, 100, 10);
    assert!(lines.last().unwrap().contains("lands later"), "{lines:?}");
}

#[test]
fn only_what_changes_something_asks_for_a_redraw() {
    let mut app = app();
    let mouse = |kind| {
        Event::Mouse(MouseEvent {
            kind,
            column: 3,
            row: 0,
        })
    };
    // Mouse capture is ANY-MOTION tracking: motion reports arrive
    // constantly and must not cost a render pass.
    assert_eq!(
        apply_event(&mut app, mouse(MouseEventKind::Moved)),
        (Action::Nothing, false)
    );
    // A key with no letter in the alphabet is just as free.
    let f1 = key(KeyCode::F(1));
    assert_eq!(apply_event(&mut app, f1), (Action::Nothing, false));

    // A tab switch absolutely needs a redraw.
    let tab = key(KeyCode::Tab);
    assert_eq!(apply_event(&mut app, tab), (Action::Nothing, true));
    assert_eq!(app.tab, Tab::Sessions);
    // BackTab walks the other way and still costs a redraw.
    let back = key(KeyCode::BackTab);
    assert_eq!(apply_event(&mut app, back), (Action::Nothing, true));
    assert_eq!(app.tab, Tab::Quests);
    assert_eq!(
        apply_event(&mut app, Event::Resize(80, 24)),
        (Action::Nothing, true)
    );
    assert_eq!((app.width, app.height), (80, 24));

    // `x` is the one that also reloads.
    let x = key(KeyCode::Char('x'));
    assert_eq!(apply_event(&mut app, x), (Action::Refresh, true));

    // With `[ui] mouse = false` the loop never even captures these.
    app.mouse = false;
    assert_eq!(
        apply_event(&mut app, mouse(MouseEventKind::Down(MouseButton::Left))),
        (Action::Nothing, false)
    );
}

#[test]
fn a_paste_is_text_and_never_a_key() {
    let mut app = app();
    let paste = Event::Paste("\u{1b}[C\rq".to_string());
    assert_eq!(apply_event(&mut app, paste), (Action::Nothing, false));
    assert!(!app.should_quit, "a pasted `q` quit the TUI");
    assert!(app.modal.is_none());
}

#[test]
fn a_key_release_is_dropped_rather_than_firing_the_binding_twice() {
    let mut app = app();
    let release = KeyEvent {
        code: KeyCode::Char('q'),
        control: false,
        release: true,
    };
    assert_eq!(
        apply_event(&mut app, Event::Key(release)),
        (Action::Nothing, false)
    );
    assert!(!app.should_quit);
}

#[test]
fn tab_clicks_land_on_the_labels_actually_drawn() {
    let mut app = app();
    let lines = draw(&mut app, 100, 20);
    let header = &lines[0];
    for (tab, label, x, w) in tab_layout() {
        let drawn: String = header
            .chars()
            .skip(x as usize)
            .take(w as usize)
            .collect::<String>();
        assert_eq!(
            drawn, label,
            "{tab:?} is not drawn where hit-testing puts it"
        );
        assert_eq!(tab_at_column(x, app.tab_bar_width), Some(tab));
        assert_eq!(tab_at_column(x + w - 1, app.tab_bar_width), Some(tab));
    }
}

#[test]
fn a_click_past_the_clipped_tab_bar_selects_nothing() {
    let mut app = app();
    draw(&mut app, 50, 10);
    // `" laptop "` takes 8 of the 50 columns.
    assert_eq!(app.tab_bar_width, 42);
    let (events, _, x, w) = tab_layout().into_iter().last().unwrap();
    assert!(x < app.tab_bar_width, "Events starts inside the bar");
    assert!(x + w > app.tab_bar_width, "and is drawn clipped");

    // On the visible part of the clipped label: still Events.
    app.handle_mouse(MouseInput::Click {
        col: app.tab_bar_width - 1,
        row: 0,
    });
    assert_eq!(app.tab, events);

    // On the machine label — visually the clipped `4 Events` — nothing moves.
    app.tab = Tab::Quests;
    for col in [app.tab_bar_width, app.tab_bar_width + 1, x + w - 1] {
        app.handle_mouse(MouseInput::Click { col, row: 0 });
        assert_eq!(app.tab, Tab::Quests, "col {col}");
    }
}

#[test]
fn a_machine_name_longer_than_the_terminal_cannot_wipe_the_tab_bar() {
    let mut app = App::new(&Config::default(), &"m".repeat(300));
    let lines = draw(&mut app, 60, 10);
    assert_eq!(app.tab_bar_width, 20);
    assert!(lines[0].starts_with(" 1 Quests"), "{:?}", lines[0]);
    assert!(lines[0].contains('m'), "{:?}", lines[0]);
    // Clicks still land on the tabs that survived the clip.
    assert_eq!(
        tab_at_column(1, app.tab_bar_width),
        Some(Tab::Quests),
        "{:?}",
        lines[0]
    );
    assert_eq!(tab_at_column(39, app.tab_bar_width), None);
}

#[test]
fn a_narrow_status_bar_still_shows_the_machine_readout() {
    let mut app = app();
    let lines = draw(&mut app, 24, 5);
    let status = lines.last().unwrap();
    assert!(status.contains("lap"), "{status:?}");
    assert!(status.contains("help"), "{status:?}");
}

#[test]
fn every_terminal_size_renders_without_panicking() {
    for w in [1u16, 2, 20, 70, 100, 200] {
        for h in [1u16, 2, 3, 24] {
            for help in [false, true] {
                // A modal is drawn over the whole frame, whatever tab and
                // whatever size — so it belongs in the sweep, not only in
                // `form`'s own tests.
                for modal in [false, true] {
                    for tab in TABS {
                        let mut app = app();
                        app.tab = tab;
                        app.help = help;
                        if modal {
                            let mut form = Form::new("close x?")
                                .action("close")
                                .note("kills tmux q-x");
                            form.set_error("a rather long reason it did not work");
                            app.open(Prompt::NewQuest, form);
                        }
                        // The sweep itself is the assertion: `draw` panics
                        // on a widget written outside its area, and every
                        // band of the chrome is exercised at every
                        // breakpoint.
                        let lines = draw(&mut app, w, h);
                        // The chrome always wins the last line it was
                        // given: a body that overran would have taken it.
                        if h >= 2 && w >= 40 && !modal {
                            let status = lines.last().unwrap();
                            assert!(
                                status.contains("q quit") || help,
                                "{w}x{h} {tab:?} help={help}: {status:?}"
                            );
                        }
                    }
                }
            }
        }
    }
}

#[test]
fn the_header_lists_every_tab_and_the_machine() {
    let mut app = app();
    let lines = draw(&mut app, 100, 20);
    let header = &lines[0];
    for (tab, label, _, _) in tab_layout() {
        assert!(header.contains(&label), "{tab:?} missing from {header:?}");
    }
    assert!(header.contains("laptop"), "{header:?}");
}

#[test]
fn the_status_bar_reports_orientation() {
    let mut app = app();
    let lines = draw(&mut app, 100, 20);
    let status = lines.last().unwrap();
    assert!(status.contains("laptop"), "{status:?}");
    assert!(status.contains("rows 2"), "{status:?}");
    assert!(status.contains("tick 2s"), "{status:?}");
    assert!(status.contains("mouse on"), "{status:?}");
    assert!(status.contains("? help"), "{status:?}");
    assert!(status.contains("q quit"), "{status:?}");
}

#[test]
fn the_status_hint_names_the_keys_the_tab_actually_has() {
    // Quests' headline actions are the two that take over the terminal.
    let on = |tab: Tab| {
        let mut a = app();
        a.tab = tab;
        hint(&a)
    };
    let quests = on(Tab::Quests);
    assert!(quests.contains("o attach"), "{quests:?}");
    assert!(quests.contains("b brief"), "{quests:?}");
    // Sessions has its own pair that take over the terminal: `⏎` lands in
    // the agent's window, `p` opens its pane in a pager.
    let fleet = on(Tab::Sessions);
    assert!(fleet.contains("\u{23ce} enter"), "{fleet:?}");
    assert!(fleet.contains("p peek"), "{fleet:?}");
    assert!(!fleet.contains("brief"), "{fleet:?}");
    // Events is read-only: its two keys are what narrows the tail and how
    // to get back onto it.
    let events = on(Tab::Events);
    assert!(events.contains("/ kind"), "{events:?}");
    assert!(events.contains("G tail"), "{events:?}");
    // Templates leads with the key that takes over the terminal — `⏎`
    // runs the routine and lands in its master — and then with the one
    // key on this tab whose case matters: `X` exports, `x` still reloads.
    let routines = on(Tab::Templates);
    assert!(routines.contains("\u{23ce} run"), "{routines:?}");
    assert!(routines.contains("X export"), "{routines:?}");
    // Nothing that takes the terminal is advertised on the read-only tab.
    let events = on(Tab::Events);
    assert!(!events.contains("attach"), "{events:?}");
    assert!(!events.contains("brief"), "{events:?}");
    assert!(!events.contains("peek"), "{events:?}");
    // `?` and `q` are on every tab: one opens the list of everything the
    // hint had no room for, the other is the way out.
    for tab in TABS {
        let h = on(tab);
        assert!(h.contains("? help"), "{tab:?}: {h:?}");
        assert!(h.contains("q quit"), "{tab:?}: {h:?}");
    }
    // With a form up neither is true — `q` is a letter in a field — so the
    // bar advertises the form's own keys instead.
    let mut with_form = app();
    with_form.handle(Input::Char('n'));
    let h = hint(&with_form);
    assert!(!h.contains("q quit"), "{h:?}");
    assert!(h.contains("Esc cancel"), "{h:?}");
    // And `x` is still reachable on Quests, just from the overlay.
    assert!(
        help_rows(Tab::Quests)
            .iter()
            .any(|(k, _)| k.contains('x')),
        "x fell out of the help overlay too"
    );
}

/// The segment is capped at two thirds of the row, and `truncate` cuts
/// from the *right* — so a hint that outgrows its budget loses `q quit`
/// silently. 70 columns is the narrowest width the render sweep asserts
/// the chrome at.
#[test]
fn the_status_hint_fits_the_segment_it_is_given() {
    let mut a = app();
    for tab in TABS {
        a.tab = tab;
        let h = hint(&a);
        let want = width(h) as u16;
        assert_eq!(
            right_segment(70, want),
            want,
            "{tab:?}: {h:?} is {want} columns and does not fit at 70"
        );
    }
    a.tab = Tab::Quests;
    a.handle(Input::Char('n'));
    let h = hint(&a);
    let want = width(h) as u16;
    assert_eq!(right_segment(70, want), want, "form hint {h:?}");
}

/// Rendered, not just returned: the arms have to reach the actual bar.
#[test]
fn the_status_bar_draws_the_active_tabs_hint() {
    let mut app = app();
    let quests = draw(&mut app, 100, 20).last().unwrap().clone();
    assert!(quests.contains("o attach"), "{quests:?}");
    assert!(quests.contains("b brief"), "{quests:?}");

    app.handle(Input::Char('4'));
    let events = draw(&mut app, 100, 20).last().unwrap().clone();
    assert!(events.contains("G tail"), "{events:?}");
    assert!(!events.contains("o attach"), "{events:?}");

    app.handle(Input::Char('3'));
    let templates = draw(&mut app, 100, 20).last().unwrap().clone();
    assert!(templates.contains("X export"), "{templates:?}");
    assert!(!templates.contains("o attach"), "{templates:?}");
}

#[test]
fn the_status_bar_reports_the_narrow_row_mode() {
    let mut app = app();
    let lines = draw(&mut app, 60, 20);
    assert!(lines.last().unwrap().contains("rows 3"), "{lines:?}");
}

#[test]
fn the_help_overlay_covers_the_body_and_lists_the_bindings() {
    let mut app = app();
    app.handle(Input::Char('?'));
    // Wide enough for the widest row, so the overlay spans the body.
    let rendered = draw(&mut app, 68, 26).join("\n");
    assert!(rendered.contains("Keys"), "{rendered}");
    for (key, desc) in help_rows(app.tab) {
        assert!(rendered.contains(key), "missing key {key}: {rendered}");
        assert!(rendered.contains(desc), "missing desc {desc}: {rendered}");
    }
    // `Clear` really wiped what was underneath.
    assert!(!rendered.contains("n starts one"), "{rendered}");

    // Dismissing it brings the body back.
    app.handle(Input::Esc);
    let rendered = draw(&mut app, 68, 26).join("\n");
    assert!(rendered.contains("n starts one"), "{rendered}");
    assert!(!rendered.contains("Keys"), "{rendered}");
}

/// The overlay is the shell's keys plus the active tab's own.
#[test]
fn the_help_overlay_follows_the_tab() {
    let mut app = app();
    app.help = true;
    let quests = draw(&mut app, 90, 30).join("\n");
    assert!(quests.contains("cycle the machine filter"), "{quests}");
    app.help = false;
    app.handle(Input::Char('4'));
    app.help = true;
    let events = draw(&mut app, 90, 30).join("\n");
    assert!(!events.contains("cycle the machine filter"), "{events}");
    assert!(events.contains("next / previous tab"), "{events}");
}

#[test]
fn rendering_tracks_the_terminal_size() {
    let mut app = app();
    draw(&mut app, 120, 40);
    assert_eq!((app.width, app.height), (120, 40));
    assert_eq!(app.row_mode(), RowMode::Two);
    draw(&mut app, 55, 12);
    assert_eq!((app.width, app.height), (55, 12));
    assert_eq!(app.row_mode(), RowMode::Three);
}

#[test]
fn a_terminal_too_small_for_the_chrome_still_renders() {
    let mut app = app();
    // One row: header only, no body and no status bar.
    let lines = draw(&mut app, 20, 1);
    assert_eq!(lines.len(), 1);
    assert!(lines[0].contains("Quests"), "{lines:?}");
    // Two rows, and the help overlay on top of them.
    app.handle(Input::Char('?'));
    let lines = draw(&mut app, 20, 2);
    assert_eq!(lines.len(), 2);
}

#[test]
fn the_body_follows_the_selected_tab() {
    let mut app = app();
    let body = draw(&mut app, 100, 20).join("\n");
    assert!(body.contains("no open quests"), "{body}");

    app.handle(Input::Char('4'));
    let body = draw(&mut app, 100, 20).join("\n");
    assert!(body.contains("no events yet"), "{body}");
    assert!(!body.contains("no open quests"), "{body}");

    app.handle(Input::Char('3'));
    let body = draw(&mut app, 100, 20).join("\n");
    assert!(!body.contains("no events yet"), "{body}");

    app.handle(Input::Char('1'));
    let body = draw(&mut app, 100, 20).join("\n");
    assert!(body.contains("no open quests"), "{body}");
}

fn quest(slug: &str, machine: &str, state: QuestState) -> Quest {
    Quest {
        id: format!("id-of-{slug}"),
        slug: slug.to_string(),
        goal: None,
        machine: machine.to_string(),
        state,
        beads_epic: None,
        created_at: 1,
        updated_at: 1,
    }
}

fn row(quest: Quest, origin: Origin) -> QuestRow {
    QuestRow {
        goal_line: String::new(),
        age: "4m".to_string(),
        cwd_shown: "/tmp/work".to_string(),
        view: QuestView {
            display_state: DisplayState::Idle,
            needs_you: false,
            live_sessions: 0,
            master_ctx_pct: None,
            progress: None,
            state_cell: "idle".to_string(),
            quest,
        },
        sessions: Vec::new(),
        origin,
    }
}

fn loaded(rows: Vec<QuestRow>) -> App {
    let mut app = app();
    app.set_size(120, 30);
    let links = vec![Vec::new(); rows.len()];
    quests::refresh(&mut app, rows, links, Vec::new(), Vec::new());
    app
}

fn remote_app(state: QuestState) -> App {
    loaded(vec![row(
        quest("over-there", "ws", state),
        Origin::Remote { stale: false },
    )])
}

fn target() -> EnterTarget {
    EnterTarget {
        session: "s-1".to_string(),
        tmux_session: "q-needs-me".to_string(),
        pane: "%1".to_string(),
    }
}

fn ws() -> Result<Remote, QError> {
    Ok(Remote {
        name: "ws".to_string(),
        ssh: "ws-host".to_string(),
    })
}

fn said(entering: Entering) -> String {
    match entering {
        Entering::Say(text) => text,
        _ => panic!("{entering:?}"),
    }
}

fn want_of(app: &App) -> AttachWant {
    attach_want(app, None, None).unwrap().unwrap()
}

#[test]
fn o_hands_the_terminal_to_tmux_and_takes_it_back() {
    let mut app = loaded(vec![row(
        quest("needs-me", "laptop", QuestState::Active),
        Origin::Local,
    )]);
    assert_eq!(app.handle(Input::Char('o')), Action::Attach);
    let want = want_of(&app);
    assert_eq!(want.machine, None);
    assert_eq!(enter_local(&want, Ok(target()), true), Entering::Lend(target()));
    assert_eq!(entered(&want.name, &Ok(()), false), "back from needs-me");
}

#[test]
fn attaching_from_inside_tmux_switches_the_client_instead() {
    assert_eq!(entered("needs-me", &Ok(()), true), "switched to needs-me");
}

#[test]
fn return_after_detach_off_gives_the_terminal_away_and_quits() {
    let app = loaded(vec![row(
        quest("needs-me", "laptop", QuestState::Active),
        Origin::Local,
    )]);
    let want = want_of(&app);
    assert_eq!(enter_local(&want, Ok(target()), false), Entering::Give(target()));
}

#[test]
fn a_quest_that_cannot_be_entered_says_so_and_keeps_the_screen() {
    let app = loaded(vec![row(
        quest("needs-me", "laptop", QuestState::Active),
        Origin::Local,
    )]);
    let want = want_of(&app);
    for why in ["no tmux session", "master session of needs-me ended"] {
        let text = said(enter_local(&want, Err(QError::NotFound(why.to_string())), true));
        assert_eq!(text, format!("cannot enter needs-me: {why}"));
    }
}

#[test]
fn o_on_a_remote_quest_hands_the_terminal_to_ssh() {
    let mut app = remote_app(QuestState::Active);
    assert_eq!(app.handle(Input::Char('o')), Action::Attach);
    let want = want_of(&app);
    assert_eq!(want.machine.as_deref(), Some("ws"));
    assert_eq!(
        enter_remote(&want, "ws", ws(), true),
        EnteringFar::Lend("ws-host".to_string())
    );
    assert_eq!(
        entered_far("over-there", "ws", "q-over-there", &Ok(())),
        "back from ws:q-over-there"
    );
    assert_eq!(
        entered_far(
            "over-there",
            "ws",
            "q-over-there",
            &Err(QError::Other("no route".to_string()))
        ),
        "cannot enter over-there on ws: no route"
    );
}

#[test]
fn a_remote_attach_can_give_the_terminal_away_for_good() {
    let app = remote_app(QuestState::Active);
    assert_eq!(
        enter_remote(&want_of(&app), "ws", ws(), false),
        EnteringFar::Give("ws-host".to_string())
    );
}

#[test]
fn a_finished_remote_quest_is_not_attachable_either() {
    let app = remote_app(QuestState::Finished);
    assert_eq!(
        enter_remote(&want_of(&app), "ws", ws(), true),
        EnteringFar::Say("over-there is finished on ws; resume it there".to_string())
    );
}

#[test]
fn a_row_whose_remote_is_no_longer_configured_says_so() {
    let app = remote_app(QuestState::Active);
    let gone = Err(QError::NotFound("no remote named ws".to_string()));
    assert_eq!(
        enter_remote(&want_of(&app), "ws", gone, true),
        EnteringFar::Say("cannot enter over-there: no remote named ws".to_string())
    );
}

fn pick() -> SessionPick {
    SessionPick {
        quest: "id-of-alpha".to_string(),
        label: "tests".to_string(),
        name: "alpha/tests".to_string(),
        session: "s-2".to_string(),
    }
}

#[test]
fn enter_on_the_sessions_tab_attaches_to_exactly_that_window() {
    let mut app = app();
    app.tab = Tab::Sessions;
    let alpha = quest("alpha", "laptop", QuestState::Active);
    let want = attach_want(&app, Some(pick()), Some(alpha.clone()))
        .unwrap()
        .unwrap();
    assert_eq!(want.quest, alpha);
    assert_eq!(want.label.as_deref(), Some("tests"));
    assert_eq!(want.session.as_deref(), Some("s-2"));
    let mut there = target();
    there.session = "s-2".to_string();
    assert_eq!(
        enter_local(&want, Ok(there.clone()), true),
        Entering::Lend(there)
    );
    assert_eq!(entered(&want.name, &Ok(()), false), "back from alpha/tests");
    // The quest is gone.
    let err = attach_want(&app, Some(pick()), None).unwrap_err();
    assert_eq!(err.message(), "quest of alpha/tests");
    assert_eq!(attach_want(&app, None, Some(alpha)), Ok(None));
}

#[test]
fn enter_refuses_a_row_whose_label_now_belongs_to_another_session() {
    let mut app = app();
    app.tab = Tab::Sessions;
    let alpha = quest("alpha", "laptop", QuestState::Active);
    let want = attach_want(&app, Some(pick()), Some(alpha)).unwrap().unwrap();
    let text = said(enter_local(&want, Ok(target()), true));
    assert_eq!(
        text,
        "alpha/tests is not that session any more (the label was reused); x to reload"
    );
}

#[test]
fn attaching_with_an_empty_listing_does_nothing_at_all() {
    let mut app = loaded(Vec::new());
    assert_eq!(app.handle(Input::Char('o')), Action::Nothing);
    assert_eq!(attach_want(&app, None, None), Ok(None));
    app.tab = Tab::Events;
    assert_eq!(attach_want(&app, None, None), Ok(None));
}

#[test]
fn a_run_says_its_warnings_however_it_lands() {
    let landing = Landing {
        tmux_session: "q-weekly".to_string(),
        pane: "%4".to_string(),
        name: "weekly".to_string(),
        warnings: vec!["no beads epic".to_string()],
    };
    assert_eq!(
        landed(&landing, &Ok(()), false),
        "back from weekly · no beads epic"
    );
    assert_eq!(
        landed(&landing, &Ok(()), true),
        "switched to weekly · no beads epic"
    );
    assert_eq!(
        landed(&landing, &Err(QError::Tmux("no client".to_string())), false),
        "weekly is running; cannot enter it: no client · no beads epic"
    );
}

#[test]
fn a_finished_round_becomes_rows_and_a_chip() {
    let mut app = app();
    app.set_size(120, 30);
    let far = row(
        quest("over-there", "ws", QuestState::Active),
        Origin::Remote { stale: false },
    );
    absorb(
        &mut app,
        vec![
            RemoteResult {
                name: "ws".to_string(),
                note: None,
                tmux_prefix: Some("work_".to_string()),
                rows: vec![far],
            },
            RemoteResult {
                name: "box".to_string(),
                note: Some("box \u{26a0} unreachable (host is down)".to_string()),
                tmux_prefix: None,
                rows: Vec::new(),
            },
        ],
    );
    assert_eq!(app.quests.remote.len(), 1);
    assert_eq!(app.quests.remote[0].view.quest.slug, "over-there");
    let note = app.remote_note.clone().expect("a machine is down");
    assert!(note.contains("box \u{26a0} unreachable"), "{note}");
    assert!(app.chips().contains("box"), "{}", app.chips());
    app.say("something else");
    assert!(app.chips().contains("box"));
    assert_eq!(
        app.remote_tmux,
        [("ws".to_string(), "work_".to_string())]
    );

    // A local reload folds the round's rows back into the listing.
    let rows = quests::merge(Vec::new(), app.quests.remote.clone());
    let links = vec![Vec::new(); rows.len()];
    quests::refresh(&mut app, rows, links, Vec::new(), Vec::new());
    assert!(app
        .quests
        .rows
        .iter()
        .any(|r| r.view.quest.slug == "over-there"));

    // A round in which everybody answered takes the chip away, and a machine
    // that did not say keeps its prefix.
    absorb(
        &mut app,
        vec![RemoteResult {
            name: "ws".to_string(),
            note: None,
            tmux_prefix: None,
            rows: Vec::new(),
        }],
    );
    assert_eq!(app.remote_note, None);
    assert_eq!(app.remote_tmux.len(), 1);
    assert!(app.quests.remote.is_empty());
}

#[test]
fn a_failed_submit_puts_the_form_back_with_the_reason() {
    let mut app = app();
    app.handle(Input::Char('n'));
    for c in "half".chars() {
        app.handle(Input::Char(c));
    }
    let modal = take_modal(&mut app).unwrap();
    assert!(app.modal.is_none());
    let before = modal.form.clone();
    submitted(
        &mut app,
        modal,
        Err(QError::Invalid("no such directory".to_string())),
        &vec!["and a warning".to_string()],
    );
    let form = &app.modal.as_ref().unwrap().form;
    assert_eq!(form.error(), Some("no such directory · and a warning"));
    assert_eq!(form.fields(), before.fields());
    assert_eq!(form.choice(ACTION), before.choice(ACTION));

    let modal = take_modal(&mut app).unwrap();
    app.say("created it");
    submitted(&mut app, modal, Ok(()), &vec!["no epic".to_string()]);
    assert!(app.modal.is_none());
    assert_eq!(app.status, "created it · no epic");
    warn(&mut app, &Vec::new());
    assert_eq!(app.status, "created it · no epic");
}

#[test]
fn a_line_is_joined_from_what_there_is() {
    let some = |texts: &[&str]| texts.iter().map(|t| t.to_string()).collect::<Vec<_>>();
    assert_eq!(joined_line("", &some(&[])), "");
    assert_eq!(joined_line("", &some(&["a", "", "b"])), "a · b");
    assert_eq!(joined_line("head", &some(&["a"])), "head · a");
    let why = QError::Other("it broke".to_string());
    assert_eq!(cannot("page the brief", &why), "cannot page the brief: it broke");
}

#[test]
fn a_failed_look_at_the_selection_does_not_clear_a_failed_reload() {
    let mut app = app();
    report_refresh(&mut app, Err(QError::Other("locked".to_string())));
    report_sync(&mut app, Ok(()));
    assert_eq!(app.refresh_error.as_deref(), Some("refresh failed: locked"));
    report_sync(&mut app, Err(QError::Other("gone".to_string())));
    assert_eq!(app.refresh_error.as_deref(), Some("refresh failed: gone"));
}

#[test]
fn the_loop_waits_for_its_tick_and_reloads_once() {
    let mut app = app();
    let mut at = Loop::new(100, 0);
    assert!(at.dirty);
    at.drawn();
    assert_eq!(at.timeout(0), 100);
    assert_eq!(at.timeout(30), 70);
    assert_eq!(at.timeout(130), 0);

    // An idle turn costs nothing.
    at.turn(&mut app, None, None, 30);
    assert!(!at.dirty && !at.refresh_due);

    // A tick that is due reloads, and stays on the grid.
    at.turn(&mut app, None, None, 130);
    assert!(at.dirty && at.refresh_due);
    assert_eq!((at.last_tick, app.ticks), (100, 1));
    at.refreshed();
    at.drawn();

    // So does an action that can have changed the listing.
    at.heard(Action::Refresh, false);
    at.turn(&mut app, None, None, 150);
    assert!(at.refresh_due && at.dirty);
    at.refreshed();
    at.drawn();
    at.heard(Action::Peek, false);
    assert!(at.dirty && !at.refresh_due);
    at.drawn();
    at.heard(Action::Nothing, true);
    assert!(at.dirty && !at.refresh_due);

    // A poller that died is reported once.
    at.turn(&mut app, None, Some(false), 160);
    assert_eq!(app.remote_note.as_deref(), Some("remote polling stopped"));
    app.remote_note = None;
    at.turn(&mut app, None, Some(false), 170);
    assert_eq!(app.remote_note, None);
}

#[test]
fn a_tab_nobody_has_looked_into_is_loaded_before_it_is_drawn() {
    let mut app = app();
    let mut at = Loop::new(100, 0);
    at.drawn();
    assert!(!cold(&app));
    app.handle(Input::Char('4'));
    assert!(cold(&app));
    at.turn(&mut app, None, None, 10);
    assert!(at.refresh_due && at.dirty);
    let wanted = refresh_begin(&mut app);
    assert_eq!(wanted.quest, None);
    events::refresh(&mut app, None, Vec::new());
    at.refreshed();
    at.drawn();
    // Having been loaded once it is left to the tick.
    assert!(!cold(&app));
    at.turn(&mut app, None, None, 20);
    assert!(!at.refresh_due && !at.dirty);
}

#[test]
fn the_terminal_is_given_away_for_exactly_these() {
    for action in [
        Action::Attach,
        Action::Brief,
        Action::Peek,
        Action::Export,
        Action::Proxy('b'),
    ] {
        assert!(is_handover(action), "{action:?}");
    }
    for action in [
        Action::Nothing,
        Action::Refresh,
        Action::Run,
        Action::Submit,
        Action::Quit,
    ] {
        assert!(!is_handover(action), "{action:?}");
    }
}

#[test]
fn what_a_child_said_is_its_complaint_or_its_output() {
    assert_eq!(child_said("error: no such quest", "x"), "no such quest");
    assert_eq!(child_said("odd", "x"), "odd");
    assert_eq!(child_said("", "x"), "x");
    assert_eq!(child_said("error: ", "x"), "error:");
    // The first line of it, without what surrounds it.
    assert_eq!(
        child_said("\n  error: host is down\nusage: q\n", "x"),
        "host is down"
    );
    assert_eq!(child_said(" \n", " one \ntwo"), "one ");
    assert_eq!(first_line("", 8), "");
    assert_eq!(first_line("first line", 8), "first l…");
    let long = "w".repeat(300);
    assert_eq!(width(&child_said(&long, "")), 200);
}

#[test]
fn a_landing_gives_the_terminal_away_or_lends_it() {
    let landing = Landing {
        tmux_session: "q-weekly".to_string(),
        pane: "%4".to_string(),
        name: "weekly".to_string(),
        warnings: vec!["no beads epic".to_string()],
    };
    assert_eq!(land_step(&landing, true), LandStep::Lend);
    assert_eq!(
        land_step(&landing, false),
        LandStep::Give(vec!["no beads epic".to_string()])
    );
}

#[test]
fn a_proxied_command_reports_what_became_of_it() {
    assert_eq!(
        proxy_args("brief", "far", "ws"),
        ["brief", "far", "--machine", "ws"]
    );
    let text = |s: &str| s.to_string();
    assert_eq!(
        proxy_read("brief", "far", "ws", true, text("# far\n"), ""),
        Paged::Page(text("# far\n"))
    );
    assert_eq!(
        proxy_read("brief", "far", "ws", true, text(" \n"), ""),
        Paged::Say(text("brief of far on ws: nothing to show"))
    );
    assert_eq!(
        proxy_read("brief", "far", "ws", false, text("# far\n"), "host is down"),
        Paged::Say(text("q brief far on ws: host is down"))
    );
    assert_eq!(
        proxy_write("close", "far", "ws", &Ended::Success),
        "close far on ws · it updates at the next remote tick"
    );
    assert_eq!(
        proxy_write("close", "far", "ws", &Ended::Code(-2)),
        "q close far on ws exited -2"
    );
    assert_eq!(
        proxy_write("close", "far", "ws", &Ended::Signal),
        "q close far on ws was killed by a signal"
    );
    assert_eq!(
        proxy_write("close", "far", "ws", &Ended::Failed(text("no q"))),
        "cannot run q close: no q"
    );
}

#[test]
fn a_peek_names_the_pane_it_shows() {
    assert_eq!(
        peek_text("alpha/tests", "%2", "last line"),
        "# alpha/tests · pane %2\n\nlast line\n"
    );
}

#[test]
fn a_tick_of_no_length_is_always_due() {
    assert_eq!(advance_tick(5, 9, 0), 9);
    assert_eq!(advance_tick(9, 5, 0), 5);
    let mut app = app();
    let mut at = Loop::new(0, 5);
    assert_eq!(at.timeout(5), 0);
    at.turn(&mut app, None, None, 5);
    assert!(at.refresh_due);
    assert_eq!(app.ticks, 1);
}
