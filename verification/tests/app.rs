use questfleet::app::{tab_at_column, tab_layout, App, Action, Tab, STATUS_SECS};
use questfleet::form::{Field, ACTION};
use questfleet::keys::{normalize, Input, KeyCode, KeyEvent, MouseInput};
use questfleet::layout::RowMode;
use questfleet::model::{Config, Remote};

fn app() -> App {
    let mut app = App::new(&Config::default(), "laptop");
    app.set_size(120, 40);
    // What `render_header` would have published at that width; hit-testing
    // reads it, and these tests never render.
    app.tab_bar_width = 120 - 8;
    app
}

/// Drives the app the way the event loop does: a key event
/// through `normalize`, then `handle`.
fn press(app: &mut App, ev: KeyEvent) -> Action {
    let input = normalize(ev).expect("key has no Input");
    app.handle(input)
}

fn ch(c: char) -> KeyEvent {
    KeyEvent { code: KeyCode::Char(c), control: false, release: false }
}

#[test]
fn tab_cycles_forwards_and_backwards() {
    let mut a = app();
    assert_eq!(a.tab, Tab::Quests);
    for want in [Tab::Sessions, Tab::Templates, Tab::Events, Tab::Quests] {
        assert_eq!(a.handle(Input::Tab), Action::Nothing);
        assert_eq!(a.tab, want);
    }
    for want in [Tab::Events, Tab::Templates, Tab::Sessions, Tab::Quests] {
        a.handle(Input::BackTab);
        assert_eq!(a.tab, want);
    }
}

#[test]
fn digit_keys_jump_straight_to_a_tab() {
    let mut a = app();
    for (digit, want) in [
        ('4', Tab::Events),
        ('1', Tab::Quests),
        ('3', Tab::Templates),
        ('2', Tab::Sessions),
    ] {
        press(&mut a, ch(digit));
        assert_eq!(a.tab, want, "digit {digit}");
    }
    // Out of range: swallowed, nothing moves.
    press(&mut a, ch('5'));
    assert_eq!(a.tab, Tab::Sessions);
    press(&mut a, ch('0'));
    assert_eq!(a.tab, Tab::Sessions);
    assert!(!a.should_quit);
}

#[test]
fn ctrl_j_reaches_the_app_as_enter() {
    let mut a = app();
    a.help = true;
    let ctrl_j = KeyEvent { code: KeyCode::Char('j'), control: true, release: false };
    press(&mut a, ctrl_j);
    assert!(!a.help, "Ctrl-J must act as Enter and dismiss the overlay");
}

#[test]
fn help_toggles_and_swallows_navigation() {
    let mut a = app();
    press(&mut a, ch('?'));
    assert!(a.help);

    // Nothing behind the overlay moves.
    a.handle(Input::Tab);
    press(&mut a, ch('2'));
    assert_eq!(a.tab, Tab::Quests);
    assert!(a.help);

    // `q` closes the overlay instead of quitting.
    press(&mut a, ch('q'));
    assert!(!a.help);
    assert!(!a.should_quit);

    // Esc closes it too.
    press(&mut a, ch('?'));
    a.handle(Input::Esc);
    assert!(!a.help);
}

#[test]
fn ctrl_c_quits_even_from_the_help_overlay() {
    let mut a = app();
    press(&mut a, ch('?'));
    let ctrl_c = KeyEvent { code: KeyCode::Char('c'), control: true, release: false };
    assert_eq!(press(&mut a, ctrl_c), Action::Quit);
    assert!(a.should_quit);
}

#[test]
fn q_quits() {
    let mut a = app();
    assert_eq!(press(&mut a, ch('q')), Action::Quit);
    assert!(a.should_quit);
}

#[test]
fn x_asks_the_loop_for_a_refresh() {
    let mut a = app();
    assert_eq!(press(&mut a, ch('x')), Action::Refresh);
    assert_eq!(a.refreshes, 1);
    assert!(!a.should_quit);
    // The refresh is synchronous and the redraw happens after it, so a
    // "refreshing…" message would be painted only once the refresh it
    // announced was already over — and then stick until the next keypress.
    assert!(a.status.is_empty(), "{:?}", a.status);
}

#[test]
fn row_mode_follows_the_width_and_the_config() {
    let mut a = app();
    a.set_size(120, 40);
    assert_eq!(a.row_mode(), RowMode::Two);
    a.set_size(60, 40);
    assert_eq!(a.row_mode(), RowMode::Three);
    a.set_size(80, 40);
    assert_eq!(a.row_mode(), RowMode::Two);
    a.rows = 3;
    assert_eq!(a.row_mode(), RowMode::Three);
}

#[test]
fn tab_hit_testing_matches_the_rendered_labels() {
    let slots = tab_layout();
    assert_eq!(slots.len(), 4);
    let wide = 200;
    for (tab, label, x, w) in &slots {
        assert!(label.starts_with(char::from_digit(tab.digit(), 10).unwrap()));
        assert_eq!(tab_at_column(*x, wide), Some(*tab));
        assert_eq!(tab_at_column(x + w - 1, wide), Some(*tab));
    }
    // The lead space and the separators belong to no tab.
    assert_eq!(tab_at_column(0, wide), None);
    let (_, _, x, w) = slots[0];
    assert_eq!(tab_at_column(x + w, wide), None);
}

#[test]
fn hit_testing_stops_at_the_edge_of_the_drawn_bar() {
    let (last, _, x, w) = tab_layout().into_iter().last().unwrap();
    // Whole label visible: the last column of it still hits.
    assert_eq!(tab_at_column(x + w - 1, x + w), Some(last));
    // Bar clipped mid-label: the columns past the clip belong to whatever
    // the header drew there (the machine name), not to the clipped tab.
    assert_eq!(tab_at_column(x, x + 1), Some(last));
    assert_eq!(tab_at_column(x + 1, x + 1), None);
    // A bar with no room at all can never select anything.
    for col in 0..x + w + 4 {
        assert_eq!(tab_at_column(col, 0), None, "col {col}");
    }
}

#[test]
fn a_click_on_the_tab_bar_selects_that_tab() {
    let mut a = app();
    let (_, _, x, _) = tab_layout()[2];
    a.handle_mouse(MouseInput::Click { col: x, row: 0 });
    assert_eq!(a.tab, Tab::Templates);
    // Clicks below the bar do not change tabs.
    a.handle_mouse(MouseInput::Click { col: x, row: 5 });
    assert_eq!(a.tab, Tab::Templates);
    // A click dismisses the overlay.
    a.help = true;
    a.handle_mouse(MouseInput::Click { col: 0, row: 9 });
    assert!(!a.help);
}

/// The keyboard cannot leave the `/` box except through Esc or Enter, but
/// the mouse can — and a capture left armed behind another tab is
/// invisible: no box on screen, and every bare letter swallowed as text
/// the moment the tab comes back.
#[test]
fn a_click_on_another_tab_cannot_leave_the_search_box_armed() {
    let mut a = app();
    a.handle(Input::Char('/'));
    a.handle(Input::Char('r'));
    assert!(a.capturing());
    // The box is the status bar while it is open.
    assert!(a.status.contains("/r"), "{}", a.status);

    let (_, _, x, _) = tab_layout()[1];
    a.handle_mouse(MouseInput::Click { col: x, row: 0 });
    assert_eq!(a.tab, Tab::Sessions);
    assert!(!a.capturing(), "the box is still holding the keyboard");
    // A query left behind would filter the list on return with nothing on
    // screen to say so; `filters` reports it once the box is closed.
    a.tab = Tab::Quests;
    assert!(
        a.filters().is_empty(),
        "an uncommitted query is still filtering: {:?}",
        a.filters()
    );
    a.tab = Tab::Sessions;

    // Back on Quests, the shell's keys are the shell's again.
    let (_, _, x, _) = tab_layout()[0];
    a.handle_mouse(MouseInput::Click { col: x, row: 0 });
    assert_eq!(a.tab, Tab::Quests);
    assert!(!a.capturing());
    assert_eq!(a.handle(Input::Char('q')), Action::Quit);
    assert!(a.should_quit);
}

/// A message is transient by contract: `status` is the only thing between
/// the user and the chrome line, so it has to give the bar back.
#[test]
fn a_status_message_gives_the_bar_back_after_a_few_ticks() {
    let mut a = app();
    a.say("search cleared");
    assert_eq!(a.current_status(), Some("search cleared"));
    for _ in 0..(STATUS_SECS / a.tick_secs) {
        a.tick();
    }
    assert_eq!(a.current_status(), None, "the message never expires");

    // A newer message starts its own clock.
    a.say("filter /run");
    assert_eq!(a.current_status(), Some("filter /run"));

    // Text being typed is not a message: the box would vanish mid-word.
    a.handle(Input::Char('/'));
    a.handle(Input::Char('r'));
    for _ in 0..100 {
        a.tick();
    }
    assert!(a.capturing());
    assert_eq!(
        a.current_status().map(str::to_string),
        Some(a.status.clone())
    );
}

#[test]
fn scrolling_over_the_help_overlay_leaves_it_open() {
    let mut a = app();
    a.help = true;
    assert_eq!(a.handle_mouse(MouseInput::ScrollDown), Action::Nothing);
    assert!(a.help, "a wheel scroll must not dismiss the overlay");
    assert_eq!(a.handle_mouse(MouseInput::ScrollUp), Action::Nothing);
    assert!(a.help);
    a.handle_mouse(MouseInput::Click { col: 0, row: 9 });
    assert!(!a.help);
}

#[test]
fn tab_digits_and_order_are_stable() {
    assert_eq!(Tab::from_digit(1), Some(Tab::Quests));
    assert_eq!(Tab::from_digit(4), Some(Tab::Events));
    assert_eq!(Tab::from_digit(5), None);
    assert_eq!(Tab::from_digit(0), None);
    for tab in Tab::ALL {
        assert_eq!(Tab::from_digit(tab.digit()), Some(tab));
        assert_eq!(tab.next().prev(), tab);
    }
}

/// The mode gate at its purest: with a form up, `handle_global` never
/// runs. Every key it claims — `q`, `x`, `?`, Tab and the digits — is the
/// form's, and only Ctrl-C still gets through.
#[test]
fn a_form_takes_every_key_the_shell_would_have_claimed() {
    let mut a = app();
    a.handle(Input::Char('n'));
    assert!(a.modal.is_some());
    assert!(a.capturing());

    for c in ['q', 'x', '?', '1', '4', '0'] {
        assert_eq!(a.handle(Input::Char(c)), Action::Nothing, "{c}");
    }
    assert!(!a.should_quit);
    assert!(!a.help);
    assert_eq!(a.tab, Tab::Quests);
    assert_eq!(a.refreshes, 0);
    // Tab moves between fields, not between tabs.
    a.handle(Input::Tab);
    a.handle(Input::BackTab);
    assert_eq!(a.tab, Tab::Quests);
    assert!(a.modal.is_some());

    // Enter alone does nothing: `n` starts a process, so its action row
    // begins on `cancel`.
    assert_eq!(a.handle(Input::Enter), Action::Nothing);
    assert!(a.modal.is_some(), "Enter must not take the form down");
    assert_eq!(a.tab, Tab::Quests);
    // Chosen, it is the submission; the loop does the work.
    for _ in 0..24 {
        if a.modal.as_ref().unwrap().form.focused().map(Field::label) == Some(ACTION) {
            break;
        }
        a.handle(Input::Tab);
    }
    a.handle(Input::Right);
    assert_eq!(a.handle(Input::Enter), Action::Submit);
    assert!(a.modal.is_some(), "Enter must not take the form down");
    // Esc does.
    assert_eq!(a.handle(Input::Esc), Action::Nothing);
    assert!(a.modal.is_none());
    assert!(a.status.is_empty());
    assert!(!a.capturing());
    assert_eq!(a.handle(Input::Char('q')), Action::Quit);
}

#[test]
fn ctrl_c_quits_from_inside_a_form() {
    let mut a = app();
    a.handle(Input::Char('n'));
    assert_eq!(a.handle(Input::Ctrl('c')), Action::Quit);
    assert!(a.should_quit);
}

#[test]
fn the_machine_list_is_the_local_machine_then_the_remotes() {
    let mut config = Config::default();
    config.remotes.push(Remote {
        name: "ws".to_string(),
        ssh: "ws.local".to_string(),
    });
    // A remote that repeats the local name is not offered twice.
    config.remotes.push(Remote {
        name: "laptop".to_string(),
        ssh: "self".to_string(),
    });
    let a = App::new(&config, "laptop");
    assert_eq!(a.machines, ["laptop", "ws"]);
}

#[test]
fn new_reads_the_ui_config() {
    let mut config = Config::default();
    config.ui.rows = 3;
    config.ui.mouse = false;
    config.ui.tick_local = 7;
    let a = App::new(&config, "ws");
    assert_eq!(a.machine, "ws");
    assert_eq!(a.rows, 3);
    assert!(!a.mouse);
    assert_eq!(a.tick_secs, 7);
    assert_eq!(a.tab, Tab::Quests);
}

#[test]
fn a_full_counter_stops_no_key() {
    let mut a = app();
    a.refreshes = u64::MAX;
    assert_eq!(a.handle(Input::Char('x')), Action::Refresh);
    assert_eq!(a.refreshes, u64::MAX);
    assert_eq!(a.handle(Input::Ctrl('c')), Action::Quit);
    assert!(a.should_quit);
}

#[test]
fn the_machines_are_asked_every_ten_seconds_by_default() {
    let config = Config::default();
    assert_eq!(config.ui.tick_local, 2);
    assert_eq!(config.ui.tick_remote, 10);
}
