use questfleet::app::{help_rows, tab_layout, Action, App, Tab};
use questfleet::event_lines::{cell, panel_lines_with, sanitize, KIND_COLS, PAYLOAD_COLS, QUEST_COLS};
use questfleet::events::{parse_kinds, refresh, refresh_begin, viewport, KindPattern, TAIL};
use questfleet::keys::{Input, MouseInput};
use questfleet::layout::{panel_split, width, Rect, RowMode};
use questfleet::model::{
    Config, DisplayState, Event, EventRow, Origin, Quest, QuestRow, QuestState, QuestView,
};
use questfleet::quest_lines::INDENT;
use questfleet::quests;
use questfleet::quests::selected_quest;
use questfleet::form::Drawing;
use questfleet::paint::{Line, Style};
use questfleet::screen::render;
use ratatui::buffer::Buffer;
use ratatui::style::Modifier;
use ratatui::widgets::{Block, Borders, Clear, Padding, Paragraph, Widget, Wrap};
use std::cell::RefCell;

/// Quests and their log, and an application that reads them.
struct Rig {
    config: Config,
    quests: RefCell<Vec<Quest>>,
    log: RefCell<Vec<(Event, String)>>,
}

/// A payload as a row shows it: `k=v k=v`, control characters and all.
fn payload_line(payload: &str) -> String {
    let value: serde_json::Value = serde_json::from_str(payload).unwrap();
    match value.as_object() {
        Some(map) => map
            .iter()
            .map(|(k, v)| match v.as_str() {
                Some(s) => format!("{k}={s}"),
                None => format!("{k}={v}"),
            })
            .collect::<Vec<_>>()
            .join(" "),
        None => String::new(),
    }
}

impl Rig {
    fn new() -> Rig {
        Rig {
            config: Config::default(),
            quests: RefCell::new(Vec::new()),
            log: RefCell::new(Vec::new()),
        }
    }

    fn quest(&self, slug: &str) -> Quest {
        let mut all = self.quests.borrow_mut();
        let quest = Quest {
            id: format!("q-{:04}", all.len() + 1),
            slug: slug.to_string(),
            goal: None,
            machine: "laptop".to_string(),
            state: QuestState::Active,
            beads_epic: None,
            created_at: all.len() as i64,
            updated_at: all.len() as i64,
        };
        all.push(quest.clone());
        quest
    }

    fn session(&self, _quest: &Quest, label: &str) -> String {
        label.to_string()
    }

    fn event(&self, quest: &Quest, kind: &str) -> i64 {
        self.push(quest, None, kind, None)
    }

    fn event_with(&self, quest: &Quest, session: Option<&String>, kind: &str, payload: &str) -> i64 {
        self.push(quest, session, kind, Some(payload))
    }

    fn push(
        &self,
        quest: &Quest,
        session: Option<&String>,
        kind: &str,
        payload: Option<&str>,
    ) -> i64 {
        let mut log = self.log.borrow_mut();
        let id = log.len() as i64 + 1;
        let event = Event {
            id,
            quest_id: quest.id.clone(),
            kind: kind.to_string(),
            payload: payload.map(str::to_string),
            age: "4m".to_string(),
            stamp: "2024-01-02 03:04:05".to_string(),
            payload_line: payload.map(payload_line).unwrap_or_default(),
        };
        log.push((event, session.cloned().unwrap_or_else(|| "-".to_string())));
        id
    }

    fn delete_quest(&self, id: &str) {
        self.quests.borrow_mut().retain(|q| q.id != id);
    }

    fn rename_quest(&self, id: &str, slug: &str) {
        for quest in self.quests.borrow_mut().iter_mut().filter(|q| q.id == id) {
            quest.slug = slug.to_string();
        }
    }

    /// The last events of one quest or of all, oldest first.
    fn feed(&self, quest: Option<&str>, kinds: &[KindPattern]) -> Vec<EventRow> {
        let quests = self.quests.borrow();
        let mut rows: Vec<EventRow> = self
            .log
            .borrow()
            .iter()
            .filter(|(e, _)| quest.is_none_or(|id| id == e.quest_id))
            .filter(|(e, _)| kinds.is_empty() || kinds.iter().any(|k| k.matches(&e.kind)))
            .filter_map(|(e, session)| {
                let quest = quests.iter().find(|q| q.id == e.quest_id)?;
                Some(EventRow {
                    event: e.clone(),
                    quest_slug: quest.slug.clone(),
                    session: session.clone(),
                })
            })
            .collect();
        let skip = rows.len().saturating_sub(TAIL);
        rows.drain(..skip);
        rows
    }

    fn app(&self) -> App {
        let mut app = App::new(&self.config, "laptop");
        app.set_size(120, 30);
        app.detail = false;
        app.select(Tab::Events);
        self.reload(&mut app);
        app
    }

    /// One tick: whatever tab is in front is loaded again.
    fn reload(&self, app: &mut App) {
        match app.tab {
            Tab::Events => {
                let wanted = refresh_begin(app);
                let slug = wanted.quest.as_ref().and_then(|id| {
                    let quests = self.quests.borrow();
                    quests.iter().find(|q| &q.id == id).map(|q| q.slug.clone())
                });
                let rows = self.feed(wanted.quest.as_deref(), &wanted.kinds);
                refresh(app, slug, rows);
            }
            Tab::Quests => {
                let rows: Vec<QuestRow> = self.quests.borrow().iter().map(row_of).collect();
                let rows = quests::merge(rows, Vec::new());
                let links = vec![Vec::new(); rows.len()];
                quests::refresh(app, rows, links, Vec::new(), Vec::new());
            }
            _ => {}
        }
    }

    /// A key through the real dispatcher, honouring the reload it asks for.
    fn key(&self, app: &mut App, input: Input) -> Action {
        let action = app.handle(input);
        if action == Action::Refresh {
            self.reload(app);
        }
        action
    }

    /// A click on `tab`'s label in the tab bar.
    fn click_tab(&self, app: &mut App, tab: Tab) -> Action {
        let (_, _, col, _) = tab_layout()
            .into_iter()
            .find(|(t, _, _, _)| *t == tab)
            .unwrap();
        let action = app.handle_mouse(MouseInput::Click { col, row: 0 });
        if action == Action::Refresh {
            self.reload(app);
        }
        action
    }
}

fn row_of(quest: &Quest) -> QuestRow {
    QuestRow {
        view: QuestView {
            quest: quest.clone(),
            display_state: DisplayState::Idle,
            needs_you: false,
            live_sessions: 0,
            master_ctx_pct: None,
            progress: None,
            state_cell: "idle".to_string(),
        },
        sessions: Vec::new(),
        origin: Origin::Local,
        age: "4m".to_string(),
        goal_line: String::new(),
        cwd_shown: "~/work".to_string(),
    }
}

fn at(r: Rect) -> ratatui::layout::Rect {
    ratatui::layout::Rect::new(r.x, r.y, r.width, r.height)
}

fn style_of(style: Style) -> ratatui::style::Style {
    let plain = ratatui::style::Style::default();
    match style {
        Style::Plain => plain,
        Style::Bold => plain.add_modifier(Modifier::BOLD),
        Style::Dim => plain.add_modifier(Modifier::DIM),
        Style::Selected => plain.add_modifier(Modifier::BOLD | Modifier::REVERSED),
    }
}

fn span(l: &Line) -> ratatui::text::Span<'static> {
    ratatui::text::Span::styled(l.text.clone(), style_of(l.style))
}

fn lines(all: &[Line]) -> Vec<ratatui::text::Line<'static>> {
    all.iter()
        .map(|l| ratatui::text::Line::from(span(l)))
        .collect()
}

fn boxed(title: &str) -> Block<'static> {
    Block::default()
        .borders(Borders::ALL)
        .title(title.to_string())
        .padding(Padding::horizontal(1))
}

/// What a terminal of that size shows.
fn frame(app: &mut App, w: u16, h: u16) -> Buffer {
    let mut buffer = Buffer::empty(ratatui::layout::Rect::new(0, 0, w, h));
    let screen = render(app, Rect::new(0, 0, w, h));
    if let Some(header) = screen.header {
        let spans: Vec<_> = header.spans.iter().map(span).collect();
        Paragraph::new(ratatui::text::Line::from(spans)).render(at(header.bar), &mut buffer);
        Paragraph::new(span(&header.machine)).render(at(header.right), &mut buffer);
    }
    if let Some(list) = screen.body.list {
        Paragraph::new(lines(&list.lines)).render(at(list.area), &mut buffer);
    }
    if let Some(panel) = screen.body.panel {
        let block = boxed(&panel.title);
        let inner = block.inner(at(panel.area));
        block.render(at(panel.area), &mut buffer);
        let text = Paragraph::new(lines(&panel.lines));
        if panel.wrap {
            text.wrap(Wrap { trim: false }).render(inner, &mut buffer);
        } else {
            text.render(inner, &mut buffer);
        }
    }
    if let Some(status) = screen.status {
        Paragraph::new(span(&status.message)).render(at(status.left), &mut buffer);
        Paragraph::new(span(&status.hint)).render(at(status.right), &mut buffer);
    }
    match screen.modal {
        Some(Drawing::Cramped { row, line }) => {
            Clear.render(at(row), &mut buffer);
            Paragraph::new(span(&line)).render(at(row), &mut buffer);
        }
        Some(Drawing::Boxed { area, title, lines: all }) => {
            Clear.render(at(area), &mut buffer);
            Paragraph::new(lines(&all))
                .block(boxed(&title))
                .render(at(area), &mut buffer);
        }
        _ => {}
    }
    if let Some(help) = screen.help {
        let rows: Vec<ratatui::text::Line> = help
            .rows
            .iter()
            .map(|(k, d)| ratatui::text::Line::from(format!("{k}  {d}")))
            .collect();
        Clear.render(at(help.area), &mut buffer);
        Paragraph::new(rows)
            .block(boxed(" Keys "))
            .render(at(help.area), &mut buffer);
    }
    buffer
}

fn draw(app: &mut App, w: u16, h: u16) -> Vec<String> {
    let buffer = frame(app, w, h);
    (0..h)
        .map(|y| {
            (0..w)
                .map(|x| buffer.cell((x, y)).map(|c| c.symbol()).unwrap_or(" "))
                .collect::<String>()
                .trim_end()
                .to_string()
        })
        .collect()
}

fn screen(app: &mut App, w: u16, h: u16) -> String {
    draw(app, w, h).join("\n")
}

/// Every drawn line carrying the cursor's reversed style, as `(row, text)`.
fn reversed_rows(app: &mut App, w: u16, h: u16) -> Vec<(u16, String)> {
    let buffer = frame(app, w, h);
    (0..h)
        .filter(|y| {
            buffer
                .cell((0, *y))
                .is_some_and(|c| c.modifier.contains(Modifier::REVERSED))
        })
        .map(|y| {
            let text = (0..w)
                .map(|x| buffer.cell((x, y)).map(|c| c.symbol()).unwrap_or(" "))
                .collect::<String>();
            (y, text.trim_end().to_string())
        })
        .collect()
}

fn kinds(app: &App) -> Vec<String> {
    app.events
        .visible()
        .into_iter()
        .map(|i| app.events.rows[i].event.kind.clone())
        .collect()
}

fn anchored(app: &App) {
    let state = &app.events;
    let visible = state.visible();
    if visible.is_empty() {
        assert_eq!(state.selected, 0, "a selection into an empty listing");
        assert_eq!(state.selected_id, None, "a stale anchor with nothing shown");
        return;
    }
    assert!(
        state.selected < visible.len(),
        "selected {} is past the {} visible rows",
        state.selected,
        visible.len()
    );
    let under_the_cursor = state.rows[visible[state.selected]].event.id;
    assert_eq!(
        state.selected_id,
        Some(under_the_cursor),
        "the anchor names a different event than the cursor is on"
    );
    assert_eq!(
        state.selected_row().map(|r| r.event.id),
        Some(under_the_cursor)
    );
}

// -------------------------------------------------------------- loading

/// The tab is the fleet's tail, and it is the same feed `q events` prints
/// — `commands::events::load`, not a second query with a second idea of
/// what an event row is.
#[test]
fn the_tail_is_the_shared_feed_across_every_quest() {
    let rig = Rig::new();
    let a = rig.quest("alpha");
    let b = rig.quest("beta");
    rig.event(&a, "quest.created");
    rig.event(&b, "session.start");
    rig.event(&a, "note");

    let app = rig.app();
    assert_eq!(kinds(&app), ["quest.created", "session.start", "note"]);
    let slugs: Vec<&str> = app
        .events
        .rows
        .iter()
        .map(|r| r.quest_slug.as_str())
        .collect();
    assert_eq!(slugs, ["alpha", "beta", "alpha"]);

    // Byte for byte what `load` hands the command line for the same set.
    let ids: Vec<i64> = rig.feed(None, &[]).iter().map(|r| r.event.id).collect();
    let got: Vec<i64> = app.events.rows.iter().map(|r| r.event.id).collect();
    assert_eq!(got, ids);
    anchored(&app);
}

/// A row names the session an event came from, the way `q events` does.
#[test]
fn a_row_names_the_session_and_the_quest() {
    let rig = Rig::new();
    let quest = rig.quest("alpha");
    let session = rig.session(&quest, "tests");
    rig.event_with(
        &quest,
        Some(&session),
        "session.prompt",
        r#"{"text":"run the suite"}"#,
    );
    let mut app = rig.app();
    let body = screen(&mut app, 120, 12);
    assert!(body.contains("alpha"), "{body}");
    assert!(body.contains("tests"), "{body}");
    assert!(body.contains("session.prompt"), "{body}");
    assert!(body.contains("text=run the suite"), "{body}");
}

// ------------------------------------------------- filters + re-anchoring

/// The rail: any mutation of filter state re-anchors. Typing a filter that
/// still admits the selected event must leave the cursor ON that event,
/// not on whatever row happens to sit at the same index afterwards.
#[test]
fn a_kind_filter_keeps_the_selection_on_the_same_event() {
    let rig = Rig::new();
    let quest = rig.quest("alpha");
    for kind in ["note", "note", "session.start", "note", "session.stop"] {
        rig.event(&quest, kind);
    }
    let mut app = rig.app();
    // Off the tail and onto `session.start`, which is third of five.
    rig.key(&mut app, Input::Char('g'));
    rig.key(&mut app, Input::Char('j'));
    rig.key(&mut app, Input::Char('j'));
    let want = app.events.selected_row().unwrap().event.id;
    assert_eq!(
        app.events.selected_row().unwrap().event.kind,
        "session.start"
    );

    rig.key(&mut app, Input::Char('/'));
    for c in "session.*".chars() {
        rig.key(&mut app, Input::Char(c));
    }
    rig.key(&mut app, Input::Enter);

    assert_eq!(kinds(&app), ["session.start", "session.stop"]);
    assert_eq!(
        app.events.selected_id,
        Some(want),
        "the filter moved the cursor to a different event"
    );
    assert_eq!(app.events.selected, 0);
    anchored(&app);
}

/// And when the filter hides the selected event, the cursor lands
/// somewhere real and says so — never on an index whose row it no longer
/// names.
#[test]
fn a_filter_that_hides_the_selection_re_anchors_onto_a_real_row() {
    let rig = Rig::new();
    let quest = rig.quest("alpha");
    for kind in ["session.start", "note", "note", "note", "note"] {
        rig.event(&quest, kind);
    }
    let mut app = rig.app();
    rig.key(&mut app, Input::Char('g'));
    rig.key(&mut app, Input::Char('j')); // a `note`, which the filter drops
    assert_eq!(app.events.selected_row().unwrap().event.kind, "note");

    rig.key(&mut app, Input::Char('/'));
    for c in "session.start".chars() {
        rig.key(&mut app, Input::Char(c));
    }
    rig.key(&mut app, Input::Enter);

    assert_eq!(kinds(&app), ["session.start"]);
    anchored(&app);
    assert_eq!(
        app.events.selected_row().unwrap().event.kind,
        "session.start"
    );
}

/// Esc clears the kind filter and widens the listing under the cursor —
/// the mutation that has to re-anchor on the way back out too.
#[test]
fn clearing_the_kind_filter_re_anchors_and_reloads() {
    let rig = Rig::new();
    let quest = rig.quest("alpha");
    for kind in ["note", "session.start", "note"] {
        rig.event(&quest, kind);
    }
    let mut app = rig.app();
    rig.key(&mut app, Input::Char('/'));
    for c in "session.*".chars() {
        rig.key(&mut app, Input::Char(c));
    }
    rig.key(&mut app, Input::Enter);
    assert_eq!(kinds(&app), ["session.start"]);
    anchored(&app);

    // Esc while the box is closed clears the committed filter. It has to
    // reload: the rows the wider filter admits were never fetched.
    assert_eq!(app.handle(Input::Esc), Action::Refresh);
    rig.reload(&mut app);
    assert!(app.events.query.is_empty());
    assert_eq!(kinds(&app), ["note", "session.start", "note"]);
    anchored(&app);
}

#[test]
fn abandoning_a_half_typed_filter_re_anchors() {
    let rig = Rig::new();
    let quest = rig.quest("alpha");
    for kind in ["note", "session.start", "note", "note"] {
        rig.event(&quest, kind);
    }
    let mut app = rig.app();
    rig.key(&mut app, Input::Char('/'));
    for c in "session.*".chars() {
        rig.key(&mut app, Input::Char(c));
    }
    assert!(app.events.capturing());
    assert_eq!(app.events.visible().len(), 1);

    app.select(Tab::Quests);
    assert!(!app.events.capturing(), "the box outlived the tab");
    assert!(app.events.query.is_empty());
    app.select(Tab::Events);
    // The rail, checked before anything reloads: the cursor and the
    // anchor still name the same event, and it is one that is on screen.
    anchored(&app);

    assert!(app.events.stale());
    assert_eq!(app.events.visible().len(), 1);
    rig.reload(&mut app);
    assert!(!app.events.stale());
    assert_eq!(app.events.visible().len(), 4);
    anchored(&app);
}

#[test]
fn clicking_off_an_open_filter_box_never_leaves_the_tail_lying() {
    let rig = Rig::new();
    let quest = rig.quest("alpha");
    for kind in ["note", "session.start", "note", "note"] {
        rig.event(&quest, kind);
    }
    let mut app = rig.app();
    // The tab bar's geometry is whatever the last frame published.
    draw(&mut app, 120, 30);

    rig.key(&mut app, Input::Char('/'));
    for c in "zzz".chars() {
        rig.key(&mut app, Input::Char(c));
    }
    assert!(
        app.events.rows.is_empty(),
        "the committed filter has to reach the SQL for this to be the bug"
    );

    // Out of the box the only way the keyboard cannot go.
    rig.click_tab(&mut app, Tab::Quests);
    assert_eq!(app.tab, Tab::Quests);
    assert!(!app.events.capturing());
    assert!(app.events.query.is_empty());

    // ...and back. The reload is owed by the tab that is arriving, so it
    // has happened before the first frame is drawn.
    rig.click_tab(&mut app, Tab::Events);
    assert_eq!(app.tab, Tab::Events);
    assert_eq!(kinds(&app), ["note", "session.start", "note", "note"]);
    anchored(&app);

    let screen = screen(&mut app, 120, 30);
    assert!(!screen.contains("no events yet"), "{screen}");
    assert!(screen.contains("session.start"), "{screen}");
}

#[test]
fn a_quest_deleted_under_the_filter_is_not_blamed_for_the_emptiness() {
    let rig = Rig::new();
    let quest = rig.quest("alpha");
    rig.event(&quest, "note");
    let mut app = rig.app();
    app.focus_quest = Some(quest.id.clone());
    rig.reload(&mut app);
    assert_eq!(app.events.quest_slug.as_deref(), Some("alpha"));

    rig.delete_quest(&quest.id);
    rig.reload(&mut app);
    assert!(app.events.quest.is_some());
    assert_eq!(app.events.quest_slug, None);

    let screen = screen(&mut app, 120, 30);
    assert!(!screen.contains("no events yet"), "{screen}");
    assert!(screen.contains("that quest is gone"), "{screen}");
}

#[test]
fn the_quest_filter_narrows_the_tail_and_esc_lifts_it() {
    let rig = Rig::new();
    let a = rig.quest("alpha");
    let b = rig.quest("beta");
    rig.event(&a, "a.one");
    rig.event(&b, "b.one");
    rig.event(&a, "a.two");

    let mut app = rig.app();
    app.focus_quest = Some(a.id.clone());
    rig.reload(&mut app);
    assert_eq!(kinds(&app), ["a.one", "a.two"]);
    assert_eq!(app.events.quest_slug.as_deref(), Some("alpha"));
    assert!(app.filters().contains("quest alpha"));
    anchored(&app);

    assert_eq!(app.handle(Input::Esc), Action::Refresh);
    rig.reload(&mut app);
    assert_eq!(kinds(&app), ["a.one", "b.one", "a.two"]);
    assert_eq!(app.events.quest_slug, None);
    anchored(&app);
}

/// The chip is re-derived on every reload, so a rename in another terminal
/// cannot leave it naming a slug that is gone.
#[test]
fn the_quest_chip_follows_a_rename() {
    let rig = Rig::new();
    let quest = rig.quest("alpha");
    rig.event(&quest, "note");
    let mut app = rig.app();
    app.focus_quest = Some(quest.id.clone());
    rig.reload(&mut app);
    assert!(app.filters().contains("quest alpha"));

    rig.rename_quest(&quest.id, "renamed");
    rig.reload(&mut app);
    assert!(app.filters().contains("quest renamed"), "{}", app.filters());
}

/// A pattern that cannot be parsed matches nothing rather than everything,
/// and the box says why — before and after Enter closes it.
#[test]
fn a_bad_pattern_matches_nothing_and_says_why() {
    let rig = Rig::new();
    let quest = rig.quest("alpha");
    rig.event(&quest, "note");
    let mut app = rig.app();
    rig.key(&mut app, Input::Char('/'));
    for c in "se*sion".chars() {
        rig.key(&mut app, Input::Char(c));
    }
    assert!(app.status.contains("trailing"), "{}", app.status);
    assert!(app.events.visible().is_empty());
    anchored(&app);

    rig.key(&mut app, Input::Enter);
    assert!(!app.events.capturing());
    assert!(app.status.contains("trailing"), "{}", app.status);

    // And it is recoverable: backspacing the `*` out brings the rows back.
    rig.key(&mut app, Input::Char('/'));
    rig.key(&mut app, Input::Backspace);
    assert!(app.events.visible().is_empty(), "`se*sio` is still bad");
    for _ in 0..6 {
        rig.key(&mut app, Input::Backspace);
    }
    assert_eq!(app.events.query, "");
    assert_eq!(kinds(&app), ["note"]);
    anchored(&app);
}

#[test]
fn enter_after_a_paste_fetches_what_the_pasted_filter_admits() {
    let rig = Rig::new();
    let quest = rig.quest("alpha");
    rig.event(&quest, "rare.kind");
    for _ in 0..(TAIL + 20) {
        rig.event(&quest, "note");
    }
    let mut app = rig.app();
    assert!(
        !kinds(&app).contains(&"rare.kind".to_string()),
        "the unfiltered tail should have scrolled it out"
    );

    rig.key(&mut app, Input::Char('/'));
    // The real paste path: `App::paste` is all `apply_event` calls, and it
    // returns a redraw flag, never an `Action` the loop could honour.
    assert!(app.paste("rare.kind"));
    assert_eq!(app.events.query, "rare.kind");

    // The commit. Nothing else stands between the paste and the screen.
    let action = rig.key(&mut app, Input::Enter);
    assert_eq!(
        action,
        Action::Refresh,
        "the committed filter reached the SQL; the rows have to follow"
    );
    assert!(!app.events.capturing());
    assert!(!app.events.stale());

    let body = screen(&mut app, 120, 12);
    assert!(
        !body.contains("no events match the filters"),
        "the screen denies an event the database has:\n{body}"
    );
    assert!(body.contains("rare.kind"), "{body}");
    assert_eq!(kinds(&app), ["rare.kind"]);
    anchored(&app);
}

#[test]
fn a_pasted_filter_that_is_never_committed_lands_on_the_next_tick() {
    let rig = Rig::new();
    let quest = rig.quest("alpha");
    rig.event(&quest, "rare.kind");
    for _ in 0..(TAIL + 20) {
        rig.event(&quest, "note");
    }
    let mut app = rig.app();

    rig.key(&mut app, Input::Char('/'));
    assert!(app.paste("rare.kind"));
    assert!(app.events.stale(), "the paste cannot fetch, by design");
    assert!(app.events.capturing(), "the box is still open");

    // No key. Just the reload every tick does.
    rig.reload(&mut app);
    assert!(!app.events.stale());
    assert_eq!(kinds(&app), ["rare.kind"]);
    let body = screen(&mut app, 120, 12);
    assert!(body.contains("rare.kind"), "{body}");
    anchored(&app);
}

#[test]
fn the_kind_filter_reaches_the_query_not_only_the_listing() {
    let rig = Rig::new();
    let quest = rig.quest("alpha");
    rig.event(&quest, "session.start");
    for _ in 0..(TAIL + 20) {
        rig.event(&quest, "note");
    }
    let mut app = rig.app();
    assert!(
        !kinds(&app).contains(&"session.start".to_string()),
        "the unfiltered tail should have scrolled it out"
    );

    rig.key(&mut app, Input::Char('/'));
    for c in "session.start".chars() {
        rig.key(&mut app, Input::Char(c));
    }
    rig.key(&mut app, Input::Enter);
    assert_eq!(kinds(&app), ["session.start"]);
    anchored(&app);
}

// -------------------------------------------------------------- the tail

/// Live tail: events arriving between ticks pull the selection along, and
/// moving off the last row stops that until `G` puts it back.
#[test]
fn the_tail_follows_until_the_selection_is_moved_and_g_resumes_it() {
    let rig = Rig::new();
    let quest = rig.quest("alpha");
    for kind in ["one", "two", "three"] {
        rig.event(&quest, kind);
    }
    let mut app = rig.app();
    assert!(app.events.follow);
    assert_eq!(app.events.selected_row().unwrap().event.kind, "three");

    // A tick with something new in it.
    rig.event(&quest, "four");
    rig.reload(&mut app);
    assert_eq!(app.events.selected_row().unwrap().event.kind, "four");
    assert!(app.filters().contains("tailing"));
    anchored(&app);

    // Reading back: the tail stops moving under the cursor.
    rig.key(&mut app, Input::Char('k'));
    assert!(!app.events.follow);
    assert!(app.filters().contains("paused"));
    let held = app.events.selected_id;
    rig.event(&quest, "five");
    rig.event(&quest, "six");
    rig.reload(&mut app);
    assert_eq!(app.events.selected_id, held, "the tail yanked the cursor");
    assert_eq!(app.events.selected_row().unwrap().event.kind, "three");
    anchored(&app);

    // `G` is resume, and the next tick keeps following.
    rig.key(&mut app, Input::Char('G'));
    assert!(app.events.follow);
    assert_eq!(app.events.selected_row().unwrap().event.kind, "six");
    rig.event(&quest, "seven");
    rig.reload(&mut app);
    assert_eq!(app.events.selected_row().unwrap().event.kind, "seven");
    anchored(&app);
}

/// A paused tail that scrolls back to the bottom by hand is following
/// again — there is no separate mode key to get out of step with.
#[test]
fn stepping_back_onto_the_newest_row_resumes_the_tail() {
    let rig = Rig::new();
    let quest = rig.quest("alpha");
    for kind in ["one", "two"] {
        rig.event(&quest, kind);
    }
    let mut app = rig.app();
    rig.key(&mut app, Input::Char('k'));
    assert!(!app.events.follow);
    rig.key(&mut app, Input::Char('j'));
    assert!(app.events.follow);
    rig.event(&quest, "three");
    rig.reload(&mut app);
    assert_eq!(app.events.selected_row().unwrap().event.kind, "three");
}

// ------------------------------------------------------------- empty set

#[test]
fn an_empty_listing_says_which_kind_of_empty_it_is() {
    let rig = Rig::new();
    let mut app = rig.app();
    assert!(screen(&mut app, 100, 12).contains("no events yet"));
    anchored(&app);
    // Enter cannot open a panel onto nothing.
    assert_eq!(app.handle(Input::Enter), Action::Nothing);
    assert!(!app.detail);

    let quest = rig.quest("alpha");
    rig.reload(&mut app);
    app.focus_quest = Some(quest.id.clone());
    rig.reload(&mut app);
    assert!(
        screen(&mut app, 100, 12).contains("this quest has no events yet"),
        "{}",
        screen(&mut app, 100, 12)
    );

    rig.event(&quest, "note");
    rig.reload(&mut app);
    rig.key(&mut app, Input::Char('/'));
    for c in "nothing.matches".chars() {
        rig.key(&mut app, Input::Char(c));
    }
    assert!(
        screen(&mut app, 100, 12).contains("no events match the filters"),
        "{}",
        screen(&mut app, 100, 12)
    );
    anchored(&app);

    // And every movement key on an empty listing is a no-op, not a panic.
    for input in [
        Input::Up,
        Input::Down,
        Input::PageUp,
        Input::PageDown,
        Input::Home,
        Input::End,
        Input::Enter,
    ] {
        app.handle(input);
        anchored(&app);
    }
}

// ------------------------------------------- payloads: long and hostile

/// A cell may never be wider than the column it was budgeted, whatever is
/// in it. Control characters are the trap: `UnicodeWidthStr` costs them
/// zero, and `sanitize` turns each into a one-column `\u{fffd}`, so a cell
/// measured before it is sanitized under-counts by its whole length.
#[test]
fn cells_never_exceed_their_column_budget() {
    let long = "x".repeat(5_000);
    let control = "\u{0}".repeat(400);
    let wide = "\u{4e2d}\u{6587}".repeat(40);
    let marked = "e\u{301}".repeat(60);
    let hearts = "\u{2764}\u{fe0f}".repeat(40);
    for text in [
        long.as_str(),
        control.as_str(),
        "\u{1b}[31mred\u{1b}[0m\u{7}",
        wide.as_str(),
        marked.as_str(),
        hearts.as_str(),
        "ok",
        "",
    ] {
        for cols in [1usize, 2, 7, KIND_COLS, QUEST_COLS, PAYLOAD_COLS] {
            let out = cell(text, cols);
            assert!(
                width(&out) <= cols,
                "{:?} at {cols} columns became {} wide: {out:?}",
                text,
                width(&out)
            );
            assert!(
                !out.chars().any(char::is_control),
                "a control character survived into {out:?}"
            );
        }
    }
}

/// The whole row, drawn: a payload far longer than the terminal is cut,
/// and it is cut in the row rather than wrapped onto the next event's line.
#[test]
fn a_very_long_payload_is_cut_and_never_wraps() {
    let rig = Rig::new();
    let quest = rig.quest("alpha");
    rig.event_with(
        &quest,
        None,
        "session.prompt",
        &format!("{{\"text\":\"{}\"}}", "z".repeat(9_000)),
    );
    rig.event(&quest, "note");
    let mut app = rig.app();

    // Two-line mode at 120, three-line at 60: the payload has its own line
    // in both, and neither pushes the second event off its own row.
    for (w, mode) in [
        (120u16, RowMode::Two),
        (60u16, RowMode::Three),
    ] {
        let lines = draw(&mut app, w, 20);
        assert_eq!(app.row_mode(), mode);
        let zs = lines
            .iter()
            .filter(|l| l.contains("zzzz"))
            .collect::<Vec<_>>();
        assert_eq!(zs.len(), 1, "the payload wrapped at {w}: {lines:?}");
        assert!(zs[0].chars().count() <= w as usize, "{w}: {:?}", zs[0]);
        assert!(
            lines.iter().any(|l| l.contains("note")),
            "the long row swallowed the next one at {w}: {lines:?}"
        );
        // Where the kind sits is the difference between the two bands, and
        // the narrow one only earns its third line by drawing it.
        let own_line = lines
            .iter()
            .any(|l| l.trim_end() == format!("{INDENT}session.prompt"));
        assert_eq!(
            own_line,
            mode == RowMode::Three,
            "the kind is on the wrong line at {w}: {lines:?}"
        );
    }
}

#[test]
fn the_narrow_band_draws_every_line_it_budgets_for() {
    let rig = Rig::new();
    let quest = rig.quest("alpha");
    let session = rig.session(&quest, "worker");
    for n in 0..6 {
        rig.event_with(
            &quest,
            Some(&session),
            &format!("kind.{n}"),
            &format!("{{\"text\":\"payload {n}\"}}"),
        );
    }
    let mut app = rig.app();

    for (w, per_row) in [(120u16, 2usize), (60, 3)] {
        app.set_size(w, 14);
        app.handle(Input::Char('G'));
        assert_eq!(app.row_mode().lines() as usize, per_row);
        let lines = draw(&mut app, w, 14);
        let body: Vec<&String> = lines[1..lines.len() - 1].iter().collect();
        let heads = body
            .iter()
            .filter(|l| !l.is_empty() && !l.starts_with(INDENT))
            .count();
        let drawn = body.iter().filter(|l| !l.is_empty()).count();
        assert_eq!(
            drawn,
            heads * per_row,
            "{w}: {heads} rows drew {drawn} lines: {body:?}"
        );
        // `viewport` is how many rows the body holds, so it is also how
        // many the loop drew.
        assert_eq!(viewport(&app), heads, "{w}: {body:?}");
        // Every line of the selected row is on screen, kind included.
        let row = app.events.selected_row().unwrap();
        assert!(
            body.iter().any(|l| l.contains(&row.event.kind)),
            "{w}: the selected row lost its kind: {body:?}"
        );
    }
}

#[test]
fn the_cursor_block_covers_every_line_of_the_selected_event() {
    let rig = Rig::new();
    let quest = rig.quest("alpha");
    let session = rig.session(&quest, "worker");
    for n in 0..4 {
        rig.event_with(
            &quest,
            Some(&session),
            &format!("kind.{n}"),
            &format!("{{\"text\":\"payload {n}\"}}"),
        );
    }
    let mut app = rig.app();

    for (w, per_row) in [(120u16, 2usize), (60, 3)] {
        app.set_size(w, 16);
        app.handle(Input::Char('G'));
        assert_eq!(app.row_mode().lines() as usize, per_row);
        let reversed = reversed_rows(&mut app, w, 16);
        assert_eq!(
            reversed.len(),
            per_row,
            "{w}: the block is {} lines over a {per_row}-line row: {reversed:?}",
            reversed.len()
        );
        // Contiguous, and the row under the cursor is the one it covers.
        let kind = app.events.selected_row().unwrap().event.kind.clone();
        assert!(
            reversed.iter().any(|(_, l)| l.contains(&kind)),
            "{reversed:?}"
        );
        let rows: Vec<u16> = reversed.iter().map(|(y, _)| *y).collect();
        assert!(
            rows.windows(2).all(|p| p[1] == p[0] + 1),
            "the block has a hole in it: {rows:?}"
        );
    }
}

/// Payloads are written by hooks and by agents. Nothing in one may reach
/// the terminal as an escape sequence — in the listing OR in the panel.
#[test]
fn control_characters_in_a_payload_render_literally() {
    let rig = Rig::new();
    let quest = rig.quest("alpha");
    let session = rig.session(&quest, "wo\u{1b}[2Jrker");
    rig.event_with(
        &quest,
        Some(&session),
        "note\u{7}",
        r#"{"text":"\u001b[31mpwned\u001b[0m","osc":"\u001b]0;title\u0007","nul":"a\u0000b"}"#,
    );
    let mut app = rig.app();

    for (w, h) in [(120u16, 20u16), (60, 20)] {
        let body = screen(&mut app, w, h);
        assert!(
            !body.contains('\u{1b}'),
            "an ESC reached the buffer at {w}x{h}"
        );
        assert!(!body.contains('\u{7}'), "a BEL reached the buffer");
        assert!(!body.contains('\u{0}'), "a NUL reached the buffer");
        assert!(
            body.contains('\u{fffd}'),
            "the control characters vanished instead of being shown: {body}"
        );
    }

    // The panel prints the payload in full, so it is the other surface.
    rig.key(&mut app, Input::Enter);
    assert!(app.detail);
    let panel = screen(&mut app, 120, 20);
    assert!(!panel.contains('\u{1b}'), "an ESC reached the panel");
    assert!(!panel.contains('\u{7}'), "a BEL reached the panel");
    assert!(panel.contains("pwned"), "{panel}");
    assert!(panel.contains('\u{fffd}'), "{panel}");
}

// ---------------------------------------------------------- the viewport

/// A sweep, not a case: at every shape the terminal can take, the selected
/// row must be ON SCREEN and exactly one row may carry the cursor.
#[test]
fn the_selected_row_is_on_screen_at_every_shape() {
    let rig = Rig::new();
    let a = rig.quest("alpha");
    let b = rig.quest("beta-with-a-longer-slug");
    for n in 0..40 {
        let quest = if n % 3 == 0 { &b } else { &a };
        rig.event_with(
            quest,
            None,
            if n % 2 == 0 { "note" } else { "session.stop" },
            &format!("{{\"n\":{n},\"text\":\"{}\"}}", "t".repeat(n)),
        );
    }
    let mut app = rig.app();

    for w in [40u16, 60, 70, 99, 100, 140] {
        for h in [3u16, 4, 5, 8, 13, 30] {
            for detail in [false, true] {
                for up in [0usize, 1, 7, 19, 39] {
                    app.detail = detail;
                    app.set_size(w, h);
                    app.handle(Input::Char('G'));
                    for _ in 0..up {
                        app.handle(Input::Char('k'));
                    }
                    anchored(&app);
                    let want = app.events.selected_row().unwrap().event.id;
                    let lines = draw(&mut app, w, h);
                    // The panel takes the whole body below the split, and
                    // then there is no listing to be on screen in.
                    let listing = panel_split(Rect::new(0, 1, w, h - 2), detail)
                        .0
                        .is_some();
                    let marked = lines.iter().filter(|l| l.contains('\u{25b8}')).count();
                    if listing {
                        assert_eq!(
                            marked, 1,
                            "{w}x{h} detail={detail} up={up}: {marked} cursors: {lines:?}"
                        );
                    }
                    assert_eq!(
                        app.events.selected_row().map(|r| r.event.id),
                        Some(want),
                        "drawing moved the selection at {w}x{h}"
                    );
                }
            }
        }
    }
}

/// Both row modes draw the event, and neither hides half of one under the
/// fold: a payload line with no meta line above it reads as the previous
/// event's.
#[test]
fn a_row_is_drawn_whole_or_not_at_all() {
    let rig = Rig::new();
    let quest = rig.quest("alpha");
    for n in 0..12 {
        rig.event(&quest, &format!("kind.{n}"));
    }
    let mut app = rig.app();
    for (w, per_row) in [(120u16, 2usize), (60, 3)] {
        for h in 3..14u16 {
            app.set_size(w, h);
            app.handle(Input::Char('G'));
            let lines = draw(&mut app, w, h);
            let body: Vec<&String> = lines[1..lines.len() - 1].iter().collect();
            let heads = body
                .iter()
                .filter(|l| !l.is_empty() && !l.starts_with(INDENT))
                .count();
            let drawn = body.iter().filter(|l| !l.is_empty()).count();
            // Every drawn line belongs to a head or to the payload under
            // one, and a partial row is only ever the LAST thing on screen
            // in a body with no room for a whole one.
            assert!(
                drawn <= heads * per_row,
                "{w}x{h}: {drawn} lines under {heads} heads: {body:?}"
            );
            if body.len() >= per_row {
                assert!(heads >= 1, "{w}x{h}: nothing drawn: {body:?}");
            }
        }
    }
}

#[test]
fn a_grown_viewport_refills_the_body() {
    const SHAPES: [(u16, u16); 6] =
        [(100, 40), (100, 10), (69, 20), (70, 20), (120, 4), (60, 30)];
    for len in [7usize, 25, 60] {
        let rig = Rig::new();
        let quest = rig.quest("alpha");
        for n in 0..len {
            rig.event_with(
                &quest,
                None,
                &format!("kind.{n}"),
                &format!("{{\"text\":\"payload {n}\"}}"),
            );
        }
        let mut app = rig.app();
        app.detail = false;
        for (w1, h1) in SHAPES {
            for (w2, h2) in SHAPES {
                for up in [0usize, 1, 5, 1_000] {
                    app.set_size(w1, h1);
                    app.handle(Input::Char('G'));
                    for _ in 0..up {
                        app.handle(Input::Char('k'));
                    }
                    // The first frame settles the view for the first
                    // shape. The second frame IS the resize.
                    draw(&mut app, w1, h1);
                    let lines = draw(&mut app, w2, h2);

                    let at = format!("{len} events, {w1}x{h1} -> {w2}x{h2}, up={up}");
                    let per_row = app.row_mode().lines() as usize;
                    let rows = viewport(&app);
                    let visible = app.events.visible().len();
                    let body = &lines[1..lines.len() - 1];
                    let heads = body
                        .iter()
                        .filter(|l| !l.is_empty() && !l.starts_with(INDENT))
                        .count();
                    let drawn = body.iter().filter(|l| !l.is_empty()).count();

                    // The body is FULL whenever there are enough events to
                    // fill it: as many rows as fit, or the whole listing.
                    assert_eq!(
                        heads,
                        rows.min(visible),
                        "{at}: {heads} rows in a body that holds {rows}: {body:?}"
                    );
                    // And every drawn row is drawn whole. The exception is
                    // a body with no room for even one, where the head is
                    // all there is and nothing below it can be mistaken
                    // for the next event.
                    assert_eq!(
                        drawn,
                        (heads * per_row).min(body.len()),
                        "{at}: a row is half off the bottom: {body:?}"
                    );
                    // The cursor is on screen, exactly once.
                    let marked = body.iter().filter(|l| l.contains('\u{25b8}')).count();
                    assert_eq!(marked, 1, "{at}: {marked} cursors: {body:?}");
                    anchored(&app);
                }
            }
        }
    }
}


// ------------------------------------------------------ the `e` hand-off

#[test]
fn e_on_the_quests_tab_lands_on_that_quests_tail() {
    let rig = Rig::new();
    let a = rig.quest("alpha");
    let b = rig.quest("beta");
    rig.event(&a, "a.one");
    rig.event(&b, "b.one");
    rig.event(&a, "a.two");
    let of = |picked: &Quest, a: &Quest, _b: &Quest| -> Vec<&'static str> {
        if picked.id == a.id {
            vec!["a.one", "a.two"]
        } else {
            vec!["b.one"]
        }
    };

    let mut app = App::new(&rig.config, "laptop");
    app.set_size(120, 30);
    // This test is about the quest-filter hand-off, not the panel Esc peels
    // first; close the default-open panel so Esc reaches the filter.
    app.detail = false;
    rig.reload(&mut app);
    assert_eq!(app.tab, Tab::Quests);

    // Whichever Quest the listing happens to put the cursor on, `e` has to
    // hand over THAT one — so the expectation is derived from the
    // selection rather than assumed.
    let first = selected_quest(&app).unwrap();
    assert_eq!(rig.key(&mut app, Input::Char('e')), Action::Refresh);
    assert_eq!(app.tab, Tab::Events);
    assert_eq!(app.focus_quest, None, "the hint was not consumed");
    assert_eq!(app.events.quest.as_deref(), Some(first.id.as_str()));
    assert_eq!(kinds(&app), of(&first, &a, &b));
    assert!(
        app.filters().contains(&format!("quest {}", first.slug)),
        "{}",
        app.filters()
    );
    anchored(&app);

    // And it follows the selection rather than a fixed Quest: the other
    // row hands over the other log.
    app.select(Tab::Quests);
    app.handle(Input::Char('j'));
    let second = selected_quest(&app).unwrap();
    assert_ne!(second.id, first.id, "`j` never left the first row");
    rig.key(&mut app, Input::Char('e'));
    assert_eq!(app.events.quest.as_deref(), Some(second.id.as_str()));
    assert_eq!(kinds(&app), of(&second, &a, &b));
    anchored(&app);

    // And the hand-off is a one-shot: Esc gives every Quest back for good.
    assert_eq!(rig.key(&mut app, Input::Esc), Action::Refresh);
    assert_eq!(kinds(&app), ["a.one", "b.one", "a.two"]);
    rig.reload(&mut app);
    assert_eq!(kinds(&app), ["a.one", "b.one", "a.two"]);
}

#[test]
fn e_is_a_letter_in_the_box_before_it_is_the_hand_off() {
    let rig = Rig::new();
    let quest = rig.quest("alpha");
    rig.event(&quest, "note");
    let mut app = App::new(&rig.config, "laptop");
    app.set_size(120, 30);
    rig.reload(&mut app);
    app.handle(Input::Char('/'));
    app.handle(Input::Char('a'));
    assert!(app.capturing());

    // `e` is a letter in the box, not the hand-off, while it is open.
    assert_eq!(app.tab, Tab::Quests);
    app.handle(Input::Char('e'));
    assert!(app.status.starts_with("/ae"), "{}", app.status);
    assert_eq!(app.tab, Tab::Quests, "a key in the box switched tabs");

    // Back to a query that still names the Quest, then committed: Enter
    // hands the keyboard back and keeps the filter.
    app.handle(Input::Backspace);
    app.handle(Input::Enter);
    assert!(!app.capturing());
    assert!(app.filters().contains("/a"), "{}", app.filters());

    // Now the same key is the hand-off.
    assert_eq!(rig.key(&mut app, Input::Char('e')), Action::Refresh);
    assert_eq!(app.tab, Tab::Events);
    assert!(!app.quests.capturing(), "the box outlived the tab");
    assert_eq!(app.events.quest.as_deref(), Some(quest.id.as_str()));
    assert!(app.filters().contains("quest alpha"), "{}", app.filters());
    assert_eq!(kinds(&app), ["note"]);
    anchored(&app);
}

/// `e` with nothing selected is a no-op rather than a hand-off of nothing.
#[test]
fn e_on_an_empty_quests_listing_does_nothing() {
    let rig = Rig::new();
    let mut app = App::new(&rig.config, "laptop");
    app.set_size(120, 30);
    rig.reload(&mut app);
    assert_eq!(app.handle(Input::Char('e')), Action::Nothing);
    assert_eq!(app.tab, Tab::Quests);
    assert_eq!(app.focus_quest, None);
}

#[test]
fn the_help_overlay_lists_the_keys_the_tab_answers_to() {
    let rows = help_rows(Tab::Events);
    for key in ["/", "g / G", "Enter / d"] {
        assert!(
            rows.iter().any(|(k, _)| *k == key),
            "{key} is not in {rows:?}"
        );
    }
    // And `e` is advertised on the tab that actually binds it.
    assert!(
        help_rows(Tab::Quests)
            .iter()
            .any(|(k, _)| *k == "e"),
    );
}

// ----------------------------------------------------- the capture gate

/// `q` in the box is a kind pattern, not quit. The shell asks the tab
/// before claiming its bare letters.
#[test]
fn typing_into_the_box_does_not_reach_the_shells_own_keys() {
    let rig = Rig::new();
    let quest = rig.quest("alpha");
    rig.event(&quest, "quest.created");
    rig.event(&quest, "quest.v2");
    let mut app = rig.app();
    rig.key(&mut app, Input::Char('/'));
    // `q` is quit and `2` is the Sessions tab, outside the box. The
    // pattern is exact -- `quest.` alone would be an exact pattern too,
    // and would match neither row.
    for c in "quest.v2".chars() {
        rig.key(&mut app, Input::Char(c));
    }
    assert!(!app.should_quit, "`q` quit out of the filter box");
    assert_eq!(app.tab, Tab::Events, "a digit switched tabs");
    assert_eq!(app.events.query, "quest.v2");
    assert_eq!(kinds(&app), ["quest.v2"]);
    // The one key that always gets out.
    app.handle(Input::Ctrl('c'));
    assert!(app.should_quit);
}

/// A paste is text into the box and nothing else — never a way to open
/// one, and never a key sequence.
#[test]
fn a_paste_only_ever_lands_in_an_open_box() {
    let rig = Rig::new();
    let quest = rig.quest("alpha");
    rig.event(&quest, "session.start");
    rig.event(&quest, "note");
    let mut app = rig.app();

    assert!(!app.paste("session.*"), "a paste opened the box");
    assert!(app.events.query.is_empty());

    rig.key(&mut app, Input::Char('/'));
    assert!(app.paste("session.\u{1b}[C*\r"));
    assert!(
        !app.events.query.chars().any(char::is_control),
        "{:?}",
        app.events.query
    );
    rig.reload(&mut app);
    anchored(&app);
}

// ---------------------------------------------------------- the panel

#[test]
fn enter_opens_the_whole_event_and_esc_closes_it_first() {
    let rig = Rig::new();
    let quest = rig.quest("alpha");
    rig.event_with(
        &quest,
        None,
        "session.prompt",
        r#"{"text":"the whole prompt","n":3}"#,
    );
    let mut app = rig.app();
    rig.key(&mut app, Input::Char('/'));
    for c in "session.*".chars() {
        rig.key(&mut app, Input::Char(c));
    }
    rig.key(&mut app, Input::Enter);

    rig.key(&mut app, Input::Enter);
    assert!(app.detail);
    let panel = screen(&mut app, 120, 20);
    assert!(panel.contains("the whole prompt"), "{panel}");
    assert!(panel.contains("alpha"), "{panel}");

    // Esc peels the panel first, then the filter, then nothing.
    assert_eq!(app.handle(Input::Esc), Action::Nothing);
    assert!(!app.detail);
    assert!(!app.events.query.is_empty());
    assert_eq!(app.handle(Input::Esc), Action::Refresh);
    assert!(app.events.query.is_empty());
    rig.reload(&mut app);
    assert_eq!(app.handle(Input::Esc), Action::Nothing);
}

#[test]
fn an_event_with_no_payload_says_so() {
    let rig = Rig::new();
    let quest = rig.quest("alpha");
    rig.event(&quest, "session.stop");
    let mut app = rig.app();
    rig.key(&mut app, Input::Enter);
    assert!(screen(&mut app, 120, 20).contains("no payload"));
}

// ------------------------------------------------------------ the parser

#[test]
fn the_box_splits_on_whitespace_and_commas() {
    assert_eq!(parse_kinds("").unwrap(), []);
    assert_eq!(parse_kinds("   ").unwrap(), []);
    assert_eq!(
        parse_kinds("note, session.*  phase").unwrap(),
        [
            KindPattern::Exact("note".to_string()),
            KindPattern::Prefix("session.".to_string()),
            KindPattern::Exact("phase".to_string()),
        ]
    );
    assert!(parse_kinds("se*sion").is_err());
}

#[test]
fn a_kind_pattern_takes_what_it_says() {
    let prefix = KindPattern::parse("session.*").unwrap();
    assert!(prefix.matches("session.start"));
    assert!(prefix.matches("session."));
    assert!(!prefix.matches("session"));
    let exact = KindPattern::parse("note").unwrap();
    assert!(exact.matches("note"));
    assert!(!exact.matches("note.more"));
    assert_eq!(
        parse_kinds("note se*sion").unwrap_err(),
        "bad kind pattern `se*sion`: only a trailing `*` is a wildcard"
    );
}

#[test]
fn sanitizing_replaces_control_characters_and_nothing_else() {
    assert_eq!(sanitize("a\u{1b}[31mb\u{85}"), "a\u{fffd}[31mb\u{fffd}");
    assert_eq!(sanitize("plain é 日"), "plain é 日");
}

#[test]
fn a_panel_shows_a_payload_as_it_was_laid_out() {
    let rig = Rig::new();
    let quest = rig.quest("alpha");
    rig.event_with(&quest, None, "note", r#"{"a":1}"#);
    let row = rig.feed(None, &[]).remove(0);
    let text = |laid_out: Option<&str>| -> Vec<String> {
        panel_lines_with(&row, &laid_out.map(str::to_string))
            .into_iter()
            .map(|l| l.text)
            .collect()
    };
    assert_eq!(
        text(Some("{\n  \"a\": 1\n}")),
        [
            "note",
            "2024-01-02 03:04:05 · 4m ago",
            "alpha · - · #1",
            "",
            "{",
            "  \"a\": 1",
            "}"
        ]
    );
    assert_eq!(text(Some("null")).last().unwrap(), "no payload");
    assert_eq!(text(None).last().unwrap(), r#"{"a":1}"#);
    // And the layout itself puts each key on a line of its own.
    let mut app = rig.app();
    rig.key(&mut app, Input::Enter);
    assert!(screen(&mut app, 120, 20).contains("\"a\": 1"));
}

#[test]
fn arriving_on_a_stale_tail_asks_for_a_reload() {
    let rig = Rig::new();
    let quest = rig.quest("alpha");
    rig.event(&quest, "note");
    let mut app = rig.app();
    rig.key(&mut app, Input::Char('/'));
    rig.key(&mut app, Input::Char('z'));
    app.select(Tab::Quests);
    assert!(app.events.stale());
    assert_eq!(app.handle(Input::Char('4')), Action::Refresh);
    rig.reload(&mut app);
    assert!(!app.needs_reload());
    assert_eq!(app.handle(Input::Char('1')), Action::Nothing);
    assert_eq!(app.handle(Input::Char('4')), Action::Nothing);
}

#[test]
fn the_tail_is_stale_exactly_while_the_filter_differs() {
    let rig = Rig::new();
    let quest = rig.quest("alpha");
    rig.event(&quest, "note");
    let mut app = rig.app();
    assert!(!app.events.stale());
    app.handle(Input::Char('/'));
    assert!(!app.events.stale());
    app.handle(Input::Char('n'));
    assert!(app.events.stale());
    app.handle(Input::Backspace);
    assert!(!app.events.stale());
    app.paste("note");
    assert!(app.events.stale());
    app.handle(Input::Enter);
    assert!(app.events.stale());
    rig.reload(&mut app);
    assert!(!app.events.stale());
    app.handle(Input::Char('1'));
    app.handle(Input::Char('4'));
    assert!(!app.events.stale());
    app.handle(Input::Esc);
    assert!(app.events.stale());
}
