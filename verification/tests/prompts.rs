use questfleet::app::{tab_layout, Action, App, Tab};
use questfleet::fixture::FixtureState;
use questfleet::form::{Field, ACTION, CANCEL};
use questfleet::keys::{Input, KeyCode, KeyEvent, MouseInput};
use questfleet::layout::Rect;
use questfleet::lifecycle::{arm_steps, Step};
use questfleet::model::{
    Config, DisplayState, Origin, QError, Quest, QuestRow, QuestState, QuestView, Remote, Session,
    SessionRole, SessionStatus, Template,
};
use questfleet::quests::{
    self, chosen_template, close_quest, create, created_here, created_there, expand_error, merge,
    rename_quest, resume_quest, Anchor, Job, NewQuest, F_BEADS, F_CLOSE_EPIC, F_DIR, F_GOAL,
    F_MACHINE, F_NAME, F_PROMPT, F_SLUG, F_TEMPLATE, F_WORKFLOW, NO_TEMPLATE, NO_WORKFLOW,
};
use questfleet::shell::{apply_event, report_refresh, submitted, take_modal, Event};
use questfleet::tmux::NewSession;
use std::cell::{Cell, RefCell};
use questfleet::form::Drawing;
use questfleet::paint::{Line, Style};
use questfleet::screen::render;
use ratatui::buffer::Buffer;
use ratatui::style::Modifier;
use ratatui::widgets::{Block, Borders, Clear, Padding, Paragraph, Widget, Wrap};

/// A fleet in memory, with one directory that exists and a fake tmux server.
struct Rig {
    config: Config,
    quests: RefCell<Vec<Quest>>,
    sessions: RefCell<Vec<Session>>,
    made: RefCell<Vec<NewQuest>>,
    templates: RefCell<Vec<Template>>,
    tmux: RefCell<FixtureState>,
    broken: RefCell<Option<String>>,
    /// What the tracker answers a create and a close with.
    tracker: (Result<&'static str, &'static str>, Result<(), &'static str>),
    closed: RefCell<Vec<String>>,
    warnings: RefCell<Vec<String>>,
    clock: Cell<i64>,
}

const WORKFLOWS: [&str; 5] = ["orchestrator", "research", "review", "routine", "solo"];

impl Rig {
    fn new() -> Rig {
        Rig::with_bd(Err("nothing here is about the tracker"), Err("nor this"))
    }

    fn with_bd(
        create: Result<&'static str, &'static str>,
        close: Result<(), &'static str>,
    ) -> Rig {
        Rig {
            config: Config::default(),
            quests: RefCell::new(Vec::new()),
            sessions: RefCell::new(Vec::new()),
            made: RefCell::new(Vec::new()),
            templates: RefCell::new(Vec::new()),
            tmux: RefCell::new(FixtureState::new()),
            broken: RefCell::new(None),
            tracker: (create, close),
            closed: RefCell::new(Vec::new()),
            warnings: RefCell::new(Vec::new()),
            clock: Cell::new(0),
        }
    }

    fn now(&self) -> i64 {
        self.clock.set(self.clock.get() + 1);
        self.clock.get()
    }

    fn dir(&self) -> String {
        "/tmp/work".to_string()
    }

    /// Make the next new tmux session fail.
    fn break_new_session(&self, why: &str) {
        *self.broken.borrow_mut() = Some(why.to_string());
    }

    fn app(&self) -> App {
        let mut app = App::new(&self.config, "laptop");
        app.set_size(120, 40);
        self.refresh(&mut app);
        app
    }

    fn quests(&self) -> Vec<Quest> {
        self.quests.borrow().clone()
    }

    fn slugs(&self) -> Vec<String> {
        self.quests().into_iter().map(|q| q.slug).collect()
    }

    fn made(&self) -> Vec<NewQuest> {
        self.made.borrow().clone()
    }

    fn closed_epics(&self) -> Vec<String> {
        self.closed.borrow().clone()
    }

    fn find(&self, id: &str) -> Option<Quest> {
        self.quests().into_iter().find(|q| q.id == id)
    }

    fn sessions_of(&self, id: &str) -> Vec<Session> {
        let sessions = self.sessions.borrow();
        sessions.iter().filter(|s| s.quest_id == id).cloned().collect()
    }

    fn tmux_has(&self, name: &str) -> bool {
        self.tmux.borrow().has_session(name)
    }

    fn quest(&self, slug: &str) -> Quest {
        let now = self.now();
        Quest {
            id: format!("q-{now:04}"),
            slug: slug.to_string(),
            goal: None,
            machine: "laptop".to_string(),
            state: QuestState::Active,
            beads_epic: None,
            created_at: now,
            updated_at: now,
        }
    }

    fn insert_quest(&self, quest: Quest) {
        self.quests.borrow_mut().push(quest);
    }

    fn insert_template(&self, template: Template) {
        self.templates.borrow_mut().push(template);
    }

    fn delete_quest(&self, id: &str) {
        self.quests.borrow_mut().retain(|q| q.id != id);
    }

    fn edit(&self, id: &str, change: impl Fn(&mut Quest)) -> Quest {
        let mut all = self.quests.borrow_mut();
        let quest = all.iter_mut().find(|q| q.id == id).unwrap();
        change(quest);
        quest.clone()
    }

    fn set_epic(&self, id: &str, epic: &str) {
        self.edit(id, |q| q.beads_epic = Some(epic.to_string()));
    }

    fn refresh(&self, app: &mut App) {
        let shown = app.quests.show_finished;
        let rows: Vec<QuestRow> = self
            .quests()
            .into_iter()
            .filter(|q| shown || q.state != QuestState::Finished)
            .map(|q| {
                let sessions = self.sessions_of(&q.id);
                row(q, sessions)
            })
            .collect();
        let rows = merge(rows, app.quests.remote.clone());
        let links = vec![Vec::new(); rows.len()];
        let workflows = WORKFLOWS.iter().map(|w| w.to_string()).collect();
        quests::refresh(app, rows, links, self.templates.borrow().clone(), workflows);
    }

    fn start_master(&self, quest: &Quest) -> Result<(), QError> {
        if let Some(why) = self.broken.borrow().clone() {
            return Err(QError::Tmux(why));
        }
        let name = format!("q-{}", quest.slug);
        let pane = self.tmux.borrow_mut().new_session(&NewSession {
            name: name.clone(),
            window_name: "master".to_string(),
            cwd: self.dir(),
            env: Vec::new(),
            command: None,
        })?;
        self.sessions.borrow_mut().push(Session {
            id: format!("s-{}", pane.pane_id),
            quest_id: quest.id.clone(),
            role: SessionRole::Master,
            label: "master".to_string(),
            tmux_session: name,
            tmux_pane: pane.pane_id,
            status: SessionStatus::Idle,
            waiting_for: None,
            phase: None,
            ctx_pct: None,
            started_at: self.now(),
            ended_at: None,
        });
        Ok(())
    }

    fn make(&self, wanted: &NewQuest) -> Result<Quest, QError> {
        let dir = wanted.dir.clone().unwrap_or_else(|| self.dir());
        if dir != self.dir() {
            return Err(QError::Invalid(format!("no such directory: {dir}")));
        }
        let slug = wanted.name.clone().unwrap_or_else(|| "work".to_string());
        let mut quest = self.quest(&slug);
        quest.goal.clone_from(&wanted.goal);
        if !wanted.no_beads {
            match self.tracker.0 {
                Ok(epic) => quest.beads_epic = Some(epic.to_string()),
                Err(why) => self
                    .warnings
                    .borrow_mut()
                    .push(format!("warning: no beads epic: {why}")),
            }
        }
        if let Err(e) = self.start_master(&quest) {
            if let Some(epic) = quest.beads_epic {
                self.closed.borrow_mut().push(epic.clone());
                if let Err(why) = self.tracker.1 {
                    self.warnings.borrow_mut().push(format!(
                        "warning: epic {epic} outlived the quest it was made for ({why}); \
                         close it by hand with `bd close {epic}`"
                    ));
                }
            }
            return Err(e);
        }
        self.insert_quest(quest.clone());
        Ok(quest)
    }

    fn rename(&self, quest: &Quest, slug: &str) -> Result<(Quest, String), QError> {
        let legal = |c: char| c.is_ascii_lowercase() || c.is_ascii_digit() || c == '-';
        if slug.is_empty() || !slug.chars().all(legal) {
            return Err(QError::Invalid(format!("invalid slug `{slug}`")));
        }
        if self.quests().iter().any(|q| q.id != quest.id && q.slug == slug) {
            return Err(QError::Invalid(format!("slug `{slug}` is already taken")));
        }
        let renamed = self.edit(&quest.id, |q| q.slug = slug.to_string());
        Ok((renamed, format!("{} → {slug}", quest.slug)))
    }

    fn close(&self, quest: &Quest, close_epic: bool) -> String {
        let was_finished = quest.state == QuestState::Finished;
        let mut said = if was_finished {
            format!("{} is already finished", quest.slug)
        } else {
            format!("closed {}", quest.slug)
        };
        if !was_finished {
            self.edit(&quest.id, |q| q.state = QuestState::Finished);
            for s in self.sessions.borrow_mut().iter_mut() {
                if s.quest_id == quest.id {
                    s.status = SessionStatus::Ended;
                }
            }
            let killed = self
                .tmux
                .borrow_mut()
                .kill_session(&format!("q-{}", quest.slug));
            assert!(killed.is_ok());
        }
        match &quest.beads_epic {
            Some(epic) if close_epic => {
                if self.closed.borrow().contains(epic) {
                    self.warnings.borrow_mut().push(format!(
                        "note: beads epic {epic} was already closed by an earlier close"
                    ));
                } else {
                    match self.tracker.1 {
                        Ok(()) => {
                            self.closed.borrow_mut().push(epic.clone());
                            said = format!("{said} · epic {epic} closed");
                        }
                        Err(why) => self
                            .warnings
                            .borrow_mut()
                            .push(format!("warning: `bd close {epic}` failed: {why}")),
                    }
                }
            }
            _ => {}
        }
        said
    }

    fn resume(&self, quest: &Quest, _prompt: Option<String>) -> Result<(Quest, String), QError> {
        let living = |s: &Session| s.status != SessionStatus::Ended;
        if self.sessions_of(&quest.id).iter().any(living) {
            return Err(QError::Invalid(format!(
                "{} is running; attach with q enter {}",
                quest.slug, quest.slug
            )));
        }
        self.start_master(quest)?;
        let resumed = self.edit(&quest.id, |q| q.state = QuestState::Active);
        let said = format!("resumed {}", quest.slug);
        Ok((resumed, said))
    }

    fn perform(&self, app: &mut App, job: Job, modal: &questfleet::app::Modal) -> Result<(), QError> {
        match job {
            Job::Create => {
                let template = chosen_template(app, &modal.form);
                if let Some(t) = template {
                    if t.goal.as_deref().unwrap_or("").contains("{{arg.") {
                        return Err(expand_error(&t.name, "a placeholder has no value"));
                    }
                }
                let wanted = create(&modal.form, template, &self.config.remotes);
                self.made.borrow_mut().push(wanted.clone());
                if wanted.remote {
                    let slug = wanted.name.unwrap();
                    created_there(app, &slug, &wanted.machine, wanted.template.as_deref());
                } else {
                    let quest = self.make(&wanted)?;
                    created_here(app, &quest);
                }
            }
            Job::Rename { quest, slug } => {
                let (renamed, said) = self.rename(&quest, &slug)?;
                rename_quest(app, &renamed, &said);
            }
            Job::Close { quest, close_epic } => {
                let said = self.close(&quest, close_epic);
                close_quest(app, &said);
            }
            Job::Resume { quest, prompt } => {
                let (resumed, said) = self.resume(&quest, prompt)?;
                resume_quest(app, &resumed, &said);
            }
        }
        Ok(())
    }

    /// What the event loop does with a submit.
    fn submit(&self, app: &mut App) {
        let Some(modal) = take_modal(app) else { return };
        let fetched = modal.prompt.quest().and_then(|id| self.find(id));
        let outcome = match quests::submit(&modal.prompt, &modal.form, fetched) {
            Ok(job) => self.perform(app, job, &modal),
            Err(e) => Err(e),
        };
        let warnings = self.warnings.take();
        submitted(app, modal, outcome, &warnings);
    }
}

fn row(quest: Quest, sessions: Vec<Session>) -> QuestRow {
    let live = sessions
        .iter()
        .filter(|s| s.status != SessionStatus::Ended)
        .count();
    QuestRow {
        goal_line: quest.goal.clone().unwrap_or_default(),
        age: "4m".to_string(),
        cwd_shown: "/tmp/work".to_string(),
        view: QuestView {
            display_state: if quest.state == QuestState::Finished {
                DisplayState::Finished
            } else {
                DisplayState::Idle
            },
            needs_you: false,
            live_sessions: live as u64,
            master_ctx_pct: None,
            progress: None,
            state_cell: "state".to_string(),
            quest,
        },
        sessions,
        origin: Origin::Local,
    }
}

fn template(name: &str) -> Template {
    Template {
        name: name.to_string(),
        goal: None,
        dir: None,
        workflow: None,
        repo: None,
        prompt: None,
    }
}

/// Puts the selection on the row of that quest.
fn focus_on_id(app: &mut App, id: &str) {
    let row = app.quests.rows.iter().find(|r| r.view.quest.id == id);
    let anchor = Anchor::of(row.expect("no such row"));
    app.quests.focus_on(anchor);
}

fn at(r: Rect) -> ratatui::layout::Rect {
    ratatui::layout::Rect::new(r.x, r.y, r.width, r.height)
}

fn style_of(style: Style) -> ratatui::style::Style {
    let plain = ratatui::style::Style::default();
    match style {
        Style::Plain => plain,
        Style::Bold => plain.add_modifier(Modifier::BOLD),
        Style::Dim => plain.add_modifier(Modifier::DIM),
        Style::Selected => plain.add_modifier(Modifier::BOLD | Modifier::REVERSED),
    }
}

fn span(l: &Line) -> ratatui::text::Span<'static> {
    ratatui::text::Span::styled(l.text.clone(), style_of(l.style))
}

fn lines(all: &[Line]) -> Vec<ratatui::text::Line<'static>> {
    all.iter()
        .map(|l| ratatui::text::Line::from(span(l)))
        .collect()
}

fn boxed(title: &str) -> Block<'static> {
    Block::default()
        .borders(Borders::ALL)
        .title(title.to_string())
        .padding(Padding::horizontal(1))
}

/// What a terminal of that size shows.
fn frame(app: &mut App, w: u16, h: u16) -> Buffer {
    let mut buffer = Buffer::empty(ratatui::layout::Rect::new(0, 0, w, h));
    let screen = render(app, Rect::new(0, 0, w, h));
    if let Some(header) = screen.header {
        let spans: Vec<_> = header.spans.iter().map(span).collect();
        Paragraph::new(ratatui::text::Line::from(spans)).render(at(header.bar), &mut buffer);
        Paragraph::new(span(&header.machine)).render(at(header.right), &mut buffer);
    }
    if let Some(list) = screen.body.list {
        Paragraph::new(lines(&list.lines)).render(at(list.area), &mut buffer);
    }
    if let Some(panel) = screen.body.panel {
        let block = boxed(&panel.title);
        let inner = block.inner(at(panel.area));
        block.render(at(panel.area), &mut buffer);
        let text = Paragraph::new(lines(&panel.lines));
        if panel.wrap {
            text.wrap(Wrap { trim: false }).render(inner, &mut buffer);
        } else {
            text.render(inner, &mut buffer);
        }
    }
    if let Some(status) = screen.status {
        Paragraph::new(span(&status.message)).render(at(status.left), &mut buffer);
        Paragraph::new(span(&status.hint)).render(at(status.right), &mut buffer);
    }
    match screen.modal {
        Some(Drawing::Cramped { row, line }) => {
            Clear.render(at(row), &mut buffer);
            Paragraph::new(span(&line)).render(at(row), &mut buffer);
        }
        Some(Drawing::Boxed { area, title, lines: all }) => {
            Clear.render(at(area), &mut buffer);
            Paragraph::new(lines(&all))
                .block(boxed(&title))
                .render(at(area), &mut buffer);
        }
        _ => {}
    }
    if let Some(help) = screen.help {
        let rows: Vec<ratatui::text::Line> = help
            .rows
            .iter()
            .map(|(k, d)| ratatui::text::Line::from(format!("{k}  {d}")))
            .collect();
        Clear.render(at(help.area), &mut buffer);
        Paragraph::new(rows)
            .block(boxed(" Keys "))
            .render(at(help.area), &mut buffer);
    }
    buffer
}

fn draw(app: &mut App, w: u16, h: u16) -> Vec<String> {
    let buffer = frame(app, w, h);
    (0..h)
        .map(|y| {
            (0..w)
                .map(|x| buffer.cell((x, y)).map(|c| c.symbol()).unwrap_or(" "))
                .collect::<String>()
                .trim_end()
                .to_string()
        })
        .collect()
}

fn screen(app: &mut App, w: u16, h: u16) -> String {
    draw(app, w, h).join("\n")
}

fn type_text(app: &mut App, text: &str) {
    for c in text.chars() {
        app.handle(Input::Char(c));
    }
}

/// Tab to a field by label; panics rather than typing into the wrong one.
fn focus(app: &mut App, label: &str) {
    for _ in 0..24 {
        let at = app
            .modal
            .as_ref()
            .expect("no form is open")
            .form
            .focused()
            .map(Field::label);
        if at == Some(label) {
            return;
        }
        app.handle(Input::Tab);
    }
    panic!("no field labelled {label}");
}

fn set(app: &mut App, label: &str, value: &str) {
    focus(app, label);
    app.handle(Input::Ctrl('u'));
    type_text(app, value);
}

/// Move a select onto a named option, wherever it sits in the list — the
/// select equivalent of [`set`]. The options wrap, so one direction reaches
/// every one of them.
fn pick(app: &mut App, label: &str, value: &str) {
    focus(app, label);
    for _ in 0..32 {
        if app
            .modal
            .as_ref()
            .expect("no form is open")
            .form
            .choice(label)
            == value
        {
            return;
        }
        app.handle(Input::Right);
    }
    panic!("no option `{value}` on the {label} row");
}

fn no_beads(app: &mut App) {
    focus(app, F_BEADS);
    assert!(app.modal.as_ref().unwrap().form.is_on(F_BEADS));
    app.handle(Input::Char(' '));
    assert!(!app.modal.as_ref().unwrap().form.is_on(F_BEADS));
}

fn has_action(app: &App) -> bool {
    app.modal.as_ref().is_some_and(|m| {
        m.form
            .fields()
            .iter()
            .any(|f| f.label() == ACTION)
    })
}

/// Move the action row off `cancel`, the way the user has to before any
/// of these prompts does anything.
fn choose_action(app: &mut App) {
    if !has_action(app) {
        return;
    }
    focus(app, ACTION);
    // Idempotent: a form left up by a failed submit keeps the choice
    // already made, so this must land on the verb, not cycle past it.
    for _ in 0..3 {
        if app.modal.as_ref().unwrap().form.confirmed() {
            return;
        }
        app.handle(Input::Right);
    }
    panic!("the action row never left `{}`", CANCEL);
}

/// One key, treated exactly as the event loop treats it: the work happens
/// only if the state machine asked for it.
fn press(rig: &Rig, app: &mut App, input: Input) -> Action {
    let action = app.handle(input);
    if action == Action::Submit {
        rig.submit(app);
    }
    action
}

/// Exactly what the event loop does with `Action::Submit`.
fn submit(rig: &Rig, app: &mut App) {
    choose_action(app);
    assert_eq!(app.handle(Input::Enter), Action::Submit);
    rig.submit(app);
}

/// Drive the whole new-Quest form for a named Quest in the rig's dir.
fn make(rig: &Rig, app: &mut App, name: &str) {
    app.handle(Input::Char('n'));
    set(app, F_NAME, name);
    set(app, F_DIR, &rig.dir());
    no_beads(app);
    submit(rig, app);
    assert!(app.modal.is_none(), "form still up: {}", screen(app, 120, 40));
    rig.refresh(app);
}

// ------------------------------------------------------------- new quest

#[test]
fn the_new_quest_form_creates_exactly_one_quest_and_selects_it() {
    let rig = Rig::new();
    let mut app = rig.app();
    app.handle(Input::Char('n'));
    set(&mut app, F_NAME, "cdc-backfill");
    set(&mut app, F_GOAL, "make the backfill idempotent");
    set(&mut app, F_DIR, &rig.dir());
    // A select, not free text: `q new --workflow` refuses a name the
    // registry does not have, so the form offers the names it does.
    pick(&mut app, F_WORKFLOW, "orchestrator");
    no_beads(&mut app);
    submit(&rig, &mut app);

    assert!(app.modal.is_none(), "the form is still up: {}", app.status);
    assert!(!app.capturing());
    let quests = rig.quests();
    assert_eq!(quests.len(), 1, "{:?}", rig.slugs());
    assert_eq!(quests[0].slug, "cdc-backfill");
    assert_eq!(
        quests[0].goal.as_deref(),
        Some("make the backfill idempotent")
    );
    assert_eq!(rig.made()[0].workflow.as_deref(), Some("orchestrator"));
    assert_eq!(quests[0].machine, "laptop");
    assert_eq!(quests[0].beads_epic, None);
    // The master is up in its own tmux session, the same as `q new`.
    let sessions = rig.sessions_of(&quests[0].id);
    assert_eq!(sessions.len(), 1);
    assert_eq!(sessions[0].role, SessionRole::Master);
    assert!(
        rig.tmux_has("q-cdc-backfill")
    );

    rig.refresh(&mut app);
    assert_eq!(
        app.quests.selected_row().unwrap().view.quest.slug,
        "cdc-backfill"
    );
    assert!(
        app.status.contains("created cdc-backfill"),
        "{}",
        app.status
    );
}

#[test]
fn a_blank_name_is_named_from_the_directory() {
    let rig = Rig::new();
    let mut app = rig.app();
    app.handle(Input::Char('n'));
    set(&mut app, F_DIR, &rig.dir());
    no_beads(&mut app);
    submit(&rig, &mut app);
    assert!(app.modal.is_none(), "{}", screen(&mut app, 120, 40));
    let quests = rig.quests();
    assert_eq!(quests.len(), 1);
    assert!(!quests[0].slug.is_empty());
    assert_eq!(rig.made()[0].name, None);
}

#[test]
fn a_directory_that_does_not_exist_keeps_the_form_up_and_creates_nothing() {
    let rig = Rig::new();
    let mut app = rig.app();
    app.handle(Input::Char('n'));
    set(&mut app, F_NAME, "nowhere");
    set(&mut app, F_DIR, "/no/such/place/at/all");
    no_beads(&mut app);
    submit(&rig, &mut app);

    let form = &app.modal.as_ref().expect("the form was thrown away").form;
    assert!(
        form.error().unwrap().contains("no such directory"),
        "{:?}",
        form.error()
    );
    // Everything typed is still there to fix.
    assert_eq!(form.trimmed(F_NAME), "nowhere");
    assert!(rig.quests().is_empty());
    assert!(!app.should_quit);
    assert!(screen(&mut app, 120, 40).contains("no such directory"));

    // Fixing the field clears the complaint, and the second try works.
    set(&mut app, F_DIR, &rig.dir());
    assert!(app.modal.as_ref().unwrap().form.error().is_none());
    submit(&rig, &mut app);
    assert!(app.modal.is_none());
    assert_eq!(rig.slugs(), ["nowhere"]);
}

#[test]
fn a_creation_that_fails_partway_rolls_the_quest_back() {
    let rig = Rig::new();
    let mut app = rig.app();
    rig.break_new_session("no server running on /tmp/tmux-501/default");

    app.handle(Input::Char('n'));
    set(&mut app, F_NAME, "half-made");
    set(&mut app, F_DIR, &rig.dir());
    no_beads(&mut app);
    submit(&rig, &mut app);

    let form = &app.modal.as_ref().expect("the form was thrown away").form;
    assert!(
        form.error().unwrap().contains("no server running"),
        "{form:?}"
    );
    assert!(
        rig.quests().is_empty(),
        "the half-made quest survived: {:?}",
        rig.slugs()
    );
    assert!(!app.should_quit, "a failed create must not end the TUI");
    // And the listing the TUI is drawing agrees.
    rig.refresh(&mut app);
    assert!(app.quests.rows.is_empty());
}

#[test]
fn cancelling_the_form_restores_nothing() {
    let rig = Rig::new();
    let mut app = rig.app();
    app.handle(Input::Char('n'));
    set(&mut app, F_NAME, "never-made");
    set(&mut app, F_GOAL, "nor this");
    app.handle(Input::Esc);

    assert!(app.modal.is_none());
    assert!(!app.capturing());
    assert!(app.status.is_empty(), "{:?}", app.status);
    assert!(rig.quests().is_empty());
    // And the keyboard is the shell's again.
    assert_eq!(app.handle(Input::Char('q')), Action::Quit);
}

#[test]
fn the_machine_field_offers_the_local_machine_and_every_remote() {
    let mut config = Config::default();
    config.remotes.push(Remote {
        name: "ws".to_string(),
        ssh: "ws.local".to_string(),
    });
    let mut app = App::new(&config, "laptop");
    app.set_size(120, 40);
    app.handle(Input::Char('n'));
    focus(&mut app, F_MACHINE);
    let form = &app.modal.as_ref().unwrap().form;
    assert_eq!(form.choice(F_MACHINE), "laptop");
    app.handle(Input::Right);
    assert_eq!(app.modal.as_ref().unwrap().form.choice(F_MACHINE), "ws");
    app.handle(Input::Right);
    assert_eq!(app.modal.as_ref().unwrap().form.choice(F_MACHINE), "laptop");
}

#[test]
fn the_workflow_field_is_a_select_over_the_registry() {
    let rig = Rig::new();
    let mut app = rig.app();
    app.handle(Input::Char('n'));
    let form = &app.modal.as_ref().unwrap().form;
    // The rig's registry has no user directory, so this is the built-ins.
    assert_eq!(form.choice(F_WORKFLOW), NO_WORKFLOW, "unset by default");
    let offered: Vec<String> = (0..6)
        .map(|_| {
            let at = app
                .modal
                .as_ref()
                .unwrap()
                .form
                .choice(F_WORKFLOW)
                .to_string();
            focus(&mut app, F_WORKFLOW);
            app.handle(Input::Right);
            at
        })
        .collect();
    assert_eq!(
        offered,
        [
            NO_WORKFLOW,
            "orchestrator",
            "research",
            "review",
            "routine",
            "solo",
        ]
    );

    // `(none)` means no workflow, not a Quest whose workflow is `(none)`.
    set(&mut app, F_NAME, "unset");
    set(&mut app, F_DIR, &rig.dir());
    pick(&mut app, F_WORKFLOW, NO_WORKFLOW);
    no_beads(&mut app);
    submit(&rig, &mut app);
    assert!(app.modal.is_none(), "{}", screen(&mut app, 120, 40));
    assert_eq!(rig.made()[0].workflow, None);
}


#[test]
fn the_template_field_lists_the_templates_and_fills_blanks() {
    let rig = Rig::new();
    let mut weekly = template("weekly-hygiene");
    weekly.goal = Some("tidy up".to_string());
    weekly.dir = Some(rig.dir());
    weekly.workflow = Some("routine".to_string());
    rig.insert_template(weekly);

    let mut app = rig.app();
    app.handle(Input::Char('n'));
    assert_eq!(
        app.modal.as_ref().unwrap().form.choice(F_TEMPLATE),
        NO_TEMPLATE
    );
    set(&mut app, F_NAME, "from-template");
    // Chosen values win; the blanks come from the template.
    pick(&mut app, F_WORKFLOW, "solo");
    focus(&mut app, F_TEMPLATE);
    app.handle(Input::Right);
    assert_eq!(
        app.modal.as_ref().unwrap().form.choice(F_TEMPLATE),
        "weekly-hygiene"
    );
    no_beads(&mut app);
    submit(&rig, &mut app);

    assert!(app.modal.is_none(), "{}", screen(&mut app, 120, 40));
    let quest = &rig.quests()[0];
    assert_eq!(quest.goal.as_deref(), Some("tidy up"));
    assert_eq!(rig.made()[0].workflow.as_deref(), Some("solo"));
    assert_eq!(rig.made()[0].dir, Some(rig.dir()));
}

// --------------------------------------------------------------- rename

#[test]
fn rename_moves_the_slug_and_keeps_the_selection_on_the_same_quest() {
    let rig = Rig::new();
    let mut app = rig.app();
    make(&rig, &mut app, "old-name");
    let id = rig.quests()[0].id.clone();

    app.handle(Input::Char('r'));
    assert_eq!(app.modal.as_ref().unwrap().form.trimmed(F_SLUG), "old-name");
    set(&mut app, F_SLUG, "new-name");
    submit(&rig, &mut app);

    assert!(app.modal.is_none(), "{}", screen(&mut app, 120, 40));
    assert_eq!(rig.slugs(), ["new-name"]);
    assert_eq!(rig.quests()[0].id, id, "a rename must not make a new Quest");
    rig.refresh(&mut app);
    assert_eq!(app.quests.selected_row().unwrap().view.quest.id, id);
    assert!(app.status.contains("old-name → new-name"), "{}", app.status);
}

#[test]
fn renaming_onto_a_slug_another_quest_holds_keeps_the_form_up() {
    let rig = Rig::new();
    let mut app = rig.app();
    make(&rig, &mut app, "first-one");
    make(&rig, &mut app, "second-one");
    // The selection is on the one that was just made.
    assert_eq!(
        app.quests.selected_row().unwrap().view.quest.slug,
        "second-one"
    );

    app.handle(Input::Char('r'));
    set(&mut app, F_SLUG, "first-one");
    submit(&rig, &mut app);

    let form = &app.modal.as_ref().expect("the form was thrown away").form;
    assert!(
        form.error().unwrap().contains("already taken"),
        "{:?}",
        form.error()
    );
    let mut slugs = rig.slugs();
    slugs.sort();
    assert_eq!(slugs, ["first-one", "second-one"]);
}

#[test]
fn an_illegal_slug_is_refused_by_the_same_rule_the_cli_uses() {
    let rig = Rig::new();
    let mut app = rig.app();
    make(&rig, &mut app, "legal-name");
    app.handle(Input::Char('r'));
    set(&mut app, F_SLUG, "Not A Slug");
    submit(&rig, &mut app);
    let form = &app.modal.as_ref().unwrap().form;
    assert!(form.error().unwrap().contains("invalid slug"), "{form:?}");
    assert_eq!(rig.slugs(), ["legal-name"]);
}

// ---------------------------------------------------------------- close

#[test]
fn the_close_prompt_shows_what_it_will_do_and_both_of_its_options() {
    // A Quest with an epic reaches `progress_all_with`, which shares the
    // process-wide failure window.
    let rig = Rig::new();
    let mut app = rig.app();
    make(&rig, &mut app, "with-epic");
    let id = rig.quests()[0].id.clone();
    rig.set_epic(&id, "bd-99");
    rig.refresh(&mut app);

    app.handle(Input::Char('c'));
    let text = screen(&mut app, 120, 40);
    assert!(text.contains("close with-epic?"), "{text}");
    assert!(text.contains("kills tmux q-with-epic"), "{text}");
    assert!(text.contains("ends 1 live session(s)"), "{text}");
    assert!(text.contains(F_CLOSE_EPIC), "{text}");
    assert!(text.contains("epic bd-99"), "{text}");
    assert!(!app.modal.as_ref().unwrap().form.is_on(F_CLOSE_EPIC));
    focus(&mut app, F_CLOSE_EPIC);
    app.handle(Input::Char(' '));
    assert!(app.modal.as_ref().unwrap().form.is_on(F_CLOSE_EPIC));
    // Option two is named but not offered: nothing in the tree implements
    // it yet, and a toggle that silently does nothing is worse.
    assert!(text.contains("brain summary (--summarize)"), "{text}");

    // A Quest with no epic says so rather than offering a dead toggle.
    app.handle(Input::Esc);
    rig.insert_quest(rig.quest("no-epic"));
    rig.refresh(&mut app);
    focus_on_id(&mut app, 
        &rig.quests()
            .iter()
            .find(|q| q.slug == "no-epic")
            .unwrap()
            .id,
    );
    app.handle(Input::Char('c'));
    let text = screen(&mut app, 120, 40);
    assert!(text.contains("no beads epic"), "{text}");
    assert!(!text.contains(F_CLOSE_EPIC), "{text}");
}

#[test]
fn closing_ends_the_sessions_and_moves_the_selection_to_the_next_quest() {
    let rig = Rig::new();
    let mut app = rig.app();
    make(&rig, &mut app, "aaa-first");
    make(&rig, &mut app, "bbb-second");
    // Both idle-ish and equally ranked, so the order is by `updated_at`:
    // the newest first.
    let order: Vec<String> = app
        .quests
        .rows
        .iter()
        .map(|r| r.view.quest.slug.clone())
        .collect();
    assert_eq!(order.len(), 2);

    let doomed = app.quests.selected_row().unwrap().view.quest.slug.clone();
    let survivor = order.iter().find(|s| **s != doomed).unwrap().clone();
    app.handle(Input::Char('c'));
    submit(&rig, &mut app);
    assert!(app.modal.is_none(), "{}", screen(&mut app, 120, 40));
    rig.refresh(&mut app);

    let closed = rig.quests().into_iter().find(|q| q.slug == doomed).unwrap();
    assert_eq!(closed.state, QuestState::Finished);
    let sessions = rig.sessions_of(&closed.id);
    assert!(sessions.iter().all(|s| s.status == SessionStatus::Ended));
    assert!(
        !rig.tmux_has(&format!("q-{doomed}")),
        "the tmux session outlived the close"
    );

    // `f` is off, so the closed Quest left the listing and the selection
    // fell onto the row that took its place.
    assert_eq!(app.quests.rows.len(), 1);
    assert_eq!(app.quests.selected_row().unwrap().view.quest.slug, survivor);
    assert!(app.status.contains("closed"), "{}", app.status);
}

#[test]
fn closing_a_quest_that_is_already_finished_says_so_rather_than_failing() {
    let rig = Rig::new();
    let mut done = rig.quest("shipped");
    done.state = QuestState::Finished;
    rig.insert_quest(done);
    let mut app = rig.app();
    app.quests.show_finished = true;
    rig.refresh(&mut app);

    app.handle(Input::Char('c'));
    assert!(screen(&mut app, 120, 40).contains("already finished"));
    submit(&rig, &mut app);
    assert!(app.modal.is_none(), "{}", screen(&mut app, 120, 40));
    assert!(app.status.contains("already finished"), "{}", app.status);
}

// --------------------------------------------------------------- resume

#[test]
fn resuming_a_finished_quest_brings_up_a_new_master_and_selects_it() {
    let rig = Rig::new();
    let mut app = rig.app();
    make(&rig, &mut app, "come-back");
    let id = rig.quests()[0].id.clone();
    app.handle(Input::Char('c'));
    submit(&rig, &mut app);
    rig.refresh(&mut app);
    assert!(
        app.quests.rows.is_empty(),
        "the closed Quest is still listed"
    );

    app.handle(Input::Char('f'));
    rig.refresh(&mut app);
    assert_eq!(app.quests.selected_row().unwrap().view.quest.id, id);

    app.handle(Input::Char('R'));
    set(&mut app, F_PROMPT, "pick up where you left off");
    submit(&rig, &mut app);
    assert!(app.modal.is_none(), "{}", screen(&mut app, 120, 40));

    let quest = rig.quests().into_iter().find(|q| q.id == id).unwrap();
    assert_eq!(quest.state, QuestState::Active);
    let sessions = rig.sessions_of(&id);
    assert_eq!(
        sessions.len(),
        2,
        "the old session row is history, not gone"
    );
    assert_eq!(
        sessions
            .iter()
            .filter(|s| s.status != SessionStatus::Ended)
            .count(),
        1
    );
    rig.refresh(&mut app);
    assert_eq!(app.quests.selected_row().unwrap().view.quest.id, id);
    assert!(app.status.contains("resumed"), "{}", app.status);
}

#[test]
fn resuming_a_quest_that_is_still_running_keeps_the_form_up() {
    let rig = Rig::new();
    let mut app = rig.app();
    make(&rig, &mut app, "still-going");
    app.handle(Input::Char('R'));
    submit(&rig, &mut app);

    let form = &app.modal.as_ref().expect("the form was thrown away").form;
    let error = form.error().unwrap();
    assert!(error.contains("q enter still-going"), "{error}");
    assert!(!app.should_quit);
    // Nothing was spawned: still one live master.
    let quest = &rig.quests()[0];
    assert_eq!(
        rig.sessions_of(&quest.id)
            .len(),
        1
    );
    assert_eq!(quest.state, QuestState::Active);
}

/// The prompt was opened against a Quest, not against a row number: a tick
/// that reorders the listing while the box is up must not move the target.
#[test]
fn a_prompt_acts_on_the_quest_it_was_opened_against() {
    let rig = Rig::new();
    let mut app = rig.app();
    make(&rig, &mut app, "aaa-target");
    make(&rig, &mut app, "zzz-other");
    let target = app.quests.selected_row().unwrap().view.quest.id.clone();

    app.handle(Input::Char('r'));
    // The list reloads and the selection is dragged elsewhere while the
    // box is up — exactly what a 2 s tick can do.
    rig.refresh(&mut app);
    focus_on_id(&mut app, &rig.quests().iter().find(|q| q.id != target).unwrap().id);
    assert_ne!(app.quests.selected_row().unwrap().view.quest.id, target);

    set(&mut app, F_SLUG, "renamed-target");
    submit(&rig, &mut app);
    assert!(app.modal.is_none(), "{}", screen(&mut app, 120, 40));
    let renamed = rig.quests().into_iter().find(|q| q.id == target).unwrap();
    assert_eq!(renamed.slug, "renamed-target");
}

/// A Quest that vanished while the prompt was up is an error, not a panic
/// and not somebody else's Quest being closed.
#[test]
fn a_prompt_whose_quest_is_gone_reports_it() {
    let rig = Rig::new();
    let mut app = rig.app();
    make(&rig, &mut app, "doomed-one");
    let id = rig.quests()[0].id.clone();
    app.handle(Input::Char('c'));
    rig.delete_quest(&id);
    submit(&rig, &mut app);
    let form = &app.modal.as_ref().unwrap().form;
    assert!(form.error().unwrap().contains("is gone"), "{form:?}");
}

// ------------------------------------------------------------ mode gate

/// The rule the whole modal layer rests on: while a box is up the shell's
/// bare-letter keys are text, not commands.
#[test]
fn the_shells_keys_are_text_while_a_form_is_up() {
    let rig = Rig::new();
    let mut app = rig.app();
    for (key, label) in [('n', F_GOAL), ('n', F_NAME)] {
        app.modal = None;
        app.handle(Input::Char(key));
        focus(&mut app, label);
        type_text(&mut app, "q x 1 2 3 4");
        assert_eq!(
            app.modal.as_ref().unwrap().form.trimmed(label),
            "q x 1 2 3 4"
        );
        assert!(!app.should_quit, "`q` quit from inside a field");
        assert_eq!(app.tab, Tab::Quests, "a digit switched tabs from a field");
        assert_eq!(app.refreshes, 0, "`x` refreshed from inside a field");
        app.handle(Input::Esc);
    }
    // `?` too: the help overlay would swallow the form underneath it.
    app.handle(Input::Char('n'));
    type_text(&mut app, "?");
    assert!(!app.help);
    assert_eq!(app.modal.as_ref().unwrap().form.trimmed(F_NAME), "?");
    // Ctrl-C is the one key that still gets through.
    assert_eq!(app.handle(Input::Ctrl('c')), Action::Quit);
}

/// A capture must never be armed with nothing on screen: the mouse can
/// leave a form the keyboard cannot.
#[test]
fn a_click_on_another_tab_cannot_strand_a_form() {
    let rig = Rig::new();
    let mut app = rig.app();
    app.handle(Input::Char('n'));
    set(&mut app, F_NAME, "half-typed");
    assert!(app.capturing());

    let (_, _, x, _) = tab_layout()[1];
    app.tab_bar_width = 120 - 8;
    app.handle_mouse(MouseInput::Click { col: x, row: 0 });
    assert_eq!(app.tab, Tab::Sessions);
    assert!(
        app.modal.is_none(),
        "the form is holding an invisible keyboard"
    );
    assert!(!app.capturing());
    assert!(app.status.is_empty(), "{:?}", app.status);
    assert!(rig.quests().is_empty());

    // Back on Quests the shell's keys are the shell's again.
    app.handle_mouse(MouseInput::Click {
        col: tab_layout()[0].2,
        row: 0,
    });
    assert_eq!(app.handle(Input::Char('q')), Action::Quit);
}

/// `capturing()` is what turns the shell's keys off, so it may only be
/// true while there is a box on screen saying so.
#[test]
fn every_open_form_is_drawn_and_named_in_the_status_bar() {
    let rig = Rig::new();
    let mut app = rig.app();
    make(&rig, &mut app, "some-quest");
    for (key, title) in [
        ('n', "new quest"),
        ('r', "rename some-quest"),
        ('c', "close some-quest?"),
        ('R', "resume some-quest"),
    ] {
        app.modal = None;
        app.handle(Input::Char(key));
        assert!(app.capturing(), "{key}");
        let text = screen(&mut app, 120, 40);
        assert!(text.contains(title), "{key}: {title} not drawn\n{text}");
        // And the bar says it too, for a terminal too short for the box.
        assert!(app.status.contains(title), "{key}: {:?}", app.status);
        assert!(text.contains("Esc cancel"), "{key}: no way out\n{text}");
    }
}


#[test]
fn the_new_quest_form_creates_the_beads_epic_by_default() {
    let rig = Rig::with_bd(Ok("bd-e1"), Ok(()));
    let mut app = rig.app();

    app.handle(Input::Char('n'));
    set(&mut app, F_NAME, "with-beads");
    set(&mut app, F_GOAL, "ship the thing");
    set(&mut app, F_DIR, &rig.dir());
    assert!(
        app.modal.as_ref().unwrap().form.is_on(F_BEADS),
        "the epic is on by default"
    );
    submit(&rig, &mut app);

    assert!(app.modal.is_none(), "{}", screen(&mut app, 120, 40));
    let quest = &rig.quests()[0];
    assert_eq!(quest.beads_epic.as_deref(), Some("bd-e1"));
    assert!(!rig.made()[0].no_beads);
    // Nothing to report, so nothing is appended to the bar.
    assert!(
        app.status.starts_with("created with-beads"),
        "{}",
        app.status
    );
}

#[test]
fn a_bd_that_fails_a_create_reports_through_the_status_bar_not_the_screen() {
    let rig = Rig::with_bd(Err("connection refused"), Err("connection refused"));
    let mut app = rig.app();

    app.handle(Input::Char('n'));
    set(&mut app, F_NAME, "no-tracker");
    set(&mut app, F_DIR, &rig.dir());
    submit(&rig, &mut app);

    assert!(app.modal.is_none(), "{}", screen(&mut app, 120, 40));
    let quest = &rig.quests()[0];
    assert_eq!(quest.slug, "no-tracker");
    assert_eq!(quest.beads_epic, None);

    // The warning reached the bar, and the frame.
    assert!(
        app.status.contains("warning: no beads epic"),
        "{}",
        app.status
    );
    assert!(app.status.contains("connection refused"), "{}", app.status);
    assert!(
        screen(&mut app, 120, 40).contains("warning: no beads epic"),
        "{}",
        screen(&mut app, 120, 40)
    );
    // And nothing was left buffered to surface against a later action.
}

/// The same, on the path where the create itself fails: the rollback closes
/// the epic it had already minted, and a `bd` that refuses even that is the
/// one record of an epic that outlived its Quest. It goes in the form, next
/// to the error that kept the box up.
#[test]
fn a_rollback_that_cannot_close_its_epic_says_so_in_the_form() {
    let rig = Rig::with_bd(Ok("bd-e9"), Err("bd is wedged"));
    let mut app = rig.app();
    rig.break_new_session("no server running on /tmp/tmux-501/default");

    app.handle(Input::Char('n'));
    set(&mut app, F_NAME, "half-made");
    set(&mut app, F_DIR, &rig.dir());
    submit(&rig, &mut app);

    let error = app
        .modal
        .as_ref()
        .expect("the form was thrown away")
        .form
        .error()
        .unwrap()
        .to_string();
    // The error leads, the warning follows it — on one line, in the box.
    assert!(error.contains("no server running"), "{error}");
    assert!(error.contains("bd close bd-e9"), "{error}");
    assert_eq!(rig.closed_epics(), ["bd-e9"]);
    assert!(rig.quests().is_empty());
    let drawn = screen(&mut app, 120, 40);
    assert!(drawn.contains("no server running"), "{drawn}");
    assert!(drawn.contains("bd-e9"), "{drawn}");
    assert!(
        !drawn.contains("bd close bd-e9"),
        "the box does not truncate\n{drawn}"
    );
}

#[test]
fn closing_with_the_epic_toggle_on_closes_the_epic() {
    let rig = Rig::with_bd(Ok("bd-e1"), Ok(()));
    let mut app = rig.app();
    make(&rig, &mut app, "done-with-it");
    let id = rig.quests()[0].id.clone();
    rig.set_epic(&id, "bd-e1");
    rig.refresh(&mut app);

    app.handle(Input::Char('c'));
    focus(&mut app, F_CLOSE_EPIC);
    app.handle(Input::Char(' '));
    submit(&rig, &mut app);

    assert!(app.modal.is_none(), "{}", screen(&mut app, 120, 40));
    assert_eq!(rig.closed_epics(), ["bd-e1"]);
    assert!(app.status.contains("epic bd-e1 closed"), "{}", app.status);
}

#[test]
fn a_second_close_of_the_same_epic_notes_it_in_the_bar_not_over_the_frame() {
    let rig = Rig::with_bd(Ok("bd-e1"), Ok(()));
    let mut app = rig.app();
    make(&rig, &mut app, "twice-closed");
    let id = rig.quests()[0].id.clone();
    rig.set_epic(&id, "bd-e1");
    rig.refresh(&mut app);

    // First close, epic and all.
    app.handle(Input::Char('c'));
    focus(&mut app, F_CLOSE_EPIC);
    app.handle(Input::Char(' '));
    submit(&rig, &mut app);
    assert_eq!(rig.closed_epics(), ["bd-e1"]);

    // Second, on the finished Quest, asking for the epic again.
    app.quests.show_finished = true;
    rig.refresh(&mut app);
    focus_on_id(&mut app, &id);
    app.handle(Input::Char('c'));
    assert!(screen(&mut app, 120, 40).contains("already finished"));
    focus(&mut app, F_CLOSE_EPIC);
    app.handle(Input::Char(' '));
    submit(&rig, &mut app);

    assert!(app.modal.is_none(), "{}", screen(&mut app, 120, 40));
    assert_eq!(
        rig.closed_epics(),
        ["bd-e1"],
        "the epic must not be closed a second time"
    );
    assert!(
        app.status.contains("already closed by an earlier"),
        "{}",
        app.status
    );
    // The bar is 120 columns wide, so only the head of the note fits.
    assert!(
        screen(&mut app, 120, 40).contains("note: beads epic"),
        "{}",
        screen(&mut app, 120, 40)
    );
}

/// A `bd close` that fails leaves the Quest closed and says what did not
/// happen — as data, again.
#[test]
fn a_bd_that_refuses_to_close_the_epic_still_closes_the_quest() {
    let rig = Rig::with_bd(Err("bd is wedged"), Err("bd is wedged"));
    let mut app = rig.app();
    make(&rig, &mut app, "epic-stuck");
    let id = rig.quests()[0].id.clone();
    rig.set_epic(&id, "bd-e1");
    rig.refresh(&mut app);

    app.handle(Input::Char('c'));
    focus(&mut app, F_CLOSE_EPIC);
    app.handle(Input::Char(' '));
    submit(&rig, &mut app);

    assert!(app.modal.is_none(), "{}", screen(&mut app, 120, 40));
    assert_eq!(
        rig.quests()[0].state,
        QuestState::Finished,
        "the epic is not the Quest"
    );
    assert!(
        app.status.contains("`bd close bd-e1` failed"),
        "{}",
        app.status
    );
}

// -------------------------------------------- the affirmative is a choice

#[test]
fn a_bare_enter_on_the_close_prompt_closes_nothing() {
    let rig = Rig::new();
    let mut app = rig.app();
    make(&rig, &mut app, "still-mine");
    let id = rig.quests()[0].id.clone();

    // Exactly the burst, through the loop's own dispatch: `c`, then
    // Enter, with no key in between.
    press(&rig, &mut app, Input::Char('c'));
    for _ in 0..3 {
        assert_eq!(
            press(&rig, &mut app, Input::Enter),
            Action::Nothing,
            "Enter alone must not submit"
        );
    }
    assert!(app.modal.is_some(), "the box was taken down");

    let quest = rig.quests().into_iter().find(|q| q.id == id).unwrap();
    assert_eq!(quest.state, QuestState::Active);
    assert!(
        rig.tmux_has("q-still-mine"),
        "the tmux session was killed by a keystroke nobody aimed"
    );
    // And the box says what is missing.
    let text = screen(&mut app, 120, 40);
    assert!(text.contains("nothing done"), "{text}");
    assert!(text.contains("close"), "{text}");
}

/// Chosen, it still closes — the box is a guard, not a wall.
#[test]
fn choosing_the_action_closes_the_quest() {
    let rig = Rig::new();
    let mut app = rig.app();
    make(&rig, &mut app, "for-real");
    let id = rig.quests()[0].id.clone();

    app.handle(Input::Char('c'));
    assert_eq!(
        app.modal
            .as_ref()
            .unwrap()
            .form
            .choice(ACTION),
        CANCEL,
        "the action row starts on cancel"
    );
    // The focus starts on it, so it is one arrow key and an Enter away.
    assert_eq!(
        app.modal.as_ref().unwrap().form.focused().map(Field::label),
        Some(ACTION)
    );
    app.handle(Input::Right);
    assert_eq!(app.handle(Input::Enter), Action::Submit);
    rig.submit(&mut app);

    assert!(app.modal.is_none(), "{}", screen(&mut app, 120, 40));
    let quest = rig.quests().into_iter().find(|q| q.id == id).unwrap();
    assert_eq!(quest.state, QuestState::Finished);
}

/// The paste vector. Bracketed paste is off, so pasted text arrives as
/// ordinary keys: a space would cycle an ordinary select, and the newline
/// after it would submit. The action row does not answer to Space.
#[test]
fn pasted_text_cannot_arm_a_destructive_prompt() {
    let rig = Rig::new();
    let mut app = rig.app();
    make(&rig, &mut app, "paste-proof");

    app.handle(Input::Char('c'));
    for c in "fix the thing".chars() {
        app.handle(Input::Char(c));
    }
    assert!(
        !app.modal.as_ref().unwrap().form.confirmed(),
        "a space armed the close"
    );
    assert_eq!(app.handle(Input::Enter), Action::Nothing);
    assert_eq!(rig.quests()[0].state, QuestState::Active);
}

fn as_keys(bytes: &str) -> Vec<Event> {
    let key = |code| {
        Event::Key(KeyEvent {
            code,
            control: false,
            release: false,
        })
    };
    let mut out = Vec::new();
    let mut rest = bytes;
    while !rest.is_empty() {
        if let Some(tail) = rest.strip_prefix('\u{1b}') {
            match tail.strip_prefix("[C") {
                Some(tail) => {
                    out.push(key(KeyCode::Right));
                    rest = tail;
                    continue;
                }
                None => {
                    out.push(key(KeyCode::Esc));
                    rest = tail;
                    continue;
                }
            }
        }
        if let Some(tail) = rest.strip_prefix('\r') {
            out.push(key(KeyCode::Enter));
            rest = tail;
            continue;
        }
        let c = rest.chars().next().unwrap();
        out.push(key(KeyCode::Char(c)));
        rest = &rest[c.len_utf8()..];
    }
    out
}

fn pasted(bytes: &str) -> Vec<Event> {
    if arm_steps(false).contains(&Step::Paste(true)) {
        vec![Event::Paste(bytes.to_string())]
    } else {
        as_keys(bytes)
    }
}

fn deliver(rig: &Rig, app: &mut App, ev: Event) -> Action {
    let (action, _) = apply_event(app, ev);
    if action == Action::Submit {
        rig.submit(app);
    }
    action
}

#[test]
fn a_pasted_csi_arrow_and_a_cr_cannot_close_a_quest() {
    let rig = Rig::new();
    let mut app = rig.app();
    make(&rig, &mut app, "not-yours");
    let id = rig.quests()[0].id.clone();

    app.handle(Input::Char('c'));
    for ev in pasted("\u{1b}[C\r") {
        assert_eq!(deliver(&rig, &mut app, ev), Action::Nothing, "a paste acted");
    }
    assert!(app.modal.is_some(), "a paste took the box down");
    assert_eq!(
        app.modal
            .as_ref()
            .unwrap()
            .form
            .choice(ACTION),
        CANCEL,
        "a pasted arrow armed the close"
    );
    // Nothing ran, and nothing is armed to run on the next Enter either.
    assert_eq!(press(&rig, &mut app, Input::Enter), Action::Nothing);
    assert!(app.modal.is_some());

    let quest = rig.quests().into_iter().find(|q| q.id == id).unwrap();
    assert_eq!(quest.state, QuestState::Active);
    assert!(
        rig.tmux_has("q-not-yours"),
        "the tmux session was killed by a paste"
    );
}

/// The same paste on the one Quest prompt that has a text field: the text
/// lands in the field, and the escape and the `CR` inside it do not become
/// keys.
#[test]
fn a_paste_into_a_prompt_is_literal_text_with_no_keys_in_it() {
    let rig = Rig::new();
    let mut app = rig.app();
    make(&rig, &mut app, "resume-me");

    app.handle(Input::Char('R'));
    for ev in pasted("\u{1b}[Ckeep\rgoing") {
        assert_eq!(deliver(&rig, &mut app, ev), Action::Nothing);
    }
    let form = &app.modal.as_ref().expect("the paste submitted it").form;
    assert_eq!(form.trimmed(F_PROMPT), "[Ckeepgoing");
    assert!(!form.confirmed(), "a pasted arrow armed the resume");
}

/// And the `/` box, the tab's own text field. Pasting with nothing
/// capturing goes nowhere at all — a paste is not a way to open a box.
#[test]
fn a_paste_reaches_the_search_box_and_nothing_else() {
    let rig = Rig::new();
    let mut app = rig.app();
    make(&rig, &mut app, "cdc-backfill");

    app.handle(Input::Char('/'));
    for ev in pasted("\u{1b}[Ccdc\r") {
        assert_eq!(deliver(&rig, &mut app, ev), Action::Nothing);
    }
    assert_eq!(app.quests.query, "[Ccdc");

    app.handle(Input::Esc);
    assert!(!app.quests.capturing());
    let paste = Event::Paste("qqq".to_string());
    assert_eq!(
        apply_event(&mut app, paste),
        (Action::Nothing, false)
    );
    assert!(!app.should_quit, "a pasted `q` quit the TUI");
    assert_eq!(app.quests.query, "");
}

/// `n` and `R` start processes, so they are guarded the same way — but
/// their fields are still typed into from the first keystroke, which is
/// why their action row is last and not first.
#[test]
fn the_prompts_that_start_a_process_are_guarded_too() {
    let rig = Rig::new();
    let mut app = rig.app();
    make(&rig, &mut app, "one-quest");

    for key in ['n', 'R'] {
        app.modal = None;
        app.handle(Input::Char(key));
        assert!(
            !app.modal.as_ref().unwrap().form.confirmed(),
            "{key} is armed on arrival"
        );
        // Typing goes into the field, not into the action row.
        assert!(
            matches!(
                app.modal.as_ref().unwrap().form.focused(),
                Some(Field::Text { .. })
            ),
            "{key} does not start on a text field"
        );
        assert_eq!(app.handle(Input::Enter), Action::Nothing, "{key}");
        assert!(app.modal.is_some(), "{key}");
        app.handle(Input::Esc);
    }
    // Nothing was created, nothing was resumed.
    assert_eq!(rig.slugs(), ["one-quest"]);
}

/// `r` has no action row: it destroys nothing, starts nothing, and a bare
/// Enter re-submits the slug the Quest already has.
#[test]
fn rename_is_not_guarded_and_a_bare_enter_is_a_no_op() {
    let rig = Rig::new();
    let mut app = rig.app();
    make(&rig, &mut app, "same-name");
    app.handle(Input::Char('r'));
    assert_eq!(app.handle(Input::Enter), Action::Submit);
    rig.submit(&mut app);
    assert_eq!(rig.slugs(), ["same-name"]);
}

// ------------------------------------------- the Quest under the prompt

#[test]
fn a_prompt_will_not_act_on_a_quest_that_reused_its_id() {
    let rig = Rig::new();
    let mut app = rig.app();
    make(&rig, &mut app, "the-original");
    let id = rig.quests()[0].id.clone();

    app.handle(Input::Char('c'));
    // `q rm` in another terminal, then a `q new` that draws the same id —
    // and, to leave `created_at` as the only difference, the same slug.
    rig.delete_quest(&id);
    let mut impostor = rig.quest("the-original");
    impostor.id.clone_from(&id);
    impostor.created_at += 60;
    rig.insert_quest(impostor);

    submit(&rig, &mut app);
    let form = &app.modal.as_ref().expect("the form was thrown away").form;
    assert!(form.error().unwrap().contains("is gone"), "{form:?}");
    assert_eq!(
        rig.find(&id).unwrap().state,
        QuestState::Active,
        "the impostor was closed"
    );
}

#[test]
fn a_prompt_refuses_a_quest_whose_epic_changed_while_the_box_was_up() {
    let rig = Rig::with_bd(Ok("bd-e1"), Ok(()));
    let mut app = rig.app();
    make(&rig, &mut app, "swapped-epic");
    let id = rig.quests()[0].id.clone();
        rig.set_epic(&id, "bd-e1");
    rig.refresh(&mut app);

    app.handle(Input::Char('c'));
    assert!(screen(&mut app, 120, 40).contains("epic bd-e1"));
    // Another terminal repoints the Quest at a different epic.
    rig.set_epic(&id, "bd-e2");
    focus(&mut app, F_CLOSE_EPIC);
    app.handle(Input::Char(' '));
    submit(&rig, &mut app);

    let form = &app.modal.as_ref().expect("the form was thrown away").form;
    assert!(
        form.error().unwrap().contains("beads epic is bd-e2 now"),
        "{form:?}"
    );
    assert!(rig.closed_epics().is_empty(), "an unnamed epic was closed");
    assert_eq!(rig.quests()[0].state, QuestState::Active);
}

#[test]
fn a_prompt_refuses_a_quest_renamed_while_the_box_was_up() {
    let rig = Rig::new();
    let mut app = rig.app();
    make(&rig, &mut app, "old-name");
    let quest = rig.quests()[0].clone();

    app.handle(Input::Char('c'));
    assert!(screen(&mut app, 120, 40).contains("kills tmux q-old-name"));
    rig.rename(&quest, "new-name").unwrap();

    submit(&rig, &mut app);
    let form = &app.modal.as_ref().expect("the form was thrown away").form;
    assert!(
        form.error().unwrap().contains("renamed to new-name"),
        "{form:?}"
    );
    assert_eq!(rig.quests()[0].state, QuestState::Active);
}

#[test]
fn a_close_refuses_a_quest_that_was_resumed_while_the_box_was_up() {
    let rig = Rig::new();
    let mut app = rig.app();
    make(&rig, &mut app, "back-again");
    let id = rig.quests()[0].id.clone();
    // Close it, then open the prompt against the finished Quest.
    app.handle(Input::Char('c'));
    submit(&rig, &mut app);
    app.quests.show_finished = true;
    rig.refresh(&mut app);
    focus_on_id(&mut app, &id);
    app.handle(Input::Char('c'));
    assert!(screen(&mut app, 120, 40).contains("already finished"));

    // Another terminal brings it back.
    let quest = rig.quests().into_iter().find(|q| q.id == id).unwrap();
    rig.resume(&quest, None).unwrap();
    let live = rig.sessions_of(&id)
        .iter()
        .filter(|s| s.status != SessionStatus::Ended)
        .count();
    assert_eq!(live, 1);

    submit(&rig, &mut app);
    let form = &app.modal.as_ref().expect("the form was thrown away").form;
    assert!(form.error().unwrap().contains("is running now"), "{form:?}");
    assert_eq!(
        rig.quests().into_iter().find(|q| q.id == id).unwrap().state,
        QuestState::Active,
        "the freshly resumed master was killed"
    );
}

#[test]
fn a_close_acts_on_the_quest_it_was_opened_against() {
    let rig = Rig::new();
    let mut app = rig.app();
    make(&rig, &mut app, "aaa-doomed");
    make(&rig, &mut app, "zzz-bystander");
    let target = app.quests.selected_row().unwrap().view.quest.id.clone();

    app.handle(Input::Char('c'));
    // A tick reloads and the selection is dragged elsewhere under the box.
    rig.refresh(&mut app);
    let other = rig
        .quests()
        .iter()
        .find(|q| q.id != target)
        .unwrap()
        .id
        .clone();
    focus_on_id(&mut app, &other);
    assert_ne!(app.quests.selected_row().unwrap().view.quest.id, target);

    submit(&rig, &mut app);
    assert!(app.modal.is_none(), "{}", screen(&mut app, 120, 40));
    let quests = rig.quests();
    let closed = quests.iter().find(|q| q.id == target).unwrap();
    let bystander = quests.iter().find(|q| q.id == other).unwrap();
    assert_eq!(closed.state, QuestState::Finished);
    assert_eq!(bystander.state, QuestState::Active);
}

// --------------------------------------------------------- the template

#[test]
fn a_templated_quest_records_its_template_and_takes_its_prompt() {
    let rig = Rig::new();
    let mut weekly = template("weekly-hygiene");
    weekly.goal = Some("tidy up".to_string());
    weekly.dir = Some(rig.dir());
    weekly.prompt = Some("start with the backlog".to_string());
    rig.insert_template(weekly);

    let mut app = rig.app();
    app.handle(Input::Char('n'));
    let text = screen(&mut app, 120, 40);
    assert!(text.contains("master's first prompt"), "{text}");
    assert!(text.contains("beads repo"), "{text}");

    set(&mut app, F_NAME, "from-template");
    focus(&mut app, F_TEMPLATE);
    app.handle(Input::Right);
    no_beads(&mut app);
    submit(&rig, &mut app);
    assert!(app.modal.is_none(), "{}", screen(&mut app, 120, 40));

    let quest = &rig.quests()[0];
    assert_eq!(rig.made()[0].template.as_deref(), Some("weekly-hygiene"));
    assert_eq!(quest.goal.as_deref(), Some("tidy up"));
    // The prompt went to the master, which is what the note promises.
    assert_eq!(
        rig.made()[0].prompt.as_deref(),
        Some("start with the backlog")
    );
}

/// A form has nowhere to type `--arg`, so a template that wants one is
/// refused rather than instantiated with the braces still in it.
#[test]
fn a_template_that_needs_an_argument_is_refused_by_the_form() {
    let rig = Rig::new();
    let mut weekly = template("weekly-hygiene");
    weekly.goal = Some("tidy {{arg.repo}}".to_string());
    weekly.dir = Some(rig.dir());
    rig.insert_template(weekly);

    let mut app = rig.app();
    app.handle(Input::Char('n'));
    set(&mut app, F_NAME, "from-template");
    focus(&mut app, F_TEMPLATE);
    app.handle(Input::Right);
    no_beads(&mut app);
    submit(&rig, &mut app);

    let text = screen(&mut app, 120, 40);
    assert!(app.modal.is_some(), "the form closed: {text}");
    assert!(text.contains("q tpl run"), "{text}");
    assert!(rig.quests().is_empty(), "a quest was created: {text}");
}

// ----------------------------------------------------------- the mouse

#[test]
fn the_wheel_does_not_move_focus_inside_a_form() {
    let rig = Rig::new();
    let mut app = rig.app();
    make(&rig, &mut app, "wheel-proof");
    // Both shapes: the many-field form, and a close prompt whose epic
    // toggle a nudge could land on without the user noticing.
    rig.set_epic(&rig.quests()[0].id.clone(), "bd-e1");
    rig.refresh(&mut app);

    for key in ['n', 'c'] {
        app.modal = None;
        app.handle(Input::Char(key));
        let before = app.modal.as_ref().unwrap().form.clone();
        for wheel in [
            MouseInput::ScrollDown,
            MouseInput::ScrollUp,
        ] {
            for _ in 0..3 {
                assert_eq!(app.handle_mouse(wheel), Action::Nothing, "{key}");
                assert_eq!(&before, &app.modal.as_ref().unwrap().form, "{key}");
            }
        }
        assert!(!app.modal.as_ref().unwrap().form.confirmed(), "{key}");
    }
}

/// A tick does not expire the box's own line, and does not take the box
/// down either.
#[test]
fn a_tick_leaves_an_open_form_alone() {
    let rig = Rig::new();
    let mut app = rig.app();
    app.handle(Input::Char('n'));
    set(&mut app, F_NAME, "surviving");
    for _ in 0..50 {
        app.tick();
    }
    rig.refresh(&mut app);
    report_refresh(&mut app, Ok(()));
    assert!(app.capturing());
    assert_eq!(
        app.modal.as_ref().unwrap().form.trimmed(F_NAME),
        "surviving"
    );
    assert!(screen(&mut app, 120, 40).contains("surviving"));
}

#[test]
fn choosing_a_remote_in_the_new_form_creates_the_quest_on_that_machine() {
    let mut rig = Rig::new();
    rig.config.remotes.push(Remote {
        name: "ws".to_string(),
        ssh: "ws-host".to_string(),
    });
    let mut app = rig.app();
    app.handle(Input::Char('n'));
    set(&mut app, F_NAME, "over-there");
    no_beads(&mut app);
    focus(&mut app, F_MACHINE);
    app.handle(Input::Right);
    assert_eq!(app.modal.as_ref().unwrap().form.choice(F_MACHINE), "ws");
    submit(&rig, &mut app);

    assert!(app.modal.is_none(), "the form is still up: {}", app.status);
    assert!(app.status.contains("over-there"), "{}", app.status);
    assert!(app.status.contains("on ws"), "{}", app.status);
    assert!(rig.quests().is_empty());
    let made = &rig.made()[0];
    assert!(made.remote);
    assert!(made.no_beads);
    assert_eq!(made.machine, "ws");
    assert_eq!(made.name.as_deref(), Some("over-there"));
}

#[test]
fn a_user_workflow_file_joins_the_new_quest_form() {
    let rig = Rig::new();
    let mut app = rig.app();
    app.quests.workflows.push("triage".to_string());

    app.handle(Input::Char('n'));
    set(&mut app, F_NAME, "picked");
    set(&mut app, F_DIR, &rig.dir());
    pick(&mut app, F_WORKFLOW, "triage");
    no_beads(&mut app);
    submit(&rig, &mut app);

    assert!(app.modal.is_none(), "{}", screen(&mut app, 120, 40));
    assert_eq!(rig.made()[0].workflow.as_deref(), Some("triage"));
}

#[test]
fn a_templated_quest_made_elsewhere_names_its_template() {
    let rig = Rig::new();
    let mut app = rig.app();
    created_there(&mut app, "far", "ws", Some("weekly"));
    let with = app.status.clone();
    assert!(with.contains("created far on ws"), "{with}");
    assert!(with.contains("weekly"), "{with}");
    created_there(&mut app, "far", "ws", None);
    assert!(with.starts_with(app.status.as_str()), "{}", app.status);
}

#[test]
fn a_prompt_says_why_it_will_not_act() {
    let rig = Rig::new();
    let mut app = rig.app();
    make(&rig, &mut app, "mine");
    let quest = rig.quests()[0].clone();
    app.handle(Input::Char('c'));
    let modal = take_modal(&mut app).unwrap();
    let said = |fetched: Option<Quest>| {
        quests::submit(&modal.prompt, &modal.form, fetched)
            .err()
            .map(|e| e.message().to_string())
    };
    assert_eq!(said(Some(quest.clone())), None);
    let gone = format!("quest mine ({}) is gone", quest.id);
    assert_eq!(said(None), Some(gone.clone()));
    let mut other = quest.clone();
    other.created_at += 1;
    assert_eq!(said(Some(other)), Some(gone));
    let mut other = quest.clone();
    other.slug = "yours".to_string();
    assert_eq!(
        said(Some(other)).as_deref(),
        Some("mine was renamed to yours while this box was up; Esc and try again")
    );
    let mut other = quest.clone();
    other.state = QuestState::Finished;
    assert!(said(Some(other)).unwrap().contains("finished now"));
    let mut other = quest.clone();
    other.beads_epic = Some("bd-e1".to_string());
    assert!(said(Some(other)).unwrap().contains("beads epic is bd-e1 now"));
}
