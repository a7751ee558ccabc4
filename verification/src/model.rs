//! The records the dashboard works on.
use vstd::prelude::*;
use crate::text::clone_opt;

verus! {

/// What can go wrong, with what there is to say about it.
#[derive(Debug, Clone, PartialEq, Eq)]
pub enum QError {
    /// tmux refused, or could not be run.
    Tmux(String),
    /// There is no such thing.
    NotFound(String),
    /// The request makes no sense.
    Invalid(String),
    /// Anything else.
    Other(String),
}

/// What an error says.
pub open spec fn error_text(e: QError) -> Seq<char> {
    match e {
        QError::Tmux(s) => s@,
        QError::NotFound(s) => s@,
        QError::Invalid(s) => s@,
        QError::Other(s) => s@,
    }
}

impl QError {
    /// What the error says.
    pub fn message(&self) -> (r: &str)
        ensures
            r@ == error_text(*self),
    {
        match self {
            QError::Tmux(s) => s.as_str(),
            QError::NotFound(s) => s.as_str(),
            QError::Invalid(s) => s.as_str(),
            QError::Other(s) => s.as_str(),
        }
    }
}

/// A tmux error with that text.
pub open spec fn is_tmux_error(e: QError, text: Seq<char>) -> bool {
    e is Tmux && error_text(e) == text
}

/// What a session is for.
#[derive(Debug, Clone, Copy, PartialEq, Eq, Structural)]
pub enum SessionRole {
    Master,
    Worker,
}

/// How a role is written.
pub open spec fn role_text(role: SessionRole) -> Seq<char> {
    match role {
        SessionRole::Master => "master"@,
        SessionRole::Worker => "worker"@,
    }
}

impl SessionRole {
    /// How the role is written.
    pub fn as_str(self) -> (r: &'static str)
        ensures
            r@ == role_text(self),
    {
        match self {
            SessionRole::Master => "master",
            SessionRole::Worker => "worker",
        }
    }
}

/// What a session is doing.
#[derive(Debug, Clone, Copy, PartialEq, Eq, Structural)]
pub enum SessionStatus {
    Busy,
    Idle,
    Waiting,
    Ended,
}

/// How a status is written.
pub open spec fn status_text(status: SessionStatus) -> Seq<char> {
    match status {
        SessionStatus::Busy => "busy"@,
        SessionStatus::Idle => "idle"@,
        SessionStatus::Waiting => "waiting"@,
        SessionStatus::Ended => "ended"@,
    }
}

impl SessionStatus {
    /// How the status is written.
    pub fn as_str(self) -> (r: &'static str)
        ensures
            r@ == status_text(self),
    {
        match self {
            SessionStatus::Busy => "busy",
            SessionStatus::Idle => "idle",
            SessionStatus::Waiting => "waiting",
            SessionStatus::Ended => "ended",
        }
    }
}

/// One agent in one tmux pane.
#[derive(Debug, Clone, PartialEq, Eq)]
pub struct Session {
    pub id: String,
    pub quest_id: String,
    pub role: SessionRole,
    pub label: String,
    pub tmux_session: String,
    /// Empty until the window it runs in is open.
    pub tmux_pane: String,
    pub status: SessionStatus,
    /// What it is waiting for.
    pub waiting_for: Option<String>,
    pub phase: Option<String>,
    /// How full its context is, in percent.
    pub ctx_pct: Option<u64>,
    pub started_at: i64,
    pub ended_at: Option<i64>,
}

impl Session {
    /// The same record.
    pub fn copy(&self) -> (r: Session)
        ensures
            r == *self,
    {
        Session {
            id: self.id.clone(),
            quest_id: self.quest_id.clone(),
            role: self.role,
            label: self.label.clone(),
            tmux_session: self.tmux_session.clone(),
            tmux_pane: self.tmux_pane.clone(),
            status: self.status,
            waiting_for: clone_opt(&self.waiting_for),
            phase: clone_opt(&self.phase),
            ctx_pct: self.ctx_pct,
            started_at: self.started_at,
            ended_at: self.ended_at,
        }
    }
}

// --------------------------------------------------------------------- quests

/// Whether a quest is still going.
#[derive(Debug, Clone, Copy, PartialEq, Eq, Structural)]
pub enum QuestState {
    Active,
    Finished,
}

/// What a listing shows of a quest's state.
#[derive(Debug, Clone, Copy, PartialEq, Eq, Structural)]
pub enum DisplayState {
    Active,
    Idle,
    Finished,
}

/// One quest, as its machine's database has it.
#[derive(Debug, Clone, PartialEq, Eq)]
pub struct Quest {
    /// Unique on its machine, but only there and only while it lives.
    pub id: String,
    pub slug: String,
    pub goal: Option<String>,
    pub machine: String,
    pub state: QuestState,
    pub beads_epic: Option<String>,
    /// The one column nothing can change.
    pub created_at: i64,
    pub updated_at: i64,
}

impl Quest {
    /// The same record.
    pub fn copy(&self) -> (r: Quest)
        ensures
            r == *self,
    {
        Quest {
            id: self.id.clone(),
            slug: self.slug.clone(),
            goal: clone_opt(&self.goal),
            machine: self.machine.clone(),
            state: self.state,
            beads_epic: clone_opt(&self.beads_epic),
            created_at: self.created_at,
            updated_at: self.updated_at,
        }
    }
}

/// How far an epic is, and how that is written.
#[derive(Debug, Clone, PartialEq, Eq)]
pub struct Progress {
    /// How many issues the epic has.
    pub total: u64,
    /// `3/7`.
    pub cell: String,
    /// `▓▓▓░░░░`.
    pub bar: String,
    /// `3/7 closed · 4 open`.
    pub summary: String,
}

/// Where a row of the listing came from.
#[derive(Debug, Clone, Copy, PartialEq, Eq, Structural)]
pub enum Origin {
    /// This machine's own database.
    Local,
    /// Another machine; `stale` when it did not answer and the last answer
    /// stands in.
    Remote { stale: bool },
}

impl Origin {
    /// Whether the row lives on another machine.
    pub fn is_remote(self) -> (r: bool)
        ensures
            r == (self is Remote),
    {
        match self {
            Origin::Local => false,
            Origin::Remote { .. } => true,
        }
    }

    /// Whether the row is an old answer.
    pub fn is_stale(self) -> (r: bool)
        ensures
            r == (self == (Origin::Remote { stale: true })),
    {
        match self {
            Origin::Local => false,
            Origin::Remote { stale } => stale,
        }
    }
}

/// A quest together with what its sessions say about it.
#[derive(Debug, Clone, PartialEq, Eq)]
pub struct QuestView {
    pub quest: Quest,
    pub display_state: DisplayState,
    pub needs_you: bool,
    pub live_sessions: u64,
    /// How full the master's context is, in percent.
    pub master_ctx_pct: Option<u64>,
    pub progress: Option<Progress>,
    /// The state as a listing words it.
    pub state_cell: String,
}

/// One row of the quest listing, with the texts that depend on the clock and on
/// the home directory already written out.
#[derive(Debug, Clone, PartialEq, Eq)]
pub struct QuestRow {
    pub view: QuestView,
    pub sessions: Vec<Session>,
    pub origin: Origin,
    /// How long ago the quest was touched.
    pub age: String,
    /// The goal on one line.
    pub goal_line: String,
    /// The working directory as it is shown.
    pub cwd_shown: String,
}

/// Something a quest points at.
#[derive(Debug, Clone, PartialEq, Eq)]
pub struct Link {
    pub kind: String,
    pub reference: String,
    pub title: Option<String>,
    /// What is known beyond the title: a JSON object.
    pub meta: Option<String>,
    /// The title on one line.
    pub title_line: String,
    /// The reference on one line.
    pub reference_line: String,
}

/// One entry of a quest's log, with the texts that depend on the clock already
/// written out.
#[derive(Debug, Clone, PartialEq, Eq)]
pub struct Event {
    pub id: i64,
    pub quest_id: String,
    pub kind: String,
    /// What it carries: JSON.
    pub payload: Option<String>,
    /// How long ago it was.
    pub age: String,
    /// When it was.
    pub stamp: String,
    /// The payload on one line.
    pub payload_line: String,
}

/// An event with the names of what it belongs to.
#[derive(Debug, Clone, PartialEq, Eq)]
pub struct EventRow {
    pub event: Event,
    pub quest_slug: String,
    pub session: String,
}

/// A recipe for quests.
#[derive(Debug, Clone, PartialEq, Eq)]
pub struct Template {
    pub name: String,
    pub goal: Option<String>,
    pub dir: Option<String>,
    pub workflow: Option<String>,
    pub repo: Option<String>,
    pub prompt: Option<String>,
}

// ------------------------------------------------------------- configuration

/// How tmux sessions are named.
#[derive(Debug, Clone, PartialEq, Eq)]
pub struct TmuxConfig {
    /// What stands before a slug in the name of its tmux session.
    pub session_prefix: String,
}

/// How the dashboard behaves.
#[derive(Debug, Clone, Copy, PartialEq, Eq, Structural)]
pub struct UiConfig {
    /// Lines per row, where the width leaves a choice.
    pub rows: u8,
    pub mouse: bool,
    /// Seconds between two looks at the local state.
    pub tick_local: u64,
    /// Seconds between two looks at the remotes.
    pub tick_remote: u64,
    /// Whether the dashboard comes back once an attach ends.
    pub return_after_detach: bool,
}

/// The machine this runs on.
#[derive(Debug, Clone, PartialEq, Eq)]
pub struct MachineConfig {
    pub name: String,
}

/// Another machine, and how ssh reaches it.
#[derive(Debug, Clone, PartialEq, Eq)]
pub struct Remote {
    pub name: String,
    pub ssh: String,
}

/// What is configured.
#[derive(Debug, Clone, PartialEq, Eq)]
pub struct Config {
    pub tmux: TmuxConfig,
    pub ui: UiConfig,
    pub machine: MachineConfig,
    pub remotes: Vec<Remote>,
}

impl Default for Config {
    fn default() -> (r: Config)
        ensures
            r.tmux.session_prefix@ == "q-"@,
            r.ui == (UiConfig {
                rows: 2,
                mouse: true,
                tick_local: 2,
                tick_remote: 10,
                return_after_detach: true,
            }),
            r.machine.name@ == Seq::<char>::empty(),
            r.remotes.len() == 0,
    {
        Config {
            tmux: TmuxConfig { session_prefix: crate::text::owned("q-") },
            ui: UiConfig {
                rows: 2,
                mouse: true,
                tick_local: 2,
                tick_remote: 10,
                return_after_detach: true,
            },
            machine: MachineConfig { name: String::new() },
            remotes: Vec::new(),
        }
    }
}

} // verus!
