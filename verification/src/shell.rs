//! The shell around the tabs: what an event does, what the loop does next, and
//! what is said once the terminal comes back from somebody else.
//!
//! The loop itself runs elsewhere: it performs what is decided here and hands
//! back what came of it.
use vstd::prelude::*;
use vstd::string::*;
use crate::app::{app_key, app_mouse, app_paste, saying, Action, App, AppV, Modal, ModalV, Tab};
use crate::form::FormV;
use crate::keys::{normalize, normalize_mouse, normalized, normalized_mouse, KeyEvent, MouseEvent};
use crate::layout::{display_width, truncate, truncated};
use crate::model::{error_text, QError, Quest, QuestRow, QuestState, Remote};
use crate::quests::{on_remote, selected_quest, selected_remote, selection, QuestsV};
use crate::table::put_key;
use crate::text::{
    begins_with, clone_strings, concat, concat3, integer, join, joined, lines, lines_of, opt_text,
    owned, same, signed, starts_with, texts, trim, trimmed,
};

verus! {

// --------------------------------------------------------------------- events

/// What a terminal reported.
#[derive(Debug, Clone, PartialEq, Eq)]
pub enum Event {
    Key(KeyEvent),
    Mouse(MouseEvent),
    Paste(String),
    Resize(u16, u16),
    /// Focus changes and the like.
    Other,
}

/// What an event does: the action it asks for, whether anything on screen
/// changed, and the state then. A tab switch asks for no action and very much
/// needs a redraw; a mouse report that means nothing needs none. Pasted text is
/// text, never keys.
pub open spec fn applied(a: AppV, ev: Event) -> (Action, bool, AppV) {
    match ev {
        Event::Key(key) => match normalized(key) {
            Some(input) => (app_key(a, input).0, true, app_key(a, input).1),
            None => (Action::Nothing, false, a),
        },
        Event::Mouse(m) => match normalized_mouse(m) {
            Some(input) => if a.mouse {
                (app_mouse(a, input).0, true, app_mouse(a, input).1)
            } else {
                (Action::Nothing, false, a)
            },
            None => (Action::Nothing, false, a),
        },
        Event::Paste(text) => (Action::Nothing, app_paste(a, text@).0, app_paste(a, text@).1),
        Event::Resize(width, height) => (Action::Nothing, true, AppV { width, height, ..a }),
        Event::Other => (Action::Nothing, false, a),
    }
}

/// Reduces an event to a state transition, plus whether anything on screen
/// changed.
pub fn apply_event(app: &mut App, ev: Event) -> (r: (Action, bool))
    requires
        old(app).wf(),
    ensures
        final(app).wf(),
        (r.0, r.1, final(app)@) == applied(old(app)@, ev),
{
    match ev {
        Event::Key(key) => match normalize(key) {
            Some(input) => {
                let action = app.handle(input);
                (action, true)
            },
            None => (Action::Nothing, false),
        },
        Event::Mouse(m) => {
            if !app.mouse {
                return (Action::Nothing, false);
            }
            match normalize_mouse(m) {
                Some(input) => {
                    let action = app.handle_mouse(input);
                    (action, true)
                },
                None => (Action::Nothing, false),
            }
        },
        Event::Paste(text) => {
            let changed = app.paste(text.as_str());
            (Action::Nothing, changed)
        },
        Event::Resize(width, height) => {
            app.set_size(width, height);
            (Action::Nothing, true)
        },
        Event::Other => (Action::Nothing, false),
    }
}

/// Whatever is pasted, no action comes of it, and nothing but text changes: the
/// tab, the overlay, the prompt and what it is about stay as they are.
pub proof fn a_paste_is_only_ever_text(a: AppV, text: String)
    ensures
        applied(a, Event::Paste(text)).0 == Action::Nothing,
        ({
            let b = applied(a, Event::Paste(text)).2;
            &&& b.tab == a.tab
            &&& b.help == a.help
            &&& b.should_quit == a.should_quit
            &&& b.detail == a.detail
            &&& b.modal is Some <==> a.modal is Some
            &&& a.modal is Some ==> b.modal->0.prompt == a.modal->0.prompt
        }),
{
}

// ---------------------------------------------------------------- the remotes

/// What one machine's share of a remote round came to.
#[derive(Debug, Clone, PartialEq, Eq)]
pub struct RemoteResult {
    pub name: String,
    /// What there is to complain about.
    pub note: Option<String>,
    /// What stands before a slug in the names of its tmux sessions.
    pub tmux_prefix: Option<String>,
    pub rows: Vec<QuestRow>,
}

/// The complaints of a round.
pub open spec fn round_notes(results: Seq<RemoteResult>) -> Seq<Seq<char>>
    decreases results.len(),
{
    if results.len() == 0 {
        Seq::empty()
    } else {
        let before = round_notes(results.drop_last());
        match results.last().note {
            Some(note) => before.push(note@),
            None => before,
        }
    }
}

/// The prefixes after a round. A machine that did not answer keeps the one it
/// last reported.
pub open spec fn round_prefixes(
    known: Map<Seq<char>, Seq<char>>,
    results: Seq<RemoteResult>,
) -> Map<Seq<char>, Seq<char>>
    decreases results.len(),
{
    if results.len() == 0 {
        known
    } else {
        let before = round_prefixes(known, results.drop_last());
        match results.last().tmux_prefix {
            Some(prefix) => before.insert(results.last().name@, prefix@),
            None => before,
        }
    }
}

/// The rows of a round.
pub open spec fn round_rows(results: Seq<RemoteResult>) -> Seq<QuestRow>
    decreases results.len(),
{
    if results.len() == 0 {
        Seq::empty()
    } else {
        round_rows(results.drop_last()) + results.last().rows@
    }
}

/// A finished round folded into the state.
pub open spec fn absorbed(a: AppV, results: Seq<RemoteResult>) -> AppV {
    let notes = round_notes(results);
    AppV {
        remote_note: if notes.len() == 0 {
            None
        } else {
            Some(joined(notes, " \u{b7} "@))
        },
        remote_tmux: round_prefixes(a.remote_tmux, results),
        quests: QuestsV { remote: round_rows(results), ..a.quests },
        ..a
    }
}

/// Folds a finished remote round into the state the screen is made of.
pub fn absorb(app: &mut App, results: Vec<RemoteResult>)
    requires
        old(app).wf(),
    ensures
        final(app).wf(),
        final(app)@ == absorbed(old(app)@, results@),
{
    let ghost all = results@;
    let ghost known = old(app)@.remote_tmux;
    let mut rest = results;
    let mut notes: Vec<String> = Vec::new();
    let mut rows: Vec<QuestRow> = Vec::new();
    let ghost mut done: int = 0;
    proof {
        assert(all.take(0) =~= Seq::empty());
        assert(all.skip(0) =~= all);
        assert(texts(notes@) =~= Seq::empty());
    }
    while rest.len() > 0
        invariant
            0 <= done <= all.len(),
            rest@ == all.skip(done),
            app.wf(),
            texts(notes@) == round_notes(all.take(done)),
            rows@ == round_rows(all.take(done)),
            app@ == (AppV { remote_tmux: round_prefixes(known, all.take(done)), ..old(app)@ }),
        decreases rest.len(),
    {
        let result = rest.remove(0);
        proof {
            assert(result == all[done]);
            assert(rest@ =~= all.skip(done + 1));
            assert(all.take(done + 1).drop_last() =~= all.take(done));
            assert(all.take(done + 1).last() == result);
        }
        match result.note {
            Some(note) => {
                let ghost before = notes@;
                notes.push(note);
                proof {
                    assert(texts(notes@) =~= texts(before).push(note@));
                }
            },
            None => {},
        }
        match result.tmux_prefix {
            Some(prefix) => put_key(
                &mut app.remote_tmux,
                result.name.as_str(),
                prefix.as_str(),
            ),
            None => {},
        }
        let mut more = result.rows;
        rows.append(&mut more);
        proof {
            done = done + 1;
        }
    }
    proof {
        assert(done == all.len());
        assert(all.take(done) =~= all);
        assert(texts(notes@).len() == notes.len());
    }
    app.remote_note = if notes.len() == 0 {
        None
    } else {
        Some(join(&notes, " \u{b7} "))
    };
    app.quests.remote = rows;
}

// ------------------------------------------------------------------- the clock

/// How long ago a moment was; one that is still to come was not.
pub open spec fn since(moment: int, now: int) -> int {
    if now >= moment {
        now - moment
    } else {
        0
    }
}

/// The next tick's moment, counted from the last one.
pub open spec fn next_tick(last: int, now: int, tick: int) -> int {
    if since(last + tick, now) >= tick {
        now
    } else {
        last + tick
    }
}

/// Next tick deadline. A fixed period from the last one, so that the tick does
/// not drift by however long a refresh took, and resynced to now when a whole
/// period was missed, so that a backlog never fires as a burst.
pub fn advance_tick(last: u64, now: u64, tick: u64) -> (r: u64)
    requires
        last + tick <= u64::MAX,
    ensures
        r == next_tick(last as int, now as int, tick as int),
{
    let next: u64 = last + tick;
    let behind: u64 = if now >= next {
        now - next
    } else {
        0
    };
    if behind >= tick {
        now
    } else {
        next
    }
}

/// A tick that was due is followed by the next one within a period: it never
/// lies in the past by a whole period, it never goes back, and a loop that keeps
/// up stays on the grid.
pub proof fn ticks_neither_drift_nor_burst(last: int, now: int, tick: int)
    requires
        tick > 0,
        now >= last + tick,
    ensures
        next_tick(last, now, tick) <= now < next_tick(last, now, tick) + tick,
        next_tick(last, now, tick) > last,
        now < last + 2 * tick ==> next_tick(last, now, tick) == last + tick,
{
}

// -------------------------------------------------------------------- the loop

/// Where the loop stands. Moments are nanoseconds since it was started.
#[derive(Debug, Clone, Copy, PartialEq, Eq, Structural)]
pub struct Loop {
    /// How long a tick is.
    pub tick: u64,
    pub last_tick: u64,
    /// Something on screen changed.
    pub dirty: bool,
    /// That the remote polling stopped has been said.
    pub stopped: bool,
    /// The active tab is to be reloaded.
    pub refresh_due: bool,
}

/// The remote clock stops while the terminal is given away: nobody is looking.
pub open spec fn gives_terminal_away(action: Action) -> bool {
    match action {
        Action::Attach | Action::Brief | Action::Peek | Action::Export | Action::Proxy(_) => true,
        _ => false,
    }
}

/// What an action leaves the listing in need of: a reload after anything that
/// can have changed it.
pub open spec fn needs_refresh(action: Action) -> bool {
    match action {
        Action::Refresh | Action::Attach | Action::Submit | Action::Run | Action::Proxy(_) => true,
        _ => false,
    }
}

/// What an action leaves the screen in need of: a redraw after a pager took it.
pub open spec fn needs_redraw(action: Action) -> bool {
    match action {
        Action::Brief | Action::Peek | Action::Export => true,
        _ => false,
    }
}

/// Whether the terminal is given away for an action.
pub fn is_handover(action: Action) -> (r: bool)
    ensures
        r == gives_terminal_away(action),
{
    match action {
        Action::Attach | Action::Brief | Action::Peek | Action::Export | Action::Proxy(_) => true,
        _ => false,
    }
}

/// The tab in front has never been loaded. It must not be drawn like that: its
/// empty state would be a claim about data nobody has looked at.
pub open spec fn is_cold(a: AppV) -> bool {
    a.tab == Tab::Events && !a.events.loaded
}

/// Whether the tab in front has never been loaded.
pub fn cold(app: &App) -> (r: bool)
    ensures
        r == is_cold(app@),
{
    match app.tab {
        Tab::Events => !app.events.loaded(),
        _ => false,
    }
}

/// The end of one turn of the loop: a round that finished is folded in, the
/// death of the poller is said once, and a tick that is due passes.
pub open spec fn turned(
    s: Loop,
    a: AppV,
    round: Option<Seq<RemoteResult>>,
    alive: Option<bool>,
    now: int,
) -> (Loop, AppV) {
    let a1 = match round {
        Some(results) => absorbed(a, results),
        None => a,
    };
    let dead = alive == Some(false) && !s.stopped;
    let a2 = if dead {
        AppV { remote_note: Some("remote polling stopped"@), ..a1 }
    } else {
        a1
    };
    let due = since(s.last_tick as int, now) >= s.tick;
    let a3 = if due {
        AppV { ticks: (a2.ticks + 1) as u64, ..a2 }
    } else {
        a2
    };
    let refresh = s.refresh_due || round is Some || due || is_cold(a3);
    (
        Loop {
            tick: s.tick,
            last_tick: if due {
                next_tick(s.last_tick as int, now, s.tick as int) as u64
            } else {
                s.last_tick
            },
            dirty: s.dirty || dead || refresh,
            stopped: s.stopped || dead,
            refresh_due: refresh,
        },
        a3,
    )
}

impl Loop {
    /// A loop that has just started, with everything to draw.
    pub fn new(tick: u64, now: u64) -> (r: Loop)
        ensures
            r == (Loop {
                tick,
                last_tick: now,
                dirty: true,
                stopped: false,
                refresh_due: false,
            }),
    {
        Loop { tick, last_tick: now, dirty: true, stopped: false, refresh_due: false }
    }

    /// How long to wait for an event: until the next tick is due. A loop that
    /// spins while idle is a bug.
    pub fn timeout(&self, now: u64) -> (r: u64)
        ensures
            r == if since(self.last_tick as int, now as int) >= self.tick {
                0
            } else {
                self.tick - since(self.last_tick as int, now as int)
            },
    {
        let gone: u64 = if now >= self.last_tick {
            now - self.last_tick
        } else {
            0
        };
        if gone >= self.tick {
            0
        } else {
            self.tick - gone
        }
    }

    /// Everything is drawn, and a reload that was due is done.
    pub fn drawn(&mut self)
        ensures
            *final(self) == (Loop { dirty: false, ..*old(self) }),
    {
        self.dirty = false;
    }

    /// The reload that was due is done.
    pub fn refreshed(&mut self)
        ensures
            *final(self) == (Loop { refresh_due: false, ..*old(self) }),
    {
        self.refresh_due = false;
    }

    /// An event came, with the action it asked for and whether it changed
    /// anything on screen; the action has been performed. One place decides what
    /// is owed, so a refresh key on a due tick cannot reload twice.
    pub fn heard(&mut self, action: Action, changed: bool)
        ensures
            *final(self) == (Loop {
                dirty: old(self).dirty || changed || needs_redraw(action),
                refresh_due: old(self).refresh_due || needs_refresh(action),
                ..*old(self)
            }),
    {
        let redraw = match action {
            Action::Brief | Action::Peek | Action::Export => true,
            _ => false,
        };
        let refresh = match action {
            Action::Refresh | Action::Attach | Action::Submit | Action::Run | Action::Proxy(
                _,
            ) => true,
            _ => false,
        };
        self.dirty = self.dirty || changed || redraw;
        self.refresh_due = self.refresh_due || refresh;
    }

    /// The end of one turn of the loop. `round` is a remote round that finished,
    /// `alive` whether there is a poller and it still runs. Afterwards
    /// `refresh_due` says whether to reload.
    pub fn turn(
        &mut self,
        app: &mut App,
        round: Option<Vec<RemoteResult>>,
        alive: Option<bool>,
        now: u64,
    )
        requires
            old(app).wf(),
            old(app).ticks < u64::MAX,
            old(self).last_tick + old(self).tick <= u64::MAX,
        ensures
            final(app).wf(),
            (*final(self), final(app)@) == turned(
                *old(self),
                old(app)@,
                match round {
                    Some(results) => Some(results@),
                    None => None,
                },
                alive,
                now as int,
            ),
    {
        match round {
            Some(results) => {
                absorb(app, results);
                self.refresh_due = true;
            },
            None => {},
        }
        let dead = match alive {
            Some(runs) => !runs && !self.stopped,
            None => false,
        };
        if dead {
            self.stopped = true;
            app.remote_note = Some(owned("remote polling stopped"));
            self.dirty = true;
        }
        let gone: u64 = if now >= self.last_tick {
            now - self.last_tick
        } else {
            0
        };
        if gone >= self.tick {
            self.last_tick = advance_tick(self.last_tick, now, self.tick);
            app.tick();
            self.refresh_due = true;
        }
        if cold(app) {
            self.refresh_due = true;
        }
        if self.refresh_due {
            self.dirty = true;
        }
    }
}

/// The death of the poller is said once: a later turn says it no more, and
/// leaves what was said standing.
pub proof fn a_dead_poller_is_reported_once(s: Loop, a: AppV, now: int, later: int)
    ensures
        ({
            let (t, b) = turned(s, a, None, Some(false), now);
            let (u, c) = turned(t, b, None, Some(false), later);
            &&& t.stopped
            &&& !s.stopped ==> b.remote_note == Some("remote polling stopped"@)
            &&& s.stopped ==> b.remote_note == a.remote_note
            &&& c.remote_note == b.remote_note
        }),
{
}

/// A tab that has never been loaded is due for a reload at the end of every turn,
/// and so before it is drawn.
pub proof fn a_cold_tab_is_loaded_before_it_is_drawn(
    s: Loop,
    a: AppV,
    round: Option<Seq<RemoteResult>>,
    alive: Option<bool>,
    now: int,
)
    requires
        is_cold(a),
    ensures
        turned(s, a, round, alive, now).0.refresh_due,
{
}

/// An idle turn draws nothing and reloads nothing, and a due tick always
/// reloads.
pub proof fn an_idle_turn_is_free(s: Loop, a: AppV, now: int)
    requires
        !s.dirty,
        !s.refresh_due,
        !is_cold(a),
    ensures
        since(s.last_tick as int, now) < s.tick ==> turned(s, a, None, None, now) == (s, a),
        since(s.last_tick as int, now) >= s.tick ==> turned(
            s,
            a,
            None,
            None,
            now,
        ).0.refresh_due,
{
}

// --------------------------------------------------------------- the messages

/// Some texts without the empty ones.
pub open spec fn without_empty(parts: Seq<Seq<char>>) -> Seq<Seq<char>>
    decreases parts.len(),
{
    if parts.len() == 0 {
        parts
    } else {
        let before = without_empty(parts.drop_last());
        if parts.last().len() > 0 {
            before.push(parts.last())
        } else {
            before
        }
    }
}

/// `head`, then the rest, on one line.
pub open spec fn on_one_line(head: Seq<char>, rest: Seq<Seq<char>>) -> Seq<char> {
    joined(without_empty(seq![head] + rest), " \u{b7} "@)
}

/// `head`, then anything buffered, on one line.
pub fn joined_line(head: &str, rest: &Vec<String>) -> (r: String)
    ensures
        r@ == on_one_line(head@, texts(rest@)),
{
    let mut parts: Vec<String> = Vec::new();
    let ghost all = seq![head@] + texts(rest@);
    if !head.is_empty() {
        parts.push(owned(head));
    }
    let mut i: usize = 0;
    proof {
        assert(all.take(1) =~= seq![head@]);
        assert(all.take(1).drop_last() =~= Seq::empty());
        assert(without_empty(Seq::<Seq<char>>::empty()) =~= Seq::empty());
        assert(texts(parts@) =~= without_empty(all.take(1)));
    }
    while i < rest.len()
        invariant
            i <= rest.len(),
            all == seq![head@] + texts(rest@),
            texts(parts@) == without_empty(all.take(i as int + 1)),
        decreases rest.len() - i,
    {
        proof {
            assert(all.take(i as int + 2).drop_last() =~= all.take(i as int + 1));
            assert(all.take(i as int + 2).last() == rest[i as int]@);
        }
        if !rest[i].as_str().is_empty() {
            let ghost before = parts@;
            parts.push(rest[i].clone());
            proof {
                assert(texts(parts@) =~= texts(before).push(rest[i as int]@));
            }
        }
        i += 1;
    }
    proof {
        assert(all.take(all.len() as int) =~= all);
    }
    join(&parts, " \u{b7} ")
}

/// What was said, with warnings behind it.
pub open spec fn warned(a: AppV, warnings: Seq<Seq<char>>) -> AppV {
    if warnings.len() == 0 {
        a
    } else {
        saying(a, on_one_line(a.status, warnings))
    }
}

/// Puts warnings behind what was said. They come as data: a write of their own
/// would scroll a screen that is being drawn on.
pub fn warn(app: &mut App, warnings: &Vec<String>)
    requires
        old(app).wf(),
    ensures
        final(app).wf(),
        final(app)@ == warned(old(app)@, texts(warnings@)),
{
    proof {
        assert(texts(warnings@).len() == warnings.len());
    }
    if !warnings.is_empty() {
        let message = joined_line(app.status.as_str(), warnings);
        app.say(message.as_str());
    }
}

/// What a submitted form came to: a success leaves it down, a failure puts it
/// back with every field as it was and the reason next to it.
pub open spec fn after_submit(
    a: AppV,
    modal: ModalV,
    outcome: Result<(), QError>,
    warnings: Seq<Seq<char>>,
) -> AppV {
    match outcome {
        Ok(_) => warned(a, warnings),
        Err(e) => AppV {
            modal: Some(
                ModalV {
                    form: FormV {
                        error: Some(on_one_line(error_text(e), warnings)),
                        ..modal.form
                    },
                    ..modal
                },
            ),
            ..a
        },
    }
}

/// Takes the open form down for the time it is run, so that a form that
/// succeeded can never be submitted twice.
pub fn take_modal(app: &mut App) -> (r: Option<Modal>)
    requires
        old(app).wf(),
    ensures
        final(app).wf(),
        final(app)@ == (AppV { modal: None, ..old(app)@ }),
        r == old(app).modal,
        r is Some ==> r->0.form.wf(),
{
    app.modal.take()
}

/// A form was run. The error leads: it is why the form is still up.
pub fn submitted(app: &mut App, modal: Modal, outcome: Result<(), QError>, warnings: &Vec<String>)
    requires
        old(app).wf(),
        modal.form.wf(),
    ensures
        final(app).wf(),
        final(app)@ == after_submit(old(app)@, modal@, outcome, texts(warnings@)),
{
    match outcome {
        Ok(()) => warn(app, warnings),
        Err(e) => {
            let mut modal = modal;
            let message = joined_line(e.message(), warnings);
            modal.form.set_error(message.as_str());
            app.modal = Some(modal);
        },
    }
}

/// A failed submission keeps the prompt, its target and everything typed.
pub proof fn a_failed_submit_keeps_the_form(
    a: AppV,
    modal: ModalV,
    e: QError,
    warnings: Seq<Seq<char>>,
)
    ensures
        ({
            let b = after_submit(a, modal, Err(e), warnings);
            &&& b.modal is Some
            &&& b.modal->0.prompt == modal.prompt
            &&& b.modal->0.form.fields == modal.form.fields
            &&& b.modal->0.form.focus == modal.form.focus
            &&& b.modal->0.form.error is Some
            &&& b.status == a.status
        }),
        after_submit(a, modal, Ok(()), warnings).modal == a.modal,
{
}

/// What a reload that failed leaves on the bar.
pub open spec fn refresh_failure(e: QError) -> Seq<char> {
    "refresh failed: "@ + error_text(e)
}

/// A failed reload belongs on the status bar, apart from what a keypress had put
/// there: it must not end the dashboard.
pub fn report_refresh(app: &mut App, result: Result<(), QError>)
    requires
        old(app).wf(),
    ensures
        final(app).wf(),
        final(app)@ == (AppV {
            refresh_error: match result {
                Ok(_) => None,
                Err(e) => Some(refresh_failure(e)),
            },
            ..old(app)@
        }),
{
    app.refresh_error = match result {
        Ok(()) => None,
        Err(e) => Some(concat("refresh failed: ", e.message())),
    };
}

/// A failed look at the selection's own data only sets the error: it must not
/// clear a reload failure that is the actual reason the screen is stale.
pub fn report_sync(app: &mut App, result: Result<(), QError>)
    requires
        old(app).wf(),
    ensures
        final(app).wf(),
        final(app)@ == match result {
            Ok(_) => old(app)@,
            Err(e) => AppV { refresh_error: Some(refresh_failure(e)), ..old(app)@ },
        },
{
    match result {
        Ok(()) => {},
        Err(e) => {
            app.refresh_error = Some(concat("refresh failed: ", e.message()));
        },
    }
}

/// `cannot <what>: <why>`.
pub open spec fn cannot_text(what: Seq<char>, e: QError) -> Seq<char> {
    "cannot "@ + what + ": "@ + error_text(e)
}

/// `cannot <what>: <why>`.
pub fn cannot(what: &str, e: &QError) -> (r: String)
    ensures
        r@ == cannot_text(what@, *e),
{
    let mut text = concat3("cannot ", what, ": ");
    text.append(e.message());
    text
}

// ---------------------------------------------------------- giving it away

/// The session a row of the Sessions tab stands for.
#[derive(Debug, Clone, PartialEq, Eq)]
pub struct SessionPick {
    pub quest: String,
    pub label: String,
    pub name: String,
    pub session: String,
}

/// What an attach would land in: the quest, the window inside it, and what to
/// call the pair in a message.
#[derive(Debug, Clone, PartialEq, Eq)]
pub struct AttachWant {
    pub quest: Quest,
    pub label: Option<String>,
    pub name: String,
    /// The exact session the attach must land in, when there is one in hand:
    /// labels are reused once a worker is gone.
    pub session: Option<String>,
    /// The machine the quest runs on, when that is not this one.
    pub machine: Option<String>,
}

/// What an attach would land in, given the Sessions tab's selection and what the
/// id of its quest leads to now.
pub open spec fn is_wanted(
    a: AppV,
    pick: Option<SessionPick>,
    fetched: Option<Quest>,
    r: Result<Option<AttachWant>, QError>,
) -> bool {
    match a.tab {
        Tab::Quests => match selection(a.quests) {
            Some(row) => {
                &&& r is Ok && r->Ok_0 is Some
                &&& r->Ok_0->0.quest == row.view.quest
                &&& r->Ok_0->0.name@ == row.view.quest.slug@
                &&& r->Ok_0->0.label is None
                &&& r->Ok_0->0.session is None
                &&& opt_text(r->Ok_0->0.machine) == if on_remote(a.quests) {
                    Some(row.view.quest.machine@)
                } else {
                    None
                }
            },
            None => r == Ok::<Option<AttachWant>, QError>(None),
        },
        Tab::Sessions => match pick {
            Some(p) => match fetched {
                Some(quest) => {
                    &&& r is Ok && r->Ok_0 is Some
                    &&& r->Ok_0->0.quest == quest
                    &&& r->Ok_0->0.name@ == p.name@
                    &&& opt_text(r->Ok_0->0.label) == Some(p.label@)
                    &&& opt_text(r->Ok_0->0.session) == Some(p.session@)
                    &&& r->Ok_0->0.machine is None
                },
                None => r is Err && r->Err_0 is NotFound && error_text(r->Err_0) == "quest of "@
                    + p.name@,
            },
            None => r == Ok::<Option<AttachWant>, QError>(None),
        },
        _ => r == Ok::<Option<AttachWant>, QError>(None),
    }
}

/// What an attach would land in. Nothing selected is `None`; a selection whose
/// quest has since been deleted is an error.
pub fn attach_want(app: &App, pick: Option<SessionPick>, fetched: Option<Quest>) -> (r: Result<
    Option<AttachWant>,
    QError,
>)
    ensures
        is_wanted(app@, pick, fetched, r),
{
    match app.tab {
        Tab::Quests => {
            let machine = selected_remote(app);
            match selected_quest(app) {
                Some(quest) => {
                    let name = quest.slug.clone();
                    Ok(Some(AttachWant { quest, label: None, name, session: None, machine }))
                },
                None => Ok(None),
            }
        },
        Tab::Sessions => match pick {
            Some(p) => match fetched {
                Some(quest) => Ok(
                    Some(
                        AttachWant {
                            quest,
                            label: Some(p.label),
                            name: p.name,
                            session: Some(p.session),
                            machine: None,
                        },
                    ),
                ),
                None => Err(QError::NotFound(concat("quest of ", p.name.as_str()))),
            },
            None => Ok(None),
        },
        _ => Ok(None),
    }
}

/// Where a local attach lands.
#[derive(Debug, Clone, PartialEq, Eq)]
pub struct EnterTarget {
    /// The session whose window it is.
    pub session: String,
    pub tmux_session: String,
    pub pane: String,
}

/// What an attach comes to.
#[derive(Debug, Clone, PartialEq, Eq)]
pub enum Entering {
    /// It does not happen, and this says why.
    Say(String),
    /// The terminal is given away for good.
    Give(EnterTarget),
    /// The terminal is lent, and the dashboard comes back.
    Lend(EnterTarget),
}

/// What a local attach comes to, given where the quest and the label lead now.
pub open spec fn is_entering(
    want: AttachWant,
    resolved: Result<EnterTarget, QError>,
    come_back: bool,
    r: Entering,
) -> bool {
    match resolved {
        Err(e) => r is Say && r->Say_0@ == cannot_text("enter "@ + want.name@, e),
        Ok(target) => if want.session is Some && want.session->0@ != target.session@ {
            r is Say && r->Say_0@ == want.name@
                + " is not that session any more (the label was reused); x to reload"@
        } else if come_back {
            r == Entering::Lend(target)
        } else {
            r == Entering::Give(target)
        },
    }
}

/// What a local attach comes to. It lands in exactly the window that was
/// selected, or nowhere: a label leads to the live session that carries it,
/// which need not be the one the row showed.
pub fn enter_local(want: &AttachWant, resolved: Result<EnterTarget, QError>, come_back: bool) -> (r:
    Entering)
    ensures
        is_entering(*want, resolved, come_back, r),
{
    match resolved {
        Err(e) => {
            let what = concat("enter ", want.name.as_str());
            Entering::Say(cannot(what.as_str(), &e))
        },
        Ok(target) => {
            let reused = match &want.session {
                Some(wanted) => !same(wanted.as_str(), target.session.as_str()),
                None => false,
            };
            if reused {
                Entering::Say(
                    concat(
                        want.name.as_str(),
                        " is not that session any more (the label was reused); x to reload",
                    ),
                )
            } else if come_back {
                Entering::Lend(target)
            } else {
                Entering::Give(target)
            }
        },
    }
}

/// What is said once a lent terminal is back. Inside tmux the client moved and
/// this process never left, so "back from" would report a round trip that did
/// not happen.
pub open spec fn back_text(name: Seq<char>, attached: Result<(), QError>, inside: bool) -> Seq<char> {
    match attached {
        Ok(_) => if inside {
            "switched to "@ + name
        } else {
            "back from "@ + name
        },
        Err(e) => cannot_text("enter "@ + name, e),
    }
}

/// What is said once a lent terminal is back.
pub fn entered(name: &str, attached: &Result<(), QError>, inside: bool) -> (r: String)
    ensures
        r@ == back_text(name@, *attached, inside),
{
    match attached {
        Ok(_) => if inside {
            concat("switched to ", name)
        } else {
            concat("back from ", name)
        },
        Err(e) => cannot(concat("enter ", name).as_str(), e),
    }
}

/// What an attach on another machine comes to.
#[derive(Debug, Clone, PartialEq, Eq)]
pub enum EnteringFar {
    /// It does not happen, and this says why.
    Say(String),
    /// The terminal is given away for good, to an ssh to that alias.
    Give(String),
    /// The terminal is lent to an ssh to that alias, and the dashboard comes back.
    Lend(String),
}

/// What an attach on another machine comes to. A machine that was dropped from
/// the configuration leaves rows behind; a finished quest has no tmux session to
/// attach to.
pub open spec fn is_entering_far(
    want: AttachWant,
    machine: Seq<char>,
    found: Result<Remote, QError>,
    come_back: bool,
    r: EnteringFar,
) -> bool {
    match found {
        Err(e) => r is Say && r->Say_0@ == cannot_text("enter "@ + want.name@, e),
        Ok(remote) => if want.quest.state == QuestState::Finished {
            r is Say && r->Say_0@ == want.name@ + " is finished on "@ + machine
                + "; resume it there"@
        } else if come_back {
            r is Lend && r->Lend_0@ == remote.ssh@
        } else {
            r is Give && r->Give_0@ == remote.ssh@
        },
    }
}

/// What an attach on another machine comes to.
pub fn enter_remote(
    want: &AttachWant,
    machine: &str,
    found: Result<Remote, QError>,
    come_back: bool,
) -> (r: EnteringFar)
    ensures
        is_entering_far(*want, machine@, found, come_back, r),
{
    match found {
        Err(e) => {
            let what = concat("enter ", want.name.as_str());
            EnteringFar::Say(cannot(what.as_str(), &e))
        },
        Ok(remote) => match want.quest.state {
            QuestState::Finished => {
                let mut text = concat3(want.name.as_str(), " is finished on ", machine);
                text.append("; resume it there");
                EnteringFar::Say(text)
            },
            QuestState::Active => if come_back {
                EnteringFar::Lend(remote.ssh)
            } else {
                EnteringFar::Give(remote.ssh)
            },
        },
    }
}

/// What is said once a terminal lent to another machine is back.
pub fn entered_far(
    name: &str,
    machine: &str,
    tmux_session: &str,
    attached: &Result<(), QError>,
) -> (r: String)
    ensures
        r@ == match *attached {
            Ok(_) => "back from "@ + machine@ + ":"@ + tmux_session@,
            Err(e) => cannot_text("enter "@ + name@ + " on "@ + machine@, e),
        },
{
    match attached {
        Ok(_) => {
            let mut text = concat3("back from ", machine, ":");
            text.append(tmux_session);
            text
        },
        Err(e) => {
            let mut what = concat3("enter ", name, " on ");
            what.append(machine);
            cannot(what.as_str(), e)
        },
    }
}

/// The master a template run just made, and what the run wanted to say.
#[derive(Debug, Clone, PartialEq, Eq)]
pub struct Landing {
    pub tmux_session: String,
    pub pane: String,
    pub name: String,
    pub warnings: Vec<String>,
}

/// What is said once a terminal lent to a new master is back.
pub open spec fn landed_text(landing: Landing, attached: Result<(), QError>, inside: bool) -> Seq<
    char,
> {
    on_one_line(
        match attached {
            Ok(_) => if inside {
                "switched to "@ + landing.name@
            } else {
                "back from "@ + landing.name@
            },
            Err(e) => landing.name@ + " is running; cannot enter it: "@ + error_text(e),
        },
        texts(landing.warnings@),
    )
}

/// What is said once a terminal lent to a new master is back. The run's own
/// warnings ride along: there may be no later redraw to show them.
pub fn landed(landing: &Landing, attached: &Result<(), QError>, inside: bool) -> (r: String)
    ensures
        r@ == landed_text(*landing, *attached, inside),
{
    let said = match attached {
        Ok(_) => if inside {
            concat("switched to ", landing.name.as_str())
        } else {
            concat("back from ", landing.name.as_str())
        },
        Err(e) => concat3(
            landing.name.as_str(),
            " is running; cannot enter it: ",
            e.message(),
        ),
    };
    joined_line(said.as_str(), &landing.warnings)
}

/// How a new master is landed in.
#[derive(Debug, Clone, PartialEq, Eq)]
pub enum LandStep {
    /// The terminal is given away for good. Nothing will be drawn again, so these
    /// lines go to the shell's own screen first.
    Give(Vec<String>),
    /// The terminal is lent, and the dashboard comes back.
    Lend,
}

/// How a new master is landed in. The run's warnings are said either way: before
/// the terminal goes, or once it is back.
pub fn land_step(landing: &Landing, come_back: bool) -> (r: LandStep)
    ensures
        come_back ==> r is Lend,
        !come_back ==> r is Give && texts(r->Give_0@) == texts(landing.warnings@),
{
    if come_back {
        LandStep::Lend
    } else {
        LandStep::Give(clone_strings(&landing.warnings))
    }
}

/// How many lines of a pane are captured for a pager.
pub const PEEK_LINES: usize = 200;

/// What a pager shows of a pane.
pub fn peek_text(name: &str, pane: &str, text: &str) -> (r: String)
    ensures
        r@ == "# "@ + name@ + " \u{b7} pane "@ + pane@ + "\n\n"@ + text@ + "\n"@,
{
    let mut out = concat3("# ", name, " \u{b7} pane ");
    out.append(pane);
    out.append("\n\n");
    out.append(text);
    out.append("\n");
    out
}

// ------------------------------------------------------------------- proxying

/// What a child had to say: its complaint without the prefix, or else the first
/// line of its output.
pub open spec fn said_by(err_line: Seq<char>, out_line: Seq<char>) -> Seq<char> {
    let said = if begins_with(err_line, "error: "@) {
        err_line.skip(7)
    } else {
        err_line
    };
    if said.len() == 0 {
        out_line
    } else {
        said
    }
}

/// The columns a child's last words may take.
pub const SAID_COLS: usize = 200;

/// The first line of a text, without the white space around the text.
pub open spec fn first_line_of(s: Seq<char>) -> Seq<char> {
    let all = lines(trimmed(s));
    if all.len() == 0 {
        Seq::empty()
    } else {
        all[0]
    }
}

/// The first line of a text, without the white space around the text, in at most
/// that many columns.
pub fn first_line(text: &str, columns: usize) -> (r: String)
    ensures
        r@ == truncated(first_line_of(text@), columns as int),
        columns >= 1 ==> display_width(r@) <= columns,
{
    let all = lines_of(trim(text));
    proof {
        assert(texts(all@).len() == all.len());
    }
    if all.len() == 0 {
        let none = String::new();
        return truncate(none.as_str(), columns);
    }
    proof {
        assert(texts(all@)[0] == all[0]@);
    }
    truncate(all[0].as_str(), columns)
}

/// What a child that failed had to say, given all that it wrote.
pub fn child_said(stderr: &str, stdout: &str) -> (r: String)
    ensures
        r@ == said_by(
            truncated(first_line_of(stderr@), SAID_COLS as int),
            truncated(first_line_of(stdout@), SAID_COLS as int),
        ),
{
    proof {
        reveal_strlit("error: ");
    }
    let complaint = first_line(stderr, SAID_COLS);
    let err_line = complaint.as_str();
    let n = err_line.unicode_len();
    let said = if starts_with(err_line, "error: ") {
        let rest = err_line.substring_char(7, n);
        proof {
            assert(rest@ =~= err_line@.skip(7));
        }
        rest
    } else {
        err_line
    };
    if said.is_empty() {
        first_line(stdout, SAID_COLS)
    } else {
        owned(said)
    }
}

/// The arguments of a command about a quest of another machine.
pub fn proxy_args(sub: &str, slug: &str, machine: &str) -> (r: Vec<String>)
    ensures
        texts(r@) == seq![sub@, slug@, "--machine"@, machine@],
{
    let mut out: Vec<String> = Vec::new();
    out.push(owned(sub));
    out.push(owned(slug));
    out.push(owned("--machine"));
    out.push(owned(machine));
    proof {
        assert(texts(out@) =~= seq![sub@, slug@, "--machine"@, machine@]);
    }
    out
}

/// What becomes of the output of a read.
#[derive(Debug, Clone, PartialEq, Eq)]
pub enum Paged {
    Say(String),
    Page(String),
}

/// A read on another machine: what it printed is paged, unless it failed or
/// printed nothing.
pub open spec fn is_paged(
    sub: Seq<char>,
    slug: Seq<char>,
    machine: Seq<char>,
    success: bool,
    stdout: Seq<char>,
    said: Seq<char>,
    r: Paged,
) -> bool {
    if !success {
        r is Say && r->Say_0@ == "q "@ + sub + " "@ + slug + " on "@ + machine + ": "@ + said
    } else if trimmed(stdout).len() == 0 {
        r is Say && r->Say_0@ == sub + " of "@ + slug + " on "@ + machine + ": nothing to show"@
    } else {
        r is Page && r->Page_0@ == stdout
    }
}

/// What becomes of the output of a read on another machine.
pub fn proxy_read(
    sub: &str,
    slug: &str,
    machine: &str,
    success: bool,
    stdout: String,
    said: &str,
) -> (r: Paged)
    ensures
        is_paged(sub@, slug@, machine@, success, stdout@, said@, r),
{
    if !success {
        let mut text = concat3("q ", sub, " ");
        text.append(slug);
        text.append(" on ");
        text.append(machine);
        text.append(": ");
        text.append(said);
        return Paged::Say(text);
    }
    if trim(stdout.as_str()).is_empty() {
        let mut text = concat3(sub, " of ", slug);
        text.append(" on ");
        text.append(machine);
        text.append(": nothing to show");
        return Paged::Say(text);
    }
    Paged::Page(stdout)
}

/// How a child that had the terminal ended.
#[derive(Debug, Clone, PartialEq, Eq)]
pub enum Ended {
    Success,
    Code(i32),
    Signal,
    /// It could not be run.
    Failed(String),
}

/// What is said of a write on another machine.
pub open spec fn written_text(
    sub: Seq<char>,
    slug: Seq<char>,
    machine: Seq<char>,
    ended: Ended,
) -> Seq<char> {
    match ended {
        Ended::Success => sub + " "@ + slug + " on "@ + machine
            + " \u{b7} it updates at the next remote tick"@,
        Ended::Code(code) => "q "@ + sub + " "@ + slug + " on "@ + machine + " exited "@ + signed(
            code as int,
        ),
        Ended::Signal => "q "@ + sub + " "@ + slug + " on "@ + machine
            + " was killed by a signal"@,
        Ended::Failed(why) => "cannot run q "@ + sub + ": "@ + why@,
    }
}

/// What is said of a write on another machine.
pub fn proxy_write(sub: &str, slug: &str, machine: &str, ended: &Ended) -> (r: String)
    ensures
        r@ == written_text(sub@, slug@, machine@, *ended),
{
    match ended {
        Ended::Success => {
            let mut text = concat3(sub, " ", slug);
            text.append(" on ");
            text.append(machine);
            text.append(" \u{b7} it updates at the next remote tick");
            text
        },
        Ended::Code(code) => {
            let mut text = concat3("q ", sub, " ");
            text.append(slug);
            text.append(" on ");
            text.append(machine);
            text.append(" exited ");
            text.append(integer(*code as i64).as_str());
            text
        },
        Ended::Signal => {
            let mut text = concat3("q ", sub, " ");
            text.append(slug);
            text.append(" on ");
            text.append(machine);
            text.append(" was killed by a signal");
            text
        },
        Ended::Failed(why) => {
            let mut text = concat3("cannot run q ", sub, ": ");
            text.append(why.as_str());
            text
        },
    }
}

} // verus!
