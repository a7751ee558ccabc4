//! A fake tmux server as a plain value: what each operation does to its panes.
//!
//! An operation that fails leaves the state as it was.
use vstd::prelude::*;
use vstd::string::*;
use crate::model::{is_tmux_error, QError};
use crate::table::{collect, keys_differ, pairs_view, table_of};
use crate::text::{
    clone_opt, concat, concat3, decimal, decimal_reads_back, number, opt_text, owned, parse_u32,
    parsed_u32, same, texts,
};
use crate::tmux::{
    panes_view, require_pane_id, tail, tail_of, NewSession, NewWindow, Pane, PaneV,
};

verus! {

/// Shaped like a real `tmux -V` so a version check parses it as any other.
pub const FIXTURE_VERSION: &'static str = "tmux 3.6 (fixture)";

/// What the process ids of fixture panes are counted from.
pub const PID_BASE: i32 = 90000;

/// A pane of the fake server.
#[derive(Debug, Clone, Default, PartialEq, Eq)]
pub struct FixturePane {
    pub pane_id: String,
    pub pane_pid: i32,
    pub session_name: String,
    pub window_name: String,
    pub window_index: i32,
    /// The directory the window was opened in.
    pub cwd: String,
    /// The environment the window was opened with; no key occurs twice.
    pub env: Vec<(String, String)>,
    pub command: Option<String>,
    /// What `send_keys` wrote and `capture_pane` reads back.
    pub buffer: String,
    /// Every `paste` in order, so a bracketed paste can be told from typed keys.
    pub pastes: Vec<String>,
}

/// The fake server. Every field has a default, so a state can be seeded by hand.
#[derive(Debug, Clone, Default, PartialEq, Eq)]
pub struct FixtureState {
    pub next_pane: u32,
    pub panes: Vec<FixturePane>,
    /// Overrides what `version` answers.
    pub version: Option<String>,
    /// The `(session, pane)` of the last `attach`.
    pub attached: Option<(String, Option<String>)>,
    /// The pane whose window was last selected.
    pub selected: Option<String>,
    /// Makes `new_window` fail with this message.
    pub fail_new_window: Option<String>,
    /// Makes `rename_session` fail with this message.
    pub fail_rename_session: Option<String>,
}

// ---------------------------------------------------------------- the model

/// A fixture pane as a value.
pub ghost struct FixturePaneV {
    pub pane: PaneV,
    pub cwd: Seq<char>,
    pub env: Map<Seq<char>, Seq<char>>,
    pub command: Option<Seq<char>>,
    pub buffer: Seq<char>,
    pub pastes: Seq<Seq<char>>,
}

/// The fake server as a value.
pub ghost struct FixtureV {
    pub next_pane: u32,
    pub panes: Seq<FixturePaneV>,
    pub version: Option<Seq<char>>,
    pub attached: Option<(Seq<char>, Option<Seq<char>>)>,
    pub selected: Option<Seq<char>>,
    pub fail_new_window: Option<Seq<char>>,
    pub fail_rename_session: Option<Seq<char>>,
}

impl View for FixturePane {
    type V = FixturePaneV;

    open spec fn view(&self) -> FixturePaneV {
        FixturePaneV {
            pane: PaneV {
                pane_id: self.pane_id@,
                pane_pid: self.pane_pid,
                session_name: self.session_name@,
                window_name: self.window_name@,
                window_index: self.window_index,
            },
            cwd: self.cwd@,
            env: table_of(pairs_view(self.env@)),
            command: opt_text(self.command),
            buffer: self.buffer@,
            pastes: texts(self.pastes@),
        }
    }
}

/// Some fixture panes as values.
pub open spec fn fixture_panes(v: Seq<FixturePane>) -> Seq<FixturePaneV> {
    Seq::new(v.len(), |i: int| v[i]@)
}

impl View for FixtureState {
    type V = FixtureV;

    open spec fn view(&self) -> FixtureV {
        FixtureV {
            next_pane: self.next_pane,
            panes: fixture_panes(self.panes@),
            version: opt_text(self.version),
            attached: match self.attached {
                Some((s, p)) => Some((s@, opt_text(p))),
                None => None,
            },
            selected: opt_text(self.selected),
            fail_new_window: opt_text(self.fail_new_window),
            fail_rename_session: opt_text(self.fail_rename_session),
        }
    }
}

/// The number in a pane id, where it has the shape `%` and a number.
pub open spec fn pane_number(id: Seq<char>) -> Option<u32> {
    if id.len() > 0 && id[0] == '%' {
        parsed_u32(id.skip(1))
    } else {
        None
    }
}

/// The highest number any pane's id holds, or zero.
pub open spec fn highest_number(panes: Seq<FixturePaneV>) -> u32
    decreases panes.len(),
{
    if panes.len() == 0 {
        0
    } else {
        let before = highest_number(panes.drop_last());
        match pane_number(panes.last().pane.pane_id) {
            Some(n) => if n > before {
                n
            } else {
                before
            },
            None => before,
        }
    }
}

/// The number the next pane gets: beyond the counter, and beyond every pane
/// there is.
pub open spec fn next_number(f: FixtureV) -> int {
    let highest = highest_number(f.panes);
    if highest > f.next_pane {
        highest + 1
    } else {
        f.next_pane + 1
    }
}

/// A server whose next number was claimed.
pub open spec fn claimed(f: FixtureV) -> FixtureV {
    FixtureV { next_pane: next_number(f) as u32, ..f }
}

/// The numbers that a pane can be given: they fit, and so does the process id
/// that goes with them.
pub open spec fn number_fits(n: int) -> bool {
    n <= i32::MAX - PID_BASE || i32::MAX < n <= u32::MAX
}

/// The process id of a pane with that number.
pub open spec fn pid_of(n: int) -> int {
    if n <= i32::MAX {
        PID_BASE + n
    } else {
        PID_BASE + n - 0x1_0000_0000
    }
}

/// A server with one more pane, and that pane.
pub open spec fn with_pane(
    f: FixtureV,
    session: Seq<char>,
    window: Seq<char>,
    index: int,
    cwd: Seq<char>,
    env: Seq<(Seq<char>, Seq<char>)>,
    command: Option<Seq<char>>,
) -> (FixtureV, PaneV) {
    let n = next_number(f);
    let pane = PaneV {
        pane_id: "%"@ + decimal(n as nat),
        pane_pid: pid_of(n) as i32,
        session_name: session,
        window_name: window,
        window_index: index as i32,
    };
    (
        FixtureV {
            next_pane: n as u32,
            panes: f.panes.push(
                FixturePaneV {
                    pane,
                    cwd,
                    env: table_of(env),
                    command,
                    buffer: Seq::empty(),
                    pastes: Seq::empty(),
                },
            ),
            ..f
        },
        pane,
    )
}

/// Some pane belongs to that session.
pub open spec fn has_session_named(panes: Seq<FixturePaneV>, name: Seq<char>) -> bool {
    exists|i: int| 0 <= i < panes.len() && (#[trigger] panes[i]).pane.session_name == name
}

/// The highest window index in a session, where it has a pane at all.
pub open spec fn top_index(panes: Seq<FixturePaneV>, session: Seq<char>) -> Option<i32>
    decreases panes.len(),
{
    if panes.len() == 0 {
        None
    } else {
        let before = top_index(panes.drop_last(), session);
        let last = panes.last().pane;
        if last.session_name == session {
            match before {
                Some(b) => if last.window_index >= b {
                    Some(last.window_index)
                } else {
                    Some(b)
                },
                None => Some(last.window_index),
            }
        } else {
            before
        }
    }
}

/// Where the first pane of that id is, or the number of panes.
pub open spec fn pane_index(panes: Seq<FixturePaneV>, id: Seq<char>) -> int
    decreases panes.len(),
{
    if panes.len() == 0 || panes[0].pane.pane_id == id {
        0
    } else {
        1 + pane_index(panes.drop_first(), id)
    }
}

/// There is a pane of that id.
pub open spec fn has_pane(panes: Seq<FixturePaneV>, id: Seq<char>) -> bool {
    pane_index(panes, id) < panes.len()
}

proof fn lemma_pane_index(panes: Seq<FixturePaneV>, id: Seq<char>, n: int)
    requires
        0 <= n <= panes.len(),
        n < panes.len() ==> panes[n].pane.pane_id == id,
        forall|i: int| 0 <= i < n ==> (#[trigger] panes[i]).pane.pane_id != id,
    ensures
        pane_index(panes, id) == n,
    decreases panes.len(),
{
    if n > 0 {
        assert(panes[0].pane.pane_id != id);
        assert forall|i: int| 0 <= i < n - 1 implies (
        #[trigger] panes.drop_first()[i]).pane.pane_id != id by {
            assert(panes.drop_first()[i] == panes[i + 1]);
        }
        lemma_pane_index(panes.drop_first(), id, n - 1);
    }
}

pub proof fn lemma_pane_index_found(panes: Seq<FixturePaneV>, id: Seq<char>)
    ensures
        0 <= pane_index(panes, id) <= panes.len(),
        has_pane(panes, id) ==> panes[pane_index(panes, id)].pane.pane_id == id,
        has_pane(panes, id) <==> exists|i: int|
            0 <= i < panes.len() && (#[trigger] panes[i]).pane.pane_id == id,
    decreases panes.len(),
{
    if panes.len() > 0 {
        if panes[0].pane.pane_id != id {
            let rest = panes.drop_first();
            lemma_pane_index_found(rest, id);
            if has_pane(rest, id) {
                let i = choose|i: int| 0 <= i < rest.len() && (#[trigger] rest[i]).pane.pane_id == id;
                assert(panes[i + 1].pane.pane_id == id);
            }
            if exists|i: int| 0 <= i < panes.len() && (#[trigger] panes[i]).pane.pane_id == id {
                let i = choose|i: int| 0 <= i < panes.len() && (#[trigger] panes[i]).pane.pane_id == id;
                assert(rest[i - 1].pane.pane_id == id);
            }
        }
    }
}

/// What is said when there is no such pane.
pub open spec fn no_pane(id: Seq<char>) -> Seq<char> {
    "can't find pane: "@ + id
}

/// What is said when there is no such session.
pub open spec fn no_session(name: Seq<char>) -> Seq<char> {
    "can't find session: "@ + name
}

// ----------------------------------------------------------------- the parts

impl FixturePane {
    /// No key of the environment occurs twice.
    pub open spec fn wf(&self) -> bool {
        keys_differ(pairs_view(self.env@))
    }

    /// The pane a listing shows.
    pub fn as_pane(&self) -> (r: Pane)
        ensures
            r@ == self@.pane,
    {
        Pane {
            pane_id: self.pane_id.clone(),
            pane_pid: self.pane_pid,
            session_name: self.session_name.clone(),
            window_name: self.window_name.clone(),
            window_index: self.window_index,
        }
    }

    fn copy(&self) -> (r: FixturePane)
        ensures
            r@ == self@,
            self.wf() ==> r.wf(),
    {
        let mut env: Vec<(String, String)> = Vec::new();
        let mut i: usize = 0;
        while i < self.env.len()
            invariant
                i <= self.env.len(),
                pairs_view(env@) =~= pairs_view(self.env@).take(i as int),
            decreases self.env.len() - i,
        {
            let ghost before = env@;
            env.push((self.env[i].0.clone(), self.env[i].1.clone()));
            proof {
                assert(pairs_view(env@) =~= pairs_view(before).push(
                    (self.env[i as int].0@, self.env[i as int].1@),
                ));
            }
            i += 1;
        }
        proof {
            assert(pairs_view(env@) =~= pairs_view(self.env@));
        }
        FixturePane {
            pane_id: self.pane_id.clone(),
            pane_pid: self.pane_pid,
            session_name: self.session_name.clone(),
            window_name: self.window_name.clone(),
            window_index: self.window_index,
            cwd: self.cwd.clone(),
            env,
            command: clone_opt(&self.command),
            buffer: self.buffer.clone(),
            pastes: crate::text::clone_strings(&self.pastes),
        }
    }
}

/// What `send_keys` and `paste` leave in a buffer.
pub open spec fn written(buffer: Seq<char>, text: Seq<char>, enter: bool) -> Seq<char> {
    if enter {
        (buffer + text).push('\n')
    } else {
        buffer + text
    }
}

/// The panes with every one of session `old_name` moved to `new_name`.
pub open spec fn renamed(panes: Seq<FixturePaneV>, old_name: Seq<char>, new_name: Seq<char>) -> Seq<
    FixturePaneV,
> {
    Seq::new(
        panes.len(),
        |i: int|
            if panes[i].pane.session_name == old_name {
                FixturePaneV {
                    pane: PaneV { session_name: new_name, ..panes[i].pane },
                    ..panes[i]
                }
            } else {
                panes[i]
            },
    )
}

/// The panes that are not of session `name`, in order.
pub open spec fn without_session(panes: Seq<FixturePaneV>, name: Seq<char>) -> Seq<FixturePaneV>
    decreases panes.len(),
{
    if panes.len() == 0 {
        panes
    } else {
        let before = without_session(panes.drop_last(), name);
        if panes.last().pane.session_name != name {
            before.push(panes.last())
        } else {
            before
        }
    }
}

/// The panes that do not have that id, in order.
pub open spec fn without_pane(panes: Seq<FixturePaneV>, id: Seq<char>) -> Seq<FixturePaneV>
    decreases panes.len(),
{
    if panes.len() == 0 {
        panes
    } else {
        let before = without_pane(panes.drop_last(), id);
        if panes.last().pane.pane_id != id {
            before.push(panes.last())
        } else {
            before
        }
    }
}

proof fn lemma_without_session_len(panes: Seq<FixturePaneV>, name: Seq<char>)
    ensures
        without_session(panes, name).len() <= panes.len(),
        without_session(panes, name).len() == panes.len() <==> !has_session_named(panes, name),
        !has_session_named(panes, name) ==> without_session(panes, name) == panes,
    decreases panes.len(),
{
    if panes.len() > 0 {
        let front = panes.drop_last();
        lemma_without_session_len(front, name);
        if has_session_named(front, name) {
            let i = choose|i: int|
                0 <= i < front.len() && (#[trigger] front[i]).pane.session_name == name;
            assert(panes[i].pane.session_name == name);
        }
        if panes.last().pane.session_name == name {
            assert(panes[panes.len() - 1].pane.session_name == name);
        } else if has_session_named(panes, name) {
            let i = choose|i: int|
                0 <= i < panes.len() && (#[trigger] panes[i]).pane.session_name == name;
            assert(front[i].pane.session_name == name);
        } else {
            assert(front.push(panes.last()) =~= panes);
        }
    }
}

proof fn lemma_without_pane_len(panes: Seq<FixturePaneV>, id: Seq<char>)
    ensures
        without_pane(panes, id).len() <= panes.len(),
        without_pane(panes, id).len() == panes.len() <==> !has_pane(panes, id),
        !has_pane(panes, id) ==> without_pane(panes, id) == panes,
    decreases panes.len(),
{
    lemma_pane_index_found(panes, id);
    if panes.len() > 0 {
        let front = panes.drop_last();
        lemma_pane_index_found(front, id);
        lemma_without_pane_len(front, id);
        if has_pane(front, id) {
            let i = choose|i: int| 0 <= i < front.len() && (#[trigger] front[i]).pane.pane_id == id;
            assert(panes[i].pane.pane_id == id);
        }
        if panes.last().pane.pane_id == id {
            assert(panes[panes.len() - 1].pane.pane_id == id);
        } else if has_pane(panes, id) {
            let i = choose|i: int| 0 <= i < panes.len() && (#[trigger] panes[i]).pane.pane_id == id;
            assert(front[i].pane.pane_id == id);
        } else {
            assert(front.push(panes.last()) =~= panes);
        }
    }
}

/// The outcome of an operation that returns nothing: the state it leaves, or
/// the complaint of one that leaves it as it was.
pub open spec fn ends(
    before: FixtureV,
    after: FixtureV,
    r: Result<(), QError>,
    want: Result<FixtureV, Seq<char>>,
) -> bool {
    match want {
        Ok(f) => r is Ok && after == f,
        Err(text) => r is Err && is_tmux_error(r->Err_0, text) && after == before,
    }
}

/// The outcome of an operation that opens a pane.
pub open spec fn opens(
    before: FixtureV,
    after: FixtureV,
    r: Result<Pane, QError>,
    want: Result<(FixtureV, PaneV), Seq<char>>,
) -> bool {
    match want {
        Ok((f, pane)) => r is Ok && r->Ok_0@ == pane && after == f,
        Err(text) => r is Err && is_tmux_error(r->Err_0, text) && after == before,
    }
}

// ------------------------------------------------------------ the operations

/// What `new_session` comes to.
pub open spec fn session_opened(f: FixtureV, spec: NewSession) -> Result<
    (FixtureV, PaneV),
    Seq<char>,
> {
    if has_session_named(f.panes, spec.name@) {
        Err("duplicate session: "@ + spec.name@)
    } else {
        Ok(
            with_pane(
                f,
                spec.name@,
                spec.window_name@,
                0,
                spec.cwd@,
                pairs_view(spec.env@),
                opt_text(spec.command),
            ),
        )
    }
}

/// What `new_window` comes to.
pub open spec fn window_opened(f: FixtureV, spec: NewWindow) -> Result<(FixtureV, PaneV), Seq<char>> {
    match f.fail_new_window {
        Some(text) => Err(text),
        None => match top_index(f.panes, spec.session@) {
            Some(top) => Ok(
                with_pane(
                    f,
                    spec.session@,
                    spec.window_name@,
                    top + 1,
                    spec.cwd@,
                    pairs_view(spec.env@),
                    opt_text(spec.command),
                ),
            ),
            None => Err(no_session(spec.session@)),
        },
    }
}

/// What `select_window` comes to.
pub open spec fn window_selected(f: FixtureV, id: Seq<char>) -> Result<FixtureV, Seq<char>> {
    if id.len() == 0 {
        Err("no pane to select (empty pane id)"@)
    } else if has_pane(f.panes, id) {
        Ok(FixtureV { selected: Some(id), ..f })
    } else {
        Err(no_pane(id))
    }
}

/// What `attach` comes to. A pane must exist and belong to the session, and
/// naming one selects its window.
pub open spec fn session_attached(f: FixtureV, session: Seq<char>, pane: Option<Seq<char>>) -> Result<
    FixtureV,
    Seq<char>,
> {
    if !has_session_named(f.panes, session) {
        Err(no_session(session))
    } else {
        match pane {
            Some(id) => if !has_pane(f.panes, id) {
                Err(no_pane(id))
            } else if f.panes[pane_index(f.panes, id)].pane.session_name != session {
                Err("pane "@ + id + " is not in session "@ + session)
            } else {
                Ok(FixtureV { selected: Some(id), attached: Some((session, Some(id))), ..f })
            },
            None => Ok(FixtureV { attached: Some((session, None)), ..f }),
        }
    }
}

/// A server with the first pane of that id replaced, or a complaint.
pub open spec fn with_changed(f: FixtureV, id: Seq<char>, pane: FixturePaneV) -> Result<
    FixtureV,
    Seq<char>,
> {
    if has_pane(f.panes, id) {
        Ok(FixtureV { panes: f.panes.update(pane_index(f.panes, id), pane), ..f })
    } else {
        Err(no_pane(id))
    }
}

/// What `send_keys` comes to: the text, and a newline for Enter, behind what the
/// pane's buffer holds.
pub open spec fn keys_sent(f: FixtureV, id: Seq<char>, text: Seq<char>, enter: bool) -> Result<
    FixtureV,
    Seq<char>,
> {
    let pane = f.panes[pane_index(f.panes, id)];
    with_changed(f, id, FixturePaneV { buffer: written(pane.buffer, text, enter), ..pane })
}

/// What `paste` comes to: the same, and the paste is on record.
pub open spec fn text_pasted(f: FixtureV, id: Seq<char>, text: Seq<char>, enter: bool) -> Result<
    FixtureV,
    Seq<char>,
> {
    let pane = f.panes[pane_index(f.panes, id)];
    with_changed(
        f,
        id,
        FixturePaneV {
            buffer: written(pane.buffer, text, enter),
            pastes: pane.pastes.push(text),
            ..pane
        },
    )
}

/// What `rename_window` comes to.
pub open spec fn window_renamed(f: FixtureV, id: Seq<char>, name: Seq<char>) -> Result<
    FixtureV,
    Seq<char>,
> {
    let pane = f.panes[pane_index(f.panes, id)];
    with_changed(
        f,
        id,
        FixturePaneV { pane: PaneV { window_name: name, ..pane.pane }, ..pane },
    )
}

/// What `rename_session` comes to.
pub open spec fn session_renamed(f: FixtureV, old_name: Seq<char>, new_name: Seq<char>) -> Result<
    FixtureV,
    Seq<char>,
> {
    match f.fail_rename_session {
        Some(text) => Err(text),
        None => if has_session_named(f.panes, old_name) {
            Ok(FixtureV { panes: renamed(f.panes, old_name, new_name), ..f })
        } else {
            Err(no_session(old_name))
        },
    }
}

/// What `kill_session` comes to.
pub open spec fn session_killed(f: FixtureV, name: Seq<char>) -> Result<FixtureV, Seq<char>> {
    if has_session_named(f.panes, name) {
        Ok(FixtureV { panes: without_session(f.panes, name), ..f })
    } else {
        Err(no_session(name))
    }
}

/// What `kill_window` comes to.
pub open spec fn window_killed(f: FixtureV, id: Seq<char>) -> Result<FixtureV, Seq<char>> {
    if has_pane(f.panes, id) {
        Ok(FixtureV { panes: without_pane(f.panes, id), ..f })
    } else {
        Err(no_pane(id))
    }
}

impl FixtureState {
    /// Every pane is well formed.
    pub open spec fn wf(&self) -> bool {
        forall|i: int| 0 <= i < self.panes.len() ==> (#[trigger] self.panes[i]).wf()
    }

    /// A server without panes.
    pub fn new() -> (r: FixtureState)
        ensures
            r.wf(),
            r@ == (FixtureV {
                next_pane: 0,
                panes: Seq::empty(),
                version: None,
                attached: None,
                selected: None,
                fail_new_window: None,
                fail_rename_session: None,
            }),
    {
        let r = FixtureState {
            next_pane: 0,
            panes: Vec::new(),
            version: None,
            attached: None,
            selected: None,
            fail_new_window: None,
            fail_rename_session: None,
        };
        proof {
            assert(r@.panes =~= Seq::empty());
        }
        r
    }

    /// The number the next pane gets, where there is one left.
    pub fn next_pane_number(&self) -> (r: Option<u32>)
        ensures
            r is Some <==> next_number(self@) <= u32::MAX,
            r is Some ==> r->0 == next_number(self@),
    {
        let ghost all = self@.panes;
        let mut highest: u32 = 0;
        let mut i: usize = 0;
        proof {
            assert(all.take(0) =~= Seq::empty());
        }
        while i < self.panes.len()
            invariant
                i <= self.panes.len(),
                all == self@.panes,
                highest == highest_number(all.take(i as int)),
            decreases self.panes.len() - i,
        {
            proof {
                assert(all.take(i as int + 1).drop_last() =~= all.take(i as int));
                assert(all[i as int] == self.panes[i as int]@);
            }
            match number_of(self.panes[i].pane_id.as_str()) {
                Some(n) => if n > highest {
                    highest = n;
                },
                None => {},
            }
            i += 1;
        }
        proof {
            assert(all.take(all.len() as int) =~= all);
        }
        let base: u32 = if highest > self.next_pane {
            highest
        } else {
            self.next_pane
        };
        if base == u32::MAX {
            return None;
        }
        Some(base + 1)
    }

    /// Whether one more pane can be opened: there is a number left for it, and the
    /// process id that goes with it fits.
    pub fn has_room(&self) -> (r: bool)
        ensures
            r == number_fits(next_number(self@)),
    {
        match self.next_pane_number() {
            Some(n) => n <= (i32::MAX - PID_BASE) as u32 || n > i32::MAX as u32,
            None => false,
        }
    }

    /// A pane number no live pane holds. Real tmux never hands out an id twice
    /// while the pane lives, so a state whose counter lags its panes must not
    /// mint a duplicate.
    pub fn claim_pane_number(&mut self) -> (r: u32)
        requires
            next_number(old(self)@) <= u32::MAX,
        ensures
            r == next_number(old(self)@),
            final(self)@ == claimed(old(self)@),
            *final(self) == (FixtureState { next_pane: r, ..*old(self) }),
    {
        let n = match self.next_pane_number() {
            Some(n) => n,
            None => 0,
        };
        self.next_pane = n;
        n
    }

    fn add(
        &mut self,
        session: &str,
        window: &str,
        index: i32,
        cwd: &str,
        spec_env: &Vec<(String, String)>,
        command: &Option<String>,
    ) -> (r: Pane)
        requires
            old(self).wf(),
            number_fits(next_number(old(self)@)),
        ensures
            final(self).wf(),
            (final(self)@, r@) == with_pane(
                old(self)@,
                session@,
                window@,
                index as int,
                cwd@,
                pairs_view(spec_env@),
                opt_text(*command),
            ),
    {
        let n = self.claim_pane_number();
        let pid: i32 = if n <= i32::MAX as u32 {
            PID_BASE + n as i32
        } else {
            (PID_BASE as i64 + n as i64 - 0x1_0000_0000) as i32
        };
        let pane = FixturePane {
            pane_id: concat("%", number(n as u64).as_str()),
            pane_pid: pid,
            session_name: owned(session),
            window_name: owned(window),
            window_index: index,
            cwd: owned(cwd),
            env: collect(spec_env),
            command: clone_opt(command),
            buffer: String::new(),
            pastes: Vec::new(),
        };
        let out = pane.as_pane();
        let ghost before = self.panes@;
        proof {
            assert(texts(pane.pastes@) =~= Seq::empty());
        }
        self.panes.push(pane);
        proof {
            assert(fixture_panes(self.panes@) =~= fixture_panes(before).push(pane@));
            let want = with_pane(
                old(self)@,
                session@,
                window@,
                index as int,
                cwd@,
                pairs_view(spec_env@),
                opt_text(*command),
            );
            assert(self@.panes =~= want.0.panes);
            assert forall|i: int| 0 <= i < self.panes.len() implies (
            #[trigger] self.panes[i]).wf() by {
                if i < before.len() {
                    assert(self.panes[i] == old(self).panes[i]);
                }
            }
        }
        out
    }

    /// Where the pane of that id is.
    fn find_pane(&self, pane_id: &str) -> (r: Option<usize>)
        ensures
            r is Some <==> has_pane(self@.panes, pane_id@),
            r is Some ==> r->0 == pane_index(self@.panes, pane_id@) && r->0 < self.panes.len(),
    {
        let ghost all = self@.panes;
        let mut i: usize = 0;
        while i < self.panes.len()
            invariant
                i <= self.panes.len(),
                all == self@.panes,
                forall|j: int| 0 <= j < i ==> (#[trigger] all[j]).pane.pane_id != pane_id@,
            decreases self.panes.len() - i,
        {
            assert(all[i as int] == self.panes[i as int]@);
            if same(self.panes[i].pane_id.as_str(), pane_id) {
                proof {
                    lemma_pane_index(all, pane_id@, i as int);
                }
                return Some(i);
            }
            i += 1;
        }
        proof {
            lemma_pane_index(all, pane_id@, all.len() as int);
        }
        None
    }

    /// Puts a pane in the place of another.
    fn put(&mut self, at: usize, pane: FixturePane)
        requires
            old(self).wf(),
            at < old(self).panes.len(),
            pane.wf(),
        ensures
            final(self).wf(),
            final(self)@ == (FixtureV {
                panes: old(self)@.panes.update(at as int, pane@),
                ..old(self)@
            }),
    {
        let ghost before = self.panes@;
        self.panes[at] = pane;
        proof {
            assert(fixture_panes(self.panes@) =~= fixture_panes(before).update(at as int, pane@));
            assert forall|i: int| 0 <= i < self.panes.len() implies (
            #[trigger] self.panes[i]).wf() by {
                if i != at {
                    assert(self.panes[i] == old(self).panes[i]);
                }
            }
        }
    }

    /// Every pane, in order.
    pub fn list_panes(&self) -> (r: Vec<Pane>)
        ensures
            panes_view(r@) == Seq::new(self@.panes.len(), |i: int| self@.panes[i].pane),
    {
        let mut out: Vec<Pane> = Vec::new();
        let mut i: usize = 0;
        while i < self.panes.len()
            invariant
                i <= self.panes.len(),
                out.len() == i,
                forall|j: int| 0 <= j < i ==> (#[trigger] out[j])@ == self.panes[j]@.pane,
            decreases self.panes.len() - i,
        {
            out.push(self.panes[i].as_pane());
            i += 1;
        }
        proof {
            assert(panes_view(out@) =~= Seq::new(
                self@.panes.len(),
                |i: int| self@.panes[i].pane,
            ));
        }
        out
    }

    /// Creates a session and returns its first pane.
    pub fn new_session(&mut self, spec: &NewSession) -> (r: Result<Pane, QError>)
        requires
            old(self).wf(),
            !has_session_named(old(self)@.panes, spec.name@) ==> number_fits(
                next_number(old(self)@),
            ),
        ensures
            final(self).wf(),
            opens(old(self)@, final(self)@, r, session_opened(old(self)@, *spec)),
    {
        if self.has_session(spec.name.as_str()) {
            return Err(QError::Tmux(concat("duplicate session: ", spec.name.as_str())));
        }
        Ok(
            self.add(
                spec.name.as_str(),
                spec.window_name.as_str(),
                0,
                spec.cwd.as_str(),
                &spec.env,
                &spec.command,
            ),
        )
    }

    /// The highest window index in a session.
    pub fn last_index(&self, session: &str) -> (r: Option<i32>)
        ensures
            r == top_index(self@.panes, session@),
    {
        let ghost all = self@.panes;
        let mut top: Option<i32> = None;
        let mut i: usize = 0;
        proof {
            assert(all.take(0) =~= Seq::empty());
        }
        while i < self.panes.len()
            invariant
                i <= self.panes.len(),
                all == self@.panes,
                top == top_index(all.take(i as int), session@),
            decreases self.panes.len() - i,
        {
            proof {
                assert(all.take(i as int + 1).drop_last() =~= all.take(i as int));
                assert(all[i as int] == self.panes[i as int]@);
            }
            if same(self.panes[i].session_name.as_str(), session) {
                let here = self.panes[i].window_index;
                top = match top {
                    Some(b) => if here >= b {
                        Some(here)
                    } else {
                        Some(b)
                    },
                    None => Some(here),
                };
            }
            i += 1;
        }
        proof {
            assert(all.take(all.len() as int) =~= all);
        }
        top
    }

    /// Opens a window behind the last one of its session.
    pub fn new_window(&mut self, spec: &NewWindow) -> (r: Result<Pane, QError>)
        requires
            old(self).wf(),
            old(self)@.fail_new_window is None && top_index(
                old(self)@.panes,
                spec.session@,
            ) is Some ==> number_fits(next_number(old(self)@)) && top_index(
                old(self)@.panes,
                spec.session@,
            ) != Some(i32::MAX),
        ensures
            final(self).wf(),
            opens(old(self)@, final(self)@, r, window_opened(old(self)@, *spec)),
    {
        match &self.fail_new_window {
            Some(text) => {
                return Err(QError::Tmux(text.clone()));
            },
            None => {},
        }
        let index = match self.last_index(spec.session.as_str()) {
            Some(index) => index,
            None => {
                return Err(
                    QError::Tmux(concat("can't find session: ", spec.session.as_str())),
                );
            },
        };
        Ok(
            self.add(
                spec.session.as_str(),
                spec.window_name.as_str(),
                index + 1,
                spec.cwd.as_str(),
                &spec.env,
                &spec.command,
            ),
        )
    }

    /// Selects the window of a pane, without attaching.
    pub fn select_window(&mut self, pane_id: &str) -> (r: Result<(), QError>)
        requires
            old(self).wf(),
        ensures
            final(self).wf(),
            ends(old(self)@, final(self)@, r, window_selected(old(self)@, pane_id@)),
    {
        match require_pane_id(pane_id) {
            Ok(()) => {},
            Err(e) => {
                return Err(e);
            },
        }
        match self.find_pane(pane_id) {
            Some(_) => {
                self.selected = Some(owned(pane_id));
                Ok(())
            },
            None => Err(QError::Tmux(concat("can't find pane: ", pane_id))),
        }
    }

    /// Records what was attached to.
    pub fn attach(&mut self, session: &str, pane: Option<&str>) -> (r: Result<(), QError>)
        requires
            old(self).wf(),
        ensures
            final(self).wf(),
            ends(
                old(self)@,
                final(self)@,
                r,
                session_attached(
                    old(self)@,
                    session@,
                    match pane {
                        Some(p) => Some(p@),
                        None => None,
                    },
                ),
            ),
    {
        if !self.has_session(session) {
            return Err(QError::Tmux(concat("can't find session: ", session)));
        }
        match pane {
            Some(id) => {
                let at = match self.find_pane(id) {
                    Some(at) => at,
                    None => {
                        return Err(QError::Tmux(concat("can't find pane: ", id)));
                    },
                };
                if !same(self.panes[at].session_name.as_str(), session) {
                    let mut text = concat3("pane ", id, " is not in session ");
                    text.append(session);
                    return Err(QError::Tmux(text));
                }
                self.selected = Some(owned(id));
                self.attached = Some((owned(session), Some(owned(id))));
            },
            None => {
                self.attached = Some((owned(session), None));
            },
        }
        Ok(())
    }

    /// Types into a pane.
    pub fn send_keys(&mut self, pane_id: &str, text: &str, enter: bool) -> (r: Result<(), QError>)
        requires
            old(self).wf(),
        ensures
            final(self).wf(),
            ends(old(self)@, final(self)@, r, keys_sent(old(self)@, pane_id@, text@, enter)),
    {
        let at = match self.find_pane(pane_id) {
            Some(at) => at,
            None => {
                return Err(QError::Tmux(concat("can't find pane: ", pane_id)));
            },
        };
        let mut pane = self.panes[at].copy();
        pane.buffer.append(text);
        if enter {
            pane.buffer.push('\n');
        }
        self.put(at, pane);
        Ok(())
    }

    /// Pastes into a pane.
    pub fn paste(&mut self, pane_id: &str, text: &str, enter: bool) -> (r: Result<(), QError>)
        requires
            old(self).wf(),
        ensures
            final(self).wf(),
            ends(old(self)@, final(self)@, r, text_pasted(old(self)@, pane_id@, text@, enter)),
    {
        let at = match self.find_pane(pane_id) {
            Some(at) => at,
            None => {
                return Err(QError::Tmux(concat("can't find pane: ", pane_id)));
            },
        };
        let mut pane = self.panes[at].copy();
        let ghost before = pane.pastes@;
        pane.pastes.push(owned(text));
        pane.buffer.append(text);
        if enter {
            pane.buffer.push('\n');
        }
        proof {
            assert(texts(pane.pastes@) =~= texts(before).push(text@));
        }
        self.put(at, pane);
        Ok(())
    }

    /// The last lines of what a pane holds.
    pub fn capture_pane(&self, pane_id: &str, lines: usize) -> (r: Result<String, QError>)
        ensures
            match r {
                Ok(text) => has_pane(self@.panes, pane_id@) && text@ == tail_of(
                    self@.panes[pane_index(self@.panes, pane_id@)].buffer,
                    lines as int,
                ),
                Err(e) => !has_pane(self@.panes, pane_id@) && is_tmux_error(e, no_pane(pane_id@)),
            },
    {
        match self.find_pane(pane_id) {
            Some(at) => Ok(tail(self.panes[at].buffer.as_str(), lines)),
            None => Err(QError::Tmux(concat("can't find pane: ", pane_id))),
        }
    }

    /// Renames a session.
    pub fn rename_session(&mut self, old_name: &str, new_name: &str) -> (r: Result<(), QError>)
        requires
            old(self).wf(),
        ensures
            final(self).wf(),
            ends(old(self)@, final(self)@, r, session_renamed(old(self)@, old_name@, new_name@)),
    {
        match &self.fail_rename_session {
            Some(text) => {
                return Err(QError::Tmux(text.clone()));
            },
            None => {},
        }
        if !self.has_session(old_name) {
            return Err(QError::Tmux(concat("can't find session: ", old_name)));
        }
        let n = self.panes.len();
        let ghost all = self@.panes;
        let mut i: usize = 0;
        while i < n
            invariant
                i <= n,
                n == self.panes.len(),
                all == old(self)@.panes,
                all.len() == n,
                self.wf(),
                self@ == (FixtureV { panes: self@.panes, ..old(self)@ }),
                forall|j: int|
                    0 <= j < i ==> (#[trigger] self@.panes[j]) == renamed(
                        all,
                        old_name@,
                        new_name@,
                    )[j],
                forall|j: int| i <= j < n ==> (#[trigger] self@.panes[j]) == all[j],
            decreases n - i,
        {
            assert(self@.panes[i as int] == self.panes[i as int]@);
            if same(self.panes[i].session_name.as_str(), old_name) {
                let mut pane = self.panes[i].copy();
                pane.session_name = owned(new_name);
                self.put(i, pane);
                assert(self@.panes.len() == self.panes.len());
            }
            i += 1;
        }
        proof {
            assert(self@.panes =~= renamed(all, old_name@, new_name@));
        }
        Ok(())
    }

    /// Renames the window of a pane.
    pub fn rename_window(&mut self, pane_id: &str, new_name: &str) -> (r: Result<(), QError>)
        requires
            old(self).wf(),
        ensures
            final(self).wf(),
            ends(old(self)@, final(self)@, r, window_renamed(old(self)@, pane_id@, new_name@)),
    {
        let at = match self.find_pane(pane_id) {
            Some(at) => at,
            None => {
                return Err(QError::Tmux(concat("can't find pane: ", pane_id)));
            },
        };
        let mut pane = self.panes[at].copy();
        pane.window_name = owned(new_name);
        self.put(at, pane);
        Ok(())
    }

    /// Ends every pane of a session.
    pub fn kill_session(&mut self, name: &str) -> (r: Result<(), QError>)
        requires
            old(self).wf(),
        ensures
            final(self).wf(),
            ends(old(self)@, final(self)@, r, session_killed(old(self)@, name@)),
    {
        let ghost all = self@.panes;
        let mut kept: Vec<FixturePane> = Vec::new();
        let mut i: usize = 0;
        proof {
            assert(all.take(0) =~= Seq::empty());
            assert(fixture_panes(kept@) =~= Seq::empty());
        }
        while i < self.panes.len()
            invariant
                i <= self.panes.len(),
                *self == *old(self),
                self.wf(),
                all == self@.panes,
                forall|j: int| 0 <= j < kept.len() ==> (#[trigger] kept[j]).wf(),
                fixture_panes(kept@) == without_session(all.take(i as int), name@),
            decreases self.panes.len() - i,
        {
            proof {
                assert(all.take(i as int + 1).drop_last() =~= all.take(i as int));
                assert(all[i as int] == self.panes[i as int]@);
            }
            if !same(self.panes[i].session_name.as_str(), name) {
                let ghost before = kept@;
                let pane = self.panes[i].copy();
                kept.push(pane);
                proof {
                    assert(fixture_panes(kept@) =~= fixture_panes(before).push(pane@));
                }
            }
            i += 1;
        }
        proof {
            assert(all.take(all.len() as int) =~= all);
            lemma_without_session_len(all, name@);
            assert(fixture_panes(kept@).len() == kept.len());
        }
        if kept.len() == self.panes.len() {
            return Err(QError::Tmux(concat("can't find session: ", name)));
        }
        self.panes = kept;
        Ok(())
    }

    /// Ends the window of a pane, leaving the session alone.
    pub fn kill_window(&mut self, pane_id: &str) -> (r: Result<(), QError>)
        requires
            old(self).wf(),
        ensures
            final(self).wf(),
            ends(old(self)@, final(self)@, r, window_killed(old(self)@, pane_id@)),
    {
        let ghost all = self@.panes;
        let mut kept: Vec<FixturePane> = Vec::new();
        let mut i: usize = 0;
        proof {
            assert(all.take(0) =~= Seq::empty());
            assert(fixture_panes(kept@) =~= Seq::empty());
        }
        while i < self.panes.len()
            invariant
                i <= self.panes.len(),
                *self == *old(self),
                self.wf(),
                all == self@.panes,
                forall|j: int| 0 <= j < kept.len() ==> (#[trigger] kept[j]).wf(),
                fixture_panes(kept@) == without_pane(all.take(i as int), pane_id@),
            decreases self.panes.len() - i,
        {
            proof {
                assert(all.take(i as int + 1).drop_last() =~= all.take(i as int));
                assert(all[i as int] == self.panes[i as int]@);
            }
            if !same(self.panes[i].pane_id.as_str(), pane_id) {
                let ghost before = kept@;
                let pane = self.panes[i].copy();
                kept.push(pane);
                proof {
                    assert(fixture_panes(kept@) =~= fixture_panes(before).push(pane@));
                }
            }
            i += 1;
        }
        proof {
            assert(all.take(all.len() as int) =~= all);
            lemma_without_pane_len(all, pane_id@);
            assert(fixture_panes(kept@).len() == kept.len());
        }
        if kept.len() == self.panes.len() {
            return Err(QError::Tmux(concat("can't find pane: ", pane_id)));
        }
        self.panes = kept;
        Ok(())
    }

    /// Whether any pane belongs to that session.
    pub fn has_session(&self, name: &str) -> (r: bool)
        ensures
            r == has_session_named(self@.panes, name@),
    {
        let ghost all = self@.panes;
        let mut i: usize = 0;
        while i < self.panes.len()
            invariant
                i <= self.panes.len(),
                all == self@.panes,
                forall|j: int| 0 <= j < i ==> (#[trigger] all[j]).pane.session_name != name@,
            decreases self.panes.len() - i,
        {
            assert(all[i as int] == self.panes[i as int]@);
            if same(self.panes[i].session_name.as_str(), name) {
                return true;
            }
            i += 1;
        }
        false
    }

    /// What the server says its version is.
    pub fn version(&self) -> (r: String)
        ensures
            r@ == match self@.version {
                Some(v) => v,
                None => FIXTURE_VERSION@,
            },
    {
        match &self.version {
            Some(v) => v.clone(),
            None => owned(FIXTURE_VERSION),
        }
    }
}

/// The number in a pane id.
fn number_of(id: &str) -> (r: Option<u32>)
    ensures
        r == pane_number(id@),
{
    let n = id.unicode_len();
    if n > 0 && id.get_char(0) == '%' {
        let rest = id.substring_char(1, n);
        proof {
            assert(rest@ =~= id@.skip(1));
        }
        parse_u32(rest)
    } else {
        None
    }
}

// ---------------------------------------------------------------------- laws

proof fn lemma_highest(panes: Seq<FixturePaneV>, i: int)
    requires
        0 <= i < panes.len(),
    ensures
        pane_number(panes[i].pane.pane_id) is Some ==> pane_number(panes[i].pane.pane_id)->0
            <= highest_number(panes),
    decreases panes.len(),
{
    if i < panes.len() - 1 {
        lemma_highest(panes.drop_last(), i);
    }
}

/// The id a number is written as has that number in it.
proof fn lemma_id_number(n: nat)
    requires
        n <= u32::MAX,
    ensures
        pane_number("%"@ + decimal(n)) == Some(n as u32),
{
    reveal_strlit("%");
    decimal_reads_back(n);
    let d = decimal(n);
    let id = "%"@ + d;
    assert(id[0] == '%');
    assert(id.skip(1) =~= d);
    assert(crate::text::is_digit(d[0]));
    assert(d[0] != '+');
}

/// A claimed number is the one after the counter or after the highest number of
/// any pane, whichever is more. No pane holds it, and claiming again gives another.
pub proof fn a_claimed_number_is_free(f: FixtureV)
    requires
        next_number(f) <= u32::MAX,
    ensures
        ({
            let n = next_number(f);
            &&& n > f.next_pane
            &&& forall|i: int|
                0 <= i < f.panes.len() && pane_number((#[trigger] f.panes[i]).pane.pane_id) is Some
                    ==> pane_number(f.panes[i].pane.pane_id)->0 < n
            &&& n == f.next_pane + 1 || exists|i: int|
                0 <= i < f.panes.len() && pane_number((#[trigger] f.panes[i]).pane.pane_id)
                    == Some((n - 1) as u32)
            &&& !has_pane(f.panes, "%"@ + decimal(n as nat))
            &&& claimed(f).panes == f.panes
            &&& claimed(f).next_pane == n
            &&& next_number(claimed(f)) == n + 1
        }),
{
    let n = next_number(f);
    let id = "%"@ + decimal(n as nat);
    assert forall|i: int|
        0 <= i < f.panes.len() && pane_number((#[trigger] f.panes[i]).pane.pane_id) is Some implies
        pane_number(f.panes[i].pane.pane_id)->0 < n by {
        lemma_highest(f.panes, i);
    }
    lemma_highest_is_there(f.panes);
    lemma_id_number(n as nat);
    lemma_pane_index_found(f.panes, id);
    if has_pane(f.panes, id) {
        let i = pane_index(f.panes, id);
        assert(f.panes[i].pane.pane_id == id);
    }
}

proof fn lemma_highest_is_there(panes: Seq<FixturePaneV>)
    ensures
        highest_number(panes) > 0 ==> exists|i: int|
            0 <= i < panes.len() && pane_number((#[trigger] panes[i]).pane.pane_id) == Some(
                highest_number(panes),
            ),
    decreases panes.len(),
{
    if panes.len() > 0 {
        let front = panes.drop_last();
        lemma_highest_is_there(front);
        let last = panes.len() - 1;
        if highest_number(panes) == highest_number(front) && highest_number(panes) > 0 {
            let i = choose|i: int|
                0 <= i < front.len() && pane_number((#[trigger] front[i]).pane.pane_id) == Some(
                    highest_number(front),
                );
            assert(panes[i] == front[i]);
        } else {
            assert(panes[last] == panes.last());
        }
    }
}

/// A new pane's id is one that no pane there is has, and its number is beyond
/// the counter: an id is never handed out twice, not even after its pane is
/// gone.
pub proof fn a_new_pane_id_is_fresh(
    f: FixtureV,
    session: Seq<char>,
    window: Seq<char>,
    index: int,
    cwd: Seq<char>,
    env: Seq<(Seq<char>, Seq<char>)>,
    command: Option<Seq<char>>,
)
    requires
        number_fits(next_number(f)),
    ensures
        ({
            let (g, pane) = with_pane(f, session, window, index, cwd, env, command);
            &&& !has_pane(f.panes, pane.pane_id)
            &&& has_pane(g.panes, pane.pane_id)
            &&& g.next_pane > f.next_pane
            &&& pane_number(pane.pane_id) == Some(g.next_pane)
            &&& forall|i: int|
                0 <= i < f.panes.len() ==> (#[trigger] f.panes[i]).pane.pane_id != pane.pane_id
        }),
{
    let (g, pane) = with_pane(f, session, window, index, cwd, env, command);
    let n = next_number(f);
    lemma_id_number(n as nat);
    assert forall|i: int| 0 <= i < f.panes.len() implies (#[trigger] f.panes[i]).pane.pane_id
        != pane.pane_id by {
        lemma_highest(f.panes, i);
    }
    lemma_pane_index_found(f.panes, pane.pane_id);
    lemma_pane_index_found(g.panes, pane.pane_id);
    assert(g.panes[g.panes.len() - 1].pane.pane_id == pane.pane_id);
}

/// Ids that differ keep differing: opening a pane never makes two of them equal.
pub proof fn pane_ids_stay_distinct(
    f: FixtureV,
    session: Seq<char>,
    window: Seq<char>,
    index: int,
    cwd: Seq<char>,
    env: Seq<(Seq<char>, Seq<char>)>,
    command: Option<Seq<char>>,
)
    requires
        number_fits(next_number(f)),
        forall|i: int, j: int|
            0 <= i < j < f.panes.len() ==> (#[trigger] f.panes[i]).pane.pane_id != (
            #[trigger] f.panes[j]).pane.pane_id,
    ensures
        ({
            let g = with_pane(f, session, window, index, cwd, env, command).0;
            forall|i: int, j: int|
                0 <= i < j < g.panes.len() ==> (#[trigger] g.panes[i]).pane.pane_id != (
                #[trigger] g.panes[j]).pane.pane_id
        }),
{
    a_new_pane_id_is_fresh(f, session, window, index, cwd, env, command);
    let g = with_pane(f, session, window, index, cwd, env, command).0;
    assert forall|i: int, j: int| 0 <= i < j < g.panes.len() implies (
    #[trigger] g.panes[i]).pane.pane_id != (#[trigger] g.panes[j]).pane.pane_id by {
        assert(g.panes[i] == f.panes[i]);
        if j < f.panes.len() {
            assert(g.panes[j] == f.panes[j]);
        }
    }
}

/// A session that was opened is there, and cannot be opened again.
pub proof fn an_opened_session_is_there(f: FixtureV, spec: NewSession)
    requires
        session_opened(f, spec) is Ok,
    ensures
        has_session_named((session_opened(f, spec)->Ok_0).0.panes, spec.name@),
        session_opened((session_opened(f, spec)->Ok_0).0, spec) is Err,
{
    let g = (session_opened(f, spec)->Ok_0).0;
    assert(g.panes[g.panes.len() - 1].pane.session_name == spec.name@);
}

/// Keys reach the pane they were sent to and no other, and a capture reads them
/// back.
pub proof fn keys_reach_only_their_pane(
    f: FixtureV,
    id: Seq<char>,
    text: Seq<char>,
    enter: bool,
    i: int,
)
    requires
        has_pane(f.panes, id),
        0 <= i < f.panes.len(),
    ensures
        keys_sent(f, id, text, enter) is Ok,
        ({
            let g = keys_sent(f, id, text, enter)->Ok_0;
            let at = pane_index(f.panes, id);
            &&& pane_index(g.panes, id) == at
            &&& g.panes[at].buffer == written(f.panes[at].buffer, text, enter)
            &&& g.panes[i].pane == f.panes[i].pane
            &&& i != at ==> g.panes[i] == f.panes[i]
        }),
{
    let g = keys_sent(f, id, text, enter)->Ok_0;
    lemma_pane_index_found(f.panes, id);
    let at = pane_index(f.panes, id);
    lemma_before_index(f.panes, id);
    assert forall|j: int| 0 <= j < at implies (#[trigger] g.panes[j]).pane.pane_id != id by {
        assert(g.panes[j] == f.panes[j]);
    }
    lemma_pane_index(g.panes, id, at);
}

proof fn lemma_before_index(panes: Seq<FixturePaneV>, id: Seq<char>)
    ensures
        forall|j: int|
            0 <= j < pane_index(panes, id) && j < panes.len() ==> (#[trigger] panes[j]).pane.pane_id
                != id,
    decreases panes.len(),
{
    if panes.len() > 0 && panes[0].pane.pane_id != id {
        lemma_before_index(panes.drop_first(), id);
        assert forall|j: int|
            0 <= j < pane_index(panes, id) && j < panes.len() implies (
        #[trigger] panes[j]).pane.pane_id != id by {
            if j > 0 {
                assert(panes[j] == panes.drop_first()[j - 1]);
            }
        }
    }
}

/// Keys and a paste of the same text leave the same buffer; only the record of
/// pastes tells them apart.
pub proof fn a_paste_types_like_keys(f: FixtureV, id: Seq<char>, text: Seq<char>, enter: bool)
    requires
        has_pane(f.panes, id),
    ensures
        ({
            let at = pane_index(f.panes, id);
            let a = text_pasted(f, id, text, enter)->Ok_0.panes[at];
            let b = keys_sent(f, id, text, enter)->Ok_0.panes[at];
            &&& a.buffer == b.buffer
            &&& a.pastes == f.panes[at].pastes.push(text)
            &&& b.pastes == f.panes[at].pastes
        }),
{
    lemma_pane_index_found(f.panes, id);
}

/// A renamed session answers to its new name and no longer to its old one, and
/// it has as many panes as before.
pub proof fn a_renamed_session_changes_names(f: FixtureV, a: Seq<char>, b: Seq<char>)
    requires
        session_renamed(f, a, b) is Ok,
        a != b,
    ensures
        has_session_named(session_renamed(f, a, b)->Ok_0.panes, b),
        !has_session_named(session_renamed(f, a, b)->Ok_0.panes, a),
        session_renamed(f, a, b)->Ok_0.panes.len() == f.panes.len(),
{
    let g = session_renamed(f, a, b)->Ok_0;
    let i = choose|i: int|
        0 <= i < f.panes.len() && (#[trigger] f.panes[i]).pane.session_name == a;
    assert(g.panes[i].pane.session_name == b);
}

/// Renaming there and back leaves the server as it was, unless the new name was
/// taken.
pub proof fn renaming_back_undoes_it(f: FixtureV, a: Seq<char>, b: Seq<char>)
    requires
        session_renamed(f, a, b) is Ok,
        !has_session_named(f.panes, b),
    ensures
        session_renamed(session_renamed(f, a, b)->Ok_0, b, a) == Ok::<FixtureV, Seq<char>>(f),
{
    let g = session_renamed(f, a, b)->Ok_0;
    let i = choose|i: int|
        0 <= i < f.panes.len() && (#[trigger] f.panes[i]).pane.session_name == a;
    assert(g.panes[i].pane.session_name == b);
    assert(renamed(g.panes, b, a) =~= f.panes) by {
        assert forall|j: int| 0 <= j < f.panes.len() implies renamed(g.panes, b, a)[j]
            == f.panes[j] by {
            assert(f.panes[j].pane.session_name != b);
        }
    }
}

/// A killed session is gone, nothing of it is left, and every other pane is
/// still there.
pub proof fn a_killed_session_is_gone(f: FixtureV, name: Seq<char>, pane: FixturePaneV)
    requires
        session_killed(f, name) is Ok,
    ensures
        ({
            let g = session_killed(f, name)->Ok_0;
            &&& !has_session_named(g.panes, name)
            &&& session_killed(g, name) is Err
            &&& g.panes.contains(pane) <==> f.panes.contains(pane) && pane.pane.session_name != name
        }),
{
    lemma_without_session(f.panes, name, pane);
    let g = session_killed(f, name)->Ok_0;
    assert forall|i: int| 0 <= i < g.panes.len() implies (#[trigger] g.panes[i]).pane.session_name
        != name by {
        lemma_without_session(f.panes, name, g.panes[i]);
        assert(g.panes.contains(g.panes[i]));
    }
}

proof fn lemma_without_session(panes: Seq<FixturePaneV>, name: Seq<char>, pane: FixturePaneV)
    ensures
        without_session(panes, name).contains(pane) <==> panes.contains(pane)
            && pane.pane.session_name != name,
    decreases panes.len(),
{
    if panes.len() > 0 {
        let front = panes.drop_last();
        lemma_without_session(front, name, pane);
        lemma_contains_push(front, panes.last(), pane);
        assert(panes =~= front.push(panes.last()));
        lemma_contains_push(without_session(front, name), panes.last(), pane);
    }
}

proof fn lemma_contains_push(s: Seq<FixturePaneV>, x: FixturePaneV, y: FixturePaneV)
    ensures
        s.push(x).contains(y) <==> s.contains(y) || x == y,
{
    let t = s.push(x);
    if s.contains(y) {
        let i = choose|i: int| 0 <= i < s.len() && s[i] == y;
        assert(t[i] == y);
    }
    if x == y {
        assert(t[s.len() as int] == y);
    }
    if t.contains(y) {
        let i = choose|i: int| 0 <= i < t.len() && t[i] == y;
        if i < s.len() {
            assert(s[i] == y);
        }
    }
}

/// A killed window takes its pane with it and leaves every other pane.
pub proof fn a_killed_window_takes_only_its_pane(f: FixtureV, id: Seq<char>, pane: FixturePaneV)
    requires
        window_killed(f, id) is Ok,
    ensures
        ({
            let g = window_killed(f, id)->Ok_0;
            &&& !has_pane(g.panes, id)
            &&& window_killed(g, id) is Err
            &&& g.panes.contains(pane) <==> f.panes.contains(pane) && pane.pane.pane_id != id
        }),
{
    lemma_without_pane(f.panes, id, pane);
    let g = window_killed(f, id)->Ok_0;
    lemma_pane_index_found(g.panes, id);
    assert forall|i: int| 0 <= i < g.panes.len() implies (#[trigger] g.panes[i]).pane.pane_id
        != id by {
        lemma_without_pane(f.panes, id, g.panes[i]);
        assert(g.panes.contains(g.panes[i]));
    }
}

proof fn lemma_without_pane(panes: Seq<FixturePaneV>, id: Seq<char>, pane: FixturePaneV)
    ensures
        without_pane(panes, id).contains(pane) <==> panes.contains(pane) && pane.pane.pane_id != id,
    decreases panes.len(),
{
    if panes.len() > 0 {
        let front = panes.drop_last();
        lemma_without_pane(front, id, pane);
        lemma_contains_push(front, panes.last(), pane);
        assert(panes =~= front.push(panes.last()));
        lemma_contains_push(without_pane(front, id), panes.last(), pane);
    }
}

} // verus!
