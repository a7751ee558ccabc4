//! What the fake tmux server keeps and what it refuses.
use vstd::prelude::*;
use vstd::string::*;
use crate::fixture::{
    has_pane, has_session_named, keys_sent, pane_index, session_attached, session_opened,
    text_pasted, top_index, window_opened, window_renamed, window_selected, FixturePaneV,
    FixtureState, FixtureV,
};
use crate::model::{error_text, QError};
use crate::quest_laws::lemma_said;
use crate::text::{has_text, lines, opt_text};
use crate::tmux::{panes_view, tail_of, NewSession, NewWindow, Pane};

verus! {

/// The pane that an id leads to is the first one of that id.
pub proof fn an_id_leads_to_its_first_pane(panes: Seq<FixturePaneV>, id: Seq<char>, i: int)
    requires
        0 <= i <= panes.len(),
        forall|j: int| 0 <= j < i ==> (#[trigger] panes[j]).pane.pane_id != id,
        i < panes.len() ==> panes[i].pane.pane_id == id,
    ensures
        pane_index(panes, id) == i,
        has_pane(panes, id) <==> i < panes.len(),
    decreases panes.len(),
{
    if i > 0 {
        assert(panes[0].pane.pane_id != id);
        let rest = panes.drop_first();
        assert forall|j: int| 0 <= j < i - 1 implies (#[trigger] rest[j]).pane.pane_id != id by {
            assert(rest[j] == panes[j + 1]);
        }
        an_id_leads_to_its_first_pane(rest, id, i - 1);
    }
}

/// What is opened keeps what it was opened with: its session, its window, its
/// directory, its environment and its command, in a pane behind the others, which
/// stay as they are.
pub proof fn a_new_pane_keeps_what_it_was_opened_with(
    f: FixtureV,
    s: NewSession,
    w: NewWindow,
)
    ensures
        session_opened(f, s) is Ok ==> {
            let (g, pane) = session_opened(f, s)->Ok_0;
            &&& g.panes.len() == f.panes.len() + 1
            &&& g.panes.take(f.panes.len() as int) == f.panes
            &&& g.panes.last().pane == pane
            &&& pane.session_name == s.name@ && pane.window_name == s.window_name@
            &&& pane.window_index == 0
            &&& g.panes.last().cwd == s.cwd@ && g.panes.last().command == opt_text(s.command)
            &&& g.panes.last().buffer.len() == 0
        },
        window_opened(f, w) is Ok ==> {
            let (g, pane) = window_opened(f, w)->Ok_0;
            &&& g.panes.len() == f.panes.len() + 1
            &&& g.panes.take(f.panes.len() as int) == f.panes
            &&& g.panes.last().pane == pane
            &&& pane.session_name == w.session@ && pane.window_name == w.window_name@
            &&& g.panes.last().cwd == w.cwd@ && g.panes.last().command == opt_text(w.command)
            &&& g.panes.last().buffer.len() == 0
        },
{
    if session_opened(f, s) is Ok {
        let (g, _) = session_opened(f, s)->Ok_0;
        assert(g.panes.take(f.panes.len() as int) =~= f.panes);
    }
    if window_opened(f, w) is Ok {
        let (g, _) = window_opened(f, w)->Ok_0;
        assert(g.panes.take(f.panes.len() as int) =~= f.panes);
    }
}

/// A session of a name that is taken is refused, and one of any other name is not. A
/// window of a session that is not there is refused, and a window of one that is
/// there goes behind its last.
pub proof fn what_can_be_opened(f: FixtureV, s: NewSession, w: NewWindow, i: int)
    requires
        0 <= i < f.panes.len(),
        f.fail_new_window is None,
    ensures
        f.panes[i].pane.session_name == s.name@ ==> session_opened(f, s) is Err,
        (forall|j: int|
            0 <= j < f.panes.len() ==> (#[trigger] f.panes[j]).pane.session_name != s.name@)
            ==> session_opened(f, s) is Ok,
        f.panes[i].pane.session_name == w.session@ ==> window_opened(f, w) is Ok,
        f.panes[i].pane.session_name == w.session@ && top_index(f.panes, w.session@)->0 < i32::MAX
            ==> (window_opened(f, w)->Ok_0).1.window_index > f.panes[i].pane.window_index,
        (forall|j: int|
            0 <= j < f.panes.len() ==> (#[trigger] f.panes[j]).pane.session_name != w.session@)
            ==> window_opened(f, w) is Err,
{
    lemma_top(f.panes, w.session@, i);
}

proof fn lemma_top(panes: Seq<FixturePaneV>, session: Seq<char>, i: int)
    ensures
        0 <= i < panes.len() && panes[i].pane.session_name == session ==> top_index(panes, session)
            is Some && top_index(panes, session)->0 >= panes[i].pane.window_index,
        (forall|j: int|
            0 <= j < panes.len() ==> (#[trigger] panes[j]).pane.session_name != session)
            ==> top_index(panes, session) is None,
    decreases panes.len(),
{
    if panes.len() > 0 {
        let front = panes.drop_last();
        lemma_top(front, session, i);
        if forall|j: int|
            0 <= j < panes.len() ==> (#[trigger] panes[j]).pane.session_name != session {
            assert(panes[panes.len() - 1].pane.session_name != session);
            assert forall|j: int| 0 <= j < front.len() implies (
            #[trigger] front[j]).pane.session_name != session by {
                assert(front[j] == panes[j]);
            }
        }
    }
}

/// A pane that is there is selected, and nothing else changes; one that is not is
/// refused by its id.
pub proof fn a_pane_is_selected_by_its_id(f: FixtureV, id: Seq<char>)
    requires
        id.len() > 0,
    ensures
        has_pane(f.panes, id) ==> window_selected(f, id) == Ok::<FixtureV, Seq<char>>(
            (FixtureV { selected: Some(id), ..f }),
        ),
        !has_pane(f.panes, id) ==> window_selected(f, id) is Err && has_text(
            window_selected(f, id)->Err_0,
            id,
        ),
        window_selected(f, Seq::empty()) is Err,
{
    if !has_pane(f.panes, id) {
        lemma_said(window_selected(f, id)->Err_0, "can't find pane: "@, id, Seq::empty());
    }
}

/// An attach is to a session that is there, and to a pane of that session or to
/// none; with a pane its window is selected too.
pub proof fn an_attach_is_to_what_is_there(
    f: FixtureV,
    session: Seq<char>,
    pane: Option<Seq<char>>,
    i: int,
)
    requires
        0 <= i < f.panes.len(),
        f.panes[i].pane.session_name == session,
    ensures
        pane is None ==> session_attached(f, session, pane) == Ok::<FixtureV, Seq<char>>(
            (FixtureV { attached: Some((session, None)), ..f }),
        ),
        pane is Some && pane_index(f.panes, pane->0) == i ==> session_attached(f, session, pane)
            == Ok::<FixtureV, Seq<char>>(
            (FixtureV { attached: Some((session, pane)), selected: pane, ..f }),
        ),
        pane is Some && !has_pane(f.panes, pane->0) ==> session_attached(f, session, pane) is Err,
        pane is Some && has_pane(f.panes, pane->0) && f.panes[pane_index(
            f.panes,
            pane->0,
        )].pane.session_name != session ==> session_attached(f, session, pane) is Err,
        forall|other: Seq<char>|
            !has_session_named(f.panes, other) ==> #[trigger] session_attached(f, other, pane)
                is Err,
{
    crate::fixture::lemma_pane_index_found(
        f.panes,
        match pane {
            Some(id) => id,
            None => Seq::empty(),
        },
    );
}

/// A renamed window has its new name and is otherwise as it was, and so is every
/// other.
pub proof fn a_renamed_window_changes_its_name(f: FixtureV, id: Seq<char>, name: Seq<char>, i: int)
    requires
        has_pane(f.panes, id),
        pane_index(f.panes, id) == i,
        0 <= i,
    ensures
        window_renamed(f, id, name) is Ok,
        ({
            let g = window_renamed(f, id, name)->Ok_0;
            &&& g.panes[i].pane.window_name == name
            &&& g.panes[i].pane.pane_id == f.panes[i].pane.pane_id
            &&& g.panes[i].pane.session_name == f.panes[i].pane.session_name
            &&& g.panes[i].buffer == f.panes[i].buffer
            &&& forall|j: int|
                0 <= j < f.panes.len() && j != i ==> g.panes[j] == #[trigger] f.panes[j]
        }),
{
}

/// What is sent to a pane stands behind what it held, with a newline only for
/// Enter; a paste is on record as well.
pub proof fn what_is_sent_is_kept(f: FixtureV, id: Seq<char>, text: Seq<char>, enter: bool, i: int)
    requires
        has_pane(f.panes, id),
        pane_index(f.panes, id) == i,
        0 <= i,
    ensures
        ({
            let held = f.panes[i].buffer;
            let g = keys_sent(f, id, text, enter)->Ok_0;
            let h = text_pasted(f, id, text, enter)->Ok_0;
            &&& keys_sent(f, id, text, enter) is Ok && text_pasted(f, id, text, enter) is Ok
            &&& enter ==> g.panes[i].buffer == held + text + seq!['\n']
            &&& !enter ==> g.panes[i].buffer == held + text
            &&& h.panes[i].buffer == g.panes[i].buffer
            &&& h.panes[i].pastes == f.panes[i].pastes + seq![text]
            &&& g.panes[i].pastes == f.panes[i].pastes
        }),
{
    let held = f.panes[i].buffer;
    assert((held + text).push('\n') =~= held + text + seq!['\n']);
    assert(f.panes[i].pastes.push(text) =~= f.panes[i].pastes + seq![text]);
}

/// A listing gives every pane, and a capture the last lines of the one asked for.
pub proof fn a_server_tells_what_it_holds(
    f: &FixtureState,
    listed: Vec<Pane>,
    id: &str,
    wanted: usize,
    captured: Result<String, QError>,
    i: int,
)
    requires
        call_ensures(FixtureState::list_panes, (f,), listed),
        call_ensures(FixtureState::capture_pane, (f, id, wanted), captured),
        0 <= i < f@.panes.len(),
    ensures
        listed.len() == f@.panes.len(),
        listed[i]@ == f@.panes[i].pane,
        pane_index(f@.panes, id@) == i && has_pane(f@.panes, id@) ==> captured is Ok
            && captured->Ok_0@ == tail_of(f@.panes[i].buffer, wanted as int),
        !has_pane(f@.panes, id@) ==> captured is Err && has_text(
            error_text(captured->Err_0),
            id@,
        ),
{
    assert(panes_view(listed@).len() == f@.panes.len());
    assert(panes_view(listed@)[i] == f@.panes[i].pane);
    if !has_pane(f@.panes, id@) {
        lemma_said(error_text(captured->Err_0), "can't find pane: "@, id@, Seq::empty());
    }
}

/// A server says the version it was given, and its own where it was given none.
pub proof fn a_server_says_its_version(f: &FixtureState, r: String, name: &str, there: bool, i: int)
    requires
        call_ensures(FixtureState::version, (f,), r),
        call_ensures(FixtureState::has_session, (f, name), there),
    ensures
        f@.version is Some ==> r@ == f@.version->0,
        f@.version is None ==> r@ == crate::fixture::FIXTURE_VERSION@,
        0 <= i < f@.panes.len() && f@.panes[i].pane.session_name == name@ ==> there,
        (forall|j: int|
            0 <= j < f@.panes.len() ==> (#[trigger] f@.panes[j]).pane.session_name != name@)
            ==> !there,
{
}

} // verus!
