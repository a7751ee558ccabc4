//! What the shell around the tabs promises: of a remote round, of what is said, of
//! the loop, and of where a terminal is given.
use vstd::prelude::*;
use vstd::string::*;
use crate::app::{Action, AppV, ModalV, Tab};
use crate::model::{error_text, QError, Quest, QuestRow, QuestState, Remote};
use crate::quest_laws::lemma_said;
use crate::quests::selection;
use crate::shell::{
    absorbed, after_submit, applied, back_text, cannot_text, is_entering, is_entering_far, is_paged,
    is_wanted, landed_text, needs_redraw, needs_refresh, on_one_line, refresh_failure, round_notes,
    round_rows, said_by, turned, without_empty, written_text, AttachWant, Ended, EnterTarget,
    Entering, EnteringFar, Event, Landing, Loop, Paged, RemoteResult, SessionPick,
};
use crate::text::{has_text, opt_text, texts};
use crate::text_laws::{all_space, joining_keeps_every_part};

verus! {

// ------------------------------------------------------------- a remote round

/// The rows of each machine's share of a round.
pub open spec fn rows_by_machine(results: Seq<RemoteResult>) -> Seq<Seq<QuestRow>> {
    Seq::new(results.len(), |i: int| results[i].rows@)
}

proof fn lemma_round_rows(results: Seq<RemoteResult>)
    ensures
        round_rows(results) == rows_by_machine(results).flatten(),
    decreases results.len(),
{
    if results.len() == 0 {
        assert(rows_by_machine(results) =~= Seq::empty());
        assert(rows_by_machine(results).flatten() =~= Seq::empty());
    } else {
        let front = results.drop_last();
        lemma_round_rows(front);
        assert(rows_by_machine(results) =~= rows_by_machine(front).push(results.last().rows@));
        rows_by_machine(front).lemma_flatten_push(results.last().rows@);
    }
}

/// The remote rows after a round are the rows of every machine in it, one machine
/// after the other, whether it answered or has something to complain about.
pub proof fn a_round_keeps_the_rows_of_every_machine(a: AppV, results: Seq<RemoteResult>)
    ensures
        absorbed(a, results).quests.remote == rows_by_machine(results).flatten(),
{
    lemma_round_rows(results);
}

/// No row of a round is lost: each is among the remote rows, and there are as many
/// of them as of all the machines together.
pub proof fn a_round_loses_no_row(
    a: AppV,
    front: Seq<RemoteResult>,
    result: RemoteResult,
    i: int,
    j: int,
)
    requires
        0 <= i < front.push(result).len(),
        0 <= j < front.push(result)[i].rows.len(),
    ensures
        absorbed(a, front.push(result)).quests.remote.contains(front.push(result)[i].rows[j]),
        absorbed(a, front.push(result)).quests.remote.len() == absorbed(
            a,
            front,
        ).quests.remote.len() + result.rows.len(),
        absorbed(a, Seq::empty()).quests.remote.len() == 0,
    decreases front.len(),
{
    let results = front.push(result);
    assert(results.drop_last() =~= front);
    let before = round_rows(front);
    let all = round_rows(results);
    assert(all == before + result.rows@);
    if i == front.len() {
        assert(all[before.len() + j] == result.rows[j]);
    } else {
        let row = front[i].rows[j];
        let last = front.last();
        assert(front =~= front.drop_last().push(last));
        a_round_loses_no_row(a, front.drop_last(), last, i, j);
        let k = choose|k: int| 0 <= k < before.len() && before[k] == row;
        assert(all[k] == row);
    }
}

proof fn lemma_note_kept(results: Seq<RemoteResult>, i: int)
    requires
        0 <= i < results.len(),
        results[i].note is Some,
    ensures
        round_notes(results).contains(results[i].note->0@),
    decreases results.len(),
{
    let front = results.drop_last();
    let notes = round_notes(results);
    if i == results.len() - 1 {
        assert(notes.last() == results[i].note->0@);
        assert(notes[notes.len() - 1] == results[i].note->0@);
    } else {
        lemma_note_kept(front, i);
        let before = round_notes(front);
        let k = choose|k: int| 0 <= k < before.len() && before[k] == results[i].note->0@;
        assert(notes[k] == before[k]);
    }
}

proof fn lemma_no_notes(results: Seq<RemoteResult>)
    requires
        forall|i: int| 0 <= i < results.len() ==> (#[trigger] results[i]).note is None,
    ensures
        round_notes(results).len() == 0,
    decreases results.len(),
{
    if results.len() > 0 {
        let front = results.drop_last();
        assert forall|i: int| 0 <= i < front.len() implies (#[trigger] front[i]).note is None by {
            assert(front[i] == results[i]);
        }
        lemma_no_notes(front);
        assert(results[results.len() - 1].note is None);
    }
}

/// Whatever a machine has to complain about is said, and where none has anything
/// the last round's complaint goes.
pub proof fn a_round_says_every_complaint(a: AppV, results: Seq<RemoteResult>, i: int)
    requires
        0 <= i < results.len(),
    ensures
        results[i].note is Some ==> absorbed(a, results).remote_note is Some && has_text(
            absorbed(a, results).remote_note->0,
            results[i].note->0@,
        ),
        (forall|k: int| 0 <= k < results.len() ==> (#[trigger] results[k]).note is None)
            ==> absorbed(a, results).remote_note is None,
{
    if results[i].note is Some {
        lemma_note_kept(results, i);
        let notes = round_notes(results);
        let k = choose|k: int| 0 <= k < notes.len() && notes[k] == results[i].note->0@;
        joining_keeps_every_part(notes, " \u{b7} "@, k);
    }
    if forall|k: int| 0 <= k < results.len() ==> (#[trigger] results[k]).note is None {
        lemma_no_notes(results);
    }
}

/// A machine that reports its prefix is known by it, and by the last it reported
/// in a round. One that reports none keeps the one it had.
pub proof fn a_machine_keeps_the_prefix_it_last_reported(
    a: AppV,
    front: Seq<RemoteResult>,
    result: RemoteResult,
    name: Seq<char>,
)
    ensures
        ({
            let before = absorbed(a, front).remote_tmux;
            let after = absorbed(a, front.push(result)).remote_tmux;
            &&& result.tmux_prefix is Some ==> after.contains_key(result.name@)
                && after[result.name@] == result.tmux_prefix->0@
            &&& result.tmux_prefix is None ==> after == before
            &&& name != result.name@ ==> (after.contains_key(name) <==> before.contains_key(name))
            &&& name != result.name@ && before.contains_key(name) ==> after[name] == before[name]
        }),
        absorbed(a, Seq::empty()).remote_tmux == a.remote_tmux,
{
    assert(front.push(result).drop_last() =~= front);
}

/// A round touches nothing but the remote rows, their prefixes and the complaint:
/// the listing changes with the next reload.
pub proof fn a_round_touches_nothing_else(a: AppV, results: Seq<RemoteResult>)
    ensures
        ({
            let b = absorbed(a, results);
            &&& b.quests.rows == a.quests.rows && b.quests.selected == a.quests.selected
            &&& b.quests.selected_id == a.quests.selected_id && b.quests.query == a.quests.query
            &&& b.status == a.status && b.modal == a.modal && b.events == a.events
            &&& b.tab == a.tab && b.refresh_error == a.refresh_error
        }),
{
}

// ---------------------------------------------------------------- what is said

proof fn lemma_kept(parts: Seq<Seq<char>>, i: int)
    requires
        0 <= i < parts.len(),
        parts[i].len() > 0,
    ensures
        without_empty(parts).contains(parts[i]),
    decreases parts.len(),
{
    let kept = without_empty(parts);
    let before = without_empty(parts.drop_last());
    if i == parts.len() - 1 {
        assert(kept[kept.len() - 1] == parts[i]);
    } else {
        lemma_kept(parts.drop_last(), i);
        let k = choose|k: int| 0 <= k < before.len() && before[k] == parts[i];
        assert(kept[k] == before[k]);
    }
}

/// A line that is put together holds what leads it and everything behind, and a
/// line with nothing behind is what leads it.
pub proof fn a_line_holds_all_that_was_put_on_it(head: Seq<char>, rest: Seq<Seq<char>>, i: int)
    requires
        0 <= i < rest.len(),
    ensures
        head.len() > 0 ==> has_text(on_one_line(head, rest), head),
        rest[i].len() > 0 ==> has_text(on_one_line(head, rest), rest[i]),
        on_one_line(head, Seq::empty()) == head,
{
    let parts = seq![head] + rest;
    let kept = without_empty(parts);
    if head.len() > 0 {
        lemma_kept(parts, 0);
        let k = choose|k: int| 0 <= k < kept.len() && kept[k] == parts[0];
        joining_keeps_every_part(kept, " \u{b7} "@, k);
    }
    if rest[i].len() > 0 {
        assert(parts[i + 1] == rest[i]);
        lemma_kept(parts, i + 1);
        let k = choose|k: int| 0 <= k < kept.len() && kept[k] == parts[i + 1];
        joining_keeps_every_part(kept, " \u{b7} "@, k);
    }
    let alone = seq![head] + Seq::<Seq<char>>::empty();
    assert(alone =~= seq![head]);
    assert(alone.drop_last() =~= Seq::empty());
    assert(without_empty(alone.drop_last()) =~= Seq::empty());
    if head.len() > 0 {
        assert(without_empty(alone) =~= seq![head]);
    } else {
        assert(without_empty(alone) =~= Seq::empty());
        assert(head =~= Seq::empty());
    }
}

/// A submission that failed is reported in its form, with the reason and every
/// warning. One that worked takes the form down and says every warning on the bar,
/// behind what was said already.
pub proof fn a_submission_says_what_came_of_it(
    a: AppV,
    modal: ModalV,
    e: QError,
    warnings: Seq<Seq<char>>,
    i: int,
)
    requires
        0 <= i < warnings.len(),
        warnings[i].len() > 0,
        error_text(e).len() > 0,
    ensures
        ({
            let b = after_submit(a, modal, Err(e), warnings);
            &&& b.modal is Some && b.modal->0.form.error is Some
            &&& has_text(b.modal->0.form.error->0, error_text(e))
            &&& has_text(b.modal->0.form.error->0, warnings[i])
        }),
        ({
            let c = after_submit(a, modal, Ok(()), warnings);
            &&& c.modal == a.modal
            &&& has_text(c.status, warnings[i])
            &&& a.status.len() > 0 ==> has_text(c.status, a.status)
        }),
        after_submit(a, modal, Ok(()), Seq::empty()) == a,
{
    a_line_holds_all_that_was_put_on_it(error_text(e), warnings, i);
    a_line_holds_all_that_was_put_on_it(a.status, warnings, i);
}

/// A failure names what failed and why.
pub proof fn a_failure_says_why(what: Seq<char>, e: QError)
    ensures
        has_text(refresh_failure(e), error_text(e)),
        has_text(cannot_text(what, e), what),
        has_text(cannot_text(what, e), error_text(e)),
{
    lemma_said(refresh_failure(e), "refresh failed: "@, error_text(e), Seq::empty());
    lemma_said(cannot_text(what, e), "cannot "@, what, ": "@ + error_text(e));
    lemma_said(cannot_text(what, e), "cannot "@ + what + ": "@, error_text(e), Seq::empty());
}

/// What a child complained of is what is reported, without the word in front of
/// it. Only a child without a complaint is reported by its output.
pub proof fn a_child_is_reported_by_its_complaint(
    complaint: Seq<char>,
    output: Seq<char>,
)
    requires
        complaint.len() > 0,
    ensures
        said_by("error: "@ + complaint, output) == complaint,
        !crate::text::begins_with(complaint, "error: "@) ==> said_by(complaint, output)
            == complaint,
        said_by(Seq::empty(), output) == output,
        said_by("error: "@, output) == output,
{
    reveal_strlit("error: ");
    assert("error: "@.subrange(0, 7) =~= "error: "@);
    crate::text_laws::a_beginning_is_followed_by_the_rest(
        "error: "@ + complaint,
        "error: "@,
        complaint,
    );
    assert(("error: "@ + complaint).skip(7) =~= complaint);
}

// ---------------------------------------------------------------------- events

/// A key the dashboard knows is handled and redraws; a release, and a key it does
/// not know, change nothing. A resize is taken as it is. A mouse that is switched
/// off is not listened to.
pub proof fn an_event_changes_what_it_is_about(a: AppV, ev: Event)
    ensures
        ev is Key && ev->Key_0.release ==> applied(a, ev) == (Action::Nothing, false, a),
        ev is Other ==> applied(a, ev) == (Action::Nothing, false, a),
        ev is Mouse && !a.mouse ==> applied(a, ev) == (Action::Nothing, false, a),
        ev is Resize ==> applied(a, ev) == (
            Action::Nothing,
            true,
            AppV { width: ev->Resize_0, height: ev->Resize_1, ..a },
        ),
        ev is Paste ==> applied(a, ev).0 == Action::Nothing,
        !applied(a, ev).1 ==> applied(a, ev).0 == Action::Nothing,
{
}

// -------------------------------------------------------------------- the loop

/// A turn counts a tick exactly where one is due, and then by one. It reloads
/// exactly where a reload was owed, a round came in, a tick was due or the tab in
/// front was never loaded, and whatever it reloads it draws.
pub proof fn a_turn_reloads_when_there_is_reason_to(
    s: Loop,
    a: AppV,
    round: Option<Seq<RemoteResult>>,
    alive: Option<bool>,
    now: int,
)
    requires
        a.ticks < u64::MAX,
        now >= s.last_tick,
    ensures
        ({
            let (t, b) = turned(s, a, round, alive, now);
            let due = now - s.last_tick >= s.tick;
            &&& b.ticks == if due {
                a.ticks + 1
            } else {
                a.ticks as int
            }
            &&& t.refresh_due <==> s.refresh_due || round is Some || due || (a.tab == Tab::Events
                && !a.events.loaded)
            &&& t.refresh_due ==> t.dirty
            &&& s.dirty ==> t.dirty
            &&& !due ==> t.last_tick == s.last_tick
            &&& t.tick == s.tick
            &&& round is Some ==> b.quests.remote == absorbed(a, round->0).quests.remote
            &&& round is None ==> b.quests == a.quests
            &&& b.status == a.status && b.modal == a.modal && b.tab == a.tab
        }),
{
}

/// The listing is reloaded after whatever can have changed it: a refresh, an
/// attach, a submitted form, a template that was run, a command on another machine.
/// After a pager only the screen is drawn again, and after nothing, nothing.
pub proof fn what_can_change_the_listing_reloads_it(key: char)
    ensures
        needs_refresh(Action::Refresh),
        needs_refresh(Action::Attach),
        needs_refresh(Action::Submit),
        needs_refresh(Action::Run),
        needs_refresh(Action::Proxy(key)),
        needs_redraw(Action::Brief),
        needs_redraw(Action::Peek),
        needs_redraw(Action::Export),
        !needs_refresh(Action::Nothing) && !needs_redraw(Action::Nothing),
{
}

// ------------------------------------------------------------------- attaching

/// An attach from the Quests tab is to the selected quest, by its slug, on the
/// machine it runs on; from the Sessions tab it is to exactly the session that was
/// picked, of the quest that was read. With nothing selected it is to nothing.
pub proof fn an_attach_is_to_what_is_selected(
    a: AppV,
    pick: Option<SessionPick>,
    fetched: Option<Quest>,
    r: Result<Option<AttachWant>, QError>,
)
    requires
        is_wanted(a, pick, fetched, r),
    ensures
        a.tab == Tab::Quests && selection(a.quests) is Some ==> {
            let row = selection(a.quests)->0;
            &&& r is Ok && r->Ok_0 is Some
            &&& r->Ok_0->0.quest == row.view.quest
            &&& r->Ok_0->0.name@ == row.view.quest.slug@
            &&& row.origin is Local ==> r->Ok_0->0.machine is None
            &&& row.origin is Remote ==> opt_text(r->Ok_0->0.machine) == Some(
                row.view.quest.machine@,
            )
        },
        a.tab == Tab::Quests && selection(a.quests) is None ==> r is Ok && r->Ok_0 is None,
        a.tab == Tab::Sessions && pick is Some && fetched is Some ==> {
            &&& r is Ok && r->Ok_0 is Some
            &&& r->Ok_0->0.quest == fetched->0
            &&& opt_text(r->Ok_0->0.label) == Some(pick->0.label@)
            &&& opt_text(r->Ok_0->0.session) == Some(pick->0.session@)
            &&& r->Ok_0->0.machine is None
        },
        a.tab == Tab::Sessions && pick is Some && fetched is None ==> r is Err,
        a.tab == Tab::Sessions && pick is None ==> r is Ok && r->Ok_0 is None,
        a.tab == Tab::Events || a.tab == Tab::Templates ==> r is Ok && r->Ok_0 is None,
{
}

proof fn lemma_cannot_enter(name: Seq<char>, e: QError)
    ensures
        has_text(cannot_text("enter "@ + name, e), name),
        has_text(cannot_text("enter "@ + name, e), error_text(e)),
{
    a_failure_says_why("enter "@ + name, e);
    lemma_within("cannot "@, "enter "@, name, ": "@, error_text(e));
}

proof fn lemma_within(a: Seq<char>, b: Seq<char>, m: Seq<char>, c: Seq<char>, d: Seq<char>)
    ensures
        has_text(a + (b + m) + c + d, m),
{
    assert(a + (b + m) + c + d =~= (a + b) + m + (c + d));
    lemma_said(a + (b + m) + c + d, a + b, m, c + d);
}

proof fn lemma_reused(name: Seq<char>)
    ensures
        has_text(
            name + " is not that session any more (the label was reused); x to reload"@,
            name,
        ),
{
    let tail = " is not that session any more (the label was reused); x to reload"@;
    lemma_said(name + tail, Seq::empty(), name, tail);
}

/// A local attach lands in the window that was found or nowhere: never in one that
/// was not found, and never in another session than the one that was wanted. The
/// dashboard comes back exactly where that is configured.
pub proof fn an_attach_lands_where_it_was_meant_to(
    want: AttachWant,
    resolved: Result<EnterTarget, QError>,
    come_back: bool,
    r: Entering,
)
    requires
        is_entering(want, resolved, come_back, r),
    ensures
        resolved is Err ==> r is Say && has_text(r->Say_0@, error_text(resolved->Err_0))
            && has_text(r->Say_0@, want.name@),
        resolved is Ok && want.session is Some && want.session->0@ != resolved->Ok_0.session@
            ==> r is Say && has_text(r->Say_0@, want.name@),
        resolved is Ok && (want.session is None || want.session->0@ == resolved->Ok_0.session@) ==> {
            &&& come_back ==> r == Entering::Lend(resolved->Ok_0)
            &&& !come_back ==> r == Entering::Give(resolved->Ok_0)
        },
{
    if let Err(e) = resolved {
        lemma_cannot_enter(want.name@, e);
    } else {
        lemma_reused(want.name@);
    }
}

/// An attach on another machine goes to the alias that machine is configured
/// under. A finished quest has no session there, and a machine that is not
/// configured is not reached.
pub proof fn a_far_attach_goes_to_the_machine_of_the_quest(
    want: AttachWant,
    machine: Seq<char>,
    found: Result<Remote, QError>,
    come_back: bool,
    r: EnteringFar,
)
    requires
        is_entering_far(want, machine, found, come_back, r),
    ensures
        found is Err ==> r is Say && has_text(r->Say_0@, error_text(found->Err_0)),
        found is Ok && want.quest.state == QuestState::Finished ==> r is Say && has_text(
            r->Say_0@,
            want.name@,
        ) && has_text(r->Say_0@, machine),
        found is Ok && want.quest.state != QuestState::Finished && come_back ==> r is Lend
            && r->Lend_0@ == found->Ok_0.ssh@,
        found is Ok && want.quest.state != QuestState::Finished && !come_back ==> r is Give
            && r->Give_0@ == found->Ok_0.ssh@,
{
    if let Err(e) = found {
        lemma_cannot_enter(want.name@, e);
    } else if want.quest.state == QuestState::Finished {
        lemma_said(
            r->Say_0@,
            Seq::empty(),
            want.name@,
            " is finished on "@ + machine + "; resume it there"@,
        );
        lemma_said(
            r->Say_0@,
            want.name@ + " is finished on "@,
            machine,
            "; resume it there"@,
        );
    }
}

/// Once the terminal is back, what is said names where it was, and why not where
/// it was not.
pub proof fn coming_back_says_from_where(
    name: Seq<char>,
    landing: Landing,
    e: QError,
    inside: bool,
    i: int,
)
    requires
        0 <= i < landing.warnings.len(),
        landing.warnings[i]@.len() > 0,
    ensures
        has_text(back_text(name, Ok(()), inside), name),
        back_text(name, Ok(()), true) != back_text(name, Ok(()), false),
        has_text(back_text(name, Err(e), inside), name),
        has_text(back_text(name, Err(e), inside), error_text(e)),
        has_text(landed_text(landing, Ok(()), inside), landing.warnings[i]@),
        has_text(landed_text(landing, Err(e), inside), landing.warnings[i]@),
{
    reveal_strlit("switched to ");
    reveal_strlit("back from ");
    assert(back_text(name, Ok(()), true)[0] == 's');
    assert(back_text(name, Ok(()), false)[0] == 'b');
    let said = back_text(name, Ok(()), inside);
    if inside {
        lemma_said(said, "switched to "@, name, Seq::empty());
    } else {
        lemma_said(said, "back from "@, name, Seq::empty());
    }
    lemma_cannot_enter(name, e);
    let warnings = texts(landing.warnings@);
    assert(warnings[i] == landing.warnings[i]@);
    let worked = if inside {
        "switched to "@ + landing.name@
    } else {
        "back from "@ + landing.name@
    };
    a_line_holds_all_that_was_put_on_it(worked, warnings, i);
    a_line_holds_all_that_was_put_on_it(
        landing.name@ + " is running; cannot enter it: "@ + error_text(e),
        warnings,
        i,
    );
}

/// What a read on another machine printed is paged as it came. One that failed, or
/// printed nothing but white space, is only spoken of.
pub proof fn a_read_elsewhere_is_paged_as_it_came(
    sub: Seq<char>,
    slug: Seq<char>,
    machine: Seq<char>,
    success: bool,
    stdout: Seq<char>,
    said: Seq<char>,
    r: Paged,
)
    requires
        is_paged(sub, slug, machine, success, stdout, said, r),
    ensures
        r is Page ==> success && r->Page_0@ == stdout,
        !success ==> r is Say && has_text(r->Say_0@, said),
        success && all_space(stdout) ==> r is Say,
        success && !all_space(stdout) ==> r is Page,
        r is Say ==> has_text(r->Say_0@, slug) && has_text(r->Say_0@, machine),
{
    let (a, b) = crate::text_laws::trimming_takes_nothing_else(stdout);
    let m = crate::text::trimmed(stdout);
    if all_space(stdout) {
        if m.len() > 0 {
            assert(stdout[a.len() as int] == m[0]);
        }
    } else if m.len() == 0 {
        assert forall|i: int| 0 <= i < stdout.len() implies crate::text::is_space(
            #[trigger] stdout[i],
        ) by {
            if i < a.len() {
                assert(stdout[i] == a[i]);
            } else {
                assert(stdout[i] == b[i - a.len()]);
            }
        }
    }
    if r is Say {
        let text = r->Say_0@;
        if !success {
            lemma_said(
                text,
                "q "@ + sub + " "@,
                slug,
                " on "@ + machine + ": "@ + said,
            );
            lemma_said(text, "q "@ + sub + " "@ + slug + " on "@, machine, ": "@ + said);
            lemma_said(
                text,
                "q "@ + sub + " "@ + slug + " on "@ + machine + ": "@,
                said,
                Seq::empty(),
            );
        } else {
            lemma_said(text, sub + " of "@, slug, " on "@ + machine + ": nothing to show"@);
            lemma_said(
                text,
                sub + " of "@ + slug + " on "@,
                machine,
                ": nothing to show"@,
            );
        }
    }
}

/// What is said of a command on another machine names the command, and where it
/// ran the quest and the machine too; a code and a reason are passed on.
pub proof fn a_command_elsewhere_is_reported(
    sub: Seq<char>,
    slug: Seq<char>,
    machine: Seq<char>,
    ended: Ended,
)
    ensures
        has_text(written_text(sub, slug, machine, ended), sub),
        !(ended is Failed) ==> has_text(written_text(sub, slug, machine, ended), slug) && has_text(
            written_text(sub, slug, machine, ended),
            machine,
        ),
        ended is Code ==> has_text(
            written_text(sub, slug, machine, ended),
            crate::text::signed(ended->Code_0 as int),
        ),
        ended is Failed ==> has_text(written_text(sub, slug, machine, ended), ended->Failed_0@),
{
    let text = written_text(sub, slug, machine, ended);
    match ended {
        Ended::Success => {
            let tail = " \u{b7} it updates at the next remote tick"@;
            lemma_said(text, Seq::empty(), sub, " "@ + slug + " on "@ + machine + tail);
            lemma_said(text, sub + " "@, slug, " on "@ + machine + tail);
            lemma_said(text, sub + " "@ + slug + " on "@, machine, tail);
        },
        Ended::Code(code) => {
            let tail = " exited "@ + crate::text::signed(code as int);
            lemma_said(text, "q "@, sub, " "@ + slug + " on "@ + machine + tail);
            lemma_said(text, "q "@ + sub + " "@, slug, " on "@ + machine + tail);
            lemma_said(text, "q "@ + sub + " "@ + slug + " on "@, machine, tail);
            lemma_said(
                text,
                "q "@ + sub + " "@ + slug + " on "@ + machine + " exited "@,
                crate::text::signed(code as int),
                Seq::empty(),
            );
        },
        Ended::Signal => {
            let tail = " was killed by a signal"@;
            lemma_said(text, "q "@, sub, " "@ + slug + " on "@ + machine + tail);
            lemma_said(text, "q "@ + sub + " "@, slug, " on "@ + machine + tail);
            lemma_said(text, "q "@ + sub + " "@ + slug + " on "@, machine, tail);
        },
        Ended::Failed(why) => {
            lemma_said(text, "cannot run q "@, sub, ": "@ + why@);
            lemma_said(text, "cannot run q "@ + sub + ": "@, why@, Seq::empty());
        },
    }
}

/// A key that means something does what the key does, a mouse event what the mouse
/// does where it is on, and pasted text goes where text is read.
pub proof fn an_event_reaches_the_dashboard(a: AppV, ev: Event)
    ensures
        ev is Key && crate::keys::normalized(ev->Key_0) is Some ==> {
            let (action, b) = crate::app::app_key(a, crate::keys::normalized(ev->Key_0)->0);
            applied(a, ev) == (action, true, b)
        },
        ev is Mouse && a.mouse && crate::keys::normalized_mouse(ev->Mouse_0) is Some ==> {
            let (action, b) = crate::app::app_mouse(
                a,
                crate::keys::normalized_mouse(ev->Mouse_0)->0,
            );
            applied(a, ev) == (action, true, b)
        },
        ev is Paste ==> {
            let (changed, b) = crate::app::app_paste(a, ev->Paste_0@);
            applied(a, ev) == (Action::Nothing, changed, b)
        },
{
}

/// A turn folds in the round that came with it, and none where none did; that the
/// poller died is said once, and that it lives is not.
pub proof fn a_turn_folds_the_round_in(
    s: Loop,
    a: AppV,
    round: Option<Seq<RemoteResult>>,
    alive: Option<bool>,
    now: int,
)
    ensures
        ({
            let (t, b) = turned(s, a, round, alive, now);
            let dead = alive == Some(false) && !s.stopped;
            &&& round is Some ==> b.quests.remote == rows_by_machine(round->0).flatten()
            &&& round is None ==> b.quests == a.quests && b.remote_tmux == a.remote_tmux
            &&& dead ==> b.remote_note == Some("remote polling stopped"@) && t.stopped && t.dirty
            &&& !dead ==> t.stopped == s.stopped
            &&& !dead && round is None ==> b.remote_note == a.remote_note
            &&& !dead && round is Some ==> b.remote_note == absorbed(a, round->0).remote_note
            &&& b.status == a.status && b.modal == a.modal && b.tab == a.tab
        }),
{
    if let Some(results) = round {
        a_round_keeps_the_rows_of_every_machine(a, results);
    }
}

/// The first line of a text is what stands before its first line break, once the
/// white space around the text is gone.
pub proof fn the_first_line_stands_before_the_first_break(
    s: Seq<char>,
    line: Seq<char>,
    rest: Seq<char>,
)
    requires
        !line.contains('\n'),
        line.len() > 0 && line.last() != '\r',
    ensures
        crate::text::trimmed(s) == line ==> crate::shell::first_line_of(s) == line,
        crate::text::trimmed(s) == line + seq!['\n'] + rest ==> crate::shell::first_line_of(s) == line,
        crate::text::trimmed(s).len() == 0 ==> crate::shell::first_line_of(s).len() == 0,
{
    let t = crate::text::trimmed(s);
    let n = line.len() as int;
    if t == line {
        assert forall|i: int| 0 <= i < n implies t[i] != '\n' by {
            assert(line.contains(line[i]));
        }
        crate::text::lemma_find_char_at(t, '\n', n);
    }
    if t == line + seq!['\n'] + rest {
        assert forall|i: int| 0 <= i < n implies t[i] != '\n' by {
            assert(line.contains(line[i]));
            assert(t[i] == line[i]);
        }
        crate::text::lemma_find_char_at(t, '\n', n);
        assert(t.take(n) =~= line);
    }
}

/// Back from a new master it is said which, and where it could not be entered that
/// it runs all the same, and why.
pub proof fn landing_names_the_master(landing: Landing, e: QError, inside: bool)
    requires
        landing.name@.len() > 0,
    ensures
        has_text(landed_text(landing, Ok(()), inside), landing.name@),
        has_text(landed_text(landing, Err(e), inside), landing.name@),
        has_text(landed_text(landing, Err(e), inside), error_text(e)),
{
    reveal_strlit("switched to ");
    reveal_strlit("back from ");
    reveal_strlit(" is running; cannot enter it: ");
    let name = landing.name@;
    let ok = if inside {
        "switched to "@ + name
    } else {
        "back from "@ + name
    };
    let mid = " is running; cannot enter it: "@;
    let bad = name + mid + error_text(e);
    let rest = texts(landing.warnings@);
    lemma_head_stands(ok, rest);
    lemma_head_stands(bad, rest);
    if inside {
        lemma_said(ok, "switched to "@, name, Seq::empty());
    } else {
        lemma_said(ok, "back from "@, name, Seq::empty());
    }
    crate::tmux_laws::lemma_occurs_through(landed_text(landing, Ok(()), inside), ok, name);
    assert(bad =~= Seq::<char>::empty() + name + (mid + error_text(e)));
    lemma_said(bad, Seq::empty(), name, mid + error_text(e));
    lemma_said(bad, name + mid, error_text(e), Seq::empty());
    crate::tmux_laws::lemma_occurs_through(landed_text(landing, Err(e), inside), bad, name);
    crate::tmux_laws::lemma_occurs_through(
        landed_text(landing, Err(e), inside),
        bad,
        error_text(e),
    );
}

proof fn lemma_head_stands(head: Seq<char>, rest: Seq<Seq<char>>)
    requires
        head.len() > 0,
    ensures
        has_text(on_one_line(head, rest), head),
{
    let parts = seq![head] + rest;
    let kept = without_empty(parts);
    lemma_kept(parts, 0);
    let k = choose|k: int| 0 <= k < kept.len() && kept[k] == parts[0];
    joining_keeps_every_part(kept, " \u{b7} "@, k);
}

} // verus!
