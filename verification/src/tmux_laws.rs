//! What is asked of tmux, and how its answers are read.
use vstd::prelude::*;
use vstd::string::*;
use crate::model::{error_text, role_text, QError, Session, SessionRole};
use crate::quest_laws::lemma_said;
use crate::table::pairs_view;
use crate::text::{
    all_digits, digits_value, has_text, is_digit, joined, lemma_find_char_at, lines, split, texts,
    trimmed,
};
use crate::text_laws::joining_keeps_every_part;
use crate::tmux::{
    args_attach, args_capture_pane, args_display_pane, args_has_session, args_kill_session,
    args_kill_window, args_new_session, args_new_window, args_paste_buffer, args_rename_session,
    args_rename_window, args_select_window, args_send_keys, args_set_buffer, args_switch_client,
    argvs, attach_step, current_session, env_flags, first_digit, last_of, leading_digits,
    leading_id, live_among, number_first, opened_session, opened_window, orphaned, pane_line,
    pane_of, panes_among, panes_view, paste_start, paste_step, quest_env, run_result,
    session_holding, session_name, tail_of, version_of, window_holding, without_blank_tail,
    AttachEvent, AttachPhase, AttachStep, Finished, NewSession, NewWindow, Opened, Pane, PaneV,
    PastePhase, PasteStep,
};

verus! {

// -------------------------------------------------------------------- versions

/// A version is read off the first digits of the text, and off the digits behind
/// the point that follows them.
pub proof fn a_version_is_its_first_two_numbers(
    raw: Seq<char>,
    a: Seq<char>,
    major: Seq<char>,
    minor: Seq<char>,
    b: Seq<char>,
)
    requires
        trimmed(raw) == a + major + seq!['.'] + minor + b,
        forall|i: int| 0 <= i < a.len() ==> !is_digit(#[trigger] a[i]),
        all_digits(major),
        all_digits(minor),
        b.len() > 0 ==> !is_digit(b[0]),
        digits_value(major) <= u32::MAX,
        digits_value(minor) <= u32::MAX,
    ensures
        version_of(raw) == Some((digits_value(major) as u32, digits_value(minor) as u32)),
{
    let text = trimmed(raw);
    let tail = seq!['.'] + minor + b;
    assert(text =~= a + (major + tail));
    assert(is_digit(major[0]));
    lemma_before_digits(text, a.len() as int);
    let rest = text.skip(a.len() as int);
    assert(rest =~= major + tail);
    assert(!is_digit('.'));
    lemma_number(major, tail);
    assert(rest.skip(major.len() as int) =~= tail);
    assert(tail.skip(1) =~= minor + b);
    lemma_number(minor, b);
}

/// With no point behind the first digits the second number is zero, and with no
/// digit at all there is no version.
pub proof fn a_version_may_lack_its_second_number(
    raw: Seq<char>,
    a: Seq<char>,
    major: Seq<char>,
    b: Seq<char>,
)
    requires
        trimmed(raw) == a + major + b,
        forall|i: int| 0 <= i < a.len() ==> !is_digit(#[trigger] a[i]),
        b.len() > 0 ==> !is_digit(b[0]) && b[0] != '.',
        major.len() > 0 ==> all_digits(major) && digits_value(major) <= u32::MAX,
        major.len() == 0 ==> b.len() == 0,
    ensures
        major.len() > 0 ==> version_of(raw) == Some((digits_value(major) as u32, 0u32)),
        major.len() == 0 ==> version_of(raw) is None,
{
    let text = trimmed(raw);
    assert(text =~= a + (major + b));
    if major.len() > 0 {
        assert(is_digit(major[0]));
    }
    lemma_before_digits(text, a.len() as int);
    let rest = text.skip(a.len() as int);
    assert(rest =~= major + b);
    if major.len() > 0 {
        lemma_number(major, b);
    } else {
        assert(rest.take(0).len() == 0);
    }
}

proof fn lemma_before_digits(s: Seq<char>, n: int)
    requires
        0 <= n <= s.len(),
        forall|i: int| 0 <= i < n ==> !is_digit(#[trigger] s[i]),
        n < s.len() ==> is_digit(s[n]),
    ensures
        first_digit(s) == n,
    decreases s.len(),
{
    if n > 0 {
        assert(!is_digit(s[0]));
        assert forall|i: int| 0 <= i < n - 1 implies !is_digit(#[trigger] s.drop_first()[i]) by {
            assert(s.drop_first()[i] == s[i + 1]);
        }
        lemma_before_digits(s.drop_first(), n - 1);
    }
}

proof fn lemma_digits_lead(d: Seq<char>, rest: Seq<char>)
    requires
        forall|i: int| 0 <= i < d.len() ==> is_digit(#[trigger] d[i]),
        rest.len() > 0 ==> !is_digit(rest[0]),
    ensures
        leading_digits(d + rest) == d.len(),
    decreases d.len(),
{
    let s = d + rest;
    if d.len() > 0 {
        assert(is_digit(d[0]));
        assert(s.drop_first() =~= d.drop_first() + rest);
        assert forall|i: int| 0 <= i < d.drop_first().len() implies is_digit(
            #[trigger] d.drop_first()[i],
        ) by {
            assert(is_digit(d[i + 1]));
        }
        lemma_digits_lead(d.drop_first(), rest);
    }
}

proof fn lemma_number(d: Seq<char>, rest: Seq<char>)
    requires
        all_digits(d),
        digits_value(d) <= u32::MAX,
        rest.len() > 0 ==> !is_digit(rest[0]),
    ensures
        number_first(d + rest) == Some((digits_value(d) as u32, rest)),
{
    lemma_digits_lead(d, rest);
    assert((d + rest).take(d.len() as int) =~= d);
    assert((d + rest).skip(d.len() as int) =~= rest);
}

// ----------------------------------------------------------------------- panes

/// What one line describes does not depend on the others: the panes of two
/// listings one after the other are the panes of each.
pub proof fn a_listing_is_read_line_by_line(a: Seq<Seq<char>>, b: Seq<Seq<char>>)
    ensures
        panes_among(a + b) == panes_among(a) + panes_among(b),
    decreases b.len(),
{
    if b.len() == 0 {
        assert(a + b =~= a);
        assert(panes_among(a) + panes_among(b) =~= panes_among(a));
    } else {
        a_listing_is_read_line_by_line(a, b.drop_last());
        assert((a + b).drop_last() =~= a + b.drop_last());
        assert((a + b).last() == b.last());
        match pane_of(b.last()) {
            Some(p) => {
                assert((panes_among(a) + panes_among(b.drop_last())).push(p) =~= panes_among(a)
                    + panes_among(b.drop_last()).push(p));
            },
            None => {},
        }
    }
}

/// A listing of panes written in the pane format gives back those panes, every
/// one of them and in order; a line that describes none is passed over.
pub proof fn a_listing_reads_back(panes: Seq<PaneV>, junk: Seq<char>)
    requires
        forall|i: int|
            0 <= i < panes.len() ==> (#[trigger] panes[i]).pane_id.len() > 0
                && !panes[i].pane_id.contains('\t') && !panes[i].session_name.contains('\t')
                && !panes[i].window_name.contains('\t'),
        pane_of(junk) is None,
    ensures
        panes_among(Seq::new(panes.len(), |i: int| pane_line(panes[i]))) == panes,
        panes_among(seq![junk] + Seq::new(panes.len(), |i: int| pane_line(panes[i]))) == panes,
    decreases panes.len(),
{
    let ls = Seq::new(panes.len(), |i: int| pane_line(panes[i]));
    if panes.len() > 0 {
        let front = panes.drop_last();
        assert forall|i: int| 0 <= i < front.len() implies (#[trigger] front[i]).pane_id.len() > 0
            && !front[i].pane_id.contains('\t') && !front[i].session_name.contains('\t')
            && !front[i].window_name.contains('\t') by {
            assert(front[i] == panes[i]);
        }
        a_listing_reads_back(front, junk);
        assert(ls.drop_last() =~= Seq::new(front.len(), |i: int| pane_line(front[i])));
        crate::tmux::a_pane_line_reads_back(panes.last());
        assert(front.push(panes.last()) =~= panes);
    }
    a_listing_is_read_line_by_line(seq![junk], ls);
    assert(seq![junk].drop_last().len() == 0);
    assert(panes_among(seq![junk].drop_last()) =~= Seq::empty());
    assert(panes_among(seq![junk]) =~= Seq::empty());
    assert(panes_among(seq![junk]) + panes_among(ls) =~= panes_among(ls));
}

/// A line with fewer than five fields, with an empty id, or with something else
/// than a number for the process or the window describes no pane.
pub proof fn a_broken_line_is_no_pane(text: Seq<char>)
    requires
        ({
            let f = split(crate::tmux::without_returns(text), '\t');
            ||| f.len() < 5
            ||| f[0].len() == 0
            ||| crate::text::parsed_i32(f[1]) is None
            ||| crate::text::parsed_i32(f[4]) is None
        }),
    ensures
        pane_of(text) is None,
{
}

/// The id of a pane is known even where the rest of its line is not: a percent sign
/// and digits before the first tab.
pub proof fn an_id_leads_its_line(n: Seq<char>, rest: Seq<char>)
    requires
        all_digits(n),
    ensures
        leading_id(seq!['%'] + n) == Some(seq!['%'] + n),
        leading_id(seq!['%'] + n + seq!['\t'] + rest) == Some(seq!['%'] + n),
{
    let id = seq!['%'] + n;
    assert forall|i: int| 0 <= i < id.len() implies id[i] != '\t' by {
        if i > 0 {
            assert(is_digit(n[i - 1]));
        }
    }
    lemma_find_char_at(id, '\t', id.len() as int);
    assert(id.take(id.len() as int) =~= id);
    assert(id.skip(1) =~= n);
    let s = id + seq!['\t'] + rest;
    lemma_find_char_at(s, '\t', id.len() as int);
    assert(s.take(id.len() as int) =~= id);
}

/// A pane's session is that of the first pane of that id in the listing, and a
/// pane that is not listed has none.
pub proof fn a_pane_sits_in_the_session_it_is_listed_in(
    panes: Seq<PaneV>,
    pane_id: Seq<char>,
    i: int,
)
    requires
        0 <= i <= panes.len(),
        forall|j: int| 0 <= j < i ==> (#[trigger] panes[j]).pane_id != pane_id,
        i < panes.len() ==> panes[i].pane_id == pane_id,
    ensures
        i < panes.len() ==> session_holding(panes, pane_id) == Some(panes[i].session_name),
        i == panes.len() ==> session_holding(panes, pane_id) is None,
    decreases panes.len(),
{
    if i > 0 {
        assert(panes[0].pane_id != pane_id);
        let rest = panes.drop_first();
        assert forall|j: int| 0 <= j < i - 1 implies (#[trigger] rest[j]).pane_id != pane_id by {
            assert(rest[j] == panes[j + 1]);
        }
        a_pane_sits_in_the_session_it_is_listed_in(rest, pane_id, i - 1);
    }
}

/// A pane's window is that of the first pane of that id whose window has a name.
pub proof fn a_pane_sits_in_the_window_it_is_listed_in(
    panes: Seq<PaneV>,
    pane_id: Seq<char>,
    i: int,
)
    requires
        0 <= i <= panes.len(),
        forall|j: int|
            0 <= j < i ==> (#[trigger] panes[j]).pane_id != pane_id || panes[j].window_name.len()
                == 0,
        i < panes.len() ==> panes[i].pane_id == pane_id && panes[i].window_name.len() > 0,
    ensures
        i < panes.len() ==> window_holding(panes, pane_id) == Some(panes[i].window_name),
        i == panes.len() ==> window_holding(panes, pane_id) is None,
    decreases panes.len(),
{
    if i > 0 {
        assert(panes[0].pane_id != pane_id || panes[0].window_name.len() == 0);
        let rest = panes.drop_first();
        assert forall|j: int| 0 <= j < i - 1 implies (#[trigger] rest[j]).pane_id != pane_id
            || rest[j].window_name.len() == 0 by {
            assert(rest[j] == panes[j + 1]);
        }
        a_pane_sits_in_the_window_it_is_listed_in(rest, pane_id, i - 1);
    }
}

/// The session a process runs in is that of its own pane; outside tmux, or where
/// the listing failed, there is none.
pub proof fn a_process_runs_where_its_pane_is(
    own: Option<&str>,
    listed: Result<Vec<Pane>, QError>,
    r: Option<String>,
    i: int,
)
    requires
        call_ensures(current_session, (own, listed), r),
    ensures
        own is None || listed is Err ==> r is None,
        own is Some && own->0@.len() == 0 ==> r is None,
        own is Some && own->0@.len() > 0 && listed is Ok && 0 <= i < listed->Ok_0.len()
            && listed->Ok_0[i].pane_id@ == own->0@ && (forall|j: int|
            0 <= j < i ==> (#[trigger] listed->Ok_0[j]).pane_id@ != own->0@) ==> r is Some && r->0@
            == listed->Ok_0[i].session_name@,
{
    if own is Some && own->0@.len() > 0 && listed is Ok && 0 <= i < listed->Ok_0.len()
        && listed->Ok_0[i].pane_id@ == own->0@ && (forall|j: int|
        0 <= j < i ==> (#[trigger] listed->Ok_0[j]).pane_id@ != own->0@) {
        let v = panes_view(listed->Ok_0@);
        assert forall|j: int| 0 <= j < i implies (#[trigger] v[j]).pane_id != own->0@ by {
            assert(listed->Ok_0[j].pane_id@ != own->0@);
        }
        a_pane_sits_in_the_session_it_is_listed_in(v, own->0@, i);
    }
}

// ---------------------------------------------------------------- liveness

/// A pane of the right id in another session is not the session's pane, so a
/// session with that alone is an orphan.
pub proof fn a_recycled_id_keeps_no_session_alive(s: Session, panes: Seq<PaneV>, now: i64)
    requires
        s.tmux_pane@.len() > 0,
        forall|i: int|
            0 <= i < panes.len() && (#[trigger] panes[i]).pane_id == s.tmux_pane@
                ==> panes[i].session_name != s.tmux_session@,
    ensures
        orphaned(s, panes, now) == Some("pane_gone"@),
{
}

/// A session that never got a pane is an orphan once its grace is over, however
/// many panes there are.
pub proof fn a_session_that_never_started_is_an_orphan(s: Session, panes: Seq<PaneV>, now: i64)
    requires
        s.tmux_pane@.len() == 0,
        now > s.started_at + 10,
    ensures
        orphaned(s, panes, now) == Some("never_started"@),
{
}

/// A listing that was given is read as it is; no server is no pane; any other
/// failure is handed on.
pub proof fn no_server_is_no_pane(
    listed: Result<Vec<Pane>, QError>,
    r: Result<Vec<Pane>, QError>,
    a: Seq<char>,
    b: Seq<char>,
)
    requires
        call_ensures(live_among, (listed,), r),
    ensures
        listed is Ok ==> r is Ok && r->Ok_0 == listed->Ok_0,
        listed is Err && error_text(listed->Err_0) == a + "no server running"@ + b ==> r is Ok
            && r->Ok_0.len() == 0,
        listed is Err && !has_text(error_text(listed->Err_0), "no server running"@) ==> r is Err
            && r->Err_0 == listed->Err_0,
{
    if listed is Err && error_text(listed->Err_0) == a + "no server running"@ + b {
        lemma_said(error_text(listed->Err_0), a, "no server running"@, b);
    }
}

// ------------------------------------------------------------------- arguments

/// Every command on a session or a window names it exactly: a session behind `=`,
/// which keeps tmux from taking a longer name, and a pane by its id.
pub proof fn commands_name_their_target_exactly(
    name: &str,
    other: &str,
    kill: Vec<String>,
    has: Vec<String>,
    attach: Vec<String>,
    switch: Vec<String>,
    rename: Vec<String>,
    display: Vec<String>,
)
    requires
        call_ensures(args_kill_session, (name,), kill),
        call_ensures(args_has_session, (name,), has),
        call_ensures(args_attach, (name,), attach),
        call_ensures(args_switch_client, (name,), switch),
        call_ensures(args_rename_session, (name, other), rename),
        call_ensures(args_display_pane, (name,), display),
    ensures
        kill.len() == 3 && kill[0]@ == "kill-session"@ && kill[2]@ == "="@ + name@,
        has.len() == 3 && has[0]@ == "has-session"@ && has[2]@ == "="@ + name@,
        attach.len() == 3 && attach[0]@ == "attach"@ && attach[2]@ == "="@ + name@,
        switch.len() == 3 && switch[0]@ == "switch-client"@ && switch[2]@ == "="@ + name@,
        rename.len() == 4 && rename[0]@ == "rename-session"@ && rename[2]@ == "="@ + name@
            && rename[3]@ == other@,
        display.len() == 5 && display[3]@ == "="@ + name@,
{
    assert(texts(kill@).len() == 3 && texts(has@).len() == 3 && texts(attach@).len() == 3);
    assert(texts(switch@).len() == 3 && texts(rename@).len() == 4 && texts(display@).len() == 5);
    assert(texts(kill@)[0] == kill[0]@ && texts(kill@)[2] == kill[2]@);
    assert(texts(has@)[0] == has[0]@ && texts(has@)[2] == has[2]@);
    assert(texts(attach@)[0] == attach[0]@ && texts(attach@)[2] == attach[2]@);
    assert(texts(switch@)[0] == switch[0]@ && texts(switch@)[2] == switch[2]@);
    assert(texts(rename@)[0] == rename[0]@ && texts(rename@)[2] == rename[2]@);
    assert(texts(rename@)[3] == rename[3]@);
    assert(texts(display@)[3] == display[3]@);
}

/// The commands on a pane name the pane by its id, as it is.
pub proof fn commands_name_their_pane(
    pane_id: &str,
    other: &str,
    lines_wanted: usize,
    kill: Vec<String>,
    select: Vec<String>,
    rename: Vec<String>,
    capture: Vec<String>,
    paste: Vec<String>,
)
    requires
        call_ensures(args_kill_window, (pane_id,), kill),
        call_ensures(args_select_window, (pane_id,), select),
        call_ensures(args_rename_window, (pane_id, other), rename),
        call_ensures(args_capture_pane, (pane_id, lines_wanted), capture),
        call_ensures(args_paste_buffer, (pane_id, other), paste),
    ensures
        texts(kill@) == seq!["kill-window"@, "-t"@, pane_id@],
        texts(select@) == seq!["select-window"@, "-t"@, pane_id@],
        texts(rename@) == seq!["rename-window"@, "-t"@, pane_id@, other@],
        texts(capture@).take(4) == seq!["capture-pane"@, "-p"@, "-t"@, pane_id@],
        texts(capture@).last() == "-"@ + crate::text::decimal(lines_wanted as nat),
        texts(paste@).contains(pane_id@),
        texts(paste@).contains(other@),
        texts(paste@).contains("-p"@),
        texts(paste@).contains("-d"@),
{
    assert(texts(capture@).take(4) =~= seq!["capture-pane"@, "-p"@, "-t"@, pane_id@]);
    let t = texts(paste@);
    assert(t[6] == pane_id@ && t[4] == other@ && t[1] == "-p"@ && t[2] == "-d"@);
}

/// Text that is sent to a pane is sent literally and as it is, and Enter only
/// where it was asked for, and after it.
pub proof fn text_is_sent_as_it_is(
    pane_id: &str,
    text: &str,
    enter: bool,
    r: Vec<Vec<String>>,
    buffer: &str,
    fill: Vec<String>,
)
    requires
        call_ensures(args_send_keys, (pane_id, text, enter), r),
        call_ensures(args_set_buffer, (buffer, text), fill),
    ensures
        r.len() == if enter {
            2int
        } else {
            1
        },
        texts(r[0]@).last() == text@,
        texts(r[0]@).contains("-l"@),
        texts(r[0]@).contains(pane_id@),
        enter ==> texts(r[1]@) == seq!["send-keys"@, "-t"@, pane_id@, "Enter"@],
        texts(fill@).last() == text@,
        texts(fill@).contains(buffer@),
{
    assert(argvs(r@).len() == r.len());
    assert(argvs(r@)[0] == texts(r[0]@));
    if enter {
        assert(argvs(r@)[1] == texts(r[1]@));
    }
    let t = texts(r[0]@);
    assert(t[3] == "-l"@ && t[2] == pane_id@ && t[5] == text@);
    assert(texts(fill@)[2] == buffer@);
}

/// The environment is handed on pair by pair.
pub proof fn every_variable_is_handed_on(env: Seq<(String, String)>, i: int)
    requires
        0 <= i < env.len(),
    ensures
        env_flags(env).len() == 2 * env.len(),
        env_flags(env)[2 * i] == "-e"@,
        env_flags(env)[2 * i + 1] == env[i].0@ + "="@ + env[i].1@,
    decreases env.len(),
{
    lemma_flags(env.drop_last());
    if i < env.len() - 1 {
        every_variable_is_handed_on(env.drop_last(), i);
    }
}

proof fn lemma_flags(env: Seq<(String, String)>)
    ensures
        env_flags(env).len() == 2 * env.len(),
    decreases env.len(),
{
    if env.len() > 0 {
        lemma_flags(env.drop_last());
    }
}

/// A new session or window is opened detached, under its name, in its directory,
/// with its environment, and runs the command where there is one.
pub proof fn what_is_opened_is_what_was_asked_for(
    s: &NewSession,
    session: Vec<String>,
    w: &NewWindow,
    window: Vec<String>,
    i: int,
)
    requires
        call_ensures(args_new_session, (s,), session),
        call_ensures(args_new_window, (w,), window),
    ensures
        texts(session@).take(4) == seq!["new-session"@, "-d"@, "-s"@, s.name@],
        s.window_name@.len() > 0 ==> texts(session@).contains(s.window_name@),
        s.cwd@.len() > 0 ==> texts(session@).contains(s.cwd@),
        0 <= i < s.env.len() ==> texts(session@).contains(s.env[i].0@ + "="@ + s.env[i].1@),
        s.command is Some ==> texts(session@).last() == s.command->0@,
        texts(window@).take(4) == seq!["new-window"@, "-d"@, "-t"@, "="@ + (w.session@ + ":"@)],
        w.window_name@.len() > 0 ==> texts(window@).contains(w.window_name@),
        w.cwd@.len() > 0 ==> texts(window@).contains(w.cwd@),
        0 <= i < w.env.len() ==> texts(window@).contains(w.env[i].0@ + "="@ + w.env[i].1@),
        w.command is Some ==> texts(window@).last() == w.command->0@,
{
    let a = texts(session@);
    let b = texts(window@);
    assert(a.take(4) =~= seq!["new-session"@, "-d"@, "-s"@, s.name@]);
    assert(b.take(4) =~= seq!["new-window"@, "-d"@, "-t"@, "="@ + (w.session@ + ":"@)]);
    assert(a.skip(7) =~= crate::tmux::opening(s.window_name@, s.cwd@, s.env@, s.command));
    assert(b.skip(7) =~= crate::tmux::opening(w.window_name@, w.cwd@, w.env@, w.command));
    lemma_opening(a, 7, s.window_name@, s.cwd@, s.env@, s.command, i);
    lemma_opening(b, 7, w.window_name@, w.cwd@, w.env@, w.command, i);
}

proof fn lemma_opening(
    all: Seq<Seq<char>>,
    k: int,
    window_name: Seq<char>,
    cwd: Seq<char>,
    env: Seq<(String, String)>,
    command: Option<String>,
    i: int,
)
    requires
        0 <= k <= all.len(),
        all.skip(k) == crate::tmux::opening(window_name, cwd, env, command),
    ensures
        window_name.len() > 0 ==> all.contains(window_name),
        cwd.len() > 0 ==> all.contains(cwd),
        0 <= i < env.len() ==> all.contains(env[i].0@ + "="@ + env[i].1@),
        command is Some ==> all.last() == command->0@,
{
    let o = all.skip(k);
    let n: int = if window_name.len() > 0 {
        2
    } else {
        0
    };
    let c: int = if cwd.len() > 0 {
        2
    } else {
        0
    };
    lemma_flags(env);
    assert(o.len() >= n + c + 2 * env.len());
    assert(o.len() == all.len() - k);
    if window_name.len() > 0 {
        assert(o[1] == window_name);
        assert(all[k + 1] == o[1]);
    }
    if cwd.len() > 0 {
        assert(o[n + 1] == cwd);
        assert(all[k + n + 1] == o[n + 1]);
    }
    if 0 <= i < env.len() {
        every_variable_is_handed_on(env, i);
        assert(o[n + c + 2 * i + 1] == env_flags(env)[2 * i + 1]);
        assert(all[k + n + c + 2 * i + 1] == o[n + c + 2 * i + 1]);
    }
    if command is Some {
        assert(o.last() == command->0@);
        assert(o.len() > 0);
        assert(all.last() == o.last());
    }
}

/// What runs in a window is told its quest, its session, its role and its machine,
/// and the overrides where there are any.
pub proof fn a_window_is_told_what_it_is_for(
    quest_id: &str,
    session_id: &str,
    role: SessionRole,
    machine: &str,
    db: Option<&str>,
    config: Option<&str>,
    r: Vec<(String, String)>,
)
    requires
        call_ensures(quest_env, (quest_id, session_id, role, machine, db, config), r),
    ensures
        ({
            let e = pairs_view(r@);
            &&& e.contains(("Q_QUEST"@, quest_id@))
            &&& e.contains(("Q_SESSION"@, session_id@))
            &&& e.contains(("Q_ROLE"@, role_text(role)))
            &&& e.contains(("Q_MACHINE"@, machine@))
            &&& db is Some && db->0@.len() > 0 ==> e.contains(("Q_DB"@, db->0@))
            &&& config is Some && config->0@.len() > 0 ==> e.contains(("Q_CONFIG"@, config->0@))
            &&& e.len() == 4 + (if db is Some && db->0@.len() > 0 {
                1int
            } else {
                0
            }) + (if config is Some && config->0@.len() > 0 {
                1int
            } else {
                0
            })
        }),
{
    let e = pairs_view(r@);
    assert(e[0] == ("Q_QUEST"@, quest_id@));
    assert(e[1] == ("Q_SESSION"@, session_id@));
    assert(e[2] == ("Q_ROLE"@, role_text(role)));
    assert(e[3] == ("Q_MACHINE"@, machine@));
    let n: int = if db is Some && db->0@.len() > 0 {
        1
    } else {
        0
    };
    if n == 1 {
        assert(e[4] == ("Q_DB"@, db->0@));
    }
    if config is Some && config->0@.len() > 0 {
        assert(e[4 + n] == ("Q_CONFIG"@, config->0@));
    }
}

/// Two quests with two slugs have two tmux sessions.
pub proof fn each_quest_has_a_session_of_its_own(
    config: &crate::model::Config,
    a: &str,
    b: &str,
    x: String,
    y: String,
)
    requires
        call_ensures(session_name, (config, a), x),
        call_ensures(session_name, (config, b), y),
    ensures
        x@ == y@ <==> a@ == b@,
        crate::text::begins_with(x@, config.tmux.session_prefix@),
        has_text(x@, a@),
{
    let p = config.tmux.session_prefix@;
    if x@ == y@ {
        assert(a@ =~= x@.skip(p.len() as int));
        assert(b@ =~= y@.skip(p.len() as int));
    }
    assert(x@.subrange(0, p.len() as int) =~= p);
    lemma_said(x@, p, a@, Seq::empty());
}

// ---------------------------------------------------------------- runs and steps

/// A run that failed says which command failed, word for word, and what tmux
/// complained about; one that did not gives its output.
pub proof fn a_failed_run_says_what_failed(
    argv: &Vec<String>,
    out: Finished,
    r: Result<String, QError>,
    i: int,
)
    requires
        call_ensures(run_result, (argv, out), r),
    ensures
        out.success ==> r is Ok && r->Ok_0@ == out.stdout@,
        !out.success ==> r is Err && has_text(error_text(r->Err_0), trimmed(out.stderr@)),
        !out.success && 0 <= i < argv.len() ==> has_text(error_text(r->Err_0), argv[i]@),
{
    if !out.success {
        let t = error_text(r->Err_0);
        let words = joined(texts(argv@), " "@);
        let e = trimmed(out.stderr@);
        assert(t == "`tmux "@ + words + "` failed: "@ + e);
        assert(t =~= ("`tmux "@ + words + "` failed: "@) + e + Seq::empty());
        lemma_said(t, "`tmux "@ + words + "` failed: "@, e, Seq::empty());
        if 0 <= i < argv.len() {
            assert(texts(argv@)[i] == argv[i]@);
            joining_keeps_every_part(texts(argv@), " "@, i);
            assert(t =~= "`tmux "@ + words + ("` failed: "@ + e));
            lemma_said(t, "`tmux "@, words, "` failed: "@ + e);
            lemma_occurs_through(t, words, argv[i]@);
        }
    }
}

/// What occurs in something that occurs occurs.
pub(crate) proof fn lemma_occurs_through(t: Seq<char>, m: Seq<char>, x: Seq<char>)
    requires
        has_text(t, m),
        has_text(m, x),
    ensures
        has_text(t, x),
{
    let (a, b) = crate::text_laws::what_occurs_stands_somewhere(t, m);
    let (c, d) = crate::text_laws::what_occurs_stands_somewhere(m, x);
    assert(t =~= (a + c) + x + (d + b));
    lemma_said(t, a + c, x, d + b);
}

/// A session or a window whose pane cannot be read is taken down again, and
/// nothing else is: the session by its exact name, the window by the id its line
/// begins with.
pub proof fn what_cannot_be_read_is_taken_down(
    name: &str,
    stdout: &str,
    session: Opened,
    window: Opened,
)
    requires
        call_ensures(opened_session, (name, stdout), session),
        call_ensures(opened_window, (stdout,), window),
        lines(stdout@).len() > 0,
    ensures
        ({
            let text = lines(stdout@).last();
            &&& pane_of(text) is Some ==> session is Ready && session->Ready_0@ == pane_of(text)->0
                && window is Ready && window->Ready_0@ == pane_of(text)->0
            &&& pane_of(text) is None ==> {
                &&& session is Unreadable && window is Unreadable
                &&& session->cleanup is Some && texts(session->cleanup->0@) == seq![
                    "kill-session"@,
                    "-t"@,
                    "="@ + name@,
                ]
                &&& leading_id(text) is None ==> window->cleanup is None
                &&& leading_id(text) is Some ==> window->cleanup is Some && texts(
                    window->cleanup->0@,
                ) == seq!["kill-window"@, "-t"@, leading_id(text)->0]
                &&& has_text(error_text(session->error), text) && has_text(
                    error_text(window->error),
                    text,
                )
            }
        }),
{
    let text = lines(stdout@).last();
    if pane_of(text) is None {
        lemma_said(
            error_text(session->error),
            "cannot read the new session's pane: `"@,
            text,
            "`"@,
        );
        lemma_said(
            error_text(window->error),
            "cannot read the new window's pane: `"@,
            text,
            "`"@,
        );
    }
}

/// An attach selects the window of the pane first, where one is named, and none
/// where none is; an empty id selects nothing and fails.
pub proof fn an_attach_selects_the_pane_first(
    session: &str,
    pane: Option<&str>,
    inside: bool,
    r: AttachStep,
)
    requires
        call_ensures(attach_step, (AttachPhase::Begin, AttachEvent::Go, session, pane, inside), r),
    ensures
        pane is Some && pane->0@.len() > 0 ==> r is Run && texts(r->Run_0@) == seq![
            "select-window"@,
            "-t"@,
            pane->0@,
        ],
        pane is Some && pane->0@.len() == 0 ==> r is Fail,
        pane is None && inside ==> r is Locate,
        pane is None && !inside ==> r is Exec && texts(r->Exec_0@) == seq![
            "attach"@,
            "-t"@,
            "="@ + session@,
        ],
{
}

/// Inside tmux the client is moved to the session by its exact name, unless it is
/// there already; that there is no client to move is no failure, and any other
/// failure is one.
pub proof fn an_attach_moves_the_client(
    session: &str,
    pane: Option<&str>,
    inside: bool,
    at: Option<String>,
    located: AttachStep,
    ran: Result<String, QError>,
    switched: AttachStep,
    selected: AttachStep,
)
    requires
        call_ensures(
            attach_step,
            (AttachPhase::Locating, AttachEvent::Current(at), session, pane, inside),
            located,
        ),
        call_ensures(
            attach_step,
            (AttachPhase::Switching, AttachEvent::Ran(ran), session, pane, inside),
            switched,
        ),
        call_ensures(
            attach_step,
            (AttachPhase::Selecting, AttachEvent::Ran(ran), session, pane, inside),
            selected,
        ),
    ensures
        at is Some && at->0@ == session@ ==> located is Done,
        at is None || at->0@ != session@ ==> located is Run && texts(located->Run_0@) == seq![
            "switch-client"@,
            "-t"@,
            "="@ + session@,
        ],
        ran is Ok ==> switched is Done,
        ran is Err && has_text(error_text(ran->Err_0), "no current client"@) ==> switched is Warn,
        ran is Err && !has_text(error_text(ran->Err_0), "no current client"@) ==> switched is Fail
            && switched->Fail_0 == ran->Err_0,
        ran is Err ==> selected is Fail && selected->Fail_0 == ran->Err_0,
        ran is Ok && inside ==> selected is Locate,
        ran is Ok && !inside ==> selected is Exec && texts(selected->Exec_0@) == seq![
            "attach"@,
            "-t"@,
            "="@ + session@,
        ],
{
}

/// A paste fills a buffer with the text, pastes that buffer into the pane, and
/// sends Enter only where it was asked for. Where pasting fails the buffer is
/// dropped, and the failure is the one that is reported.
pub proof fn a_paste_goes_step_by_step(
    buffer: &str,
    text: &str,
    start: PasteStep,
    ran: Result<String, QError>,
    pane_id: &str,
    enter: bool,
    filled: PasteStep,
    pasted: PasteStep,
    entered: PasteStep,
)
    requires
        call_ensures(paste_start, (buffer, text), start),
        call_ensures(paste_step, (PastePhase::Filling, ran, pane_id, buffer, enter), filled),
        call_ensures(paste_step, (PastePhase::Pasting, ran, pane_id, buffer, enter), pasted),
        call_ensures(paste_step, (PastePhase::Entering, ran, pane_id, buffer, enter), entered),
    ensures
        start is Run && texts(start->Run_0@).contains(text@) && texts(start->Run_0@).contains(
            buffer@,
        ),
        ran is Ok ==> filled is Run && texts(filled->Run_0@)[0] == "paste-buffer"@ && texts(
            filled->Run_0@,
        ).contains(buffer@) && texts(filled->Run_0@).last() == pane_id@,
        ran is Ok && enter ==> pasted is Run && texts(pasted->Run_0@) == seq![
            "send-keys"@,
            "-t"@,
            pane_id@,
            "Enter"@,
        ],
        ran is Ok && !enter ==> pasted is Done,
        ran is Ok ==> entered is Done,
        ran is Err ==> filled is Fail && filled->Fail_0 == ran->Err_0,
        ran is Err ==> pasted is Drop && pasted->Drop_1 == ran->Err_0 && texts(pasted->Drop_0@)
            == seq!["delete-buffer"@, "-b"@, buffer@],
        ran is Err ==> entered is Fail && entered->Fail_0 == ran->Err_0,
{
    let t = texts(start->Run_0@);
    assert(t[4] == text@ && t[2] == buffer@);
    if ran is Ok {
        assert(texts(filled->Run_0@)[4] == buffer@);
    }
}

/// A capture keeps the last lines it was asked for, once the blank ones at the end
/// are gone, and all of them where it was asked for none.
pub proof fn a_capture_keeps_the_last_lines(
    buffer: Seq<char>,
    before: Seq<Seq<char>>,
    kept: Seq<Seq<char>>,
    blank: Seq<Seq<char>>,
)
    requires
        lines(buffer) == before + kept + blank,
        kept.len() > 0,
        trimmed(kept.last()).len() > 0,
        forall|i: int| 0 <= i < blank.len() ==> trimmed(#[trigger] blank[i]).len() == 0,
    ensures
        tail_of(buffer, kept.len() as int) == joined(kept, "\n"@),
        tail_of(buffer, 0) == joined(before + kept, "\n"@),
{
    lemma_blank_tail(before + kept, blank);
    let all = before + kept;
    assert(all.last() == kept.last());
    assert(last_of(all, kept.len() as int) =~= kept);
}

proof fn lemma_blank_tail(a: Seq<Seq<char>>, blank: Seq<Seq<char>>)
    requires
        a.len() > 0,
        trimmed(a.last()).len() > 0,
        forall|i: int| 0 <= i < blank.len() ==> trimmed(#[trigger] blank[i]).len() == 0,
    ensures
        without_blank_tail(a + blank) == a,
    decreases blank.len(),
{
    let all = a + blank;
    if blank.len() > 0 {
        assert(all.last() == blank[blank.len() - 1]);
        assert(all.drop_last() =~= a + blank.drop_last());
        assert forall|i: int| 0 <= i < blank.drop_last().len() implies trimmed(
            #[trigger] blank.drop_last()[i],
        ).len() == 0 by {
            assert(blank.drop_last()[i] == blank[i]);
        }
        lemma_blank_tail(a, blank.drop_last());
    } else {
        assert(all =~= a);
    }
}

/// A tmux that is not there is said to be missing; one that could not be run, or
/// attached with, says why, and an attach says to what.
pub proof fn a_tmux_that_cannot_be_run_says_why(
    detail: &str,
    session: &str,
    missing: QError,
    spawn: QError,
    gone: QError,
    attach: QError,
)
    requires
        call_ensures(crate::tmux::spawn_error, (true, detail), missing),
        call_ensures(crate::tmux::spawn_error, (false, detail), spawn),
        call_ensures(crate::tmux::attach_error, (true, session, detail), gone),
        call_ensures(crate::tmux::attach_error, (false, session, detail), attach),
    ensures
        error_text(missing) == "tmux not found on PATH"@,
        error_text(gone) == "tmux not found on PATH"@,
        has_text(error_text(spawn), detail@),
        has_text(error_text(attach), detail@),
        has_text(error_text(attach), session@),
{
    lemma_said(error_text(spawn), "cannot run tmux: "@, detail@, Seq::empty());
    let t = error_text(attach);
    assert(t =~= "cannot attach to `"@ + session@ + ("`: "@ + detail@));
    lemma_said(t, "cannot attach to `"@, session@, "`: "@ + detail@);
    lemma_said(t, "cannot attach to `"@ + session@ + "`: "@, detail@, Seq::empty());
}

/// The pane of a target is the one its last line describes; where that describes
/// none, the target is named.
pub proof fn the_pane_of_a_target_is_on_the_last_line(
    target: &str,
    stdout: &str,
    r: Result<Pane, QError>,
)
    requires
        call_ensures(crate::tmux::pane_at, (target, stdout), r),
        lines(stdout@).len() > 0,
    ensures
        pane_of(lines(stdout@).last()) is Some ==> r is Ok && r->Ok_0@ == pane_of(
            lines(stdout@).last(),
        )->0,
        pane_of(lines(stdout@).last()) is None ==> r is Err && has_text(
            error_text(r->Err_0),
            target@,
        ),
{
    if r is Err {
        lemma_said(error_text(r->Err_0), "cannot read pane of `"@, target@, "`"@);
    }
}

} // verus!
