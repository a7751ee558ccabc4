//! tmux: the arguments of each operation, what its output means, and which
//! sessions have lost their pane.
use vstd::prelude::*;
use vstd::string::*;
use crate::model::{error_text, is_tmux_error, role_text, Config, QError, Session, SessionRole, SessionStatus};
use crate::table::pairs_view;
use crate::text::{
    all_digits, chars_of, concat, concat3, contains, decimal, decimal_reads_back, find_char,
    has_text, is_digit, join, joined, lemma_find_char_at, lines, lines_of, number, owned,
    parse_digits_from, parse_i32, parsed_digits, parsed_i32, same, signed, split, split_at_char,
    string_between, texts, trim, trimmed,
};

verus! {

/// Tab-separated so session and window names may contain spaces.
pub const PANE_FORMAT: &'static str = "#{pane_id}\t#{pane_pid}\t#{session_name}\t#{window_name}\t#{window_index}";

/// What is said when there is no tmux to run.
pub const TMUX_MISSING: &'static str = "tmux not found on PATH";

/// Per-session environment (`new-session -e`) arrived in this version.
pub const MIN_TMUX: (u32, u32) = (3, 2);

// -------------------------------------------------------------------- versions

/// How many digits `s` begins with.
pub open spec fn leading_digits(s: Seq<char>) -> int
    decreases s.len(),
{
    if s.len() > 0 && is_digit(s[0]) {
        1 + leading_digits(s.drop_first())
    } else {
        0
    }
}

/// Where the first digit of `s` is, or the length of `s`.
pub open spec fn first_digit(s: Seq<char>) -> int
    decreases s.len(),
{
    if s.len() > 0 && !is_digit(s[0]) {
        1 + first_digit(s.drop_first())
    } else {
        0
    }
}

/// The number `s` begins with and what follows it; none where there is no digit
/// or the number does not fit.
pub open spec fn number_first(s: Seq<char>) -> Option<(u32, Seq<char>)> {
    let k = leading_digits(s);
    match parsed_digits(s.take(k), u32::MAX as nat) {
        Some(n) => Some((n as u32, s.skip(k))),
        None => None,
    }
}

/// `major.minor` out of a version text. A missing minor is zero, and so is one
/// that does not fit.
pub open spec fn version_of(raw: Seq<char>) -> Option<(u32, u32)> {
    let text = trimmed(raw);
    match number_first(text.skip(first_digit(text))) {
        Some((major, rest)) => {
            let minor = if rest.len() > 0 && rest[0] == '.' {
                match number_first(rest.skip(1)) {
                    Some((n, _)) => n,
                    None => 0,
                }
            } else {
                0
            };
            Some((major, minor))
        },
        None => None,
    }
}

proof fn lemma_leading_digits(s: Seq<char>, n: int)
    requires
        0 <= n <= s.len(),
        forall|i: int| 0 <= i < n ==> is_digit(#[trigger] s[i]),
        n < s.len() ==> !is_digit(s[n]),
    ensures
        leading_digits(s) == n,
    decreases s.len(),
{
    if n > 0 {
        assert(is_digit(s[0]));
        assert forall|i: int| 0 <= i < n - 1 implies is_digit(#[trigger] s.drop_first()[i]) by {
            assert(s.drop_first()[i] == s[i + 1]);
        }
        lemma_leading_digits(s.drop_first(), n - 1);
    }
}

proof fn lemma_first_digit(s: Seq<char>, n: int)
    requires
        0 <= n <= s.len(),
        forall|i: int| 0 <= i < n ==> !is_digit(#[trigger] s[i]),
        n < s.len() ==> is_digit(s[n]),
    ensures
        first_digit(s) == n,
    decreases s.len(),
{
    if n > 0 {
        assert(!is_digit(s[0]));
        assert forall|i: int| 0 <= i < n - 1 implies !is_digit(#[trigger] s.drop_first()[i]) by {
            assert(s.drop_first()[i] == s[i + 1]);
        }
        lemma_first_digit(s.drop_first(), n - 1);
    }
}

/// The number in `chars` from `from` on, and where it ends.
fn leading_number(chars: &Vec<char>, from: usize) -> (r: Option<(u32, usize)>)
    requires
        from <= chars.len(),
    ensures
        r is Some <==> number_first(chars@.skip(from as int)) is Some,
        r is Some ==> from <= (r->0).1 <= chars.len() && number_first(chars@.skip(from as int))
            == Some(((r->0).0, chars@.skip((r->0).1 as int))),
{
    let ghost s = chars@.skip(from as int);
    let mut end: usize = from;
    while end < chars.len() && '0' <= chars[end] && chars[end] <= '9'
        invariant
            from <= end <= chars.len(),
            s == chars@.skip(from as int),
            forall|i: int| 0 <= i < end - from ==> is_digit(#[trigger] s[i]),
        decreases chars.len() - end,
    {
        assert(s[end - from] == chars[end as int]);
        end += 1;
    }
    proof {
        if end < chars.len() {
            assert(s[end - from] == chars[end as int]);
        }
        lemma_leading_digits(s, end - from);
        assert(s.skip(end - from) =~= chars@.skip(end as int));
        assert(s.take(end - from) =~= chars@.subrange(from as int, end as int));
    }
    match parse_digits_from(chars, from, end, u32::MAX as u64) {
        Some(n) => Some((n as u32, end)),
        None => None,
    }
}

/// `major.minor` out of a `tmux -V` string: `tmux 3.6b` is `(3, 6)` and
/// `tmux next-3.7` is `(3, 7)`. `None` when no number is in there at all.
pub fn parse_version(raw: &str) -> (r: Option<(u32, u32)>)
    ensures
        r == version_of(raw@),
{
    let text = trim(raw);
    let chars = chars_of(text);
    let mut at: usize = 0;
    while at < chars.len() && !('0' <= chars[at] && chars[at] <= '9')
        invariant
            at <= chars.len(),
            forall|i: int| 0 <= i < at ==> !is_digit(#[trigger] chars@[i]),
        decreases chars.len() - at,
    {
        at += 1;
    }
    proof {
        lemma_first_digit(chars@, at as int);
    }
    match leading_number(&chars, at) {
        Some((major, end)) => {
            let ghost rest = chars@.skip(end as int);
            if end < chars.len() && chars[end] == '.' {
                proof {
                    assert(rest[0] == '.');
                    assert(rest.skip(1) =~= chars@.skip(end as int + 1));
                }
                match leading_number(&chars, end + 1) {
                    Some((minor, _)) => Some((major, minor)),
                    None => Some((major, 0)),
                }
            } else {
                proof {
                    assert(rest.len() > 0 ==> rest[0] == chars@[end as int]);
                }
                Some((major, 0))
            }
        },
        None => None,
    }
}

// ----------------------------------------------------------------------- panes

/// One tmux pane. Its id (`%42`) is a session's identity: it survives a rename
/// and a restart in the same pane.
#[derive(Debug, Clone, PartialEq, Eq)]
pub struct Pane {
    pub pane_id: String,
    pub pane_pid: i32,
    pub session_name: String,
    pub window_name: String,
    pub window_index: i32,
}

/// A pane as a value.
pub ghost struct PaneV {
    pub pane_id: Seq<char>,
    pub pane_pid: i32,
    pub session_name: Seq<char>,
    pub window_name: Seq<char>,
    pub window_index: i32,
}

impl View for Pane {
    type V = PaneV;

    open spec fn view(&self) -> PaneV {
        PaneV {
            pane_id: self.pane_id@,
            pane_pid: self.pane_pid,
            session_name: self.session_name@,
            window_name: self.window_name@,
            window_index: self.window_index,
        }
    }
}

/// Some panes as values.
pub open spec fn panes_view(v: Seq<Pane>) -> Seq<PaneV> {
    Seq::new(v.len(), |i: int| v[i]@)
}

/// A line without the carriage returns at its end.
pub open spec fn without_returns(s: Seq<char>) -> Seq<char>
    decreases s.len(),
{
    if s.len() > 0 && s.last() == '\r' {
        without_returns(s.drop_last())
    } else {
        s
    }
}

/// The pane a line of the pane format describes: at least five fields, the
/// second and the fifth of them numbers, the first not empty.
pub open spec fn pane_of(text: Seq<char>) -> Option<PaneV> {
    let f = split(without_returns(text), '\t');
    if f.len() >= 5 && f[0].len() > 0 && parsed_i32(f[1]) is Some && parsed_i32(f[4]) is Some {
        Some(
            PaneV {
                pane_id: f[0],
                pane_pid: parsed_i32(f[1])->0,
                session_name: f[2],
                window_name: f[3],
                window_index: parsed_i32(f[4])->0,
            },
        )
    } else {
        None
    }
}

/// What an optional pane is as a value.
pub open spec fn opt_pane(p: Option<Pane>) -> Option<PaneV> {
    match p {
        Some(p) => Some(p@),
        None => None,
    }
}

/// Reads one line of the pane format; `None` for anything else.
pub fn parse_pane(text: &str) -> (r: Option<Pane>)
    ensures
        opt_pane(r) == pane_of(text@),
{
    let chars = chars_of(text);
    let mut end: usize = chars.len();
    proof {
        assert(chars@.take(end as int) =~= chars@);
    }
    while end > 0 && chars[end - 1] == '\r'
        invariant
            end <= chars.len(),
            without_returns(chars@) == without_returns(chars@.take(end as int)),
        decreases end,
    {
        proof {
            assert(chars@.take(end as int).drop_last() =~= chars@.take(end as int - 1));
        }
        end -= 1;
    }
    let clean = string_between(&chars, 0, end);
    proof {
        assert(clean@ =~= chars@.take(end as int));
    }
    let f = split_at_char(clean.as_str(), '\t');
    proof {
        assert(texts(f@) == split(without_returns(text@), '\t'));
        assert(f.len() == texts(f@).len());
    }
    if f.len() < 5 || f[0].as_str().is_empty() {
        return None;
    }
    let pid = match parse_i32(f[1].as_str()) {
        Some(n) => n,
        None => {
            return None;
        },
    };
    let index = match parse_i32(f[4].as_str()) {
        Some(n) => n,
        None => {
            return None;
        },
    };
    Some(
        Pane {
            pane_id: f[0].clone(),
            pane_pid: pid,
            session_name: f[2].clone(),
            window_name: f[3].clone(),
            window_index: index,
        },
    )
}

/// The id a line begins with, where its first field has the shape `%` and
/// digits.
pub open spec fn leading_id(text: Seq<char>) -> Option<Seq<char>> {
    let id = text.take(find_char(text, '\t'));
    if id.len() > 0 && id[0] == '%' && all_digits(id.skip(1)) {
        Some(id)
    } else {
        None
    }
}

/// `%N` out of the first field of a pane line, for the cleanup where the rest of
/// the line did not parse.
pub fn leading_pane_id<'a>(text: &'a str) -> (r: Option<&'a str>)
    ensures
        r is Some <==> leading_id(text@) is Some,
        r is Some ==> r->0@ == leading_id(text@)->0,
{
    let chars = chars_of(text);
    let mut end: usize = 0;
    while end < chars.len() && chars[end] != '\t'
        invariant
            end <= chars.len(),
            forall|i: int| 0 <= i < end ==> chars@[i] != '\t',
        decreases chars.len() - end,
    {
        end += 1;
    }
    proof {
        lemma_find_char_at(chars@, '\t', end as int);
    }
    let ghost id = chars@.take(end as int);
    if end < 2 || chars[0] != '%' {
        return None;
    }
    let mut i: usize = 1;
    while i < end
        invariant
            1 <= i <= end <= chars.len(),
            chars@ == text@,
            end == find_char(text@, '\t'),
            id == chars@.take(end as int),
            forall|j: int| 0 <= j < i - 1 ==> is_digit(#[trigger] id.skip(1)[j]),
        decreases end - i,
    {
        assert(id.skip(1)[i - 1] == chars@[i as int]);
        if !('0' <= chars[i] && chars[i] <= '9') {
            return None;
        }
        i += 1;
    }
    proof {
        assert(text@.subrange(0, end as int) =~= id);
    }
    Some(text.substring_char(0, end))
}

/// The panes among some lines, in order.
pub open spec fn panes_among(ls: Seq<Seq<char>>) -> Seq<PaneV>
    decreases ls.len(),
{
    if ls.len() == 0 {
        Seq::empty()
    } else {
        let before = panes_among(ls.drop_last());
        match pane_of(ls.last()) {
            Some(p) => before.push(p),
            None => before,
        }
    }
}

/// Every pane a listing describes; lines that describe none are skipped.
pub fn parse_panes(stdout: &str) -> (r: Vec<Pane>)
    ensures
        panes_view(r@) == panes_among(lines(stdout@)),
{
    let ls = lines_of(stdout);
    let ghost all = texts(ls@);
    let mut out: Vec<Pane> = Vec::new();
    let mut i: usize = 0;
    proof {
        assert(all.take(0) =~= Seq::empty());
        assert(panes_view(out@) =~= Seq::empty());
    }
    while i < ls.len()
        invariant
            i <= ls.len(),
            all == texts(ls@),
            panes_view(out@) == panes_among(all.take(i as int)),
        decreases ls.len() - i,
    {
        proof {
            assert(all.take(i as int + 1).drop_last() =~= all.take(i as int));
            assert(all.take(i as int + 1).last() == ls[i as int]@);
        }
        match parse_pane(ls[i].as_str()) {
            Some(p) => {
                let ghost before = out@;
                out.push(p);
                proof {
                    assert(panes_view(out@) =~= panes_view(before).push(p@));
                }
            },
            None => {},
        }
        i += 1;
    }
    proof {
        assert(all.take(all.len() as int) =~= all);
    }
    out
}

/// The last line of a text, or nothing.
pub open spec fn final_line(s: Seq<char>) -> Seq<char> {
    if lines(s).len() > 0 {
        lines(s).last()
    } else {
        Seq::empty()
    }
}

/// The pane line of a `-P -F` or `display-message` run. tmux can print a
/// warning ahead of it, so the format output is the last line.
pub fn last_line(stdout: &str) -> (r: String)
    ensures
        r@ == final_line(stdout@),
{
    let mut ls = lines_of(stdout);
    proof {
        assert(texts(ls@).len() == ls.len());
    }
    match ls.pop() {
        Some(last) => last,
        None => String::new(),
    }
}

// ------------------------------------------------------------------ refusals

/// True when tmux failed only because no server is running, which for a
/// liveness sweep is the same as "no panes".
pub fn is_no_server(e: &QError) -> (r: bool)
    ensures
        r == has_text(error_text(*e), "no server running"@),
{
    contains(e.message(), "no server running")
}

/// True when tmux refused only because the session has no client to move.
pub fn is_no_client(e: &QError) -> (r: bool)
    ensures
        r == has_text(error_text(*e), "no current client"@),
{
    contains(e.message(), "no current client")
}

/// An empty target is not "the current pane": it means a session whose window
/// never opened, and tmux would silently act on whatever is active instead.
pub fn require_pane_id(pane_id: &str) -> (r: Result<(), QError>)
    ensures
        r is Ok <==> pane_id@.len() > 0,
        r is Err ==> is_tmux_error(r->Err_0, "no pane to select (empty pane id)"@),
{
    if pane_id.is_empty() {
        return Err(QError::Tmux(owned("no pane to select (empty pane id)")));
    }
    Ok(())
}

// ---------------------------------------------------------------- arguments

/// What a new tmux session is made of.
#[derive(Debug, Clone, Default, PartialEq, Eq)]
pub struct NewSession {
    pub name: String,
    pub window_name: String,
    pub cwd: String,
    pub env: Vec<(String, String)>,
    pub command: Option<String>,
}

/// What a new tmux window is made of.
#[derive(Debug, Clone, Default, PartialEq, Eq)]
pub struct NewWindow {
    pub session: String,
    pub window_name: String,
    pub cwd: String,
    pub env: Vec<(String, String)>,
    pub command: Option<String>,
}

/// The contents of some string slices.
pub open spec fn parts_view(v: Seq<&str>) -> Seq<Seq<char>> {
    Seq::new(v.len(), |i: int| v[i]@)
}

fn args(parts: &[&str]) -> (r: Vec<String>)
    ensures
        texts(r@) == parts_view(parts@),
{
    let mut out: Vec<String> = Vec::new();
    let mut i: usize = 0;
    while i < parts.len()
        invariant
            i <= parts.len(),
            out.len() == i,
            forall|j: int| 0 <= j < i ==> (#[trigger] out[j])@ == parts[j]@,
        decreases parts.len() - i,
    {
        out.push(owned(parts[i]));
        i += 1;
    }
    proof {
        assert(texts(out@) =~= parts_view(parts@));
    }
    out
}

/// A target that is matched as it stands. tmux matches by prefix unless a
/// target starts with `=`: without it `q-a` would resolve to `q-alpha`.
pub open spec fn exactly(target: Seq<char>) -> Seq<char> {
    "="@ + target
}

fn exact(target: &str) -> (r: String)
    ensures
        r@ == exactly(target@),
{
    concat("=", target)
}

pub fn args_list_panes() -> (r: Vec<String>)
    ensures
        texts(r@) == seq!["list-panes"@, "-a"@, "-F"@, PANE_FORMAT@],
{
    let out = args(&["list-panes", "-a", "-F", PANE_FORMAT]);
    proof {
        assert(texts(out@) =~= seq!["list-panes"@, "-a"@, "-F"@, PANE_FORMAT@]);
    }
    out
}

pub fn args_display_pane(target: &str) -> (r: Vec<String>)
    ensures
        texts(r@) == seq!["display-message"@, "-p"@, "-t"@, exactly(target@), PANE_FORMAT@],
{
    let target = exact(target);
    let out = args(&["display-message", "-p", "-t", target.as_str(), PANE_FORMAT]);
    proof {
        assert(texts(out@) =~= seq!["display-message"@, "-p"@, "-t"@, target@, PANE_FORMAT@]);
    }
    out
}

/// `-flag value`, unless the value is empty.
pub open spec fn flag(name: Seq<char>, value: Seq<char>) -> Seq<Seq<char>> {
    if value.len() == 0 {
        Seq::empty()
    } else {
        seq![name, value]
    }
}

/// `-e key=value` for each pair.
pub open spec fn env_flags(env: Seq<(String, String)>) -> Seq<Seq<char>>
    decreases env.len(),
{
    if env.len() == 0 {
        Seq::empty()
    } else {
        env_flags(env.drop_last()) + seq!["-e"@, env.last().0@ + "="@ + env.last().1@]
    }
}

/// The command, where there is one.
pub open spec fn command_arg(command: Option<String>) -> Seq<Seq<char>> {
    match command {
        Some(c) => seq![c@],
        None => Seq::empty(),
    }
}

/// What follows the target of a new session or window.
pub open spec fn opening(
    window_name: Seq<char>,
    cwd: Seq<char>,
    env: Seq<(String, String)>,
    command: Option<String>,
) -> Seq<Seq<char>> {
    flag("-n"@, window_name) + flag("-c"@, cwd) + env_flags(env) + command_arg(command)
}

pub fn env_args(env: &Vec<(String, String)>) -> (r: Vec<String>)
    ensures
        texts(r@) == env_flags(env@),
{
    let mut out: Vec<String> = Vec::new();
    let mut i: usize = 0;
    proof {
        assert(env@.take(0) =~= Seq::empty());
        assert(texts(out@) =~= Seq::empty());
    }
    while i < env.len()
        invariant
            i <= env.len(),
            texts(out@) == env_flags(env@.take(i as int)),
        decreases env.len() - i,
    {
        let ghost before = out@;
        let pair = concat3(env[i].0.as_str(), "=", env[i].1.as_str());
        out.push(owned("-e"));
        out.push(pair);
        proof {
            assert(env@.take(i as int + 1).drop_last() =~= env@.take(i as int));
            assert(texts(out@) =~= texts(before) + seq!["-e"@, pair@]);
        }
        i += 1;
    }
    proof {
        assert(env@.take(env.len() as int) =~= env@);
    }
    out
}

/// Appends what follows the target of a new session or window.
fn push_opening(
    out: &mut Vec<String>,
    window_name: &str,
    cwd: &str,
    env: &Vec<(String, String)>,
    command: &Option<String>,
)
    ensures
        texts(final(out)@) == texts(old(out)@) + opening(window_name@, cwd@, env@, *command),
{
    let ghost a = texts(out@);
    if !window_name.is_empty() {
        out.push(owned("-n"));
        out.push(owned(window_name));
    }
    proof {
        assert(texts(out@) =~= a + flag("-n"@, window_name@));
    }
    let ghost b = texts(out@);
    if !cwd.is_empty() {
        out.push(owned("-c"));
        out.push(owned(cwd));
    }
    proof {
        assert(texts(out@) =~= b + flag("-c"@, cwd@));
    }
    let ghost c = out@;
    let mut pairs = env_args(env);
    let ghost p = pairs@;
    out.append(&mut pairs);
    proof {
        assert(texts(out@) =~= texts(c) + texts(p));
    }
    let ghost d = texts(out@);
    match command {
        Some(command) => out.push(command.clone()),
        None => {},
    }
    proof {
        assert(texts(out@) =~= d + command_arg(*command));
        assert(texts(out@) =~= a + opening(window_name@, cwd@, env@, *command));
    }
}

pub fn args_new_session(spec: &NewSession) -> (r: Vec<String>)
    ensures
        texts(r@) == seq![
            "new-session"@,
            "-d"@,
            "-s"@,
            spec.name@,
            "-P"@,
            "-F"@,
            PANE_FORMAT@,
        ] + opening(spec.window_name@, spec.cwd@, spec.env@, spec.command),
{
    let mut out = args(&["new-session", "-d", "-s", spec.name.as_str(), "-P", "-F", PANE_FORMAT]);
    proof {
        assert(texts(out@) =~= seq![
            "new-session"@,
            "-d"@,
            "-s"@,
            spec.name@,
            "-P"@,
            "-F"@,
            PANE_FORMAT@,
        ]);
    }
    push_opening(
        &mut out,
        spec.window_name.as_str(),
        spec.cwd.as_str(),
        &spec.env,
        &spec.command,
    );
    out
}

/// `-d` keeps the caller's client where it is: which window becomes active is
/// the spawning command's decision.
pub fn args_new_window(spec: &NewWindow) -> (r: Vec<String>)
    ensures
        texts(r@) == seq![
            "new-window"@,
            "-d"@,
            "-t"@,
            exactly(spec.session@ + ":"@),
            "-P"@,
            "-F"@,
            PANE_FORMAT@,
        ] + opening(spec.window_name@, spec.cwd@, spec.env@, spec.command),
{
    let target = exact(concat(spec.session.as_str(), ":").as_str());
    let mut out = args(&["new-window", "-d", "-t", target.as_str(), "-P", "-F", PANE_FORMAT]);
    proof {
        assert(texts(out@) =~= seq![
            "new-window"@,
            "-d"@,
            "-t"@,
            target@,
            "-P"@,
            "-F"@,
            PANE_FORMAT@,
        ]);
    }
    push_opening(
        &mut out,
        spec.window_name.as_str(),
        spec.cwd.as_str(),
        &spec.env,
        &spec.command,
    );
    out
}

/// Enter, as a key.
pub open spec fn enter_args(pane_id: Seq<char>) -> Seq<Seq<char>> {
    seq!["send-keys"@, "-t"@, pane_id, "Enter"@]
}

/// Text, literally.
pub open spec fn literal_args(pane_id: Seq<char>, text: Seq<char>) -> Seq<Seq<char>> {
    seq!["send-keys"@, "-t"@, pane_id, "-l"@, "--"@, text]
}

/// The arguments of several runs.
pub open spec fn argvs(v: Seq<Vec<String>>) -> Seq<Seq<Seq<char>>> {
    Seq::new(v.len(), |i: int| texts(v[i]@))
}

/// One or two invocations: the text is always sent literally (`-l`), so a
/// prompt containing `Enter` or `;` cannot be reinterpreted as a key name.
pub fn args_send_keys(pane_id: &str, text: &str, enter: bool) -> (r: Vec<Vec<String>>)
    ensures
        argvs(r@) == if enter {
            seq![literal_args(pane_id@, text@), enter_args(pane_id@)]
        } else {
            seq![literal_args(pane_id@, text@)]
        },
{
    let mut out: Vec<Vec<String>> = Vec::new();
    let first = args(&["send-keys", "-t", pane_id, "-l", "--", text]);
    proof {
        assert(texts(first@) =~= literal_args(pane_id@, text@));
    }
    out.push(first);
    proof {
        assert(argvs(out@) =~= seq![literal_args(pane_id@, text@)]);
    }
    if enter {
        out.push(args_send_enter(pane_id));
        proof {
            assert(argvs(out@) =~= seq![literal_args(pane_id@, text@), enter_args(pane_id@)]);
        }
    }
    out
}

pub fn args_send_enter(pane_id: &str) -> (r: Vec<String>)
    ensures
        texts(r@) == enter_args(pane_id@),
{
    let out = args(&["send-keys", "-t", pane_id, "Enter"]);
    proof {
        assert(texts(out@) =~= enter_args(pane_id@));
    }
    out
}

/// The text goes in as an argument, exactly like `send-keys -l`, so both paths
/// share the same size ceiling and quoting.
pub fn args_set_buffer(buffer: &str, text: &str) -> (r: Vec<String>)
    ensures
        texts(r@) == seq!["set-buffer"@, "-b"@, buffer@, "--"@, text@],
{
    let out = args(&["set-buffer", "-b", buffer, "--", text]);
    proof {
        assert(texts(out@) =~= seq!["set-buffer"@, "-b"@, buffer@, "--"@, text@]);
    }
    out
}

/// `-p` brackets the paste when the application in the pane asked for it, which
/// is how it tells a pasted newline from a pressed Enter; `-d` drops the buffer
/// once it is pasted.
pub fn args_paste_buffer(pane_id: &str, buffer: &str) -> (r: Vec<String>)
    ensures
        texts(r@) == seq!["paste-buffer"@, "-p"@, "-d"@, "-b"@, buffer@, "-t"@, pane_id@],
{
    let out = args(&["paste-buffer", "-p", "-d", "-b", buffer, "-t", pane_id]);
    proof {
        assert(texts(out@) =~= seq![
            "paste-buffer"@,
            "-p"@,
            "-d"@,
            "-b"@,
            buffer@,
            "-t"@,
            pane_id@,
        ]);
    }
    out
}

pub fn args_delete_buffer(buffer: &str) -> (r: Vec<String>)
    ensures
        texts(r@) == seq!["delete-buffer"@, "-b"@, buffer@],
{
    let out = args(&["delete-buffer", "-b", buffer]);
    proof {
        assert(texts(out@) =~= seq!["delete-buffer"@, "-b"@, buffer@]);
    }
    out
}

pub fn args_capture_pane(pane_id: &str, lines: usize) -> (r: Vec<String>)
    ensures
        texts(r@) == seq![
            "capture-pane"@,
            "-p"@,
            "-t"@,
            pane_id@,
            "-S"@,
            "-"@ + decimal(lines as nat),
        ],
{
    let back = concat("-", number(lines as u64).as_str());
    let out = args(&["capture-pane", "-p", "-t", pane_id, "-S", back.as_str()]);
    proof {
        assert(texts(out@) =~= seq!["capture-pane"@, "-p"@, "-t"@, pane_id@, "-S"@, back@]);
    }
    out
}

pub fn args_rename_session(old_name: &str, new_name: &str) -> (r: Vec<String>)
    ensures
        texts(r@) == seq!["rename-session"@, "-t"@, exactly(old_name@), new_name@],
{
    let target = exact(old_name);
    let out = args(&["rename-session", "-t", target.as_str(), new_name]);
    proof {
        assert(texts(out@) =~= seq!["rename-session"@, "-t"@, target@, new_name@]);
    }
    out
}

/// Pane ids are already unambiguous, so they need no `=`.
pub fn args_rename_window(pane_id: &str, new_name: &str) -> (r: Vec<String>)
    ensures
        texts(r@) == seq!["rename-window"@, "-t"@, pane_id@, new_name@],
{
    let out = args(&["rename-window", "-t", pane_id, new_name]);
    proof {
        assert(texts(out@) =~= seq!["rename-window"@, "-t"@, pane_id@, new_name@]);
    }
    out
}

/// A verb and an exact target.
pub open spec fn targeted(verb: Seq<char>, target: Seq<char>) -> Seq<Seq<char>> {
    seq![verb, "-t"@, target]
}

fn args_targeted(verb: &str, target: &str) -> (r: Vec<String>)
    ensures
        texts(r@) == targeted(verb@, target@),
{
    let out = args(&[verb, "-t", target]);
    proof {
        assert(texts(out@) =~= targeted(verb@, target@));
    }
    out
}

pub fn args_kill_session(name: &str) -> (r: Vec<String>)
    ensures
        texts(r@) == targeted("kill-session"@, exactly(name@)),
{
    args_targeted("kill-session", exact(name).as_str())
}

pub fn args_kill_window(pane_id: &str) -> (r: Vec<String>)
    ensures
        texts(r@) == targeted("kill-window"@, pane_id@),
{
    args_targeted("kill-window", pane_id)
}

pub fn args_has_session(name: &str) -> (r: Vec<String>)
    ensures
        texts(r@) == targeted("has-session"@, exactly(name@)),
{
    args_targeted("has-session", exact(name).as_str())
}

pub fn args_attach(session: &str) -> (r: Vec<String>)
    ensures
        texts(r@) == targeted("attach"@, exactly(session@)),
{
    args_targeted("attach", exact(session).as_str())
}

pub fn args_switch_client(session: &str) -> (r: Vec<String>)
    ensures
        texts(r@) == targeted("switch-client"@, exactly(session@)),
{
    args_targeted("switch-client", exact(session).as_str())
}

/// A pane id addresses its window, and it is the session's identity: a rename
/// would break a name-based target.
pub fn args_select_window(pane_id: &str) -> (r: Vec<String>)
    ensures
        texts(r@) == targeted("select-window"@, pane_id@),
{
    args_targeted("select-window", pane_id)
}

// ------------------------------------------------------- what a run came to

/// What a tmux process that ended left behind.
#[derive(Debug, Clone, PartialEq, Eq)]
pub struct Finished {
    pub success: bool,
    pub stdout: String,
    pub stderr: String,
}

/// What a failed run is reported as.
pub open spec fn run_failure(argv: Seq<Seq<char>>, stderr: Seq<char>) -> Seq<char> {
    "`tmux "@ + joined(argv, " "@) + "` failed: "@ + trimmed(stderr)
}

/// The output of a run that succeeded, or what it complained about.
pub fn run_result(argv: &Vec<String>, out: Finished) -> (r: Result<String, QError>)
    ensures
        r is Ok <==> out.success,
        r is Ok ==> r->Ok_0@ == out.stdout@,
        r is Err ==> is_tmux_error(r->Err_0, run_failure(texts(argv@), out.stderr@)),
{
    if !out.success {
        let mut message = concat3("`tmux ", join(argv, " ").as_str(), "` failed: ");
        message.append(trim(out.stderr.as_str()));
        return Err(QError::Tmux(message));
    }
    Ok(out.stdout)
}

/// Why tmux could not be run at all.
pub fn spawn_error(missing: bool, detail: &str) -> (r: QError)
    ensures
        is_tmux_error(
            r,
            if missing {
                TMUX_MISSING@
            } else {
                "cannot run tmux: "@ + detail@
            },
        ),
{
    if missing {
        QError::Tmux(owned(TMUX_MISSING))
    } else {
        QError::Tmux(concat("cannot run tmux: ", detail))
    }
}

/// Why the process could not be replaced by `tmux attach`.
pub fn attach_error(missing: bool, session: &str, detail: &str) -> (r: QError)
    ensures
        is_tmux_error(
            r,
            if missing {
                TMUX_MISSING@
            } else {
                "cannot attach to `"@ + session@ + "`: "@ + detail@
            },
        ),
{
    if missing {
        QError::Tmux(owned(TMUX_MISSING))
    } else {
        let mut message = concat3("cannot attach to `", session, "`: ");
        message.append(detail);
        QError::Tmux(message)
    }
}

/// The pane a `display-message` run on `target` printed.
pub fn pane_at(target: &str, stdout: &str) -> (r: Result<Pane, QError>)
    ensures
        r is Ok <==> pane_of(final_line(stdout@)) is Some,
        r is Ok ==> Some(r->Ok_0@) == pane_of(final_line(stdout@)),
        r is Err ==> is_tmux_error(r->Err_0, "cannot read pane of `"@ + target@ + "`"@),
{
    match parse_pane(last_line(stdout).as_str()) {
        Some(pane) => Ok(pane),
        None => Err(QError::Tmux(concat3("cannot read pane of `", target, "`"))),
    }
}

/// What was opened, or what to take down again and what to report.
#[derive(Debug, Clone, PartialEq, Eq)]
pub enum Opened {
    Ready(Pane),
    /// It is up, but without its pane id nothing can address it.
    Unreadable { cleanup: Option<Vec<String>>, error: QError },
}

/// What became of a `new-session` run. A session whose pane cannot be read is
/// taken down: a stray agent is worse than no session at all.
pub fn opened_session(name: &str, stdout: &str) -> (r: Opened)
    ensures
        ({
            let text = final_line(stdout@);
            match pane_of(text) {
                Some(pane) => r is Ready && r->Ready_0@ == pane,
                None => {
                    &&& r is Unreadable
                    &&& r->cleanup is Some
                    &&& texts(r->cleanup->0@) == targeted("kill-session"@, exactly(name@))
                    &&& is_tmux_error(
                        r->error,
                        "cannot read the new session's pane: `"@ + text + "`"@,
                    )
                },
            }
        }),
{
    let text = last_line(stdout);
    match parse_pane(text.as_str()) {
        Some(pane) => Opened::Ready(pane),
        None => Opened::Unreadable {
            cleanup: Some(args_kill_session(name)),
            error: QError::Tmux(
                concat3("cannot read the new session's pane: `", text.as_str(), "`"),
            ),
        },
    }
}

/// What became of a `new-window` run. Only the new window is ours to take down,
/// and only where the line begins with its id.
pub fn opened_window(stdout: &str) -> (r: Opened)
    ensures
        ({
            let text = final_line(stdout@);
            match pane_of(text) {
                Some(pane) => r is Ready && r->Ready_0@ == pane,
                None => {
                    &&& r is Unreadable
                    &&& r->cleanup is Some <==> leading_id(text) is Some
                    &&& r->cleanup is Some ==> texts(r->cleanup->0@) == targeted(
                        "kill-window"@,
                        leading_id(text)->0,
                    )
                    &&& is_tmux_error(
                        r->error,
                        "cannot read the new window's pane: `"@ + text + "`"@,
                    )
                },
            }
        }),
{
    let text = last_line(stdout);
    match parse_pane(text.as_str()) {
        Some(pane) => Opened::Ready(pane),
        None => {
            let cleanup = match leading_pane_id(text.as_str()) {
                Some(id) => Some(args_kill_window(id)),
                None => None,
            };
            Opened::Unreadable {
                cleanup,
                error: QError::Tmux(
                    concat3("cannot read the new window's pane: `", text.as_str(), "`"),
                ),
            }
        },
    }
}

/// The session the pane of that id sits in, in a listing.
pub open spec fn session_holding(panes: Seq<PaneV>, pane_id: Seq<char>) -> Option<Seq<char>>
    decreases panes.len(),
{
    if panes.len() == 0 {
        None
    } else if panes[0].pane_id == pane_id {
        Some(panes[0].session_name)
    } else {
        session_holding(panes.drop_first(), pane_id)
    }
}

/// The tmux session this process's own pane sits in. `own` is what the
/// environment calls the pane, and `listed` what a listing gave.
pub fn current_session(own: Option<&str>, listed: Result<Vec<Pane>, QError>) -> (r: Option<String>)
    ensures
        match (own, listed) {
            (Some(pane), Ok(panes)) => if pane@.len() == 0 {
                r is None
            } else {
                crate::text::opt_text(r) == session_holding(panes_view(panes@), pane@)
            },
            _ => r is None,
        },
{
    let pane = match own {
        Some(pane) => pane,
        None => {
            return None;
        },
    };
    if pane.is_empty() {
        return None;
    }
    let panes = match listed {
        Ok(panes) => panes,
        Err(_) => {
            return None;
        },
    };
    let ghost all = panes_view(panes@);
    let mut i: usize = 0;
    proof {
        assert(all.skip(0) =~= all);
    }
    while i < panes.len()
        invariant
            i <= panes.len(),
            all == panes_view(panes@),
            own == Some(pane),
            pane@.len() > 0,
            listed == Ok::<Vec<Pane>, QError>(panes),
            session_holding(all, pane@) == session_holding(all.skip(i as int), pane@),
        decreases panes.len() - i,
    {
        proof {
            assert(all.skip(i as int)[0] == panes[i as int]@);
            assert(all.skip(i as int).drop_first() =~= all.skip(i as int + 1));
        }
        if same(panes[i].pane_id.as_str(), pane) {
            return Some(panes[i].session_name.clone());
        }
        i += 1;
    }
    None
}

// -------------------------------------------------------------- attaching

/// Where an attach stands.
#[derive(Debug, Clone, Copy, PartialEq, Eq, Structural)]
pub enum AttachPhase {
    /// Nothing was done yet.
    Begin,
    /// The window of the pane is being selected.
    Selecting,
    /// It is being found out which session this process sits in.
    Locating,
    /// The client is being switched.
    Switching,
}

/// What an attach was told.
#[derive(Debug, PartialEq, Eq)]
pub enum AttachEvent {
    /// Start.
    Go,
    /// The run came to this.
    Ran(Result<String, QError>),
    /// This process sits in that session.
    Current(Option<String>),
}

/// What an attach does next.
#[derive(Debug, Clone, PartialEq, Eq)]
pub enum AttachStep {
    /// Run tmux and come back with what it said.
    Run(Vec<String>, AttachPhase),
    /// Find out which session this process sits in.
    Locate,
    /// Replace the process.
    Exec(Vec<String>),
    /// Nothing is left to do.
    Done,
    /// Nothing is left to do, but this is worth a warning.
    Warn(QError),
    /// It failed.
    Fail(QError),
}

/// Past the selection: inside tmux there may be a client to move, outside it the
/// process is replaced.
pub open spec fn past_selection(step: AttachStep, session: Seq<char>, inside: bool) -> bool {
    if inside {
        step is Locate
    } else {
        step is Exec && texts(step->Exec_0@) == targeted("attach"@, exactly(session))
    }
}

/// The step an attach takes in a phase, on an event.
pub open spec fn attach_goes(
    step: AttachStep,
    phase: AttachPhase,
    event: AttachEvent,
    session: Seq<char>,
    pane: Option<Seq<char>>,
    inside: bool,
) -> bool {
    match (phase, event) {
        (AttachPhase::Begin, AttachEvent::Go) => match pane {
            Some(p) => if p.len() == 0 {
                step is Fail && is_tmux_error(
                    step->Fail_0,
                    "no pane to select (empty pane id)"@,
                )
            } else {
                step is Run && step->Run_1 == AttachPhase::Selecting && texts(step->Run_0@)
                    == targeted("select-window"@, p)
            },
            None => past_selection(step, session, inside),
        },
        (AttachPhase::Selecting, AttachEvent::Ran(Ok(_))) => past_selection(step, session, inside),
        (AttachPhase::Locating, AttachEvent::Current(at)) => if crate::text::opt_text(at) == Some(
            session,
        ) {
            step is Done
        } else {
            step is Run && step->Run_1 == AttachPhase::Switching && texts(step->Run_0@)
                == targeted("switch-client"@, exactly(session))
        },
        (AttachPhase::Switching, AttachEvent::Ran(Ok(_))) => step is Done,
        (AttachPhase::Switching, AttachEvent::Ran(Err(e))) => if has_text(
            error_text(e),
            "no current client"@,
        ) {
            step == AttachStep::Warn(e)
        } else {
            step == AttachStep::Fail(e)
        },
        (_, AttachEvent::Ran(Err(e))) => step == AttachStep::Fail(e),
        _ => step is Fail && is_tmux_error(step->Fail_0, "attach out of step"@),
    }
}

fn past_select(session: &str, inside: bool) -> (r: AttachStep)
    ensures
        past_selection(r, session@, inside),
{
    if inside {
        AttachStep::Locate
    } else {
        AttachStep::Exec(args_attach(session))
    }
}

/// What an attach does next.
///
/// Naming a pane selects its window first. Inside tmux, a process that already
/// sits in the target session has no client to move; a session nobody is
/// attached to has none either, which is worth a warning and no more, since the
/// window is selected and the next real attach lands on it.
pub fn attach_step(
    phase: AttachPhase,
    event: AttachEvent,
    session: &str,
    pane: Option<&str>,
    inside: bool,
) -> (r: AttachStep)
    ensures
        attach_goes(
            r,
            phase,
            event,
            session@,
            match pane {
                Some(p) => Some(p@),
                None => None,
            },
            inside,
        ),
{
    match (phase, event) {
        (AttachPhase::Begin, AttachEvent::Go) => match pane {
            Some(p) => match require_pane_id(p) {
                Ok(()) => AttachStep::Run(args_select_window(p), AttachPhase::Selecting),
                Err(e) => AttachStep::Fail(e),
            },
            None => past_select(session, inside),
        },
        (AttachPhase::Selecting, AttachEvent::Ran(Ok(_))) => past_select(session, inside),
        (AttachPhase::Locating, AttachEvent::Current(at)) => {
            let there = match at {
                Some(at) => same(at.as_str(), session),
                None => false,
            };
            if there {
                AttachStep::Done
            } else {
                AttachStep::Run(args_switch_client(session), AttachPhase::Switching)
            }
        },
        (AttachPhase::Switching, AttachEvent::Ran(Ok(_))) => AttachStep::Done,
        (AttachPhase::Switching, AttachEvent::Ran(Err(e))) => if is_no_client(&e) {
            AttachStep::Warn(e)
        } else {
            AttachStep::Fail(e)
        },
        (_, AttachEvent::Ran(Err(e))) => AttachStep::Fail(e),
        _ => AttachStep::Fail(QError::Tmux(owned("attach out of step"))),
    }
}

// ---------------------------------------------------------------- pasting

/// Where a paste stands.
#[derive(Debug, Clone, Copy, PartialEq, Eq, Structural)]
pub enum PastePhase {
    /// The text is being put into a buffer.
    Filling,
    /// The buffer is being pasted.
    Pasting,
    /// Enter is being sent.
    Entering,
}

/// What a paste does next.
#[derive(Debug, Clone, PartialEq, Eq)]
pub enum PasteStep {
    Run(Vec<String>, PastePhase),
    Done,
    Fail(QError),
    /// Drop the buffer, then fail with this whatever that came to.
    Drop(Vec<String>, QError),
}

/// The first run of a paste: the text goes into a buffer of its own.
pub fn paste_start(buffer: &str, text: &str) -> (r: PasteStep)
    ensures
        r is Run,
        r->Run_1 == PastePhase::Filling,
        texts(r->Run_0@) == seq!["set-buffer"@, "-b"@, buffer@, "--"@, text@],
{
    PasteStep::Run(args_set_buffer(buffer, text), PastePhase::Filling)
}

/// The step a paste takes after a run.
pub open spec fn paste_goes(
    step: PasteStep,
    phase: PastePhase,
    ran: Result<String, QError>,
    pane_id: Seq<char>,
    buffer: Seq<char>,
    enter: bool,
) -> bool {
    match (phase, ran) {
        (PastePhase::Filling, Ok(_)) => step is Run && step->Run_1 == PastePhase::Pasting && texts(
            step->Run_0@,
        ) == seq!["paste-buffer"@, "-p"@, "-d"@, "-b"@, buffer, "-t"@, pane_id],
        (PastePhase::Pasting, Ok(_)) => if enter {
            step is Run && step->Run_1 == PastePhase::Entering && texts(step->Run_0@) == enter_args(
                pane_id,
            )
        } else {
            step is Done
        },
        (PastePhase::Pasting, Err(e)) => step is Drop && step->Drop_1 == e && texts(step->Drop_0@)
            == seq!["delete-buffer"@, "-b"@, buffer],
        (PastePhase::Entering, Ok(_)) => step is Done,
        (_, Err(e)) => step == PasteStep::Fail(e),
    }
}

/// What a paste does once a run has ended. Where the paste itself fails, `-d`
/// never ran, so the buffer would outlive the failure: it is dropped.
pub fn paste_step(
    phase: PastePhase,
    ran: Result<String, QError>,
    pane_id: &str,
    buffer: &str,
    enter: bool,
) -> (r: PasteStep)
    ensures
        paste_goes(r, phase, ran, pane_id@, buffer@, enter),
{
    match (phase, ran) {
        (PastePhase::Filling, Ok(_)) => PasteStep::Run(
            args_paste_buffer(pane_id, buffer),
            PastePhase::Pasting,
        ),
        (PastePhase::Pasting, Ok(_)) => if enter {
            PasteStep::Run(args_send_enter(pane_id), PastePhase::Entering)
        } else {
            PasteStep::Done
        },
        (PastePhase::Pasting, Err(e)) => PasteStep::Drop(args_delete_buffer(buffer), e),
        (PastePhase::Entering, Ok(_)) => PasteStep::Done,
        (_, Err(e)) => PasteStep::Fail(e),
    }
}

// ---------------------------------------------------------------- capturing

/// Some lines without the blank ones at the end.
pub open spec fn without_blank_tail(ls: Seq<Seq<char>>) -> Seq<Seq<char>>
    decreases ls.len(),
{
    if ls.len() > 0 && trimmed(ls.last()).len() == 0 {
        without_blank_tail(ls.drop_last())
    } else {
        ls
    }
}

/// The last `n` of some lines; all of them where `n` is zero.
pub open spec fn last_of(ls: Seq<Seq<char>>, n: int) -> Seq<Seq<char>> {
    if n > 0 && ls.len() > n {
        ls.skip(ls.len() - n)
    } else {
        ls
    }
}

/// The last `n` lines of a text, its trailing blank lines dropped first.
pub open spec fn tail_of(buffer: Seq<char>, n: int) -> Seq<char> {
    joined(last_of(without_blank_tail(lines(buffer)), n), "\n"@)
}

/// The last `count` lines with trailing blank lines dropped: a capture can
/// return more than was asked for, and pads a pane's unused rows with blanks.
pub fn tail(buffer: &str, count: usize) -> (r: String)
    ensures
        r@ == tail_of(buffer@, count as int),
{
    let mut all = lines_of(buffer);
    let mut blank = all.len() > 0 && trim(all[all.len() - 1].as_str()).is_empty();
    proof {
        assert(texts(all@).len() == all.len());
        if all.len() > 0 {
            assert(texts(all@).last() == all[all.len() - 1]@);
        }
    }
    while blank
        invariant
            blank <==> (all.len() > 0 && trimmed(texts(all@).last()).len() == 0),
            without_blank_tail(lines(buffer@)) == without_blank_tail(texts(all@)),
        decreases all.len() + (if blank {
            1nat
        } else {
            0nat
        }),
    {
        let ghost before = all@;
        let _ = all.pop();
        proof {
            assert(texts(all@) =~= texts(before).drop_last());
        }
        blank = all.len() > 0 && trim(all[all.len() - 1].as_str()).is_empty();
        proof {
            if all.len() > 0 {
                assert(texts(all@).last() == all[all.len() - 1]@);
            }
        }
    }
    if count > 0 && all.len() > count {
        let ghost before = all@;
        let start: usize = all.len() - count;
        let kept = all.split_off(start);
        proof {
            assert(texts(kept@) =~= texts(before).skip(start as int));
        }
        join(&kept, "\n")
    } else {
        join(&all, "\n")
    }
}

// ------------------------------------------------------------------- naming

/// One tmux session per quest.
pub fn session_name(config: &Config, slug: &str) -> (r: String)
    ensures
        r@ == config.tmux.session_prefix@ + slug@,
{
    concat(config.tmux.session_prefix.as_str(), slug)
}

/// A pair, where there is a value and it is not empty.
pub open spec fn set_pair(key: Seq<char>, value: Option<&str>) -> Seq<(Seq<char>, Seq<char>)> {
    match value {
        Some(v) => if v@.len() > 0 {
            seq![(key, v@)]
        } else {
            Seq::empty()
        },
        None => Seq::empty(),
    }
}

fn push_pair(out: &mut Vec<(String, String)>, key: &str, value: &str)
    ensures
        pairs_view(final(out)@) == pairs_view(old(out)@).push((key@, value@)),
{
    let ghost before = out@;
    out.push((owned(key), owned(value)));
    proof {
        assert(pairs_view(out@) =~= pairs_view(before).push((key@, value@)));
    }
}

fn push_set(out: &mut Vec<(String, String)>, key: &str, value: Option<&str>)
    ensures
        pairs_view(final(out)@) == pairs_view(old(out)@) + set_pair(key@, value),
{
    let ghost before = pairs_view(out@);
    match value {
        Some(v) => if !v.is_empty() {
            push_pair(out, key, v);
        },
        None => {},
    }
    proof {
        assert(pairs_view(out@) =~= before + set_pair(key@, value));
    }
}

/// The environment set on a window; what runs in it inherits it. The database
/// and the configuration are passed on only when this process itself runs on an
/// override: otherwise the child would resolve them differently.
pub fn quest_env(
    quest_id: &str,
    session_id: &str,
    role: SessionRole,
    machine: &str,
    db_path_override: Option<&str>,
    config_path_override: Option<&str>,
) -> (r: Vec<(String, String)>)
    ensures
        pairs_view(r@) == seq![
            ("Q_QUEST"@, quest_id@),
            ("Q_SESSION"@, session_id@),
            ("Q_ROLE"@, role_text(role)),
            ("Q_MACHINE"@, machine@),
        ] + set_pair("Q_DB"@, db_path_override) + set_pair("Q_CONFIG"@, config_path_override),
{
    let mut env: Vec<(String, String)> = Vec::new();
    push_pair(&mut env, "Q_QUEST", quest_id);
    push_pair(&mut env, "Q_SESSION", session_id);
    push_pair(&mut env, "Q_ROLE", role.as_str());
    push_pair(&mut env, "Q_MACHINE", machine);
    proof {
        assert(pairs_view(env@) =~= seq![
            ("Q_QUEST"@, quest_id@),
            ("Q_SESSION"@, session_id@),
            ("Q_ROLE"@, role_text(role)),
            ("Q_MACHINE"@, machine@),
        ]);
    }
    push_set(&mut env, "Q_DB", db_path_override);
    push_set(&mut env, "Q_CONFIG", config_path_override);
    env
}

// ---------------------------------------------------------------- the server

/// A tmux server, real or not.
pub trait Tmux {
    fn list_panes(&self) -> Result<Vec<Pane>, QError>;

    /// Creates a detached session and returns its first pane.
    fn new_session(&self, spec: &NewSession) -> Result<Pane, QError>;

    fn new_window(&self, spec: &NewWindow) -> Result<Pane, QError>;

    /// Makes the window holding `pane_id` the active one in its own tmux
    /// session, without moving any client between sessions.
    fn select_window(&self, pane_id: &str) -> Result<(), QError>;

    /// Inside tmux this switches the client; outside it replaces the process and
    /// therefore does not return on success. `pane` selects its window first.
    fn attach(&self, session: &str, pane: Option<&str>) -> Result<(), QError>;

    fn send_keys(&self, pane_id: &str, text: &str, enter: bool) -> Result<(), QError>;

    /// One bracketed paste, then Enter when asked.
    fn paste(&self, pane_id: &str, text: &str, enter: bool) -> Result<(), QError>;

    fn capture_pane(&self, pane_id: &str, lines: usize) -> Result<String, QError>;

    fn rename_session(&self, old_name: &str, new_name: &str) -> Result<(), QError>;

    fn rename_window(&self, pane_id: &str, new_name: &str) -> Result<(), QError>;

    fn kill_session(&self, name: &str) -> Result<(), QError>;

    /// Kills the window a pane belongs to, leaving the session alone.
    fn kill_window(&self, pane_id: &str) -> Result<(), QError>;

    fn has_session(&self, name: &str) -> Result<bool, QError>;

    fn in_tmux(&self) -> bool;

    fn version(&self) -> Result<String, QError>;
}

/// A listing as a liveness check reads it: no server means no panes, and any
/// other failure is one.
pub open spec fn read_as_live(
    listed: Result<Vec<Pane>, QError>,
    r: Result<Vec<Pane>, QError>,
) -> bool {
    match listed {
        Ok(panes) => r == Ok::<Vec<Pane>, QError>(panes),
        Err(e) => if has_text(error_text(e), "no server running"@) {
            r is Ok && r->Ok_0@ == Seq::<Pane>::empty()
        } else {
            r == Err::<Vec<Pane>, QError>(e)
        },
    }
}

/// A listing, with "no server" read as "no panes".
pub fn live_among(listed: Result<Vec<Pane>, QError>) -> (r: Result<Vec<Pane>, QError>)
    ensures
        read_as_live(listed, r),
{
    match listed {
        Ok(panes) => Ok(panes),
        Err(e) => if is_no_server(&e) {
            Ok(Vec::new())
        } else {
            Err(e)
        },
    }
}

/// Every pane tmux knows about. No server means no panes; a missing binary is a
/// real failure.
pub fn live_panes<T: Tmux + ?Sized>(tmux: &T) -> (r: Result<Vec<Pane>, QError>)
    ensures
        exists|listed: Result<Vec<Pane>, QError>|
            call_ensures(T::list_panes, (tmux,), listed) && read_as_live(listed, r),
{
    let listed = tmux.list_panes();
    live_among(listed)
}

/// The window of the first pane with that id whose window has a name.
pub open spec fn window_holding(panes: Seq<PaneV>, pane_id: Seq<char>) -> Option<Seq<char>>
    decreases panes.len(),
{
    if panes.len() == 0 {
        None
    } else if panes[0].pane_id == pane_id && panes[0].window_name.len() > 0 {
        Some(panes[0].window_name)
    } else {
        window_holding(panes.drop_first(), pane_id)
    }
}

/// What a listing says about the window of a pane; a failed one says nothing.
pub open spec fn window_listed(
    listed: Result<Vec<Pane>, QError>,
    pane_id: Seq<char>,
) -> Option<Seq<char>> {
    match listed {
        Ok(panes) => window_holding(panes_view(panes@), pane_id),
        Err(_) => None,
    }
}

/// The name of the window a pane sits in, in a listing.
pub fn window_among(listed: Result<Vec<Pane>, QError>, pane_id: &str) -> (r: Option<String>)
    ensures
        crate::text::opt_text(r) == window_listed(listed, pane_id@),
{
    let panes = match listed {
        Ok(panes) => panes,
        Err(_) => {
            return None;
        },
    };
    let ghost all = panes_view(panes@);
    let mut i: usize = 0;
    proof {
        assert(all.skip(0) =~= all);
    }
    while i < panes.len()
        invariant
            i <= panes.len(),
            all == panes_view(panes@),
            listed == Ok::<Vec<Pane>, QError>(panes),
            window_holding(all, pane_id@) == window_holding(all.skip(i as int), pane_id@),
        decreases panes.len() - i,
    {
        proof {
            assert(all.skip(i as int)[0] == panes[i as int]@);
            assert(all.skip(i as int).drop_first() =~= all.skip(i as int + 1));
        }
        if same(panes[i].pane_id.as_str(), pane_id) && !panes[i].window_name.as_str().is_empty() {
            return Some(panes[i].window_name.clone());
        }
        i += 1;
    }
    None
}

/// The name of the window a pane sits in. Display only: window names are not an
/// address, and a vanished pane simply has none.
pub fn window_of<T: Tmux + ?Sized>(tmux: &T, pane_id: &str) -> (r: Option<String>)
    ensures
        exists|listed: Result<Vec<Pane>, QError>|
            call_ensures(T::list_panes, (tmux,), listed) && crate::text::opt_text(r)
                == window_listed(listed, pane_id@),
{
    let listed = tmux.list_panes();
    window_among(listed, pane_id)
}

// ----------------------------------------------------------------- liveness

/// The pane a session ran in is gone.
pub const PANE_GONE: &'static str = "pane_gone";

/// The window a session was to run in never opened.
pub const NEVER_STARTED: &'static str = "never_started";

/// How long a row whose pane is not filled in yet is left alone. A spawn inserts
/// the row before it opens the window, so there is always a moment with no pane;
/// if the spawner dies in that moment nothing will ever fill it.
pub const START_GRACE_SECS: i64 = 10;

/// An orphaned session row and why it counts as one.
#[derive(Debug)]
pub struct Orphan {
    pub session: Session,
    pub reason: &'static str,
}

/// Some live pane has that id in that session. tmux recycles pane ids, so `%1`
/// in another tmux session is not this session's pane.
pub open spec fn is_alive(panes: Seq<PaneV>, session: Seq<char>, pane_id: Seq<char>) -> bool {
    exists|i: int|
        0 <= i < panes.len() && (#[trigger] panes[i]).session_name == session && panes[i].pane_id
            == pane_id
}

/// Why a session is an orphan, if it is one.
pub open spec fn orphaned(s: Session, panes: Seq<PaneV>, now: i64) -> Option<Seq<char>> {
    if s.tmux_pane@.len() == 0 {
        if now - s.started_at > START_GRACE_SECS {
            Some(NEVER_STARTED@)
        } else {
            None
        }
    } else if is_alive(panes, s.tmux_session@, s.tmux_pane@) {
        None
    } else {
        Some(PANE_GONE@)
    }
}

/// The orphans among some sessions, in order, each with its reason.
pub open spec fn orphans_among(sessions: Seq<Session>, panes: Seq<PaneV>, now: i64) -> Seq<
    (Session, Seq<char>),
>
    decreases sessions.len(),
{
    if sessions.len() == 0 {
        Seq::empty()
    } else {
        let before = orphans_among(sessions.drop_last(), panes, now);
        match orphaned(sessions.last(), panes, now) {
            Some(reason) => before.push((sessions.last(), reason)),
            None => before,
        }
    }
}

/// Some orphans as values.
pub open spec fn orphans_view(v: Seq<Orphan>) -> Seq<(Session, Seq<char>)> {
    Seq::new(v.len(), |i: int| (v[i].session, v[i].reason@))
}

fn alive(panes: &[Pane], session: &str, pane_id: &str) -> (r: bool)
    ensures
        r == is_alive(panes_view(panes@), session@, pane_id@),
{
    let ghost all = panes_view(panes@);
    let mut i: usize = 0;
    while i < panes.len()
        invariant
            i <= panes.len(),
            all == panes_view(panes@),
            forall|j: int|
                0 <= j < i ==> !((#[trigger] all[j]).session_name == session@ && all[j].pane_id
                    == pane_id@),
        decreases panes.len() - i,
    {
        assert(all[i as int] == panes[i as int]@);
        if same(panes[i].session_name.as_str(), session) && same(
            panes[i].pane_id.as_str(),
            pane_id,
        ) {
            return true;
        }
        i += 1;
    }
    false
}

/// The sessions among `sessions` that no longer have a live pane. A row with no
/// pane at all is only an orphan once [`START_GRACE_SECS`] have passed since it
/// started.
pub fn find_orphans(sessions: Vec<Session>, panes: &[Pane], now: i64) -> (r: Vec<Orphan>)
    ensures
        orphans_view(r@) == orphans_among(sessions@, panes_view(panes@), now),
{
    let ghost pv = panes_view(panes@);
    let mut out: Vec<Orphan> = Vec::new();
    let mut i: usize = 0;
    proof {
        assert(sessions@.take(0) =~= Seq::empty());
        assert(orphans_view(out@) =~= Seq::empty());
    }
    while i < sessions.len()
        invariant
            i <= sessions.len(),
            pv == panes_view(panes@),
            orphans_view(out@) == orphans_among(sessions@.take(i as int), pv, now),
        decreases sessions.len() - i,
    {
        let s = &sessions[i];
        let reason: Option<&'static str> = if s.tmux_pane.as_str().is_empty() {
            if now as i128 - s.started_at as i128 > START_GRACE_SECS as i128 {
                Some(NEVER_STARTED)
            } else {
                None
            }
        } else if alive(panes, s.tmux_session.as_str(), s.tmux_pane.as_str()) {
            None
        } else {
            Some(PANE_GONE)
        };
        proof {
            assert(sessions@.take(i as int + 1).drop_last() =~= sessions@.take(i as int));
            assert(sessions@.take(i as int + 1).last() == *s);
        }
        match reason {
            Some(reason) => {
                let ghost before = out@;
                out.push(Orphan { session: s.copy(), reason });
                proof {
                    assert(orphans_view(out@) =~= orphans_view(before).push((*s, reason@)));
                }
            },
            None => {},
        }
        i += 1;
    }
    proof {
        assert(sessions@.take(sessions.len() as int) =~= sessions@);
    }
    out
}

/// The kind of the event that says a session ended.
pub const SESSION_END: &'static str = "session.end";

/// What is recorded of a session that ended: its row as it is now, and one event.
#[derive(Debug, Clone, PartialEq, Eq)]
pub struct SessionEnd {
    pub session: Session,
    /// The quest and the session the event is about.
    pub quest_id: String,
    pub session_id: String,
    /// The event's kind.
    pub kind: String,
    /// The event's payload, key by key.
    pub payload: Vec<(String, String)>,
}

/// A record of an end as a value.
pub ghost struct SessionEndV {
    pub session: Session,
    pub quest_id: Seq<char>,
    pub session_id: Seq<char>,
    pub kind: Seq<char>,
    pub payload: Seq<(Seq<char>, Seq<char>)>,
}

impl View for SessionEnd {
    type V = SessionEndV;

    open spec fn view(&self) -> SessionEndV {
        SessionEndV {
            session: self.session,
            quest_id: self.quest_id@,
            session_id: self.session_id@,
            kind: self.kind@,
            payload: pairs_view(self.payload@),
        }
    }
}

/// What is recorded of a session that ended for that reason at that time.
pub open spec fn end_of(s: Session, reason: Seq<char>, now: i64) -> SessionEndV {
    SessionEndV {
        session: Session { status: SessionStatus::Ended, ended_at: Some(now), ..s },
        quest_id: s.quest_id@,
        session_id: s.id@,
        kind: SESSION_END@,
        payload: seq![("reason"@, reason)],
    }
}

/// What is recorded of some orphans, one record each and in order.
pub open spec fn ends_of(orphans: Seq<(Session, Seq<char>)>, now: i64) -> Seq<SessionEndV> {
    Seq::new(orphans.len(), |i: int| end_of(orphans[i].0, orphans[i].1, now))
}

/// Some records as values.
pub open spec fn ends_view(v: Seq<SessionEnd>) -> Seq<SessionEndV> {
    Seq::new(v.len(), |i: int| v[i]@)
}

/// What is recorded of an orphan.
pub fn ended(orphan: &Orphan, now: i64) -> (r: SessionEnd)
    ensures
        r@ == end_of(orphan.session, orphan.reason@, now),
{
    let mut session = orphan.session.copy();
    session.status = SessionStatus::Ended;
    session.ended_at = Some(now);
    let mut payload: Vec<(String, String)> = Vec::new();
    payload.push((owned("reason"), owned(orphan.reason)));
    proof {
        assert(pairs_view(payload@) =~= seq![("reason"@, orphan.reason@)]);
    }
    SessionEnd {
        quest_id: session.quest_id.clone(),
        session_id: session.id.clone(),
        session,
        kind: owned(SESSION_END),
        payload,
    }
}

/// What a sweep over the live sessions records, given a listing.
pub open spec fn swept(
    live: Seq<Session>,
    listed: Result<Vec<Pane>, QError>,
    now: i64,
    r: Result<Vec<SessionEnd>, QError>,
) -> bool {
    match listed {
        Ok(panes) => r is Ok && ends_view(r->Ok_0@) == ends_of(
            orphans_among(live, panes_view(panes@), now),
            now,
        ),
        Err(e) => if has_text(error_text(e), "no server running"@) {
            r is Ok && ends_view(r->Ok_0@) == ends_of(
                orphans_among(live, Seq::empty(), now),
                now,
            )
        } else {
            r == Err::<Vec<SessionEnd>, QError>(e)
        },
    }
}

/// Which of the live sessions have ended, given a listing, and what is recorded of
/// each.
pub fn sweep_listed(live: Vec<Session>, listed: Result<Vec<Pane>, QError>, now: i64) -> (r: Result<
    Vec<SessionEnd>,
    QError,
>)
    ensures
        swept(live@, listed, now, r),
{
    let panes = match live_among(listed) {
        Ok(panes) => panes,
        Err(e) => {
            return Err(e);
        },
    };
    proof {
        if listed is Err {
            assert(panes_view(panes@) =~= Seq::empty());
        }
    }
    let orphans = find_orphans(live, panes.as_slice(), now);
    let ghost all = orphans_view(orphans@);
    let mut out: Vec<SessionEnd> = Vec::new();
    let mut i: usize = 0;
    while i < orphans.len()
        invariant
            i <= orphans.len(),
            all == orphans_view(orphans@),
            ends_view(out@) =~= ends_of(all, now).take(i as int),
        decreases orphans.len() - i,
    {
        let end = ended(&orphans[i], now);
        let ghost before = out@;
        out.push(end);
        proof {
            assert(all[i as int] == (orphans[i as int].session, orphans[i as int].reason@));
            assert(ends_of(all, now)[i as int] == end@);
            assert(ends_view(out@) =~= ends_view(before).push(end@));
        }
        i += 1;
    }
    proof {
        assert(ends_of(all, now).take(all.len() as int) =~= ends_of(all, now));
    }
    Ok(out)
}

/// Liveness: a live session whose pane is gone has ended. With nothing live,
/// tmux is not asked at all. Storing what is to be recorded is the caller's.
pub fn sweep<T: Tmux + ?Sized>(live: Vec<Session>, tmux: &T, now: i64) -> (r: Result<
    Vec<SessionEnd>,
    QError,
>)
    ensures
        live.len() == 0 ==> r is Ok && r->Ok_0@ == Seq::<SessionEnd>::empty(),
        live.len() > 0 ==> exists|listed: Result<Vec<Pane>, QError>|
            call_ensures(T::list_panes, (tmux,), listed) && swept(live@, listed, now, r),
{
    if live.is_empty() {
        return Ok(Vec::new());
    }
    let listed = tmux.list_panes();
    sweep_listed(live, listed, now)
}

// ---------------------------------------------------------------------- laws

/// A pane as a line of the pane format.
pub open spec fn pane_line(p: PaneV) -> Seq<char> {
    p.pane_id + seq!['\t'] + signed(p.pane_pid as int) + seq!['\t'] + p.session_name + seq!['\t']
        + p.window_name + seq!['\t'] + signed(p.window_index as int)
}

proof fn lemma_signed(n: i32)
    ensures
        parsed_i32(signed(n as int)) == Some(n),
        signed(n as int).len() > 0,
        forall|i: int| 0 <= i < signed(n as int).len() ==> #[trigger] signed(n as int)[i] != '\t',
        signed(n as int).last() != '\r',
{
    let s = signed(n as int);
    if n < 0 {
        decimal_reads_back((-n) as nat);
        assert(s.skip(1) =~= decimal((-n) as nat));
        assert forall|i: int| 0 <= i < s.len() implies #[trigger] s[i] != '\t' by {
            if i > 0 {
                assert(s[i] == decimal((-n) as nat)[i - 1]);
            }
        }
        assert(is_digit(decimal((-n) as nat)[decimal((-n) as nat).len() - 1]));
    } else {
        decimal_reads_back(n as nat);
        assert(is_digit(s[0]));
        assert(is_digit(s[s.len() - 1]));
    }
}

proof fn lemma_split_first(a: Seq<char>, rest: Seq<char>)
    requires
        forall|i: int| 0 <= i < a.len() ==> a[i] != '\t',
    ensures
        split(a + seq!['\t'] + rest, '\t') == seq![a] + split(rest, '\t'),
{
    let s = a + seq!['\t'] + rest;
    lemma_find_char_at(s, '\t', a.len() as int);
    assert(s.take(a.len() as int) =~= a);
    assert(s.skip(a.len() as int + 1) =~= rest);
}

/// A pane written in the pane format reads back as the same pane, whatever its
/// numbers are and whatever its names hold but a tab.
pub proof fn a_pane_line_reads_back(p: PaneV)
    requires
        p.pane_id.len() > 0,
        !p.pane_id.contains('\t'),
        !p.session_name.contains('\t'),
        !p.window_name.contains('\t'),
    ensures
        pane_of(pane_line(p)) == Some(p),
{
    let pid = signed(p.pane_pid as int);
    let index = signed(p.window_index as int);
    lemma_signed(p.pane_pid);
    lemma_signed(p.window_index);
    let text = pane_line(p);
    assert(text.last() == index.last());
    assert(without_returns(text) == text);
    let r3 = p.window_name + seq!['\t'] + index;
    let r2 = p.session_name + seq!['\t'] + r3;
    let r1 = pid + seq!['\t'] + r2;
    assert(text =~= p.pane_id + seq!['\t'] + r1);
    lemma_split_first(p.pane_id, r1);
    lemma_split_first(pid, r2);
    lemma_split_first(p.session_name, r3);
    lemma_split_first(p.window_name, index);
    lemma_find_char_at(index, '\t', index.len() as int);
    assert(split(index, '\t') =~= seq![index]);
    assert(split(text, '\t') =~= seq![p.pane_id, pid, p.session_name, p.window_name, index]);
}

/// With no panes at all, every session that had one is an orphan.
pub proof fn a_dead_server_orphans_everything(s: Session, now: i64)
    requires
        s.tmux_pane@.len() > 0,
    ensures
        orphaned(s, Seq::empty(), now) == Some(PANE_GONE@),
{
}

/// A session whose pane is still there, in its own tmux session, is never an
/// orphan, and neither is one that has only just started.
pub proof fn the_living_are_left_alone(s: Session, panes: Seq<PaneV>, now: i64)
    requires
        if s.tmux_pane@.len() > 0 {
            is_alive(panes, s.tmux_session@, s.tmux_pane@)
        } else {
            now <= s.started_at + START_GRACE_SECS
        },
    ensures
        orphaned(s, panes, now) is None,
{
}

/// A sweep records an end for each orphan and for nothing else, in order: the row
/// as it was but ended now, and one event that says why.
pub proof fn a_sweep_ends_each_orphan_once(
    live: Seq<Session>,
    panes: Vec<Pane>,
    now: i64,
    r: Result<Vec<SessionEnd>, QError>,
    i: int,
)
    requires
        swept(live, Ok(panes), now, r),
        0 <= i < orphans_among(live, panes_view(panes@), now).len(),
    ensures
        r is Ok,
        r->Ok_0.len() == orphans_among(live, panes_view(panes@), now).len(),
        ({
            let (s, reason) = orphans_among(live, panes_view(panes@), now)[i];
            let end = r->Ok_0[i];
            &&& end.session == (Session {
                status: SessionStatus::Ended,
                ended_at: Some(now),
                ..s
            })
            &&& end.kind@ == "session.end"@
            &&& end.quest_id@ == s.quest_id@ && end.session_id@ == s.id@
            &&& pairs_view(end.payload@) == seq![("reason"@, reason)]
            &&& live.contains(s) && orphaned(s, panes_view(panes@), now) == Some(reason)
        }),
{
    let all = orphans_among(live, panes_view(panes@), now);
    let ends = r->Ok_0@;
    assert(ends_view(ends).len() == ends_of(all, now).len());
    assert(ends_view(ends)[i] == ends_of(all, now)[i]);
    assert(all.contains(all[i]));
    the_sweep_reports_exactly_the_orphans(live, panes_view(panes@), now, all[i].0, all[i].1);
}

/// A session the sweep reports is one it was given, and it says why; one that it
/// does not report was no orphan.
pub proof fn the_sweep_reports_exactly_the_orphans(
    sessions: Seq<Session>,
    panes: Seq<PaneV>,
    now: i64,
    s: Session,
    reason: Seq<char>,
)
    ensures
        orphans_among(sessions, panes, now).contains((s, reason)) <==> sessions.contains(s)
            && orphaned(s, panes, now) == Some(reason),
    decreases sessions.len(),
{
    if sessions.len() > 0 {
        let front = sessions.drop_last();
        let before = orphans_among(front, panes, now);
        let all = orphans_among(sessions, panes, now);
        the_sweep_reports_exactly_the_orphans(front, panes, now, s, reason);
        assert(sessions =~= front.push(sessions.last()));
        if front.contains(s) {
            let i = choose|i: int| 0 <= i < front.len() && front[i] == s;
            assert(sessions[i] == s);
        }
        if sessions.last() == s {
            assert(sessions[sessions.len() - 1] == s);
        }
        match orphaned(sessions.last(), panes, now) {
            Some(why) => {
                assert(all == before.push((sessions.last(), why)));
                assert(all[all.len() - 1] == (sessions.last(), why));
                if before.contains((s, reason)) {
                    let i = choose|i: int| 0 <= i < before.len() && before[i] == (s, reason);
                    assert(all[i] == (s, reason));
                }
                if all.contains((s, reason)) {
                    let i = choose|i: int| 0 <= i < all.len() && all[i] == (s, reason);
                    if i < before.len() {
                        assert(before[i] == (s, reason));
                    }
                }
            },
            None => {},
        }
    }
}

/// Whatever is captured is at most as many lines as were asked for, and its last
/// line is not blank.
pub proof fn a_capture_is_bounded(ls: Seq<Seq<char>>, n: int)
    requires
        n > 0,
    ensures
        last_of(without_blank_tail(ls), n).len() <= n,
        last_of(without_blank_tail(ls), n).len() > 0 ==> trimmed(
            last_of(without_blank_tail(ls), n).last(),
        ).len() > 0,
    decreases ls.len(),
{
    if ls.len() > 0 && trimmed(ls.last()).len() == 0 {
        a_capture_is_bounded(ls.drop_last(), n);
    }
}

} // verus!
