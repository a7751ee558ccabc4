//! The modal input layer: a text field, a cycling select, a toggle, a note,
//! and the box they are drawn in.
//!
//! Every form has to say what Enter means: [`Form::action`] for anything that
//! destroys or spawns, [`Form::harmless`] for anything that does not. A form
//! that says neither refuses to submit at all.
//!
//! [`Form::handle`] only edits the form and says what happened, and [`render`]
//! only lays it out.
use vstd::prelude::*;
use vstd::string::*;
use crate::keys::Input;
use crate::layout::{
    centered, clusters, display_width, fill, fitting, grapheme_clusters, lemma_flatten_first, mark,
    middle, truncate, truncated, truncation_splits_no_cluster, width, Rect,
};
use crate::paint::{line, lines_view, Line, LineV, Style};
use crate::text::{
    byte_len, bytes, chars_of, concat, concat3, control, is_boundary, is_control,
    lemma_prefix_by_bytes, owned, pad_left, padded_left, same, split_bytes, texts, trim, trimmed,
};

verus! {

/// The block the caret is painted as; the terminal's own cursor is hidden.
pub const CARET: char = '\u{2588}';

/// Marks a cut in a value too wide for the box.
pub const CUT: char = '\u{2026}';

/// Two borders plus one column of padding on each side.
pub const BOX_CHROME: u16 = 4;

/// The label of the row that decides whether a submit means anything.
pub const ACTION: &'static str = "action";

/// Its non-committal option, and the one it starts on.
pub const CANCEL: &'static str = "cancel";

/// What Enter means on a form with no action row: nothing, unless the form was
/// declared harmless.
#[derive(Debug, Clone, Copy, PartialEq, Eq, Structural)]
pub enum Commit {
    /// Nothing may run until an action row says so.
    Guarded,
    /// Submitting destroys nothing and starts nothing, so Enter is just Enter.
    Harmless,
}

/// What a keypress did to a form.
#[derive(Debug, Clone, Copy, PartialEq, Eq, Structural)]
pub enum Outcome {
    /// Absorbed: the box keeps the keyboard and stays on screen.
    Editing,
    /// Enter: the caller validates and either acts or sets an error.
    Submit,
    /// Esc.
    Cancel,
}

/// One row of a form.
#[derive(Debug, Clone, PartialEq, Eq)]
pub enum Field {
    /// Free text with a caret.
    Text {
        label: String,
        value: String,
        /// Byte offset of the caret in `value`, always on a char boundary.
        cursor: usize,
        /// What an empty value means, shown in its place.
        blank: String,
    },
    /// One of a fixed list, cycled with the arrows.
    Select {
        label: String,
        options: Vec<String>,
        at: usize,
        /// Whether Space is refused as a way to cycle it.
        guarded: bool,
    },
    /// Flipped with the arrows or Space.
    Toggle { label: String, on: bool },
    /// Something the form has to say. Never focused.
    Note(String),
}

// ---------------------------------------------------------------- the model

/// A field as a value: a text is what stands before the caret and behind it.
pub ghost enum FieldV {
    Text { label: Seq<char>, before: Seq<char>, after: Seq<char>, blank: Seq<char> },
    Select { label: Seq<char>, options: Seq<Seq<char>>, at: nat, guarded: bool },
    Toggle { label: Seq<char>, on: bool },
    Note(Seq<char>),
}

/// How many characters of `s` stand before the byte offset `at`.
pub open spec fn place(s: Seq<char>, at: int) -> int {
    choose|k: int| 0 <= k <= s.len() && #[trigger] byte_len(s.take(k)) == at
}

pub proof fn lemma_place(s: Seq<char>, k: int)
    requires
        0 <= k <= s.len(),
    ensures
        place(s, byte_len(s.take(k)) as int) == k,
        is_boundary(s, byte_len(s.take(k)) as int),
{
    let at = byte_len(s.take(k)) as int;
    let j = place(s, at);
    assert(byte_len(s.take(k)) == at);
    assert(0 <= j <= s.len() && byte_len(s.take(j)) == at);
    lemma_prefix_by_bytes(s, j, k);
}

/// The offset that splits `before + after` between the two.
pub proof fn lemma_place_between(before: Seq<char>, after: Seq<char>)
    ensures
        place(before + after, byte_len(before) as int) == before.len(),
        is_boundary(before + after, byte_len(before) as int),
        (before + after).take(before.len() as int) == before,
        (before + after).skip(before.len() as int) == after,
{
    let s = before + after;
    assert(s.take(before.len() as int) =~= before);
    assert(s.skip(before.len() as int) =~= after);
    lemma_place(s, before.len() as int);
}

impl View for Field {
    type V = FieldV;

    open spec fn view(&self) -> FieldV {
        match *self {
            Field::Text { label, value, cursor, blank } => FieldV::Text {
                label: label@,
                before: value@.take(place(value@, cursor as int)),
                after: value@.skip(place(value@, cursor as int)),
                blank: blank@,
            },
            Field::Select { label, options, at, guarded } => FieldV::Select {
                label: label@,
                options: texts(options@),
                at: at as nat,
                guarded,
            },
            Field::Toggle { label, on } => FieldV::Toggle { label: label@, on },
            Field::Note(text) => FieldV::Note(text@),
        }
    }
}

/// The label of a field; a note has none.
pub open spec fn label_of(f: FieldV) -> Seq<char> {
    match f {
        FieldV::Text { label, .. } => label,
        FieldV::Select { label, .. } => label,
        FieldV::Toggle { label, .. } => label,
        FieldV::Note(_) => Seq::empty(),
    }
}

/// Only a note never takes focus.
pub open spec fn is_focusable(f: FieldV) -> bool {
    !(f is Note)
}

/// How many characters remain of `s` without its last grapheme cluster.
pub open spec fn step_back(s: Seq<char>) -> int {
    let parts = grapheme_clusters(s);
    if parts.len() > 0 && parts.last().len() <= s.len() {
        s.len() - parts.last().len()
    } else {
        0
    }
}

/// How many characters the first grapheme cluster of `s` takes.
pub open spec fn step_ahead(s: Seq<char>) -> int {
    let parts = grapheme_clusters(s);
    if parts.len() > 0 && parts[0].len() <= s.len() {
        parts[0].len() as int
    } else {
        0
    }
}

/// What a key makes of a text with a caret: whether anything changed, and what
/// then stands before the caret and behind it.
pub open spec fn edited_text(before: Seq<char>, after: Seq<char>, input: Input) -> (
    bool,
    Seq<char>,
    Seq<char>,
) {
    let k = step_back(before);
    let n = step_ahead(after);
    match input {
        Input::Char(c) => (true, before.push(c), after),
        Input::Backspace => (k != before.len(), before.take(k), after),
        Input::Delete => (n != 0, before, after.skip(n)),
        Input::Left => (k != before.len(), before.take(k), before.skip(k) + after),
        Input::Right => (n != 0, before + after.take(n), after.skip(n)),
        Input::Home => (before.len() > 0, Seq::empty(), before + after),
        Input::End => (after.len() > 0, before + after, Seq::empty()),
        Input::Ctrl('u') => (before.len() + after.len() > 0, Seq::empty(), Seq::empty()),
        _ => (false, before, after),
    }
}

/// What a key makes of a field: whether anything changed, and the field then.
pub open spec fn edited(f: FieldV, input: Input) -> (bool, FieldV) {
    match f {
        FieldV::Text { label, before, after, blank } => {
            let (changed, b, a) = edited_text(before, after, input);
            (changed, FieldV::Text { label, before: b, after: a, blank })
        },
        FieldV::Select { label, options, at, guarded } => {
            let n = options.len() as int;
            if n <= 1 {
                (false, f)
            } else if input == Input::Left {
                (true, FieldV::Select { label, options, at: ((at as int + n - 1) % n) as nat, guarded })
            } else if input == Input::Right || (input == Input::Char(' ') && !guarded) {
                (true, FieldV::Select { label, options, at: ((at as int + 1) % n) as nat, guarded })
            } else {
                (false, f)
            }
        },
        FieldV::Toggle { label, on } => if input == Input::Left || input == Input::Right || input
            == Input::Char(' ') {
            (true, FieldV::Toggle { label, on: !on })
        } else {
            (false, f)
        },
        FieldV::Note(_) => (false, f),
    }
}

/// The pieces before and behind a byte offset, in the terms of `place`.
fn halves(value: &str, cursor: usize) -> (r: (String, String))
    requires
        is_boundary(value@, cursor as int),
    ensures
        r.0@ == value@.take(place(value@, cursor as int)),
        r.1@ == value@.skip(place(value@, cursor as int)),
        r.0@ + r.1@ == value@,
        byte_len(r.0@) == cursor,
{
    let r = split_bytes(value, cursor);
    proof {
        lemma_place_between(r.0@, r.1@);
    }
    r
}

proof fn lemma_flatten_ends(parts: Seq<Seq<char>>)
    requires
        parts.len() > 0,
    ensures
        parts[0].len() <= parts.flatten().len(),
        parts.last().len() <= parts.flatten().len(),
        parts.flatten().take(parts[0].len() as int) == parts[0],
        parts.flatten().skip(parts.flatten().len() - parts.last().len()) == parts.last(),
    decreases parts.len(),
{
    let rest = parts.drop_first();
    assert(parts.flatten() == parts[0] + rest.flatten());
    assert(parts.flatten().take(parts[0].len() as int) =~= parts[0]);
    if rest.len() == 0 {
        assert(rest.flatten() =~= Seq::empty());
        assert(parts.flatten() =~= parts[0]);
        assert(parts.flatten().skip(0) =~= parts.last());
    } else {
        lemma_flatten_ends(rest);
        assert(rest.last() == parts.last());
        let f = parts.flatten();
        let g = rest.flatten();
        assert(f.skip(f.len() - parts.last().len()) =~= g.skip(g.len() - rest.last().len()));
    }
}

/// How many characters of `s` remain without its last cluster. The caret walks
/// whole grapheme clusters, the unit `truncate` cuts on and the unit a terminal
/// paints as one glyph.
fn prev_boundary(s: &str) -> (r: usize)
    ensures
        r == step_back(s@),
        r <= s@.len(),
        r == s@.len() <==> s@.len() == 0,
{
    let parts = clusters(s);
    let n = s.unicode_len();
    if parts.len() == 0 {
        proof {
            assert(texts(parts@).flatten().len() == 0);
        }
        return 0;
    }
    let last = parts[parts.len() - 1].as_str().unicode_len();
    proof {
        lemma_flatten_ends(texts(parts@));
        assert(texts(parts@).last() == parts[parts.len() - 1]@);
    }
    n - last
}

/// How many characters the first cluster of `s` takes.
fn next_boundary(s: &str) -> (r: usize)
    ensures
        r == step_ahead(s@),
        r <= s@.len(),
        r == 0 <==> s@.len() == 0,
{
    let parts = clusters(s);
    if parts.len() == 0 {
        proof {
            assert(texts(parts@).flatten().len() == 0);
        }
        return 0;
    }
    proof {
        lemma_flatten_ends(texts(parts@));
        assert(texts(parts@)[0] == parts[0]@);
    }
    parts[0].as_str().unicode_len()
}

impl Field {
    /// A text's caret is on a character boundary, and a select points at one of
    /// its options.
    pub open spec fn wf(&self) -> bool {
        match *self {
            Field::Text { label, value, cursor, blank } => is_boundary(value@, cursor as int),
            Field::Select { label, options, at, guarded } => at < options.len(),
            _ => true,
        }
    }

    /// What the row is called; a note is called nothing.
    pub fn label(&self) -> (r: &str)
        ensures
            r@ == label_of(self@),
    {
        match self {
            Field::Text { label, .. } => label.as_str(),
            Field::Select { label, .. } => label.as_str(),
            Field::Toggle { label, .. } => label.as_str(),
            Field::Note(_) => {
                proof {
                    reveal_strlit("");
                    assert(""@ =~= Seq::empty());
                }
                ""
            },
        }
    }

    pub(crate) fn focusable(&self) -> (r: bool)
        ensures
            r == is_focusable(self@),
    {
        match self {
            Field::Note(_) => false,
            _ => true,
        }
    }

    /// A text field with the caret between two texts.
    fn text_with(label: &str, before: &str, after: &str, blank: &str) -> (r: Field)
        ensures
            r.wf(),
            r@ == (FieldV::Text {
                label: label@,
                before: before@,
                after: after@,
                blank: blank@,
            }),
    {
        proof {
            lemma_place_between(before@, after@);
        }
        Field::Text {
            label: owned(label),
            value: concat(before, after),
            cursor: bytes(before),
            blank: owned(blank),
        }
    }

    /// The field after a keystroke, or `None` where the key changes nothing.
    fn edit(&self, input: Input) -> (r: Option<Field>)
        requires
            self.wf(),
        ensures
            r is Some <==> edited(self@, input).0,
            r is Some ==> r->0.wf() && r->0@ == edited(self@, input).1,
            r is None ==> edited(self@, input).1 == self@,
    {
        match self {
            Field::Text { label, value, cursor, blank } => {
                let (before, after) = halves(value.as_str(), *cursor);
                Field::edit_text(label.as_str(), &before, &after, blank.as_str(), input)
            },
            Field::Select { label, options, at, guarded } => {
                let n: usize = options.len();
                // There is nothing to cycle to.
                if n <= 1 {
                    return None;
                }
                let forward = match input {
                    Input::Left => false,
                    Input::Right => true,
                    Input::Char(' ') => if *guarded {
                        return None;
                    } else {
                        true
                    },
                    _ => return None,
                };
                let moved: usize = if forward {
                    if *at + 1 == n {
                        0
                    } else {
                        *at + 1
                    }
                } else if *at == 0 {
                    n - 1
                } else {
                    *at - 1
                };
                proof {
                    lemma_cycle(*at as int, n as int);
                }
                Some(
                    Field::Select {
                        label: label.clone(),
                        options: crate::text::clone_strings(options),
                        at: moved,
                        guarded: *guarded,
                    },
                )
            },
            Field::Toggle { label, on } => match input {
                Input::Left | Input::Right | Input::Char(' ') => Some(
                    Field::Toggle { label: label.clone(), on: !*on },
                ),
                _ => None,
            },
            Field::Note(_) => None,
        }
    }

    /// A text field after a keystroke.
    fn edit_text(label: &str, before: &String, after: &String, blank: &str, input: Input) -> (r:
        Option<Field>)
        ensures
            ({
                let f = FieldV::Text {
                    label: label@,
                    before: before@,
                    after: after@,
                    blank: blank@,
                };
                &&& r is Some <==> edited(f, input).0
                &&& r is Some ==> r->0.wf() && r->0@ == edited(f, input).1
                &&& r is None ==> edited(f, input).1 == f
            }),
    {
        let b = before.as_str();
        let a = after.as_str();
        let none = String::new();
        let blank_text = none.as_str();
        let nb = b.unicode_len();
        let na = a.unicode_len();
        match input {
            Input::Char(c) => {
                let mut grown = before.clone();
                grown.push(c);
                Some(Field::text_with(label, grown.as_str(), a, blank))
            },
            Input::Backspace => {
                let k = prev_boundary(b);
                if k == nb {
                    proof {
                        assert(before@.take(k as int) =~= before@);
                    }
                    return None;
                }
                Some(Field::text_with(label, b.substring_char(0, k), a, blank))
            },
            Input::Delete => {
                let n = next_boundary(a);
                if n == 0 {
                    proof {
                        assert(after@.skip(n as int) =~= after@);
                    }
                    return None;
                }
                Some(Field::text_with(label, b, a.substring_char(n, na), blank))
            },
            Input::Left => {
                let k = prev_boundary(b);
                if k == nb {
                    proof {
                        assert(before@.take(k as int) =~= before@);
                        assert(before@.skip(k as int) + after@ =~= after@);
                    }
                    return None;
                }
                let moved = concat(b.substring_char(k, nb), a);
                Some(Field::text_with(label, b.substring_char(0, k), moved.as_str(), blank))
            },
            Input::Right => {
                let n = next_boundary(a);
                if n == 0 {
                    proof {
                        assert(before@ + after@.take(0) =~= before@);
                        assert(after@.skip(0) =~= after@);
                    }
                    return None;
                }
                let moved = concat(b, a.substring_char(0, n));
                Some(Field::text_with(label, moved.as_str(), a.substring_char(n, na), blank))
            },
            Input::Home => {
                if nb == 0 {
                    proof {
                        assert(before@ =~= Seq::empty());
                        assert(before@ + after@ =~= after@);
                    }
                    return None;
                }
                Some(Field::text_with(label, blank_text, concat(b, a).as_str(), blank))
            },
            Input::End => {
                if na == 0 {
                    proof {
                        assert(after@ =~= Seq::empty());
                        assert(before@ + after@ =~= before@);
                    }
                    return None;
                }
                Some(Field::text_with(label, concat(b, a).as_str(), blank_text, blank))
            },
            Input::Ctrl('u') => {
                if nb == 0 && na == 0 {
                    proof {
                        assert(before@ =~= Seq::empty());
                        assert(after@ =~= Seq::empty());
                    }
                    return None;
                }
                Some(Field::text_with(label, blank_text, blank_text, blank))
            },
            _ => None,
        }
    }
}

proof fn lemma_cycle(at: int, n: int)
    requires
        0 <= at < n,
    ensures
        (at + 1) % n == if at + 1 == n {
            0
        } else {
            at + 1
        },
        (at + n - 1) % n == if at == 0 {
            n - 1
        } else {
            at - 1
        },
{
    assert((at + 1) % n == if at + 1 == n {
        0int
    } else {
        at + 1
    }) by (nonlinear_arith)
        requires
            0 <= at < n,
    ;
    assert((at + n - 1) % n == if at == 0 {
        n - 1
    } else {
        at - 1
    }) by (nonlinear_arith)
        requires
            0 <= at < n,
    ;
}

// ------------------------------------------------------------------ the form

/// A modal form: fields, focus, and whatever the last submission complained
/// about.
#[derive(Debug, Clone, PartialEq, Eq)]
pub struct Form {
    pub title: String,
    /// The one-line way out, which also goes in the status bar.
    pub hint: String,
    fields: Vec<Field>,
    /// `usize::MAX` when nothing in the form can take focus.
    focus: usize,
    error: Option<String>,
    /// What Enter means without an action row.
    commit: Commit,
}

/// A form as a value.
pub ghost struct FormV {
    pub title: Seq<char>,
    pub hint: Seq<char>,
    pub fields: Seq<FieldV>,
    /// The row that has the keyboard.
    pub focus: Option<nat>,
    pub error: Option<Seq<char>>,
    pub commit: Commit,
}

/// The fields of a form as values.
pub open spec fn fields_view(v: Seq<Field>) -> Seq<FieldV> {
    Seq::new(v.len(), |i: int| v[i]@)
}

impl View for Form {
    type V = FormV;

    closed spec fn view(&self) -> FormV {
        FormV {
            title: self.title@,
            hint: self.hint@,
            fields: fields_view(self.fields@),
            focus: if self.focus < self.fields.len() {
                Some(self.focus as nat)
            } else {
                None
            },
            error: match self.error {
                Some(e) => Some(e@),
                None => None,
            },
            commit: self.commit,
        }
    }
}

/// Focus is on a row that can take it, and on none only where there is none.
pub open spec fn focus_ok(fields: Seq<FieldV>, focus: Option<nat>) -> bool {
    match focus {
        Some(i) => i < fields.len() && is_focusable(fields[i as int]),
        None => forall|i: int| 0 <= i < fields.len() ==> !is_focusable(#[trigger] fields[i]),
    }
}

/// The first field of that label.
pub open spec fn find_field(fields: Seq<FieldV>, label: Seq<char>) -> Option<FieldV>
    decreases fields.len(),
{
    if fields.len() == 0 {
        None
    } else if label_of(fields[0]) == label {
        Some(fields[0])
    } else {
        find_field(fields.drop_first(), label)
    }
}

/// The option a select of that label shows, or nothing.
pub open spec fn choice_of(f: FormV, label: Seq<char>) -> Seq<char> {
    match find_field(f.fields, label) {
        Some(FieldV::Select { options, at, .. }) => if at < options.len() {
            options[at as int]
        } else {
            Seq::empty()
        },
        _ => Seq::empty(),
    }
}

/// The value of the text field of that label, without the white space around.
pub open spec fn trimmed_of(f: FormV, label: Seq<char>) -> Seq<char> {
    match find_field(f.fields, label) {
        Some(FieldV::Text { before, after, .. }) => trimmed(before + after),
        _ => Seq::empty(),
    }
}

/// A row that Space does not cycle, as only an action row is.
pub open spec fn is_guarded(f: FieldV) -> bool {
    f is Select && f->guarded
}

/// The last option of the action row.
pub open spec fn verb_of(f: FormV) -> Option<Seq<char>> {
    match find_field(f.fields, ACTION@) {
        Some(FieldV::Select { options, guarded, .. }) => if guarded && options.len() > 0 {
            Some(options.last())
        } else {
            None
        },
        _ => None,
    }
}

/// A submit means something: the action row has been moved off `cancel`, or
/// there is none and the form was declared harmless. A row of another kind that
/// is merely labelled like an action row is none.
pub open spec fn is_confirmed(f: FormV) -> bool {
    match find_field(f.fields, ACTION@) {
        Some(row) => if is_guarded(row) {
            choice_of(f, ACTION@) != CANCEL@
        } else {
            f.commit == Commit::Harmless
        },
        None => f.commit == Commit::Harmless,
    }
}

/// What a refused Enter says.
pub open spec fn refusal(f: FormV) -> Seq<char> {
    match verb_of(f) {
        Some(verb) => "nothing done \u{b7} choose \u{2039} "@ + verb
            + " \u{203a} on the action row (\u{2190}\u{2192}), or Esc"@,
        None =>
        "nothing done \u{b7} this prompt has no action row and is not marked harmless \u{b7} Esc"@,
    }
}

/// The row one step on, around the end.
pub open spec fn beside(at: int, forward: bool, n: int) -> int {
    if forward {
        if at + 1 >= n {
            0
        } else {
            at + 1
        }
    } else if at <= 0 {
        n - 1
    } else {
        at - 1
    }
}

/// The first row that takes focus, among `count` of them from beside `at` on.
pub open spec fn next_focus(fields: Seq<FieldV>, at: int, forward: bool, count: nat) -> Option<nat>
    decreases count,
{
    if count == 0 {
        None
    } else {
        let to = beside(at, forward, fields.len() as int);
        if 0 <= to < fields.len() && is_focusable(fields[to]) {
            Some(to as nat)
        } else {
            next_focus(fields, to, forward, (count - 1) as nat)
        }
    }
}

/// Focus moved one row that takes it, around the ends.
pub open spec fn stepped(f: FormV, forward: bool) -> FormV {
    match f.focus {
        Some(at) => FormV {
            focus: next_focus(f.fields, at as int, forward, f.fields.len()),
            ..f
        },
        None => f,
    }
}

/// What a key makes of the focused field: whether anything changed, and the form
/// then.
pub open spec fn keyed(f: FormV, input: Input) -> (bool, FormV) {
    match f.focus {
        Some(at) => {
            let (changed, field) = edited(f.fields[at as int], input);
            (changed, FormV { fields: f.fields.update(at as int, field), ..f })
        },
        None => (false, f),
    }
}

/// What a key makes of a form; a change takes the complaint with it.
pub open spec fn typed(f: FormV, input: Input) -> FormV {
    if keyed(f, input).0 {
        FormV { error: None, ..keyed(f, input).1 }
    } else {
        f
    }
}

/// What a key makes of a form.
pub open spec fn handled(f: FormV, input: Input) -> (Outcome, FormV) {
    match input {
        Input::Esc => (Outcome::Cancel, f),
        Input::Enter => if is_confirmed(f) {
            (Outcome::Submit, f)
        } else {
            (Outcome::Editing, FormV { error: Some(refusal(f)), ..f })
        },
        Input::Tab | Input::Down => (Outcome::Editing, stepped(f, true)),
        Input::BackTab | Input::Up => (Outcome::Editing, stepped(f, false)),
        _ => (Outcome::Editing, typed(f, input)),
    }
}

/// A text without its control characters.
pub open spec fn without_controls(s: Seq<char>) -> Seq<char> {
    s.filter(|c: char| !is_control(c))
}

/// What pasted text makes of a form: whether anything changed, and the form
/// then. Only a focused text field takes it, and none of its control
/// characters.
pub open spec fn pasted(f: FormV, text: Seq<char>) -> (bool, FormV) {
    let clean = without_controls(text);
    match f.focus {
        Some(at) => match f.fields[at as int] {
            FieldV::Text { label, before, after, blank } => if clean.len() > 0 {
                (
                    true,
                    FormV {
                        fields: f.fields.update(
                            at as int,
                            FieldV::Text { label, before: before + clean, after, blank },
                        ),
                        error: None,
                        ..f
                    },
                )
            } else {
                (false, f)
            },
            _ => (false, f),
        },
        None => (false, f),
    }
}

/// A form with one more row; the first that takes focus gets it.
pub open spec fn with_field(f: FormV, field: FieldV) -> FormV {
    FormV {
        fields: f.fields.push(field),
        focus: if f.focus is None && is_focusable(field) {
            Some(f.fields.len())
        } else {
            f.focus
        },
        ..f
    }
}

/// An empty form of that title.
pub open spec fn empty_form(title: Seq<char>) -> FormV {
    FormV {
        title,
        hint: "Tab field \u{b7} \u{23ce} ok \u{b7} Esc cancel"@,
        fields: Seq::empty(),
        focus: None,
        error: None,
        commit: Commit::Guarded,
    }
}

/// The options of a select: a list of nothing becomes a placeholder.
pub open spec fn options_or_none(options: Seq<Seq<char>>) -> Seq<Seq<char>> {
    if options.len() == 0 {
        seq!["(none)"@]
    } else {
        options
    }
}

/// The row a destructive prompt has to be armed on.
pub open spec fn action_row(verb: Seq<char>) -> FieldV {
    FieldV::Select { label: ACTION@, options: seq![CANCEL@, verb], at: 0, guarded: true }
}

/// The text without its control characters.
pub(crate) fn cleaned(text: &str) -> (r: String)
    ensures
        r@ == without_controls(text@),
{
    let chars = chars_of(text);
    let mut out = String::new();
    let mut i: usize = 0;
    let ghost keep = |c: char| !is_control(c);
    proof {
        reveal(Seq::filter);
    }
    while i < chars.len()
        invariant
            i <= chars.len(),
            keep == (|c: char| !is_control(c)),
            out@ == chars@.take(i as int).filter(keep),
        decreases chars.len() - i,
    {
        proof {
            reveal(Seq::filter);
            assert(chars@.take(i as int + 1).drop_last() =~= chars@.take(i as int));
        }
        if !control(chars[i]) {
            out.push(chars[i]);
        }
        i += 1;
    }
    proof {
        assert(chars@.take(chars.len() as int) =~= chars@);
    }
    out
}

impl Form {
    /// Every field is well formed and focus is where it can be.
    pub closed spec fn wf(&self) -> bool {
        &&& forall|i: int| 0 <= i < self.fields.len() ==> (#[trigger] self.fields[i]).wf()
        &&& focus_ok(self@.fields, self@.focus)
        &&& self.focus < self.fields.len() || self.focus == usize::MAX
    }

    /// In a well-formed form focus is on a row that can take it.
    pub proof fn focus_is_ok(&self)
        requires
            self.wf(),
        ensures
            focus_ok(self@.fields, self@.focus),
    {
    }

    /// An empty form. Until something says otherwise Enter does nothing.
    pub fn new(title: &str) -> (r: Form)
        ensures
            r.wf(),
            r@ == empty_form(title@),
    {
        let r = Form {
            title: owned(title),
            hint: owned("Tab field \u{b7} \u{23ce} ok \u{b7} Esc cancel"),
            fields: Vec::new(),
            focus: usize::MAX,
            error: None,
            commit: Commit::Guarded,
        };
        proof {
            assert(fields_view(r.fields@) =~= Seq::empty());
        }
        r
    }

    /// Declares that submitting this form destroys nothing and starts nothing,
    /// so it needs no action row.
    pub fn harmless(self) -> (r: Form)
        requires
            self.wf(),
        ensures
            r.wf(),
            r@ == (FormV { commit: Commit::Harmless, ..self@ }),
    {
        let mut form = self;
        form.commit = Commit::Harmless;
        form
    }

    /// The same form with another hint.
    pub fn hint(self, hint: &str) -> (r: Form)
        requires
            self.wf(),
        ensures
            r.wf(),
            r@ == (FormV { hint: hint@, ..self@ }),
    {
        let mut form = self;
        form.hint = owned(hint);
        form
    }

    /// A text field, with the caret at the end. `blank` says what leaving it
    /// empty will mean.
    pub fn text(self, label: &str, value: &str, blank: &str) -> (r: Form)
        requires
            self.wf(),
        ensures
            r.wf(),
            r@ == with_field(
                self@,
                FieldV::Text {
                    label: label@,
                    before: value@,
                    after: Seq::empty(),
                    blank: blank@,
                },
            ),
    {
        let none = String::new();
        self.push(Field::text_with(label, value, none.as_str(), blank))
    }

    /// A cycling select. An empty `options` would be a field with no value and
    /// no way to get one, so it degrades to a single placeholder.
    pub fn select(self, label: &str, options: Vec<String>, at: usize) -> (r: Form)
        requires
            self.wf(),
        ensures
            r.wf(),
            ({
                let all = options_or_none(texts(options@));
                r@ == with_field(
                    self@,
                    FieldV::Select {
                        label: label@,
                        options: all,
                        at: if at < all.len() {
                            at as nat
                        } else {
                            (all.len() - 1) as nat
                        },
                        guarded: false,
                    },
                )
            }),
    {
        let ghost given = texts(options@);
        let options = if options.is_empty() {
            let mut none: Vec<String> = Vec::new();
            none.push(owned("(none)"));
            proof {
                assert(texts(none@) =~= seq!["(none)"@]);
            }
            none
        } else {
            options
        };
        assert(texts(options@) == options_or_none(given));
        let at: usize = if at < options.len() {
            at
        } else {
            options.len() - 1
        };
        self.push(Field::Select { label: owned(label), options, at, guarded: false })
    }

    /// The affirmative of a prompt that destroys something or starts a process,
    /// as a row that begins on `cancel`: never the default, and never reachable
    /// by a key that a paste can carry.
    pub fn action(self, verb: &str) -> (r: Form)
        requires
            self.wf(),
        ensures
            r.wf(),
            r@ == with_field(self@, action_row(verb@)),
    {
        let mut options: Vec<String> = Vec::new();
        options.push(owned(CANCEL));
        options.push(owned(verb));
        proof {
            assert(texts(options@) =~= seq![CANCEL@, verb@]);
        }
        self.push(Field::Select { label: owned(ACTION), options, at: 0, guarded: true })
    }

    /// The verb an action row offers.
    fn verb(&self) -> (r: Option<&str>)
        requires
            self.wf(),
        ensures
            r is Some <==> verb_of(self@) is Some,
            r is Some ==> r->0@ == verb_of(self@)->0,
    {
        match self.find(ACTION) {
            Some(Field::Select { options, guarded, .. }) => {
                if !*guarded || options.len() == 0 {
                    None
                } else {
                    Some(options[options.len() - 1].as_str())
                }
            },
            _ => None,
        }
    }

    /// Whether a submit means anything. Fails closed: a prompt with neither an
    /// action row nor a claim to be harmless runs nothing, whatever its rows are
    /// called.
    pub fn confirmed(&self) -> (r: bool)
        requires
            self.wf(),
        ensures
            r == is_confirmed(self@),
    {
        match self.find(ACTION) {
            Some(Field::Select { guarded: true, .. }) => !same(self.choice(ACTION), CANCEL),
            _ => match self.commit {
                Commit::Harmless => true,
                Commit::Guarded => false,
            },
        }
    }

    /// A switch.
    pub fn toggle(self, label: &str, on: bool) -> (r: Form)
        requires
            self.wf(),
        ensures
            r.wf(),
            r@ == with_field(self@, FieldV::Toggle { label: label@, on }),
    {
        self.push(Field::Toggle { label: owned(label), on })
    }

    /// A line of prose.
    pub fn note(self, text: &str) -> (r: Form)
        requires
            self.wf(),
        ensures
            r.wf(),
            r@ == with_field(self@, FieldV::Note(text@)),
    {
        self.push(Field::Note(owned(text)))
    }

    fn push(self, field: Field) -> (r: Form)
        requires
            self.wf(),
            field.wf(),
        ensures
            r.wf(),
            r@ == with_field(self@, field@),
    {
        let mut form = self;
        let n = form.fields.len();
        let ghost old_fields = form.fields@;
        let takes = field.focusable();
        form.fields.push(field);
        if form.focus == usize::MAX && takes {
            form.focus = n;
        }
        proof {
            let _ = form.fields.len();
            assert(fields_view(form.fields@) =~= fields_view(old_fields).push(field@));
            assert(form@ == with_field(self@, field@));
            let fs = form@.fields;
            assert forall|i: int| 0 <= i < form.fields.len() implies (#[trigger] form.fields[i]).wf() by {
                if i < n {
                    assert(form.fields[i] == self.fields[i]);
                }
            }
            if form@.focus is None {
                assert forall|i: int| 0 <= i < fs.len() implies !is_focusable(#[trigger] fs[i]) by {
                    if i < n {
                        assert(fs[i] == self@.fields[i]);
                    }
                }
            }
        }
        form
    }

    // ------------------------------------------------------------- reading

    /// What the box is called.
    pub fn title_text(&self) -> (r: &str)
        ensures
            r@ == self@.title,
    {
        self.title.as_str()
    }

    /// The one-line way out.
    pub fn hint_text(&self) -> (r: &str)
        ensures
            r@ == self@.hint,
    {
        self.hint.as_str()
    }

    /// The rows.
    pub fn fields(&self) -> (r: &[Field])
        ensures
            fields_view(r@) == self@.fields,
    {
        self.fields.as_slice()
    }

    fn find(&self, label: &str) -> (r: Option<&Field>)
        requires
            self.wf(),
        ensures
            r is Some <==> find_field(self@.fields, label@) is Some,
            r is Some ==> r->0.wf() && r->0@ == find_field(self@.fields, label@)->0,
    {
        let ghost all = self@.fields;
        let mut i: usize = 0;
        proof {
            assert(all.skip(0) =~= all);
        }
        while i < self.fields.len()
            invariant
                i <= self.fields.len(),
                self.wf(),
                all == self@.fields,
                find_field(all, label@) == find_field(all.skip(i as int), label@),
            decreases self.fields.len() - i,
        {
            proof {
                assert(all.skip(i as int).len() > 0);
                assert(all.skip(i as int)[0] == self.fields[i as int]@);
                assert(all.skip(i as int).drop_first() =~= all.skip(i as int + 1));
            }
            if same(self.fields[i].label(), label) {
                return Some(&self.fields[i]);
            }
            i += 1;
        }
        None
    }

    /// A text field's value, trimmed. Missing labels read as empty: a form is
    /// data, and a caller asking for a field it did not build is asking for
    /// "nothing was given".
    pub fn trimmed(&self, label: &str) -> (r: &str)
        requires
            self.wf(),
        ensures
            r@ == trimmed_of(self@, label@),
    {
        proof {
            reveal_strlit("");
            assert(""@ =~= Seq::empty());
        }
        match self.find(label) {
            Some(Field::Text { value, cursor, .. }) => {
                proof {
                    let k = place(value@, *cursor as int);
                    let j = choose|j: int| 0 <= j <= value@.len() && #[trigger] byte_len(value@.take(j)) == cursor;
                    lemma_place(value@, j);
                    assert(value@.take(k) + value@.skip(k) =~= value@);
                }
                trim(value.as_str())
            },
            _ => "",
        }
    }

    /// The same, as `None` when it is blank.
    pub fn optional(&self, label: &str) -> (r: Option<&str>)
        requires
            self.wf(),
        ensures
            r is Some <==> trimmed_of(self@, label@).len() > 0,
            r is Some ==> r->0@ == trimmed_of(self@, label@),
    {
        let value = self.trimmed(label);
        if value.is_empty() {
            None
        } else {
            Some(value)
        }
    }

    /// A select's current option, or `""`.
    pub fn choice(&self, label: &str) -> (r: &str)
        requires
            self.wf(),
        ensures
            r@ == choice_of(self@, label@),
    {
        proof {
            reveal_strlit("");
            assert(""@ =~= Seq::empty());
        }
        match self.find(label) {
            Some(Field::Select { options, at, .. }) => {
                if *at < options.len() {
                    options[*at].as_str()
                } else {
                    ""
                }
            },
            _ => "",
        }
    }

    /// Whether the toggle of that label is on; there being none reads as off.
    pub fn is_on(&self, label: &str) -> (r: bool)
        requires
            self.wf(),
        ensures
            r == match find_field(self@.fields, label@) {
                Some(FieldV::Toggle { on, .. }) => on,
                _ => false,
            },
    {
        match self.find(label) {
            Some(Field::Toggle { on, .. }) => *on,
            _ => false,
        }
    }

    /// What the last submission complained about.
    pub fn error(&self) -> (r: Option<&str>)
        ensures
            r is Some <==> self@.error is Some,
            r is Some ==> r->0@ == self@.error->0,
    {
        match &self.error {
            Some(e) => Some(e.as_str()),
            None => None,
        }
    }

    /// Puts a complaint under the fields.
    pub fn set_error(&mut self, message: &str)
        requires
            old(self).wf(),
        ensures
            final(self).wf(),
            final(self)@ == (FormV { error: Some(message@), ..old(self)@ }),
    {
        self.error = Some(owned(message));
    }

    /// The row that has the keyboard.
    pub fn focused(&self) -> (r: Option<&Field>)
        requires
            self.wf(),
        ensures
            r is Some <==> self@.focus is Some,
            r is Some ==> r->0.wf() && r->0@ == self@.fields[self@.focus->0 as int],
    {
        if self.focus < self.fields.len() {
            Some(&self.fields[self.focus])
        } else {
            None
        }
    }

    // ------------------------------------------------------------- editing

    /// Esc cancels, Enter submits, Tab and the arrows move; everything else is
    /// the focused field's.
    ///
    /// Enter is not a submit while the action row still reads `cancel`, and not
    /// a dismissal either: the box stays up, saying what is missing.
    pub fn handle(&mut self, input: Input) -> (r: Outcome)
        requires
            old(self).wf(),
        ensures
            final(self).wf(),
            r == handled(old(self)@, input).0,
            final(self)@ == handled(old(self)@, input).1,
    {
        match input {
            Input::Esc => Outcome::Cancel,
            Input::Enter => {
                if self.confirmed() {
                    Outcome::Submit
                } else {
                    let message = match self.verb() {
                        Some(verb) => concat3(
                            "nothing done \u{b7} choose \u{2039} ",
                            verb,
                            " \u{203a} on the action row (\u{2190}\u{2192}), or Esc",
                        ),
                        None => owned(
                            "nothing done \u{b7} this prompt has no action row and is not marked harmless \u{b7} Esc",
                        ),
                    };
                    self.set_error(message.as_str());
                    Outcome::Editing
                }
            },
            Input::Tab | Input::Down => {
                self.step_focus(true);
                Outcome::Editing
            },
            Input::BackTab | Input::Up => {
                self.step_focus(false);
                Outcome::Editing
            },
            _ => {
                // The complaint was about what was in the box a moment ago.
                if self.edit(input) {
                    self.error = None;
                }
                Outcome::Editing
            },
        }
    }

    /// Replaces the focused field.
    fn put(&mut self, field: Field)
        requires
            old(self).wf(),
            old(self)@.focus is Some,
            field.wf(),
            is_focusable(field@),
        ensures
            final(self).wf(),
            final(self)@ == (FormV {
                fields: old(self)@.fields.update(old(self)@.focus->0 as int, field@),
                ..old(self)@
            }),
    {
        let at = self.focus;
        let ghost before = self.fields@;
        self.fields[at] = field;
        proof {
            assert(fields_view(self.fields@) =~= fields_view(before).update(at as int, field@));
            assert forall|i: int| 0 <= i < self.fields.len() implies (
            #[trigger] self.fields[i]).wf() by {
                if i != at {
                    assert(self.fields[i] == before[i]);
                    assert(old(self).fields[i].wf());
                }
            }
        }
    }

    /// Pasted text, into the focused text field and nowhere else. Control
    /// characters are dropped: the `ESC`, `CR` and `LF` inside a paste are not
    /// keys. Returns whether anything changed.
    pub fn paste(&mut self, text: &str) -> (r: bool)
        requires
            old(self).wf(),
        ensures
            final(self).wf(),
            r == pasted(old(self)@, text@).0,
            final(self)@ == pasted(old(self)@, text@).1,
    {
        if self.focus >= self.fields.len() {
            return false;
        }
        let clean = cleaned(text);
        let grown = match &self.fields[self.focus] {
            Field::Text { label, value, cursor, blank } => {
                if clean.as_str().is_empty() {
                    return false;
                }
                let (before, after) = halves(value.as_str(), *cursor);
                Field::text_with(
                    label.as_str(),
                    concat(before.as_str(), clean.as_str()).as_str(),
                    after.as_str(),
                    blank.as_str(),
                )
            },
            _ => return false,
        };
        self.put(grown);
        self.error = None;
        true
    }

    /// Wraps, and skips notes. A form of nothing but notes never moves.
    fn step_focus(&mut self, forward: bool)
        requires
            old(self).wf(),
        ensures
            final(self).wf(),
            final(self)@ == stepped(old(self)@, forward),
    {
        let n = self.fields.len();
        if self.focus >= n {
            return ;
        }
        let ghost fs = self@.fields;
        let start = self.focus;
        let mut at: usize = start;
        let mut left: usize = n;
        while left > 0
            invariant
                left <= n,
                n == self.fields.len(),
                n > 0,
                at < n,
                start < n,
                *self == *old(self),
                self.wf(),
                self.focus == start,
                fs == self@.fields,
                at == walked(start as int, forward, n as int, (n - left) as nat),
                next_focus(fs, start as int, forward, n as nat) == next_focus(
                    fs,
                    at as int,
                    forward,
                    left as nat,
                ),
            decreases left,
        {
            at = if forward {
                if at + 1 == n {
                    0
                } else {
                    at + 1
                }
            } else if at == 0 {
                n - 1
            } else {
                at - 1
            };
            if self.fields[at].focusable() {
                assert(fs[at as int] == self.fields[at as int]@);
                self.focus = at;
                return ;
            }
            left -= 1;
        }
        proof {
            lemma_walk_around(start as int, forward, n as int);
            lemma_focus_found(fs, start as int, forward);
        }
    }

    /// Hands a key to the focused field. Whether the keystroke changed anything.
    pub fn edit(&mut self, input: Input) -> (r: bool)
        requires
            old(self).wf(),
        ensures
            final(self).wf(),
            (r, final(self)@) == keyed(old(self)@, input),
            r == (final(self)@ != old(self)@),
    {
        proof {
            assert forall|j: int| 0 <= j < self@.fields.len() implies field_ok(
                #[trigger] self@.fields[j],
            ) by {
                assert(self.fields[j].wf());
                assert(self@.fields[j] == self.fields[j]@);
            }
            lemma_keyed(self@, input);
        }
        if self.focus >= self.fields.len() {
            return false;
        }
        match self.fields[self.focus].edit(input) {
            Some(field) => {
                self.put(field);
                true
            },
            None => {
                proof {
                    let fs = self@.fields;
                    assert(fs.update(self.focus as int, fs[self.focus as int]) =~= fs);
                }
                false
            },
        }
    }
}

/// The row `steps` steps on, around the end.
pub open spec fn walked(at: int, forward: bool, n: int, steps: nat) -> int
    decreases steps,
{
    if steps == 0 {
        at
    } else {
        beside(walked(at, forward, n, (steps - 1) as nat), forward, n)
    }
}

proof fn lemma_walked(at: int, forward: bool, n: int, steps: nat)
    requires
        0 <= at < n,
        steps <= n,
    ensures
        walked(at, forward, n, steps) == if forward {
            if at + steps < n {
                at + steps
            } else {
                at + steps - n
            }
        } else if at >= steps {
            at - steps
        } else {
            at - steps + n
        },
    decreases steps,
{
    if steps > 0 {
        lemma_walked(at, forward, n, (steps - 1) as nat);
    }
}

proof fn lemma_walk_around(at: int, forward: bool, n: int)
    requires
        0 <= at < n,
    ensures
        walked(at, forward, n, n as nat) == at,
{
    lemma_walked(at, forward, n, n as nat);
}

/// The search finds something: at the latest, the row it started from.
proof fn lemma_focus_found(fields: Seq<FieldV>, at: int, forward: bool)
    requires
        0 <= at < fields.len(),
        is_focusable(fields[at]),
    ensures
        next_focus(fields, at, forward, fields.len()) is Some,
        next_focus(fields, at, forward, fields.len())->0 < fields.len(),
        is_focusable(
            fields[next_focus(fields, at, forward, fields.len())->0 as int],
        ),
{
    lemma_focus_found_from(fields, at, forward, 0);
    assert(walked(at, forward, fields.len() as int, 0) == at);
}

proof fn lemma_focus_found_from(fields: Seq<FieldV>, at: int, forward: bool, done: nat)
    requires
        0 <= at < fields.len(),
        is_focusable(fields[at]),
        done < fields.len(),
    ensures
        ({
            let from = walked(at, forward, fields.len() as int, done);
            let found = next_focus(fields, from, forward, (fields.len() - done) as nat);
            found is Some && found->0 < fields.len() && is_focusable(fields[found->0 as int])
        }),
    decreases fields.len() - done,
{
    let n = fields.len() as int;
    lemma_walked(at, forward, n, done);
    lemma_walked(at, forward, n, done + 1);
    let from = walked(at, forward, n, done);
    let to = beside(from, forward, n);
    assert(to == walked(at, forward, n, done + 1));
    if done + 1 < fields.len() {
        lemma_focus_found_from(fields, at, forward, done + 1);
    }
}

// ------------------------------------------------------------------- windows

/// The place of the cluster that covers column `col`, counting the columns cluster
/// by cluster; as many as there are where the text ends before it.
pub open spec fn cluster_at(parts: Seq<Seq<char>>, col: int) -> int
    decreases parts.len(),
{
    if parts.len() == 0 || col < display_width(parts[0]) {
        0
    } else {
        1 + cluster_at(parts.drop_first(), col - display_width(parts[0]))
    }
}

/// How many clusters lie wholly before column `col`.
pub open spec fn wholly_before(parts: Seq<Seq<char>>, col: int) -> int
    decreases parts.len(),
{
    if parts.len() == 0 || display_width(parts[0]) > col {
        0
    } else {
        1 + wholly_before(parts.drop_first(), col - display_width(parts[0]))
    }
}

/// The clusters without those in front that have no width: a mark has nothing
/// there to travel with.
pub open spec fn visible(parts: Seq<Seq<char>>) -> Seq<Seq<char>>
    decreases parts.len(),
{
    if parts.len() == 0 || display_width(parts[0]) > 0 {
        parts
    } else {
        visible(parts.drop_first())
    }
}

/// A text that was scrolled to cluster `i` and shows the ones up to `j`.
pub open spec fn view_of(parts: Seq<Seq<char>>, i: int, j: int) -> Seq<char> {
    seq![CUT] + parts.subrange(i, j).flatten()
}

/// Where a text that is to show cluster `k` is scrolled to: as little beyond
/// cluster `i` as leaves room for it.
pub open spec fn scrolled_to(parts: Seq<Seq<char>>, i: int, k: int, budget: int) -> int
    decreases k - i,
{
    if i >= k || display_width(view_of(parts, i, k + 1)) <= budget {
        i
    } else {
        scrolled_to(parts, i + 1, k, budget)
    }
}

/// How far a text that was scrolled to cluster `i` reaches, at least up to `j`.
pub open spec fn reaching(parts: Seq<Seq<char>>, i: int, j: int, budget: int) -> int
    decreases parts.len() - j,
{
    if j < parts.len() && display_width(view_of(parts, i, j + 1)) <= budget {
        reaching(parts, i, j + 1, budget)
    } else {
        j
    }
}

/// The smaller of two numbers.
pub open spec fn lesser(a: int, b: int) -> int {
    if a <= b {
        a
    } else {
        b
    }
}

/// The first column of a text whose caret rides the right edge, one column of the
/// budget being the mark's.
pub open spec fn left_edge(caret: int, budget: int) -> int {
    if caret + 2 <= budget {
        0
    } else {
        caret + 2 - budget
    }
}

/// A text scrolled so that the caret's column rides the right edge, and further
/// where the cluster in that column needs the room.
pub open spec fn scrolled(parts: Seq<Seq<char>>, caret: int, budget: int) -> Seq<char> {
    let k = cluster_at(parts, caret);
    let from = wholly_before(parts, left_edge(caret, budget));
    let i = if k < parts.len() {
        scrolled_to(parts, from, k, budget)
    } else {
        from
    };
    let j = if i <= k < parts.len() && display_width(view_of(parts, i, k + 1)) <= budget {
        k + 1
    } else {
        i
    };
    view_of(parts, i, reaching(parts, i, j, budget))
}

/// The cluster in the caret's column fits beside the mark.
pub open spec fn showable(parts: Seq<Seq<char>>, caret: int, budget: int) -> bool {
    let k = cluster_at(parts, caret);
    k < parts.len() && display_width(seq![CUT] + parts[k]) <= budget
}

/// What a text shows up to the caret's column.
pub open spec fn head_of(parts: Seq<Seq<char>>, caret: int) -> Seq<char> {
    visible(parts.take(cluster_at(parts, caret) + 1)).flatten()
}

/// At most `budget` columns of `s`, with the cluster in the caret's column: cut at
/// the end where that cluster and everything before it fits, scrolled otherwise,
/// and cut at the end too where no cut can show it.
pub open spec fn windowed(s: Seq<char>, caret: int, budget: int) -> Seq<char> {
    let parts = grapheme_clusters(s);
    let k = cluster_at(parts, caret);
    if display_width(s) <= budget {
        s
    } else if budget <= 0 {
        Seq::empty()
    } else if k < parts.len() && display_width(head_of(parts, caret).push(CUT)) <= budget {
        fitting(parts.skip(k + 1), head_of(parts, caret), budget).push(CUT)
    } else if caret < budget && !showable(parts, caret, budget) {
        truncated(s, budget)
    } else {
        scrolled(parts, caret, budget)
    }
}

proof fn lemma_cluster_at(parts: Seq<Seq<char>>, col: int)
    requires
        col >= 0,
    ensures
        0 <= cluster_at(parts, col) <= parts.len(),
        cluster_at(parts, col) < parts.len() ==> display_width(parts[cluster_at(parts, col)]) > 0,
    decreases parts.len(),
{
    if parts.len() > 0 && col >= display_width(parts[0]) {
        lemma_cluster_at(parts.drop_first(), col - display_width(parts[0]));
    }
}

fn find_cluster(parts: &Vec<String>, col: usize) -> (r: usize)
    ensures
        r == cluster_at(texts(parts@), col as int),
        r <= parts.len(),
{
    let ghost all = texts(parts@);
    let mut left: usize = col;
    let mut i: usize = 0;
    proof {
        assert(all.skip(0) =~= all);
    }
    while i < parts.len()
        invariant
            i <= parts.len(),
            all == texts(parts@),
            cluster_at(all, col as int) == i + cluster_at(all.skip(i as int), left as int),
        decreases parts.len() - i,
    {
        let w = width(parts[i].as_str());
        proof {
            assert(all.skip(i as int)[0] == parts[i as int]@);
            assert(all.skip(i as int).drop_first() =~= all.skip(i as int + 1));
        }
        if left < w {
            return i;
        }
        left -= w;
        i += 1;
    }
    i
}

fn count_before(parts: &Vec<String>, col: u128) -> (r: usize)
    ensures
        r == wholly_before(texts(parts@), col as int),
        r <= parts.len(),
{
    let ghost all = texts(parts@);
    let mut left: u128 = col;
    let mut i: usize = 0;
    proof {
        assert(all.skip(0) =~= all);
    }
    while i < parts.len()
        invariant
            i <= parts.len(),
            all == texts(parts@),
            wholly_before(all, col as int) == i + wholly_before(all.skip(i as int), left as int),
        decreases parts.len() - i,
    {
        let w = width(parts[i].as_str()) as u128;
        proof {
            assert(all.skip(i as int)[0] == parts[i as int]@);
            assert(all.skip(i as int).drop_first() =~= all.skip(i as int + 1));
        }
        if w > left {
            return i;
        }
        left -= w;
        i += 1;
    }
    i
}

/// The text of the clusters from `i` up to `j`, behind `front`.
fn spelled(front: String, parts: &Vec<String>, i: usize, j: usize) -> (r: String)
    requires
        i <= j <= parts.len(),
    ensures
        r@ == front@ + texts(parts@).subrange(i as int, j as int).flatten(),
{
    let ghost all = texts(parts@);
    let mut out = front;
    let mut n: usize = i;
    proof {
        assert(all.subrange(i as int, i as int) =~= Seq::empty());
        assert(front@ + Seq::<Seq<char>>::empty().flatten() =~= front@);
    }
    while n < j
        invariant
            i <= n <= j <= parts.len(),
            all == texts(parts@),
            out@ == front@ + all.subrange(i as int, n as int).flatten(),
        decreases j - n,
    {
        proof {
            let before = all.subrange(i as int, n as int);
            assert(all.subrange(i as int, n as int + 1) =~= before.push(all[n as int]));
            before.lemma_flatten_push(all[n as int]);
            assert(front@ + (before.flatten() + all[n as int]) =~= (front@ + before.flatten())
                + all[n as int]);
        }
        out.append(parts[n].as_str());
        n += 1;
    }
    out
}

/// The text scrolled to cluster `i` and shown up to `j`.
fn view_between(parts: &Vec<String>, i: usize, j: usize) -> (r: String)
    requires
        i <= j <= parts.len(),
    ensures
        r@ == view_of(texts(parts@), i as int, j as int),
{
    spelled(mark(), parts, i, j)
}

/// What the text shows up to cluster `k`.
fn head_up_to(parts: &Vec<String>, k: usize) -> (r: String)
    requires
        k < parts.len(),
    ensures
        r@ == visible(texts(parts@).take(k as int + 1)).flatten(),
{
    let ghost front = texts(parts@).take(k as int + 1);
    let mut i: usize = 0;
    proof {
        assert(front.skip(0) =~= front);
    }
    while i <= k && width(parts[i].as_str()) == 0
        invariant
            i <= k + 1 <= parts.len(),
            front == texts(parts@).take(k as int + 1),
            visible(front) == visible(front.skip(i as int)),
        decreases k + 1 - i,
    {
        proof {
            assert(front.skip(i as int)[0] == parts[i as int]@);
            assert(front.skip(i as int).drop_first() =~= front.skip(i as int + 1));
        }
        i += 1;
    }
    proof {
        if i <= k {
            assert(front.skip(i as int)[0] == parts[i as int]@);
        }
        assert(visible(front) == front.skip(i as int));
        assert(front.skip(i as int) =~= texts(parts@).subrange(i as int, k as int + 1));
    }
    let out = spelled(String::new(), parts, i, k + 1);
    proof {
        assert(Seq::<char>::empty() + visible(front).flatten() =~= visible(front).flatten());
        assert(out@ =~= visible(front).flatten());
    }
    out
}

/// The text scrolled so that the caret's column is shown.
fn scroll(parts: &Vec<String>, caret: usize, k: usize, budget: usize) -> (r: String)
    requires
        k == cluster_at(texts(parts@), caret as int),
        k <= parts.len(),
        budget >= 1,
    ensures
        r@ == scrolled(texts(parts@), caret as int, budget as int),
        display_width(r@) <= budget,
{
    let ghost all = texts(parts@);
    let edge: u128 = caret as u128 + 2;
    let column: u128 = if edge <= budget as u128 {
        0
    } else {
        edge - budget as u128
    };
    let from = count_before(parts, column);
    let mut i: usize = from;
    if k < parts.len() {
        while i < k && width(view_between(parts, i, k + 1).as_str()) > budget
            invariant
                k < parts.len(),
                i <= parts.len(),
                all == texts(parts@),
                scrolled_to(all, from as int, k as int, budget as int) == scrolled_to(
                    all,
                    i as int,
                    k as int,
                    budget as int,
                ),
            decreases k - i,
        {
            i += 1;
        }
    }
    let mut j: usize = i;
    let mut out = view_between(parts, i, i);
    let alone = width(out.as_str());
    proof {
        assert(all.subrange(i as int, i as int) =~= Seq::empty());
        assert(view_of(all, i as int, i as int) =~= seq![CUT]);
    }
    assert(alone == 1);
    if k < parts.len() && i <= k {
        let wanted = view_between(parts, i, k + 1);
        if width(wanted.as_str()) <= budget {
            out = wanted;
            j = k + 1;
        }
    }
    let ghost start = j;
    let mut done = false;
    while !done && j < parts.len()
        invariant
            i <= j <= parts.len(),
            all == texts(parts@),
            out@ == view_of(all, i as int, j as int),
            display_width(out@) <= budget,
            done ==> j < parts.len() && display_width(view_of(all, i as int, j as int + 1)) > budget,
            reaching(all, i as int, start as int, budget as int) == reaching(
                all,
                i as int,
                j as int,
                budget as int,
            ),
        decreases
                parts.len() - j + if done {
                    0int
                } else {
                    1
                },
    {
        let grown = concat(out.as_str(), parts[j].as_str());
        proof {
            let before = all.subrange(i as int, j as int);
            assert(all.subrange(i as int, j as int + 1) =~= before.push(all[j as int]));
            before.lemma_flatten_push(all[j as int]);
            assert(grown@ =~= view_of(all, i as int, j as int + 1));
        }
        if width(grown.as_str()) <= budget {
            out = grown;
            j += 1;
        } else {
            done = true;
        }
    }
    out
}

/// At most `budget` columns of `s`, always including the column the caret sits
/// in, with the whole cluster that covers it where that fits beside the mark.
/// Anything cut is marked.
pub fn window(s: &str, caret: usize, budget: usize) -> (r: String)
    ensures
        r@ == windowed(s@, caret as int, budget as int),
        budget >= 1 ==> display_width(r@) <= budget,
{
    if width(s) <= budget {
        return owned(s);
    }
    if budget == 0 {
        return String::new();
    }
    let parts = clusters(s);
    let k = find_cluster(&parts, caret);
    if k < parts.len() {
        // The caret is within the first screenful: an ordinary end-cut.
        let head = head_up_to(&parts, k);
        let mut marked = head.clone();
        marked.push(CUT);
        if width(marked.as_str()) <= budget {
            return fill(&parts, k + 1, head, budget);
        }
    }
    if caret < budget {
        let beside = if k < parts.len() {
            let alone = concat(mark().as_str(), parts[k].as_str());
            width(alone.as_str()) <= budget
        } else {
            false
        };
        if !beside {
            return truncate(s, budget);
        }
    }
    scroll(&parts, caret, k, budget)
}

/// Some clusters around one of them hold it whole.
proof fn lemma_holds(parts: Seq<Seq<char>>, k: int)
    requires
        0 <= k < parts.len(),
    ensures
        parts.flatten() == parts.take(k).flatten() + parts[k] + parts.skip(k + 1).flatten(),
    decreases k,
{
    assert(parts =~= seq![parts[0]] + parts.drop_first());
    lemma_flatten_first(parts[0], parts.drop_first());
    if k == 0 {
        assert(parts.skip(1) =~= parts.drop_first());
        assert(parts.take(0) =~= Seq::empty());
        assert(parts.take(0).flatten() =~= Seq::empty());
        assert(parts.flatten() =~= parts.take(0).flatten() + parts[0] + parts.skip(1).flatten());
    } else {
        let rest = parts.drop_first();
        lemma_holds(rest, k - 1);
        assert(parts.take(k) =~= seq![parts[0]] + rest.take(k - 1));
        lemma_flatten_first(parts[0], rest.take(k - 1));
        assert(parts.skip(k + 1) =~= rest.skip(k));
        assert(parts.flatten() =~= parts.take(k).flatten() + parts[k] + parts.skip(k + 1).flatten());
    }
}

proof fn lemma_visible(parts: Seq<Seq<char>>) -> (n: int)
    requires
        parts.len() > 0,
        display_width(parts.last()) > 0,
    ensures
        0 <= n < parts.len(),
        visible(parts) == parts.skip(n),
    decreases parts.len(),
{
    if display_width(parts[0]) > 0 {
        assert(parts.skip(0) =~= parts);
        0
    } else {
        let m = lemma_visible(parts.drop_first());
        assert(parts.drop_first().skip(m) =~= parts.skip(m + 1));
        m + 1
    }
}

proof fn lemma_fitting_grows(parts: Seq<Seq<char>>, kept: Seq<char>, max: int) -> (more: Seq<char>)
    ensures
        fitting(parts, kept, max) == kept + more,
{
    let (a, b) = truncation_splits_no_cluster(parts, kept, max);
    parts.subrange(a, b).flatten()
}

proof fn lemma_wholly_before(parts: Seq<Seq<char>>, col: int)
    ensures
        0 <= wholly_before(parts, col) <= parts.len(),
    decreases parts.len(),
{
    if parts.len() > 0 && display_width(parts[0]) <= col {
        lemma_wholly_before(parts.drop_first(), col - display_width(parts[0]));
    }
}

/// A cluster that ends beyond a column does not lie wholly before it.
proof fn lemma_at_or_behind(parts: Seq<Seq<char>>, col: int, from: int)
    requires
        0 <= col,
        from <= col,
    ensures
        wholly_before(parts, from) <= cluster_at(parts, col),
    decreases parts.len(),
{
    lemma_cluster_at(parts, col);
    if parts.len() > 0 && display_width(parts[0]) <= from {
        lemma_at_or_behind(
            parts.drop_first(),
            col - display_width(parts[0]),
            from - display_width(parts[0]),
        );
    }
}

proof fn lemma_scrolled_to(parts: Seq<Seq<char>>, i: int, k: int, budget: int)
    requires
        0 <= i <= k < parts.len(),
        display_width(view_of(parts, k, k + 1)) <= budget,
    ensures
        i <= scrolled_to(parts, i, k, budget) <= k,
        display_width(view_of(parts, scrolled_to(parts, i, k, budget), k + 1)) <= budget,
    decreases k - i,
{
    if i < k && display_width(view_of(parts, i, k + 1)) > budget {
        lemma_scrolled_to(parts, i + 1, k, budget);
    }
}

proof fn lemma_reaching(parts: Seq<Seq<char>>, i: int, j: int, budget: int)
    requires
        j <= parts.len(),
    ensures
        j <= reaching(parts, i, j, budget) <= parts.len(),
    decreases parts.len() - j,
{
    if j < parts.len() && display_width(view_of(parts, i, j + 1)) <= budget {
        lemma_reaching(parts, i, j + 1, budget);
    }
}

/// A text that had to be cut shows the cluster in the caret's column, whole, and
/// the mark, wherever the caret is in it and however wide that cluster and those
/// around it are, as long as the cluster fits beside the mark at all. `r` is what
/// stands before the cluster and behind it.
pub proof fn the_caret_is_always_shown(s: Seq<char>, caret: int, budget: int) -> (r: (
    Seq<char>,
    Seq<char>,
))
    requires
        budget >= 2,
        display_width(s) > budget,
        caret >= 0,
        showable(grapheme_clusters(s), caret, budget),
    ensures
        ({
            let parts = grapheme_clusters(s);
            windowed(s, caret, budget) == r.0 + parts[cluster_at(parts, caret)] + r.1
        }),
        windowed(s, caret, budget).contains(CUT),
{
    let parts = grapheme_clusters(s);
    let k = cluster_at(parts, caret);
    lemma_cluster_at(parts, caret);
    let shown = windowed(s, caret, budget);
    if display_width(head_of(parts, caret).push(CUT)) <= budget {
        let front = parts.take(k + 1);
        assert(front.last() == parts[k]);
        let n = lemma_visible(front);
        let head = front.skip(n);
        lemma_holds(head, head.len() - 1);
        assert(head[head.len() - 1] == parts[k]);
        assert(head.skip(head.len() as int) =~= Seq::empty());
        assert(head.skip(head.len() as int).flatten() =~= Seq::empty());
        let before = head.take(head.len() - 1).flatten();
        let more = lemma_fitting_grows(parts.skip(k + 1), head.flatten(), budget);
        assert(shown == (head.flatten() + more).push(CUT));
        assert(shown =~= before + parts[k] + more.push(CUT));
        assert(shown[shown.len() - 1] == CUT);
        (before, more.push(CUT))
    } else {
        let from = wholly_before(parts, left_edge(caret, budget));
        lemma_wholly_before(parts, left_edge(caret, budget));
        lemma_at_or_behind(parts, caret, left_edge(caret, budget));
        assert(parts.subrange(k, k + 1) =~= seq![parts[k]] + Seq::<Seq<char>>::empty());
        lemma_flatten_first(parts[k], Seq::empty());
        assert(view_of(parts, k, k + 1) =~= seq![CUT] + parts[k]);
        lemma_scrolled_to(parts, from, k, budget);
        let i = scrolled_to(parts, from, k, budget);
        lemma_reaching(parts, i, k + 1, budget);
        let j = reaching(parts, i, k + 1, budget);
        let seen = parts.subrange(i, j);
        assert(seen[k - i] == parts[k]);
        lemma_holds(seen, k - i);
        let before = seq![CUT] + seen.take(k - i).flatten();
        let after = seen.skip(k - i + 1).flatten();
        assert(shown == seq![CUT] + seen.flatten());
        assert(shown =~= before + parts[k] + after);
        assert(shown[0] == CUT);
        (before, after)
    }
}

// ------------------------------------------------------------- laying it out

/// A field's value as the box shows it, with the caret where it has focus, in
/// at most `budget` columns where one is given.
pub open spec fn shown_value(f: FieldV, focused: bool, budget: Option<int>) -> Seq<char> {
    match f {
        FieldV::Text { before, after, blank, .. } => {
            let value = before + after;
            if !focused {
                let text = if value.len() == 0 {
                    blank
                } else {
                    value
                };
                match budget {
                    Some(b) => truncated(text, b),
                    None => text,
                }
            } else {
                let drawn = before.push(CARET) + after + if value.len() == 0 {
                    blank
                } else {
                    Seq::empty()
                };
                match budget {
                    Some(b) => windowed(drawn, display_width(before) as int, b),
                    None => drawn,
                }
            }
        },
        FieldV::Select { options, at, .. } => if at < options.len() {
            "\u{2039} "@ + options[at as int] + " \u{203a}"@
        } else {
            Seq::empty()
        },
        FieldV::Toggle { on, .. } => if on {
            "[x] yes"@
        } else {
            "[ ] no"@
        },
        FieldV::Note(text) => text,
    }
}

impl Field {
    /// The value as the box shows it, with the caret when this row has focus.
    ///
    /// A focused text field longer than `budget` is scrolled rather than cut at
    /// the end: cutting keeps the start and loses the caret.
    pub fn shown(&self, focused: bool, budget: Option<usize>) -> (r: String)
        requires
            self.wf(),
        ensures
            r@ == shown_value(
                self@,
                focused,
                match budget {
                    Some(b) => Some(b as int),
                    None => None,
                },
            ),
    {
        match self {
            Field::Text { label, value, cursor, blank } => {
                let (before, after) = halves(value.as_str(), *cursor);
                if !focused {
                    let text = if value.as_str().is_empty() {
                        blank.as_str()
                    } else {
                        value.as_str()
                    };
                    return match budget {
                        Some(b) => truncate(text, b),
                        None => owned(text),
                    };
                }
                let mut out = before.clone();
                out.push(CARET);
                out.append(after.as_str());
                if value.as_str().is_empty() {
                    out.append(blank.as_str());
                } else {
                    proof {
                        assert(out@ + Seq::<char>::empty() =~= out@);
                    }
                }
                match budget {
                    Some(b) => window(out.as_str(), width(before.as_str()), b),
                    None => out,
                }
            },
            Field::Select { options, at, .. } => {
                concat3("\u{2039} ", options[*at].as_str(), " \u{203a}")
            },
            Field::Toggle { on, .. } => if *on {
                owned("[x] yes")
            } else {
                owned("[ ] no")
            },
            Field::Note(text) => text.clone(),
        }
    }
}

/// The widest label among the rows that take focus.
pub open spec fn label_columns(fields: Seq<FieldV>) -> nat
    decreases fields.len(),
{
    if fields.len() == 0 {
        0
    } else {
        let before = label_columns(fields.drop_last());
        let w = display_width(label_of(fields.last())) as nat;
        if is_focusable(fields.last()) && w > before {
            w
        } else {
            before
        }
    }
}

/// `a - b`, and nothing below zero.
pub open spec fn minus(a: int, b: int) -> int {
    if a >= b {
        a - b
    } else {
        0
    }
}

/// The row of field `i`: a marker, and the label and the value side by side. A
/// note is on its own.
pub open spec fn field_row(f: FormV, i: int, budget: Option<int>) -> LineV {
    let field = f.fields[i];
    let focused = f.focus == Some(i as nat);
    let columns = label_columns(f.fields) as int;
    let marker = if focused {
        "\u{25b8} "@
    } else {
        "  "@
    };
    LineV {
        text: match field {
            FieldV::Note(note) => marker + note,
            _ => marker + padded_left(label_of(field), columns) + "  "@ + shown_value(
                field,
                focused,
                match budget {
                    Some(b) => Some(minus(b, columns + 4)),
                    None => None,
                },
            ),
        },
        style: if focused {
            Style::Bold
        } else if field is Note {
            Style::Dim
        } else {
            Style::Plain
        },
    }
}

/// The field rows.
pub open spec fn field_rows(f: FormV, budget: Option<int>) -> Seq<LineV> {
    Seq::new(f.fields.len(), |i: int| field_row(f, i, budget))
}

/// The error, then the hint.
pub open spec fn footer_rows(f: FormV) -> Seq<LineV> {
    let hint = LineV { text: "  "@ + f.hint, style: Style::Dim };
    match f.error {
        Some(error) => seq![LineV { text: "  "@ + error, style: Style::Bold }, hint],
        None => seq![hint],
    }
}

/// The field rows. `budget`, when known, is the columns one whole row may
/// occupy.
pub fn rows(form: &Form, budget: Option<usize>) -> (r: Vec<Line>)
    requires
        form.wf(),
    ensures
        lines_view(r@) == field_rows(
            form@,
            match budget {
                Some(b) => Some(b as int),
                None => None,
            },
        ),
{
    let ghost fs = form@.fields;
    let n = form.fields.len();
    let mut label_w: usize = 0;
    let mut i: usize = 0;
    proof {
        assert(fs.take(0) =~= Seq::empty());
    }
    while i < n
        invariant
            i <= n,
            n == form.fields.len(),
            fs == form@.fields,
            label_w == label_columns(fs.take(i as int)),
        decreases n - i,
    {
        proof {
            assert(fs.take(i as int + 1).drop_last() =~= fs.take(i as int));
            assert(fs[i as int] == form.fields[i as int]@);
        }
        if form.fields[i].focusable() {
            let w = width(form.fields[i].label());
            if w > label_w {
                label_w = w;
            }
        }
        i += 1;
    }
    proof {
        assert(fs.take(n as int) =~= fs);
    }
    let value_budget: Option<usize> = match budget {
        Some(b) => if b <= label_w || b - label_w <= 4 {
            Some(0)
        } else {
            Some(b - label_w - 4)
        },
        None => None,
    };
    let ghost given: Option<int> = match budget {
        Some(b) => Some(b as int),
        None => None,
    };
    let mut out: Vec<Line> = Vec::new();
    let mut i: usize = 0;
    while i < n
        invariant
            i <= n,
            n == form.fields.len(),
            form.wf(),
            fs == form@.fields,
            label_w == label_columns(fs),
            given == match budget {
                Some(b) => Some(b as int),
                None => None,
            },
            value_budget == match budget {
                Some(b) => Some(minus(b as int, label_w + 4) as usize),
                None => None,
            },
            out.len() == i,
            forall|j: int| 0 <= j < i ==> (#[trigger] out[j])@ == field_row(form@, j, given),
        decreases n - i,
    {
        let field = &form.fields[i];
        let focused = i == form.focus;
        let marker = if focused {
            "\u{25b8} "
        } else {
            "  "
        };
        proof {
            assert(fs[i as int] == field@);
            assert(field.wf());
        }
        let row = match field {
            Field::Note(note) => line(
                concat(marker, note.as_str()),
                if focused {
                    Style::Bold
                } else {
                    Style::Dim
                },
            ),
            _ => {
                let mut text = concat3(marker, pad_left(field.label(), label_w).as_str(), "  ");
                text.append(field.shown(focused, value_budget).as_str());
                line(
                    text,
                    if focused {
                        Style::Bold
                    } else {
                        Style::Plain
                    },
                )
            },
        };
        assert(row@ == field_row(form@, i as int, given));
        out.push(row);
        i += 1;
    }
    proof {
        assert(lines_view(out@) =~= field_rows(form@, given));
    }
    out
}

/// The error, then the hint, and that is also the order they survive in.
pub fn footer(form: &Form) -> (r: Vec<Line>)
    ensures
        lines_view(r@) == footer_rows(form@),
{
    let mut out: Vec<Line> = Vec::new();
    match form.error() {
        Some(error) => out.push(line(concat("  ", error), Style::Bold)),
        None => {},
    }
    out.push(line(concat("  ", form.hint.as_str()), Style::Dim));
    proof {
        assert(lines_view(out@) =~= footer_rows(form@));
    }
    out
}

/// What a form comes to on a terminal.
#[derive(Debug, Clone, PartialEq, Eq)]
pub enum Drawing {
    /// No room for anything.
    Nothing,
    /// One line without a border.
    Cramped { row: Rect, line: Line },
    /// A bordered box with one column of padding on each side.
    Boxed { area: Rect, title: String, lines: Vec<Line> },
}

/// A drawing as a value.
pub ghost enum DrawingV {
    Nothing,
    Cramped { row: Rect, line: LineV },
    Boxed { area: Rect, title: Seq<char>, lines: Seq<LineV> },
}

impl View for Drawing {
    type V = DrawingV;

    open spec fn view(&self) -> DrawingV {
        match *self {
            Drawing::Nothing => DrawingV::Nothing,
            Drawing::Cramped { row, line } => DrawingV::Cramped { row, line: line@ },
            Drawing::Boxed { area, title, lines } => DrawingV::Boxed {
                area,
                title: title@,
                lines: lines_view(lines@),
            },
        }
    }
}

/// The widest of some lines.
pub open spec fn widest(lines: Seq<LineV>) -> nat
    decreases lines.len(),
{
    if lines.len() == 0 {
        0
    } else {
        let before = widest(lines.drop_last());
        let w = display_width(lines.last().text) as nat;
        if w > before {
            w
        } else {
            before
        }
    }
}

/// How many columns the box asks for: its widest line or its title, and the
/// frame.
pub open spec fn wanted_columns(f: FormV) -> u16 {
    let lines = widest(field_rows(f, None) + footer_rows(f));
    let title = lesser(display_width(f.title) + 2, usize::MAX as int);
    let inner = if title > lines {
        title
    } else {
        lines as int
    };
    lesser(inner % 0x1_0000 + BOX_CHROME, u16::MAX as int) as u16
}

/// How many lines the box asks for: the fields, a blank line, the footer, and
/// the border.
pub open spec fn wanted_lines(f: FormV) -> u16 {
    lesser((f.fields.len() + footer_rows(f).len() + 1) as int % 0x1_0000 + 2, u16::MAX as int) as u16
}

/// The lines inside the box: the footer takes its lines first, then the fields,
/// then one blank line where there is room for it.
pub open spec fn box_lines(f: FormV, budget: int, height: int) -> Seq<LineV> {
    let fields = field_rows(f, Some(budget));
    let footer = footer_rows(f);
    let kept = lesser(footer.len() as int, height);
    let room = height - kept;
    let above = fields.take(lesser(fields.len() as int, room));
    let gap = if above.len() < room {
        seq![LineV { text: Seq::empty(), style: Style::Plain }]
    } else {
        Seq::empty()
    };
    let all = above + gap + footer.take(kept);
    Seq::new(
        all.len(),
        |i: int| LineV { text: truncated(all[i].text, budget), style: all[i].style },
    )
}

/// The one line a terminal too short for a box shows: the title, and the error
/// or whatever has focus.
pub open spec fn cramped_line(f: FormV, columns: int) -> LineV {
    let head = f.title + ": "@;
    let budget = minus(columns, display_width(head) as int);
    let tail = match f.error {
        Some(error) => error,
        None => match f.focus {
            Some(at) => {
                let field = f.fields[at as int];
                let label = label_of(field);
                label + " "@ + shown_value(
                    field,
                    true,
                    Some(minus(budget, byte_len(label) as int + 1)),
                )
            },
            None => f.hint,
        },
    };
    LineV { text: truncated(head + tail, columns), style: Style::Bold }
}

/// Where and how a form is drawn.
pub open spec fn drawing(area: Rect, f: FormV) -> DrawingV {
    if area.width == 0 || area.height == 0 {
        DrawingV::Nothing
    } else if area.height < 3 || wanted_columns(f) <= BOX_CHROME {
        DrawingV::Cramped {
            row: Rect { height: 1, ..area },
            line: cramped_line(f, area.width as int),
        }
    } else {
        let place = middle(area, wanted_columns(f), wanted_lines(f));
        DrawingV::Boxed {
            area: place,
            title: " "@ + f.title + " "@,
            lines: box_lines(f, minus(place.width as int, BOX_CHROME as int), place.height - 2),
        }
    }
}

/// The widest of some lines, or `least` where that is more.
fn widest_of(lines: &Vec<Line>, least: usize) -> (r: usize)
    ensures
        r == if widest(lines_view(lines@)) > least {
            widest(lines_view(lines@)) as int
        } else {
            least as int
        },
{
    let ghost all = lines_view(lines@);
    let mut most: usize = least;
    let mut i: usize = 0;
    proof {
        assert(all.take(0) =~= Seq::empty());
    }
    while i < lines.len()
        invariant
            i <= lines.len(),
            all == lines_view(lines@),
            most == if widest(all.take(i as int)) > least {
                widest(all.take(i as int)) as int
            } else {
                least as int
            },
        decreases lines.len() - i,
    {
        let w = width(lines[i].text.as_str());
        proof {
            assert(all.take(i as int + 1).drop_last() =~= all.take(i as int));
            assert(all[i as int] == lines[i as int]@);
        }
        if w > most {
            most = w;
        }
        i += 1;
    }
    proof {
        assert(all.take(all.len() as int) =~= all);
    }
    most
}

proof fn lemma_widest_concat(a: Seq<LineV>, b: Seq<LineV>)
    ensures
        widest(a + b) == if widest(a) > widest(b) {
            widest(a)
        } else {
            widest(b)
        },
    decreases b.len(),
{
    if b.len() == 0 {
        assert(a + b =~= a);
    } else {
        lemma_widest_concat(a, b.drop_last());
        assert((a + b).drop_last() =~= a + b.drop_last());
    }
}

fn cut_line(l: &Line, budget: usize) -> (r: Line)
    ensures
        r@ == (LineV { text: truncated(l@.text, budget as int), style: l@.style }),
{
    line(truncate(l.text.as_str(), budget), l.style)
}

fn lines_in_box(form: &Form, budget: usize, height: usize) -> (r: Vec<Line>)
    requires
        form.wf(),
    ensures
        lines_view(r@) == box_lines(form@, budget as int, height as int),
{
    let fields = rows(form, Some(budget));
    let footer = footer(form);
    let kept: usize = if footer.len() <= height {
        footer.len()
    } else {
        height
    };
    let room: usize = height - kept;
    let above: usize = if fields.len() <= room {
        fields.len()
    } else {
        room
    };
    let ghost fv = field_rows(form@, Some(budget as int));
    let ghost gv = footer_rows(form@);
    let ghost gap: Seq<LineV> = if above < room {
        seq![LineV { text: Seq::empty(), style: Style::Plain }]
    } else {
        Seq::empty()
    };
    let ghost all = fv.take(above as int) + gap + gv.take(kept as int);
    let mut out: Vec<Line> = Vec::new();
    let mut i: usize = 0;
    while i < above
        invariant
            i <= above <= fields.len(),
            fv == lines_view(fields@),
            all == fv.take(above as int) + gap + gv.take(kept as int),
            out.len() == i,
            forall|j: int|
                0 <= j < i ==> (#[trigger] out[j])@ == (LineV {
                    text: truncated(all[j].text, budget as int),
                    style: all[j].style,
                }),
        decreases above - i,
    {
        assert(all[i as int] == fields[i as int]@);
        out.push(cut_line(&fields[i], budget));
        i += 1;
    }
    if above < room {
        let blank = line(String::new(), Style::Plain);
        assert(all[above as int] == gap[0]);
        assert(blank@ == gap[0]);
        out.push(cut_line(&blank, budget));
    }
    let start: usize = out.len();
    let mut i: usize = 0;
    while i < kept
        invariant
            i <= kept <= footer.len(),
            gv == lines_view(footer@),
            above <= fv.len(),
            start == above + gap.len(),
            all == fv.take(above as int) + gap + gv.take(kept as int),
            out.len() == start + i,
            forall|j: int|
                0 <= j < start + i ==> (#[trigger] out[j])@ == (LineV {
                    text: truncated(all[j].text, budget as int),
                    style: all[j].style,
                }),
        decreases kept - i,
    {
        assert(all[start + i] == footer[i as int]@);
        out.push(cut_line(&footer[i], budget));
        i += 1;
    }
    proof {
        assert(lines_view(out@) =~= box_lines(form@, budget as int, height as int));
    }
    out
}

/// Lays `form` out in the middle of `area`.
///
/// A terminal too short for a bordered box gets the focused row on one line
/// rather than nothing: a captured keyboard with no box on screen is the one
/// state this layer must never reach.
pub fn render(area: Rect, form: &Form) -> (r: Drawing)
    requires
        form.wf(),
        area.x + area.width <= u16::MAX,
        area.y + area.height <= u16::MAX,
    ensures
        r@ == drawing(area, form@),
{
    if area.width == 0 || area.height == 0 {
        return Drawing::Nothing;
    }
    let fields = rows(form, None);
    let foot = footer(form);
    let title = width(form.title.as_str()).saturating_add(2);
    let inner = widest_of(&foot, widest_of(&fields, title));
    proof {
        lemma_widest_concat(lines_view(fields@), lines_view(foot@));
    }
    let columns: u16 = (inner % 0x1_0000) as u16;
    let want_w: u16 = columns.saturating_add(BOX_CHROME);
    let count: u128 = fields.len() as u128 + foot.len() as u128 + 1;
    let want_h: u16 = ((count % 0x1_0000) as u16).saturating_add(2);
    assert(want_w == wanted_columns(form@));
    assert(want_h == wanted_lines(form@));
    if area.height < 3 || want_w <= BOX_CHROME {
        return render_cramped(area, form);
    }
    let place = centered(area, want_w, want_h);
    let budget: usize = if place.width >= BOX_CHROME {
        (place.width - BOX_CHROME) as usize
    } else {
        0
    };
    let mut heading = concat(" ", form.title.as_str());
    heading.append(" ");
    Drawing::Boxed {
        area: place,
        title: heading,
        lines: lines_in_box(form, budget, (place.height - 2) as usize),
    }
}

/// One row, no border: the title and whatever has focus.
fn render_cramped(area: Rect, form: &Form) -> (r: Drawing)
    requires
        form.wf(),
    ensures
        r@ == (DrawingV::Cramped {
            row: Rect { height: 1, ..area },
            line: cramped_line(form@, area.width as int),
        }),
{
    let columns = area.width as usize;
    let mut text = concat(form.title.as_str(), ": ");
    let head_w = width(text.as_str());
    let budget: usize = if columns >= head_w {
        columns - head_w
    } else {
        0
    };
    match form.error() {
        Some(error) => text.append(error),
        None => match form.focused() {
            Some(field) => {
                let label = field.label();
                let taken = bytes(label);
                let room: usize = if budget > taken {
                    budget - taken - 1
                } else {
                    0
                };
                let ghost head = text@;
                let tail = concat3(label, " ", field.shown(true, Some(room)).as_str());
                text.append(tail.as_str());
            },
            None => text.append(form.hint.as_str()),
        },
    }
    Drawing::Cramped {
        row: Rect { x: area.x, y: area.y, width: area.width, height: 1 },
        line: line(truncate(text.as_str(), columns), Style::Bold),
    }
}

// ---------------------------------------------------------------------- laws

/// Enter is the only key that submits, and only on a form that is confirmed.
/// Esc is the only key that cancels, and it always does.
pub proof fn only_a_confirmed_enter_submits(f: FormV, input: Input)
    ensures
        handled(f, input).0 == Outcome::Submit <==> input == Input::Enter && is_confirmed(f),
        handled(f, input).0 == Outcome::Cancel <==> input == Input::Esc,
{
}

/// The form was made by neither [`Form::action`] nor [`Form::harmless`].
pub open spec fn is_undeclared(f: FormV) -> bool {
    &&& f.commit == Commit::Guarded
    &&& forall|i: int| 0 <= i < f.fields.len() ==> !is_guarded(#[trigger] f.fields[i])
}

proof fn lemma_found_is_there(fields: Seq<FieldV>, label: Seq<char>)
    ensures
        find_field(fields, label) is Some ==> exists|i: int|
            0 <= i < fields.len() && #[trigger] fields[i] == find_field(fields, label)->0,
    decreases fields.len(),
{
    if fields.len() > 0 {
        if label_of(fields[0]) == label {
            assert(fields[0] == find_field(fields, label)->0);
        } else {
            let rest = fields.drop_first();
            lemma_found_is_there(rest, label);
            if find_field(rest, label) is Some {
                let i = choose|i: int|
                    0 <= i < rest.len() && #[trigger] rest[i] == find_field(rest, label)->0;
                assert(fields[i + 1] == rest[i]);
            }
        }
    }
}

/// A form that says neither what its action is nor that it is harmless runs
/// nothing, whatever its rows are and are called and whatever key arrives, and a
/// refused Enter says why.
pub proof fn an_undeclared_form_never_submits(f: FormV, input: Input)
    requires
        is_undeclared(f),
    ensures
        !is_confirmed(f),
        handled(f, input).0 != Outcome::Submit,
        handled(f, Input::Enter).1.error == Some(refusal(f)),
{
    lemma_found_is_there(f.fields, ACTION@);
}

/// A new form is undeclared. Texts, selects, toggles, notes and hints leave it so,
/// and so does every key, every paste and every complaint.
pub proof fn an_undeclared_form_stays_so(
    f: FormV,
    field: FieldV,
    input: Input,
    text: Seq<char>,
    title: Seq<char>,
)
    requires
        is_undeclared(f),
        focus_ok(f.fields, f.focus),
        !is_guarded(field),
    ensures
        is_undeclared(empty_form(title)),
        is_undeclared(with_field(f, field)),
        is_undeclared((FormV { hint: text, ..f })),
        is_undeclared((FormV { error: Some(text), ..f })),
        is_undeclared(handled(f, input).1),
        is_undeclared(pasted(f, text).1),
{
    let g = with_field(f, field);
    assert forall|i: int| 0 <= i < g.fields.len() implies !is_guarded(#[trigger] g.fields[i]) by {
        if i < f.fields.len() {
            assert(g.fields[i] == f.fields[i]);
        }
    }
    if let Some(at) = f.focus {
        let h = keyed(f, input).1;
        assert(!is_guarded(f.fields[at as int]));
        assert forall|i: int| 0 <= i < h.fields.len() implies !is_guarded(
            #[trigger] h.fields[i],
        ) by {
            if i != at {
                assert(h.fields[i] == f.fields[i]);
            }
        }
        let p = pasted(f, text).1;
        assert forall|i: int| 0 <= i < p.fields.len() implies !is_guarded(
            #[trigger] p.fields[i],
        ) by {
            if i != at {
                assert(p.fields[i] == f.fields[i]);
            }
        }
    }
}

/// A select points at one of its options.
pub open spec fn field_ok(f: FieldV) -> bool {
    f is Select ==> f->at < f->options.len()
}

/// A key is reported as a change exactly where it changed something: in the
/// focused field and nowhere else, with the focus and the complaint left alone.
pub proof fn an_edit_reports_exactly_what_changed(f: FormV, input: Input, i: int)
    requires
        focus_ok(f.fields, f.focus),
        forall|j: int| 0 <= j < f.fields.len() ==> field_ok(#[trigger] f.fields[j]),
        0 <= i < f.fields.len(),
    ensures
        edited(f.fields[i], input).0 == (edited(f.fields[i], input).1 != f.fields[i]),
        keyed(f, input).0 == (keyed(f, input).1 != f),
        keyed(f, input).1.focus == f.focus,
        keyed(f, input).1.error == f.error,
        f.focus != Some(i as nat) ==> keyed(f, input).1.fields[i] == f.fields[i],
        field_ok(keyed(f, input).1.fields[i]),
{
    lemma_edited(f.fields[i], input);
    lemma_keyed(f, input);
}

proof fn lemma_keyed(f: FormV, input: Input)
    requires
        focus_ok(f.fields, f.focus),
        forall|j: int| 0 <= j < f.fields.len() ==> field_ok(#[trigger] f.fields[j]),
    ensures
        keyed(f, input).0 == (keyed(f, input).1 != f),
        forall|j: int| 0 <= j < f.fields.len() ==> field_ok(#[trigger] keyed(f, input).1.fields[j]),
{
    if let Some(at) = f.focus {
        let at = at as int;
        lemma_edited(f.fields[at], input);
        let g = keyed(f, input).1;
        if edited(f.fields[at], input).0 {
            assert(g.fields[at] != f.fields[at]);
        } else {
            assert(g.fields =~= f.fields);
        }
        assert forall|j: int| 0 <= j < f.fields.len() implies field_ok(#[trigger] g.fields[j]) by {
            if j != at {
                assert(g.fields[j] == f.fields[j]);
            }
        }
    }
}

proof fn lemma_edited(f: FieldV, input: Input)
    requires
        field_ok(f),
    ensures
        edited(f, input).0 == (edited(f, input).1 != f),
        field_ok(edited(f, input).1),
{
    match f {
        FieldV::Text { label, before, after, blank } => {
            let k = step_back(before);
            let n = step_ahead(after);
            let (changed, b, a) = edited_text(before, after, input);
            if k == before.len() {
                assert(before.take(k) =~= before);
                assert(before.skip(k) + after =~= after);
            }
            if n == 0 {
                assert(after.skip(n) =~= after);
                assert(before + after.take(n) =~= before);
            }
            if before.len() == 0 {
                assert(before =~= Seq::empty());
                assert(before + after =~= after);
            }
            if after.len() == 0 {
                assert(after =~= Seq::empty());
                assert(before + after =~= before);
            }
            if changed {
                assert(b.len() != before.len() || a.len() != after.len());
            } else {
                assert(b =~= before && a =~= after);
            }
        },
        FieldV::Select { label, options, at, guarded } => {
            lemma_cycle(at as int, options.len() as int);
        },
        _ => {},
    }
}

/// A new action row reads `cancel`, so the form it is added to does not submit
/// on a bare Enter, and a claim to be harmless does not change that.
pub proof fn an_action_row_starts_disarmed(f: FormV, verb: Seq<char>)
    requires
        find_field(f.fields, ACTION@) is None,
    ensures
        !is_confirmed(with_field(f, action_row(verb))),
        !is_confirmed((FormV { commit: Commit::Harmless, ..with_field(f, action_row(verb)) })),
{
    lemma_find_in_push(f.fields, action_row(verb), ACTION@);
}

proof fn lemma_find_in_push(fields: Seq<FieldV>, x: FieldV, label: Seq<char>)
    requires
        find_field(fields, label) is None,
        label_of(x) == label,
    ensures
        find_field(fields.push(x), label) == Some(x),
    decreases fields.len(),
{
    if fields.len() > 0 {
        assert(fields.push(x).drop_first() =~= fields.drop_first().push(x));
        lemma_find_in_push(fields.drop_first(), x, label);
    }
}

/// Where a form has an action row, being harmless makes no difference.
pub proof fn harmless_does_not_override_an_action_row(f: FormV)
    requires
        find_field(f.fields, ACTION@) is Some,
        is_guarded(find_field(f.fields, ACTION@)->0),
    ensures
        is_confirmed((FormV { commit: Commit::Harmless, ..f })) == is_confirmed(f),
{
}

proof fn lemma_find_in_update(fields: Seq<FieldV>, at: int, x: FieldV, label: Seq<char>)
    requires
        0 <= at < fields.len(),
        label_of(x) == label_of(fields[at]),
    ensures
        find_field(fields.update(at, x), label) == find_field(fields, label) || (find_field(
            fields,
            label,
        ) == Some(fields[at]) && find_field(fields.update(at, x), label) == Some(x)),
    decreases fields.len(),
{
    if at > 0 {
        assert(fields.update(at, x).drop_first() =~= fields.drop_first().update(at - 1, x));
        if label_of(fields[0]) != label {
            lemma_find_in_update(fields.drop_first(), at - 1, x, label);
        }
    } else {
        assert(fields.update(at, x).drop_first() =~= fields.drop_first());
    }
}

/// No character and no paste arms an action row: whatever text arrives, as keys
/// or as a paste, a form that would not submit still does not.
pub proof fn text_never_arms_the_action(f: FormV, c: char, text: Seq<char>)
    requires
        focus_ok(f.fields, f.focus),
    ensures
        is_confirmed(handled(f, Input::Char(c)).1) == is_confirmed(f),
        is_confirmed(pasted(f, text).1) == is_confirmed(f),
{
    if let Some(at) = f.focus {
        let at = at as int;
        let typed_field = keyed(f, Input::Char(c)).1.fields[at];
        lemma_find_in_update(f.fields, at, typed_field, ACTION@);
        let pasted_field = pasted(f, text).1.fields[at];
        assert(pasted(f, text).1.fields =~= f.fields.update(at, pasted_field));
        lemma_find_in_update(f.fields, at, pasted_field, ACTION@);
    }
}

/// A key changes the focused field or none at all, and it never changes a title,
/// a hint, a label, how many rows there are or what Enter means.
pub proof fn a_key_reaches_only_the_focused_field(f: FormV, input: Input, i: int)
    requires
        focus_ok(f.fields, f.focus),
        0 <= i < f.fields.len(),
    ensures
        handled(f, input).1.fields.len() == f.fields.len(),
        f.focus != Some(i as nat) ==> handled(f, input).1.fields[i] == f.fields[i],
        label_of(handled(f, input).1.fields[i]) == label_of(f.fields[i]),
        handled(f, input).1.title == f.title,
        handled(f, input).1.hint == f.hint,
        handled(f, input).1.commit == f.commit,
{
}

/// Moving the caret leaves the text as it is.
pub proof fn caret_moves_keep_the_text(before: Seq<char>, after: Seq<char>, input: Input)
    requires
        input == Input::Left || input == Input::Right || input == Input::Home || input
            == Input::End,
    ensures
        edited_text(before, after, input).1 + edited_text(before, after, input).2 == before + after,
{
    let k = step_back(before);
    let n = step_ahead(after);
    assert(before.take(k) + (before.skip(k) + after) =~= before + after);
    assert((before + after.take(n)) + after.skip(n) =~= before + after);
    assert(Seq::<char>::empty() + (before + after) =~= before + after);
    assert((before + after) + Seq::<char>::empty() =~= before + after);
}

/// A complaint survives navigation, and does not survive an edit.
pub proof fn an_error_survives_navigation_but_not_an_edit(f: FormV, input: Input)
    requires
        focus_ok(f.fields, f.focus),
        f.focus is Some,
    ensures
        stepped(f, true).error == f.error,
        stepped(f, false).error == f.error,
        edited(f.fields[f.focus->0 as int], input).0 ==> typed(f, input).error is None,
        !edited(f.fields[f.focus->0 as int], input).0 ==> typed(f, input) == f,
{
}

/// What is pasted holds no control character, and keeps everything else in
/// order.
pub proof fn a_paste_carries_no_controls(text: Seq<char>, i: int)
    ensures
        0 <= i < without_controls(text).len() ==> !is_control(without_controls(text)[i]),
        (forall|j: int| 0 <= j < text.len() ==> !is_control(#[trigger] text[j]))
            ==> without_controls(text) == text,
    decreases text.len(),
{
    reveal(Seq::filter);
    let keep = |c: char| !is_control(c);
    if text.len() > 0 {
        let front = text.drop_last();
        a_paste_carries_no_controls(front, i);
        assert(text =~= front.push(text.last()));
        assert forall|j: int| 0 <= j < front.len() && (forall|j: int|
            0 <= j < text.len() ==> !is_control(#[trigger] text[j])) implies !is_control(
            #[trigger] front[j],
        ) by {
            assert(front[j] == text[j]);
        }
        assert(!is_control(text.last()) ==> without_controls(text) == without_controls(front).push(
            text.last(),
        ));
        assert(is_control(text.last()) ==> without_controls(text) == without_controls(front));
    }
}

/// Tab and then back-Tab return to the row they started from, and so do
/// back-Tab and then Tab.
pub proof fn stepping_there_and_back(f: FormV, forward: bool)
    requires
        focus_ok(f.fields, f.focus),
    ensures
        stepped(stepped(f, forward), !forward) == f,
        focus_ok(f.fields, stepped(f, forward).focus),
{
    if let Some(at) = f.focus {
        let at = at as int;
        let n = f.fields.len() as int;
        let back = !forward;
        lemma_focus_found(f.fields, at, forward);
        let to = next_focus(f.fields, at, forward, n as nat)->0 as int;
        let steps = lemma_steps_to_focus(f.fields, at, forward, 0);
        lemma_walked(at, forward, n, steps);
        // Walking back over the same rows meets none that takes focus.
        assert forall|j: nat| 0 < j < steps implies !is_focusable(
            f.fields[#[trigger] walked(to, back, n, j)],
        ) by {
            lemma_walked(to, back, n, j);
            lemma_walked(at, forward, n, (steps - j) as nat);
            assert(walked(to, back, n, j) == walked(at, forward, n, (steps - j) as nat));
        }
        lemma_walked(to, back, n, steps);
        assert(walked(to, back, n, steps) == at);
        lemma_next_focus_is(f.fields, to, back, steps, 0);
        assert(stepped(stepped(f, forward), !forward).focus == Some(at as nat));
    }
}

/// How many steps the search takes from `at`, the first `done` of which found
/// nothing.
proof fn lemma_steps_to_focus(fields: Seq<FieldV>, at: int, forward: bool, done: nat) -> (steps: nat)
    requires
        0 <= at < fields.len(),
        is_focusable(fields[at]),
        done < fields.len(),
        forall|j: nat|
            0 < j <= done ==> !is_focusable(
                fields[#[trigger] walked(at, forward, fields.len() as int, j)],
            ),
    ensures
        done < steps <= fields.len(),
        ({
            let n = fields.len() as int;
            let from = walked(at, forward, n, done);
            next_focus(fields, from, forward, (n - done) as nat) == Some(
                walked(at, forward, n, steps) as nat,
            )
        }),
        is_focusable(fields[walked(at, forward, fields.len() as int, steps)]),
        forall|j: nat|
            0 < j < steps ==> !is_focusable(
                fields[#[trigger] walked(at, forward, fields.len() as int, j)],
            ),
    decreases fields.len() - done,
{
    let n = fields.len() as int;
    lemma_walked(at, forward, n, done);
    lemma_walked(at, forward, n, done + 1);
    let to = walked(at, forward, n, done + 1);
    assert(to == beside(walked(at, forward, n, done), forward, n));
    if is_focusable(fields[to]) {
        done + 1
    } else {
        if done + 1 == n {
            lemma_walk_around(at, forward, n);
        }
        lemma_steps_to_focus(fields, at, forward, done + 1)
    }
}

proof fn lemma_next_focus_is(fields: Seq<FieldV>, at: int, forward: bool, steps: nat, done: nat)
    requires
        0 <= at < fields.len(),
        done < steps <= fields.len(),
        is_focusable(fields[walked(at, forward, fields.len() as int, steps)]),
        forall|j: nat|
            0 < j < steps ==> !is_focusable(
                fields[#[trigger] walked(at, forward, fields.len() as int, j)],
            ),
    ensures
        ({
            let n = fields.len() as int;
            let from = walked(at, forward, n, done);
            next_focus(fields, from, forward, (n - done) as nat) == Some(
                walked(at, forward, n, steps) as nat,
            )
        }),
    decreases steps - done,
{
    let n = fields.len() as int;
    lemma_walked(at, forward, n, done);
    lemma_walked(at, forward, n, done + 1);
    let to = walked(at, forward, n, done + 1);
    assert(to == beside(walked(at, forward, n, done), forward, n));
    if done + 1 < steps {
        lemma_next_focus_is(fields, at, forward, steps, done + 1);
    }
}

/// However small the terminal, a form draws something on it.
pub proof fn something_is_always_drawn(area: Rect, f: FormV)
    requires
        area.width > 0,
        area.height > 0,
    ensures
        !(drawing(area, f) is Nothing),
{
}

/// The error and the hint survive a box too short for the fields: with room for
/// one line it is the error, where there is one, and with room for both it is
/// both, at the bottom.
pub proof fn the_error_and_the_hint_survive(f: FormV, budget: int, height: int)
    requires
        height >= 1,
    ensures
        ({
            let lines = box_lines(f, budget, height);
            let hint = LineV { text: truncated("  "@ + f.hint, budget), style: Style::Dim };
            match f.error {
                Some(error) => {
                    let said = LineV { text: truncated("  "@ + error, budget), style: Style::Bold };
                    if height == 1 {
                        lines == seq![said]
                    } else {
                        lines.len() >= 2 && lines.last() == hint && lines[lines.len() - 2] == said
                    }
                },
                None => lines.len() >= 1 && lines.last() == hint,
            }
        }),
{
    let lines = box_lines(f, budget, height);
    if f.error is Some && height == 1 {
        let said = LineV { text: truncated("  "@ + f.error->0, budget), style: Style::Bold };
        assert(lines =~= seq![said]);
    }
}

} // verus!
