//! What a form does with keys and text, and what it shows of its rows.
use vstd::prelude::*;
use vstd::string::*;
use crate::form::{
    action_row, choice_of, edited, edited_text, empty_form, field_row, find_field, footer_rows,
    handled, is_focusable, label_columns, label_of, next_focus, options_or_none, pasted, refusal,
    shown_value, stepped, trimmed_of, with_field, Commit, FieldV, FormV, Outcome,
};
use crate::keys::Input;
use crate::layout::{display_width, grapheme_clusters};
use crate::quest_laws::lemma_said;
use crate::text::{has_text, is_control, padded_left, repeated, trimmed};

verus! {

// --------------------------------------------------------------------- reading

/// A row is found by its label, and of two rows of one label the first one counts.
pub proof fn a_row_is_found_by_its_label(fields: Seq<FieldV>, label: Seq<char>, i: int)
    requires
        0 <= i <= fields.len(),
        forall|j: int| 0 <= j < i ==> label_of(#[trigger] fields[j]) != label,
        i < fields.len() ==> label_of(fields[i]) == label,
    ensures
        i < fields.len() ==> find_field(fields, label) == Some(fields[i]),
        i == fields.len() ==> find_field(fields, label) is None,
    decreases fields.len(),
{
    if i > 0 {
        assert(label_of(fields[0]) != label);
        let rest = fields.drop_first();
        assert forall|j: int| 0 <= j < i - 1 implies label_of(#[trigger] rest[j]) != label by {
            assert(rest[j] == fields[j + 1]);
        }
        a_row_is_found_by_its_label(rest, label, i - 1);
    }
}

/// What a row holds is what is read of it: of a text all that stands on both sides
/// of the caret, without the white space around it; of a select the option it is
/// on; of a row of another kind, or of none, nothing.
pub proof fn a_row_is_read_as_it_stands(f: FormV, label: Seq<char>, i: int)
    requires
        0 <= i <= f.fields.len(),
        forall|j: int| 0 <= j < i ==> label_of(#[trigger] f.fields[j]) != label,
        i < f.fields.len() ==> label_of(f.fields[i]) == label,
    ensures
        i < f.fields.len() ==> match f.fields[i] {
            FieldV::Text { before, after, .. } => trimmed_of(f, label) == trimmed(before + after)
                && choice_of(f, label).len() == 0,
            FieldV::Select { options, at, .. } => (at < options.len() ==> choice_of(f, label)
                == options[at as int]) && trimmed_of(f, label).len() == 0,
            _ => trimmed_of(f, label).len() == 0 && choice_of(f, label).len() == 0,
        },
        i == f.fields.len() ==> trimmed_of(f, label).len() == 0 && choice_of(f, label).len() == 0,
{
    a_row_is_found_by_its_label(f.fields, label, i);
}

// --------------------------------------------------------------------- building

/// A row that is added comes last and leaves the others as they are; the first one
/// that can be typed into gets the keyboard.
pub proof fn a_row_is_added_at_the_end(f: FormV, field: FieldV)
    ensures
        with_field(f, field).fields.len() == f.fields.len() + 1,
        with_field(f, field).fields.take(f.fields.len() as int) == f.fields,
        with_field(f, field).fields.last() == field,
        f.focus is Some ==> with_field(f, field).focus == f.focus,
        f.focus is None && !(field is Note) ==> with_field(f, field).focus == Some(f.fields.len()),
        f.focus is None && field is Note ==> with_field(f, field).focus is None,
        with_field(f, field).title == f.title && with_field(f, field).hint == f.hint,
        with_field(f, field).commit == f.commit,
{
    assert(with_field(f, field).fields.take(f.fields.len() as int) =~= f.fields);
}

/// An empty form has its title and nothing in it, and submits nothing. A list of no
/// options becomes a placeholder, and any other is kept as it is. An action row
/// offers to cancel first.
pub proof fn a_form_begins_empty(title: Seq<char>, options: Seq<Seq<char>>, verb: Seq<char>)
    ensures
        empty_form(title).title == title,
        empty_form(title).fields.len() == 0,
        empty_form(title).error is None,
        empty_form(title).commit == Commit::Guarded,
        options.len() > 0 ==> options_or_none(options) == options,
        options_or_none(options).len() > 0,
        action_row(verb) is Select,
        action_row(verb)->options == seq!["cancel"@, verb],
        action_row(verb)->at == 0,
        action_row(verb)->guarded,
{
}

// ---------------------------------------------------------------------- editing

/// A character goes in where the caret is, and the caret behind it; Backspace and
/// Delete take the cluster on their side of the caret and nothing else; Ctrl-U takes
/// everything.
pub proof fn keys_edit_around_the_caret(before: Seq<char>, after: Seq<char>, c: char)
    ensures
        ({
            let (_, b, a) = edited_text(before, after, Input::Char(c));
            b + a == before + seq![c] + after && b.len() == before.len() + 1
        }),
        ({
            let (_, b, a) = edited_text(before, after, Input::Backspace);
            let parts = grapheme_clusters(before);
            &&& a == after
            &&& parts.len() > 0 && parts.last().len() <= before.len() ==> b == before.take(
                before.len() - parts.last().len(),
            )
        }),
        ({
            let (_, b, a) = edited_text(before, after, Input::Delete);
            let parts = grapheme_clusters(after);
            &&& b == before
            &&& parts.len() > 0 && parts[0].len() <= after.len() ==> a == after.skip(
                parts[0].len() as int,
            )
        }),
        ({
            let (_, b, a) = edited_text(before, after, Input::Ctrl('u'));
            b.len() == 0 && a.len() == 0
        }),
{
    let r = edited_text(before, after, Input::Char(c));
    assert(r.1 + r.2 =~= before + seq![c] + after);
}

/// Left and Right move the caret by one cluster, Home and End to the ends, and none
/// of them changes the text.
pub proof fn keys_move_the_caret(before: Seq<char>, after: Seq<char>)
    ensures
        ({
            let (_, b, a) = edited_text(before, after, Input::Left);
            let parts = grapheme_clusters(before);
            &&& b + a == before + after
            &&& parts.len() > 0 && parts.last().len() <= before.len() ==> b.len() == before.len()
                - parts.last().len()
        }),
        ({
            let (_, b, a) = edited_text(before, after, Input::Right);
            let parts = grapheme_clusters(after);
            &&& b + a == before + after
            &&& parts.len() > 0 && parts[0].len() <= after.len() ==> b.len() == before.len()
                + parts[0].len()
        }),
        ({
            let (_, b, a) = edited_text(before, after, Input::Home);
            b.len() == 0 && a == before + after
        }),
        ({
            let (_, b, a) = edited_text(before, after, Input::End);
            a.len() == 0 && b == before + after
        }),
{
    let (_, b, a) = edited_text(before, after, Input::Left);
    assert(b + a =~= before + after);
    let (_, x, y) = edited_text(before, after, Input::Right);
    assert(x + y =~= before + after);
}

/// A select goes on by one option at Right and back by one at Left, around the ends,
/// and keeps its options; Space goes on too, but never on an action row. A switch is
/// flipped by each of the three.
pub proof fn keys_choose_an_option(label: Seq<char>, options: Seq<Seq<char>>, at: nat, guarded: bool)
    requires
        at < options.len(),
        options.len() >= 2,
    ensures
        ({
            let f = FieldV::Select { label, options, at, guarded };
            let n = options.len() as int;
            let right = edited(f, Input::Right).1;
            let left = edited(f, Input::Left).1;
            let space = edited(f, Input::Char(' ')).1;
            &&& right is Select && right->options == options && right->at == if at + 1 < n {
                at + 1
            } else {
                0
            }
            &&& left is Select && left->options == options && left->at == if at > 0 {
                at - 1
            } else {
                n - 1
            }
            &&& guarded ==> space == f
            &&& !guarded ==> space == right
        }),
{
    let n = options.len() as int;
    if at + 1 < n {
        assert((at as int + 1) % n == at + 1) by (nonlinear_arith)
            requires
                0 <= at + 1 < n,
        ;
    } else {
        assert((at as int + 1) % n == 0) by (nonlinear_arith)
            requires
                at + 1 == n,
                n > 0,
        ;
    }
    if at > 0 {
        assert((at as int + n - 1) % n == at - 1) by (nonlinear_arith)
            requires
                0 < at < n,
        ;
    } else {
        assert((at as int + n - 1) % n == n - 1) by (nonlinear_arith)
            requires
                at == 0,
                n > 0,
        ;
    }
}

/// A switch is flipped by Left, Right and Space, and by nothing else; a note is
/// never changed.
pub proof fn keys_flip_a_switch(label: Seq<char>, on: bool, note: Seq<char>, input: Input)
    ensures
        ({
            let f = FieldV::Toggle { label, on };
            let flips = input == Input::Left || input == Input::Right || input == Input::Char(' ');
            &&& edited(f, input).1 == (FieldV::Toggle { label, on: if flips {
                !on
            } else {
                on
            } })
            &&& edited(FieldV::Note(note), input).1 == FieldV::Note(note)
        }),
{
}

/// Pasted text goes in where the caret is, without its control characters, into a
/// text row that has the keyboard and nowhere else.
pub proof fn a_paste_goes_in_at_the_caret(f: FormV, text: Seq<char>)
    requires
        f.focus is Some,
        f.focus->0 < f.fields.len(),
        f.fields[f.focus->0 as int] is Text,
    ensures
        ({
            let at = f.focus->0 as int;
            let clean = text.filter(|c: char| !is_control(c));
            let g = pasted(f, text).1;
            let x = f.fields[at];
            &&& clean.len() > 0 ==> {
                &&& pasted(f, text).0
                &&& g.fields.len() == f.fields.len()
                &&& g.fields[at] is Text
                &&& g.fields[at]->before + g.fields[at]->after == x->before + clean + x->after
                &&& g.fields[at]->after == x->after
                &&& forall|i: int|
                    0 <= i < f.fields.len() && i != at ==> g.fields[i] == #[trigger] f.fields[i]
                &&& g.focus == f.focus
            }
            &&& clean.len() == 0 ==> pasted(f, text) == (false, f)
        }),
{
    let at = f.focus->0 as int;
    let clean = text.filter(|c: char| !is_control(c));
    assert(clean == crate::form::without_controls(text));
    let x = f.fields[at];
    let g = pasted(f, text).1;
    if clean.len() > 0 {
        assert(g.fields[at]->before + g.fields[at]->after =~= x->before + clean + x->after);
    }
}

/// The keyboard goes to the next row that can take it, past the notes, and around
/// the ends.
pub proof fn focus_goes_to_the_next_row(f: FormV, to: int)
    requires
        f.focus is Some,
        f.focus->0 < to < f.fields.len(),
        is_focusable(f.fields[to]),
        forall|j: int| f.focus->0 < j < to ==> !is_focusable(#[trigger] f.fields[j]),
    ensures
        stepped(f, true).focus == Some(to as nat),
        handled(f, Input::Tab).1.focus == Some(to as nat),
        handled(f, Input::Down).1.focus == Some(to as nat),
        handled(f, Input::Tab).1.fields == f.fields,
{
    lemma_next(f.fields, f.focus->0 as int, to, f.fields.len());
}

proof fn lemma_next(fields: Seq<FieldV>, at: int, to: int, count: nat)
    requires
        0 <= at < to < fields.len(),
        is_focusable(fields[to]),
        forall|j: int| at < j < to ==> !is_focusable(#[trigger] fields[j]),
        count >= to - at,
    ensures
        next_focus(fields, at, true, count) == Some(to as nat),
    decreases count,
{
    if at + 1 < to {
        assert(!is_focusable(fields[at + 1]));
        lemma_next(fields, at + 1, to, (count - 1) as nat);
    }
}

/// Backwards the keyboard goes to the row before.
pub proof fn focus_goes_to_the_row_before(f: FormV, to: int)
    requires
        f.focus is Some,
        0 <= to < f.focus->0 < f.fields.len(),
        is_focusable(f.fields[to]),
        forall|j: int| to < j < f.focus->0 ==> !is_focusable(#[trigger] f.fields[j]),
    ensures
        stepped(f, false).focus == Some(to as nat),
        handled(f, Input::BackTab).1.focus == Some(to as nat),
        handled(f, Input::Up).1.focus == Some(to as nat),
{
    lemma_previous(f.fields, f.focus->0 as int, to, f.fields.len());
}

proof fn lemma_previous(fields: Seq<FieldV>, at: int, to: int, count: nat)
    requires
        0 <= to < at < fields.len(),
        is_focusable(fields[to]),
        forall|j: int| to < j < at ==> !is_focusable(#[trigger] fields[j]),
        count >= at - to,
    ensures
        next_focus(fields, at, false, count) == Some(to as nat),
    decreases count,
{
    if to < at - 1 {
        assert(!is_focusable(fields[at - 1]));
        lemma_previous(fields, at - 1, to, (count - 1) as nat);
    }
}

/// Enter submits where the action row is off `cancel`, and where there is no such
/// row and the form is harmless; otherwise it changes no row and says what to do,
/// naming the verb.
pub proof fn enter_submits_only_what_was_meant(f: FormV, i: int)
    requires
        0 <= i <= f.fields.len(),
        forall|j: int| 0 <= j < i ==> label_of(#[trigger] f.fields[j]) != "action"@,
        i < f.fields.len() ==> label_of(f.fields[i]) == "action"@ && f.fields[i] is Select
            && f.fields[i]->guarded && f.fields[i]->at < f.fields[i]->options.len(),
    ensures
        i < f.fields.len() && f.fields[i]->options[f.fields[i]->at as int] != "cancel"@
            ==> handled(f, Input::Enter) == (Outcome::Submit, f),
        i < f.fields.len() && f.fields[i]->options[f.fields[i]->at as int] == "cancel"@ ==> {
            let (outcome, g) = handled(f, Input::Enter);
            outcome == Outcome::Editing && g.fields == f.fields && g.error is Some && has_text(
                g.error->0,
                f.fields[i]->options.last(),
            )
        },
        i == f.fields.len() && f.commit == Commit::Harmless ==> handled(f, Input::Enter) == (
            Outcome::Submit,
            f,
        ),
        i == f.fields.len() && f.commit != Commit::Harmless ==> handled(f, Input::Enter).0
            == Outcome::Editing,
        handled(f, Input::Esc) == (Outcome::Cancel, f),
{
    a_row_is_found_by_its_label(f.fields, "action"@, i);
    if i < f.fields.len() && f.fields[i]->options[f.fields[i]->at as int] == "cancel"@ {
        let verb = f.fields[i]->options.last();
        lemma_said(
            refusal(f),
            "nothing done \u{b7} choose \u{2039} "@,
            verb,
            " \u{203a} on the action row (\u{2190}\u{2192}), or Esc"@,
        );
    }
}

// ---------------------------------------------------------------------- drawing

/// A row that has no caret in it shows its value, or what leaving it blank will
/// mean; a select shows the option it is on; a switch shows which way it is.
pub proof fn a_row_shows_what_it_holds(f: FieldV, focused: bool)
    ensures
        f is Text && !focused && (f->before + f->after).len() > 0 ==> shown_value(f, focused, None)
            == f->before + f->after,
        f is Text && (f->before + f->after).len() == 0 ==> has_text(
            shown_value(f, focused, None),
            f->blank,
        ),
        f is Text && focused ==> has_text(shown_value(f, focused, None), f->before) && has_text(
            shown_value(f, focused, None),
            f->after,
        ),
        f is Select && f->at < f->options.len() ==> has_text(
            shown_value(f, focused, None),
            f->options[f->at as int],
        ),
        f is Toggle ==> has_text(
            shown_value(f, focused, None),
            if f->on {
                "yes"@
            } else {
                "no"@
            },
        ),
        f is Note ==> shown_value(f, focused, None) == f->Note_0,
{
    let v = shown_value(f, focused, None);
    match f {
        FieldV::Text { before, after, blank, .. } => {
            let extra = if (before + after).len() == 0 {
                blank
            } else {
                Seq::empty()
            };
            if focused {
                let caret = seq![crate::form::CARET];
                assert(before.push(crate::form::CARET) =~= before + caret);
                assert(v =~= before + caret + after + extra);
                assert(v =~= Seq::<char>::empty() + before + (caret + after + extra));
                lemma_said(v, Seq::empty(), before, caret + after + extra);
                assert(v =~= (before + caret) + after + extra);
                lemma_said(v, before + caret, after, extra);
                assert(v =~= (before + caret + after) + extra + Seq::empty());
                lemma_said(v, before + caret + after, extra, Seq::empty());
            } else if (before + after).len() == 0 {
                lemma_said(v, Seq::empty(), blank, Seq::empty());
            }
        },
        FieldV::Select { options, at, .. } => {
            if at < options.len() {
                lemma_said(v, "\u{2039} "@, options[at as int], " \u{203a}"@);
            }
        },
        FieldV::Toggle { on, .. } => {
            reveal_strlit("[x] yes");
            reveal_strlit("[ ] no");
            reveal_strlit("yes");
            reveal_strlit("no");
            if on {
                assert(v =~= seq!['[', 'x', ']', ' '] + "yes"@ + Seq::empty());
                lemma_said(v, seq!['[', 'x', ']', ' '], "yes"@, Seq::empty());
            } else {
                assert(v =~= seq!['[', ' ', ']', ' '] + "no"@ + Seq::empty());
                lemma_said(v, seq!['[', ' ', ']', ' '], "no"@, Seq::empty());
            }
        },
        FieldV::Note(_) => {},
    }
}

/// A row says its label beside its value, and only the row with the keyboard is
/// marked.
pub proof fn a_row_says_its_label(f: FormV, i: int)
    requires
        0 <= i < f.fields.len(),
    ensures
        ({
            let row = field_row(f, i, None);
            let focused = f.focus == Some(i as nat);
            &&& !(f.fields[i] is Note) ==> has_text(row.text, label_of(f.fields[i])) && has_text(
                row.text,
                shown_value(f.fields[i], focused, None),
            )
            &&& f.fields[i] is Note ==> has_text(row.text, f.fields[i]->Note_0)
            &&& row.style == crate::paint::Style::Bold <==> focused
            &&& focused ==> row.text[0] == '\u{25b8}'
            &&& !focused ==> row.text[0] == ' '
        }),
{
    reveal_strlit("\u{25b8} ");
    reveal_strlit("  ");
    let row = field_row(f, i, None);
    let focused = f.focus == Some(i as nat);
    let marker = if focused {
        "\u{25b8} "@
    } else {
        "  "@
    };
    if f.fields[i] is Note {
        lemma_said(row.text, marker, f.fields[i]->Note_0, Seq::empty());
    } else {
        let label = label_of(f.fields[i]);
        let n = label_columns(f.fields) as int;
        let shown = shown_value(f.fields[i], focused, None);
        let p = padded_left(label, n);
        let blanks = if label.len() < n {
            repeated(' ', (n - label.len()) as nat)
        } else {
            Seq::empty()
        };
        assert(p =~= blanks + label);
        assert(row.text == marker + p + "  "@ + shown);
        assert(row.text =~= (marker + p + "  "@) + shown + Seq::empty());
        lemma_said(row.text, marker + p + "  "@, shown, Seq::empty());
        assert(row.text =~= (marker + blanks) + label + ("  "@ + shown));
        lemma_said(row.text, marker + blanks, label, "  "@ + shown);
    }
}

/// The foot of a form says its hint, and above it what is wrong.
pub proof fn the_foot_says_what_is_wrong(f: FormV)
    ensures
        has_text(footer_rows(f).last().text, f.hint),
        f.error is Some ==> footer_rows(f).len() == 2 && has_text(
            footer_rows(f)[0].text,
            f.error->0,
        ),
        f.error is None ==> footer_rows(f).len() == 1,
{
    lemma_said(footer_rows(f).last().text, "  "@, f.hint, Seq::empty());
    if f.error is Some {
        lemma_said(footer_rows(f)[0].text, "  "@, f.error->0, Seq::empty());
    }
}

/// Every label fits into the column of the labels.
pub proof fn the_labels_fit_their_column(fields: Seq<FieldV>, i: int)
    requires
        0 <= i < fields.len(),
        is_focusable(fields[i]),
    ensures
        display_width(label_of(fields[i])) <= label_columns(fields),
    decreases fields.len(),
{
    if i < fields.len() - 1 {
        the_labels_fit_their_column(fields.drop_last(), i);
    }
}

/// A box that is tall enough shows every row in order, then a blank line, and then
/// its foot, each as it is where it fits.
pub proof fn a_tall_box_shows_every_row(f: FormV, budget: int, height: int, i: int)
    requires
        height >= f.fields.len() + footer_rows(f).len() + 1,
    ensures
        ({
            let ls = crate::form::box_lines(f, budget, height);
            let n = f.fields.len() as int;
            let row = field_row(f, i, Some(budget));
            &&& ls.len() == n + 1 + footer_rows(f).len()
            &&& 0 <= i < n ==> ls[i].style == row.style && (display_width(row.text) <= budget
                ==> ls[i].text == row.text)
            &&& 0 <= i < footer_rows(f).len() && display_width(footer_rows(f)[i].text) <= budget
                ==> ls[n + 1 + i].text == footer_rows(f)[i].text
        }),
{
    let n = f.fields.len() as int;
    let fields = crate::form::field_rows(f, Some(budget));
    assert(fields.take(n) =~= fields);
    assert(footer_rows(f).take(footer_rows(f).len() as int) =~= footer_rows(f));
}

/// On a terminal with no room for a box one line says which form it is, and what is
/// wrong with it or the row that has the keyboard.
pub proof fn a_line_stands_in_for_a_box(f: FormV, columns: int)
    requires
        f.focus is Some,
        f.focus->0 < f.fields.len(),
    ensures
        ({
            let line = crate::form::cramped_line(f, columns);
            let field = f.fields[f.focus->0 as int];
            let wanted = f.title + ": "@ + f.error->0;
            &&& f.error is Some && display_width(wanted) <= columns ==> line.text == wanted
            &&& f.error is None && field is Toggle && display_width(
                f.title + ": "@ + (label_of(field) + " "@ + shown_value(field, true, None)),
            ) <= columns ==> line.text == f.title + ": "@ + (label_of(field) + " "@ + shown_value(
                field,
                true,
                None,
            ))
        }),
{
}

/// From the last row that can take it the keyboard goes on to the first one, and back
/// from the first to the last.
pub proof fn focus_goes_around(f: FormV, first: int, last: int)
    requires
        0 <= first < last < f.fields.len(),
        is_focusable(f.fields[first]),
        is_focusable(f.fields[last]),
        forall|j: int| 0 <= j < first ==> !is_focusable(#[trigger] f.fields[j]),
        forall|j: int| last < j < f.fields.len() ==> !is_focusable(#[trigger] f.fields[j]),
    ensures
        f.focus == Some(last as nat) ==> handled(f, Input::Tab).1.focus == Some(first as nat),
        f.focus == Some(first as nat) ==> handled(f, Input::BackTab).1.focus == Some(last as nat),
{
    let n = f.fields.len();
    lemma_to_the_end(f.fields, last, first, n);
    lemma_to_the_start(f.fields, first, last, n);
}

proof fn lemma_to_the_end(fields: Seq<FieldV>, at: int, first: int, count: nat)
    requires
        0 <= first <= at < fields.len(),
        is_focusable(fields[first]),
        forall|j: int| 0 <= j < first ==> !is_focusable(#[trigger] fields[j]),
        forall|j: int| at < j < fields.len() ==> !is_focusable(#[trigger] fields[j]),
        count >= fields.len() - at + first,
    ensures
        next_focus(fields, at, true, count) == Some(first as nat),
    decreases count,
{
    if at + 1 < fields.len() {
        assert(!is_focusable(fields[at + 1]));
        lemma_to_the_end(fields, at + 1, first, (count - 1) as nat);
    } else if first > 0 {
        assert(!is_focusable(fields[0]));
        lemma_next(fields, 0, first, (count - 1) as nat);
    }
}

proof fn lemma_to_the_start(fields: Seq<FieldV>, at: int, last: int, count: nat)
    requires
        0 <= at <= last < fields.len(),
        is_focusable(fields[last]),
        forall|j: int| 0 <= j < at ==> !is_focusable(#[trigger] fields[j]),
        forall|j: int| last < j < fields.len() ==> !is_focusable(#[trigger] fields[j]),
        count >= at + fields.len() - last,
    ensures
        next_focus(fields, at, false, count) == Some(last as nat),
    decreases count,
{
    let n = fields.len() as int;
    if at > 0 {
        assert(!is_focusable(fields[at - 1]));
        lemma_to_the_start(fields, at - 1, last, (count - 1) as nat);
    } else if last < n - 1 {
        assert(!is_focusable(fields[n - 1]));
        lemma_previous(fields, n - 1, last, (count - 1) as nat);
    }
}

/// A box asks for room for every one of its lines and for its title, and for no more
/// columns than the widest of them takes with the frame.
pub proof fn a_box_asks_for_what_it_needs(f: FormV, i: int)
    requires
        widest_line(f) + 4 <= u16::MAX,
        display_width(f.title) + 6 <= u16::MAX,
        f.fields.len() + footer_rows(f).len() + 3 <= u16::MAX,
    ensures
        ({
            let ls = crate::form::field_rows(f, None) + footer_rows(f);
            let w = crate::form::wanted_columns(f);
            &&& 0 <= i < ls.len() ==> display_width(ls[i].text) + 4 <= w
            &&& display_width(f.title) + 6 <= w
            &&& w == widest_line(f) + 4 || w == display_width(f.title) + 6
            &&& crate::form::wanted_lines(f) == f.fields.len() + footer_rows(f).len() + 3
        }),
{
    let ls = crate::form::field_rows(f, None) + footer_rows(f);
    if 0 <= i < ls.len() {
        lemma_widest(ls, i);
    }
}

/// The columns the widest line of a form takes.
pub open spec fn widest_line(f: FormV) -> nat {
    crate::form::widest(crate::form::field_rows(f, None) + footer_rows(f))
}

/// Every line is as wide as the widest one at most, and some line is that wide.
proof fn lemma_widest(ls: Seq<crate::paint::LineV>, i: int)
    requires
        0 <= i < ls.len(),
    ensures
        display_width(ls[i].text) <= crate::form::widest(ls),
        exists|j: int|
            0 <= j < ls.len() && crate::form::widest(ls) == display_width((#[trigger] ls[j]).text),
    decreases ls.len(),
{
    let front = ls.drop_last();
    let last = ls.len() - 1;
    if ls.len() == 1 {
        assert(crate::form::widest(front) == 0);
        assert(crate::form::widest(ls) == display_width(ls[0].text));
    } else {
        lemma_widest(
            front,
            if i < last {
                i
            } else {
                0
            },
        );
        let j = choose|j: int|
            0 <= j < front.len() && crate::form::widest(front) == display_width(
                (#[trigger] front[j]).text,
            );
        if crate::form::widest(ls) == crate::form::widest(front) {
            assert(crate::form::widest(ls) == display_width(ls[j].text));
        } else {
            assert(crate::form::widest(ls) == display_width(ls[last as int].text));
        }
    }
}

} // verus!
