//! What the words about text mean, in terms of the characters alone.
use vstd::prelude::*;
use crate::text::{
    begins_with, comes_before, decimal, digits_value, has_text, is_digit, is_space, joined,
    lemma_find_char, lemma_find_char_at, lines, padded_left, parsed_i32, parsed_u32, signed, split,
    stands_at, trim_end, trim_start, trimmed, without_cr,
};

verus! {

// ------------------------------------------------------------------ occurrence

/// A text occurs in every text that is made of something, that text and something
/// else: at the front, at the end or anywhere between.
pub proof fn a_text_occurs_wherever_it_stands(a: Seq<char>, m: Seq<char>, b: Seq<char>)
    ensures
        has_text(a + m + b, m),
{
    assert((a + m + b).subrange(a.len() as int, (a.len() + m.len()) as int) =~= m);
    assert(stands_at(a + m + b, m, a.len() as int));
}

/// Where a text occurs in another, the other is made of something, that text and
/// something else.
pub proof fn what_occurs_stands_somewhere(s: Seq<char>, m: Seq<char>) -> (r: (Seq<char>, Seq<char>))
    requires
        has_text(s, m),
    ensures
        s == r.0 + m + r.1,
{
    let i = choose|i: int| stands_at(s, m, i);
    let a = s.take(i);
    let b = s.skip(i + m.len());
    assert(s =~= a + m + b);
    (a, b)
}

/// A text begins with exactly what it is continued from.
pub proof fn a_beginning_is_followed_by_the_rest(s: Seq<char>, m: Seq<char>, b: Seq<char>)
    ensures
        begins_with(m + b, m),
        begins_with(s, m) ==> s == m + s.skip(m.len() as int),
{
    assert((m + b).subrange(0, m.len() as int) =~= m);
    if begins_with(s, m) {
        assert(s =~= m + s.skip(m.len() as int));
    }
}

// -------------------------------------------------------------------- trimming

/// Nothing but white space.
pub open spec fn all_space(s: Seq<char>) -> bool {
    forall|i: int| 0 <= i < s.len() ==> is_space(#[trigger] s[i])
}

proof fn lemma_trim_start(a: Seq<char>, m: Seq<char>)
    requires
        all_space(a),
        m.len() > 0 ==> !is_space(m[0]),
    ensures
        trim_start(a + m) == m,
    decreases a.len(),
{
    if a.len() == 0 {
        assert(a + m =~= m);
    } else {
        assert((a + m)[0] == a[0]);
        assert((a + m).drop_first() =~= a.drop_first() + m);
        assert forall|i: int| 0 <= i < a.drop_first().len() implies is_space(
            #[trigger] a.drop_first()[i],
        ) by {
            assert(a.drop_first()[i] == a[i + 1]);
        }
        lemma_trim_start(a.drop_first(), m);
    }
}

proof fn lemma_trim_end(m: Seq<char>, b: Seq<char>)
    requires
        all_space(b),
        m.len() > 0 ==> !is_space(m.last()),
    ensures
        trim_end(m + b) == m,
    decreases b.len(),
{
    if b.len() == 0 {
        assert(m + b =~= m);
    } else {
        assert((m + b).last() == b.last());
        assert(is_space(b[b.len() - 1]));
        assert((m + b).drop_last() =~= m + b.drop_last());
        assert forall|i: int| 0 <= i < b.drop_last().len() implies is_space(
            #[trigger] b.drop_last()[i],
        ) by {
            assert(b.drop_last()[i] == b[i]);
        }
        lemma_trim_end(m, b.drop_last());
    }
}

/// Whatever white space is put around a text that neither begins nor ends with
/// any, trimming gives the text back.
pub proof fn trimming_takes_the_white_space_around(a: Seq<char>, m: Seq<char>, b: Seq<char>)
    requires
        all_space(a),
        all_space(b),
        m.len() > 0 ==> !is_space(m[0]) && !is_space(m.last()),
    ensures
        trimmed(a + m + b) == m,
{
    if m.len() == 0 {
        let s = a + m + b;
        assert forall|i: int| 0 <= i < s.len() implies is_space(#[trigger] s[i]) by {
            if i < a.len() {
                assert(s[i] == a[i]);
            } else {
                assert(s[i] == b[i - a.len()]);
            }
        }
        lemma_trim_start(s, m);
        assert(s + m =~= s);
        assert(trim_start(s) =~= Seq::empty());
        assert(m =~= Seq::empty());
    } else {
        assert(a + m + b =~= a + (m + b));
        assert((m + b)[0] == m[0]);
        lemma_trim_start(a, m + b);
        lemma_trim_end(m, b);
    }
}

/// And every text is what trimming leaves with white space around it, which is
/// where it neither begins nor ends with any.
pub proof fn trimming_takes_nothing_else(s: Seq<char>) -> (r: (Seq<char>, Seq<char>))
    ensures
        s == r.0 + trimmed(s) + r.1,
        all_space(r.0),
        all_space(r.1),
        trimmed(s).len() > 0 ==> !is_space(trimmed(s)[0]) && !is_space(trimmed(s).last()),
    decreases s.len(),
{
    if s.len() == 0 {
        assert(s =~= Seq::<char>::empty() + trimmed(s) + Seq::<char>::empty());
        (Seq::empty(), Seq::empty())
    } else if is_space(s[0]) {
        let (a, b) = trimming_takes_nothing_else(s.drop_first());
        let front = seq![s[0]] + a;
        assert(trimmed(s) == trimmed(s.drop_first()));
        assert(s =~= seq![s[0]] + s.drop_first());
        assert(s =~= front + trimmed(s) + b);
        assert forall|i: int| 0 <= i < front.len() implies is_space(#[trigger] front[i]) by {
            if i > 0 {
                assert(front[i] == a[i - 1]);
            }
        }
        (front, b)
    } else {
        let b = lemma_end_taken(s);
        assert(trim_start(s) == s);
        assert(s =~= Seq::<char>::empty() + trimmed(s) + b);
        assert(trimmed(s).len() > 0 ==> trimmed(s)[0] == s[0]);
        (Seq::empty(), b)
    }
}

proof fn lemma_end_taken(s: Seq<char>) -> (b: Seq<char>)
    ensures
        s == trim_end(s) + b,
        all_space(b),
        trim_end(s).len() > 0 ==> !is_space(trim_end(s).last()),
    decreases s.len(),
{
    if s.len() > 0 && is_space(s.last()) {
        let b = lemma_end_taken(s.drop_last());
        let more = b.push(s.last());
        assert(s =~= s.drop_last().push(s.last()));
        assert(s =~= trim_end(s) + more);
        more
    } else {
        assert(s =~= s + Seq::<char>::empty());
        Seq::empty()
    }
}

// ------------------------------------------------------- putting texts together

/// Joining puts the separator between each two parts, and nowhere else: what is
/// joined from two lists is what each is joined to, with the separator between.
pub proof fn joining_separates_each_two(
    x: Seq<Seq<char>>,
    y: Seq<Seq<char>>,
    p: Seq<char>,
    sep: Seq<char>,
)
    requires
        x.len() > 0,
        y.len() > 0,
    ensures
        joined(Seq::empty(), sep) == Seq::<char>::empty(),
        joined(seq![p], sep) == p,
        joined(x + y, sep) == joined(x, sep) + sep + joined(y, sep),
    decreases y.len(),
{
    if y.len() == 1 {
        assert((x + y).drop_last() =~= x);
        assert((x + y).last() == y[0]);
    } else {
        let front = y.drop_last();
        joining_separates_each_two(x, front, p, sep);
        assert((x + y).drop_last() =~= x + front);
        assert((x + y).last() == y.last());
        let l = joined(x, sep);
        assert((l + sep + joined(front, sep)) + sep + y.last() =~= l + sep + (joined(front, sep)
            + sep + y.last()));
    }
}

/// Every part occurs in what it is joined into.
pub proof fn joining_keeps_every_part(parts: Seq<Seq<char>>, sep: Seq<char>, i: int)
    requires
        0 <= i < parts.len(),
    ensures
        has_text(joined(parts, sep), parts[i]),
    decreases parts.len(),
{
    let s = joined(parts, sep);
    if parts.len() == 1 {
        assert(s =~= Seq::<char>::empty() + parts[i] + Seq::<char>::empty());
        a_text_occurs_wherever_it_stands(Seq::empty(), parts[i], Seq::empty());
    } else if i == parts.len() - 1 {
        let a = joined(parts.drop_last(), sep) + sep;
        assert(s =~= a + parts[i] + Seq::<char>::empty());
        a_text_occurs_wherever_it_stands(a, parts[i], Seq::empty());
    } else {
        joining_keeps_every_part(parts.drop_last(), sep, i);
        let (a, b) = what_occurs_stands_somewhere(joined(parts.drop_last(), sep), parts[i]);
        let more = b + sep + parts.last();
        assert(s =~= a + parts[i] + more);
        a_text_occurs_wherever_it_stands(a, parts[i], more);
    }
}

/// Padding puts blanks in front, as many as are missing and no more.
pub proof fn padding_puts_blanks_in_front(s: Seq<char>, n: int, i: int)
    ensures
        padded_left(s, n).len() == if s.len() >= n {
            s.len() as int
        } else {
            n
        },
        padded_left(s, n).skip(padded_left(s, n).len() - s.len()) == s,
        0 <= i < padded_left(s, n).len() - s.len() ==> padded_left(s, n)[i] == ' ',
{
    assert(padded_left(s, n).skip(padded_left(s, n).len() - s.len()) =~= s);
}

// --------------------------------------------------------- taking texts apart

/// The character does not occur in the text.
pub open spec fn lacks(s: Seq<char>, c: char) -> bool {
    forall|i: int| 0 <= i < s.len() ==> #[trigger] s[i] != c
}

/// A text is split at every separator and nowhere else: what stands before the
/// first is the first part, what stands behind it is split in turn, and a text
/// without one is its own only part.
pub proof fn splitting_breaks_at_every_separator(a: Seq<char>, sep: char, rest: Seq<char>)
    requires
        lacks(a, sep),
    ensures
        split(a, sep) == seq![a],
        split(a.push(sep) + rest, sep) == seq![a] + split(rest, sep),
{
    lemma_find_char_at(a, sep, a.len() as int);
    let s = a.push(sep) + rest;
    assert forall|i: int| 0 <= i < a.len() implies s[i] != sep by {
        assert(s[i] == a[i]);
    }
    lemma_find_char_at(s, sep, a.len() as int);
    assert(s.take(a.len() as int) =~= a);
    assert(s.skip(a.len() as int + 1) =~= rest);
}

/// A text is broken into lines at every newline, with a carriage return before one
/// dropped, and what stands behind the last newline is a line unless it is empty.
pub proof fn lines_break_at_every_newline(a: Seq<char>, rest: Seq<char>)
    requires
        lacks(a, '\n'),
    ensures
        lines(Seq::empty()) == Seq::<Seq<char>>::empty(),
        a.len() > 0 ==> lines(a) == seq![a],
        lines(a.push('\n') + rest) == seq![without_cr(a)] + lines(rest),
        without_cr(a.push('\r')) == a,
        a.len() > 0 && a.last() != '\r' ==> without_cr(a) == a,
{
    lemma_find_char_at(a, '\n', a.len() as int);
    let s = a.push('\n') + rest;
    assert forall|i: int| 0 <= i < a.len() implies s[i] != '\n' by {
        assert(s[i] == a[i]);
    }
    lemma_find_char_at(s, '\n', a.len() as int);
    assert(s.take(a.len() as int) =~= a);
    assert(s.skip(a.len() as int + 1) =~= rest);
    assert(a.push('\r').drop_last() =~= a);
    lemma_find_char(Seq::<char>::empty(), '\n');
}

// --------------------------------------------------------------------- numbers

/// Only digits are read as a number, behind a sign at most, and they are read for
/// what they stand for.
pub proof fn only_digits_are_a_number(s: Seq<char>)
    ensures
        parsed_u32(s) is Some ==> {
            let body = if s.len() > 0 && s[0] == '+' {
                s.skip(1)
            } else {
                s
            };
            &&& body.len() > 0
            &&& forall|i: int| 0 <= i < body.len() ==> is_digit(#[trigger] body[i])
            &&& parsed_u32(s)->0 == digits_value(body)
        },
        parsed_i32(s) is Some && parsed_i32(s)->0 < 0 ==> s.len() > 1 && s[0] == '-' && -(
        parsed_i32(s)->0 as int) == digits_value(s.skip(1)),
        s.len() == 0 ==> parsed_u32(s) is None && parsed_i32(s) is None,
{
}

/// The value of a row of digits is ten times that of the digits before the last,
/// and the last.
pub proof fn a_digit_more_is_ten_times_as_much(s: Seq<char>, c: char)
    requires
        is_digit(c),
    ensures
        digits_value(s.push(c)) == 10 * digits_value(s) + (c as u32 - '0' as u32),
        digits_value(Seq::empty()) == 0,
{
    assert(s.push(c).drop_last() =~= s);
}

/// A negative number is written with a sign, and any other without.
pub proof fn a_sign_is_written_before_what_it_negates(n: nat)
    requires
        n > 0,
    ensures
        signed(-(n as int)) == seq!['-'] + decimal(n),
        signed(n as int) == decimal(n),
        signed(0) == decimal(0),
{
}

// ------------------------------------------------------------------- the order

/// Texts are ordered by the first character in which they differ, and what
/// continues a text comes behind it.
pub proof fn the_first_difference_decides(
    p: Seq<char>,
    x: char,
    a: Seq<char>,
    y: char,
    b: Seq<char>,
)
    requires
        x != y,
    ensures
        comes_before(p + (seq![x] + a), p + (seq![y] + b)) == (x < y),
        comes_before(p, p + (seq![x] + a)),
        !comes_before(p + (seq![x] + a), p),
    decreases p.len(),
{
    let s = p + (seq![x] + a);
    let t = p + (seq![y] + b);
    if p.len() == 0 {
        assert(s =~= seq![x] + a);
        assert(t =~= seq![y] + b);
    } else {
        let q = p.drop_first();
        assert(s.drop_first() =~= q + (seq![x] + a));
        assert(t.drop_first() =~= q + (seq![y] + b));
        the_first_difference_decides(q, x, a, y, b);
    }
}

} // verus!
