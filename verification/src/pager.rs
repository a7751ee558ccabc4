//! Which pager to hand text to.
use vstd::prelude::*;
use vstd::string::*;
use crate::text::{chars_of, is_space, owned, space, string_between, texts};

verus! {

/// How many characters of `s` come before white space.
pub open spec fn word_end(s: Seq<char>) -> int
    decreases s.len(),
{
    if s.len() == 0 || is_space(s[0]) {
        0
    } else {
        1 + word_end(s.drop_first())
    }
}

proof fn lemma_word_end(s: Seq<char>, n: int)
    requires
        0 <= n <= s.len(),
        n < s.len() ==> is_space(s[n]),
        forall|i: int| 0 <= i < n ==> !is_space(#[trigger] s[i]),
    ensures
        word_end(s) == n,
    decreases s.len(),
{
    if n > 0 {
        assert(!is_space(s[0]));
        assert forall|i: int| 0 <= i < n - 1 implies !is_space(#[trigger] s.drop_first()[i]) by {
            assert(s.drop_first()[i] == s[i + 1]);
        }
        lemma_word_end(s.drop_first(), n - 1);
    }
}

/// The words between white space.
pub open spec fn words(s: Seq<char>) -> Seq<Seq<char>>
    decreases s.len(),
{
    if s.len() == 0 {
        Seq::empty()
    } else {
        let k = word_end(s);
        if 1 <= k <= s.len() {
            seq![s.take(k)] + words(s.skip(k))
        } else {
            words(s.drop_first())
        }
    }
}

/// The pager to run for a configured value: its words, or `less -R` where there
/// are none.
///
/// Split at white space rather than run through a shell: it is a command with
/// flags, not a script. `-R` keeps colours; not `-F`, or a short text would flash
/// and vanish.
pub fn command(configured: &str) -> (r: Vec<String>)
    ensures
        texts(r@) == if words(configured@).len() == 0 {
            seq!["less"@, "-R"@]
        } else {
            words(configured@)
        },
        r.len() > 0,
{
    let chars = chars_of(configured);
    let n = chars.len();
    let mut out: Vec<String> = Vec::new();
    let mut from: usize = 0;
    proof {
        assert(chars@.skip(0) =~= chars@);
        assert(texts(out@) + words(chars@) =~= words(chars@));
    }
    while from < n
        invariant
            from <= n == chars.len(),
            words(chars@) == texts(out@) + words(chars@.skip(from as int)),
        decreases n - from,
    {
        let ghost rest = chars@.skip(from as int);
        let mut to: usize = from;
        while to < n && !space(chars[to])
            invariant
                from <= to <= n == chars.len(),
                rest == chars@.skip(from as int),
                forall|i: int| 0 <= i < to - from ==> !is_space(#[trigger] rest[i]),
            decreases n - to,
        {
            assert(rest[to - from] == chars@[to as int]);
            to += 1;
        }
        proof {
            if to < n {
                assert(rest[to - from] == chars@[to as int]);
            }
            lemma_word_end(rest, to - from);
        }
        if to == from {
            proof {
                assert(rest.drop_first() =~= chars@.skip(from as int + 1));
            }
            from += 1;
            continue;
        }
        let word = string_between(&chars, from, to);
        proof {
            let more = words(chars@.skip(to as int));
            assert(rest.take(to - from) =~= word@);
            assert(rest.skip(to - from) =~= chars@.skip(to as int));
            assert(texts(out@.push(word)) =~= texts(out@).push(word@));
            assert(texts(out@) + (seq![word@] + more) =~= texts(out@).push(word@) + more);
        }
        out.push(word);
        from = to;
    }
    proof {
        assert(chars@.skip(from as int) =~= Seq::empty());
        assert(texts(out@) + Seq::<Seq<char>>::empty() =~= texts(out@));
        assert(texts(out@).len() == out.len());
    }
    if out.len() == 0 {
        out.push(owned("less"));
        out.push(owned("-R"));
        proof {
            assert(texts(out@) =~= seq!["less"@, "-R"@]);
        }
    }
    out
}

} // verus!
