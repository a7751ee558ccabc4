//! A list behind a filter, with a selection and a scroll position.
use vstd::prelude::*;

verus! {

/// The places among the first `n` that pass, in order.
pub open spec fn passing(n: int, p: spec_fn(int) -> bool) -> Seq<int>
    decreases n,
{
    if n <= 0 {
        Seq::empty()
    } else if p(n - 1) {
        passing(n - 1, p).push(n - 1)
    } else {
        passing(n - 1, p)
    }
}

/// What passes is in range, passes, and comes in order.
pub proof fn lemma_passing(n: int, p: spec_fn(int) -> bool)
    requires
        n >= 0,
    ensures
        passing(n, p).len() <= n,
        forall|j: int|
            0 <= j < passing(n, p).len() ==> 0 <= #[trigger] passing(n, p)[j] < n && p(
                passing(n, p)[j],
            ),
        forall|i: int, j: int|
            0 <= i < j < passing(n, p).len() ==> #[trigger] passing(n, p)[i] < #[trigger] passing(
                n,
                p,
            )[j],
    decreases n,
{
    if n > 0 {
        lemma_passing(n - 1, p);
    }
}

/// Everything that passes is there.
pub proof fn lemma_passing_complete(n: int, p: spec_fn(int) -> bool, i: int)
    requires
        0 <= i < n,
        p(i),
    ensures
        passing(n, p).contains(i),
    decreases n,
{
    if i == n - 1 {
        assert(passing(n, p)[passing(n, p).len() - 1] == i);
    } else {
        lemma_passing_complete(n - 1, p, i);
        let front = passing(n - 1, p);
        let j = choose|j: int| 0 <= j < front.len() && front[j] == i;
        assert(passing(n, p)[j] == i);
    }
}

/// The first place of `s` whose item passes.
pub open spec fn first_where(s: Seq<int>, p: spec_fn(int) -> bool) -> Option<nat>
    decreases s.len(),
{
    if s.len() == 0 {
        None
    } else if p(s[0]) {
        Some(0)
    } else {
        match first_where(s.drop_first(), p) {
            Some(n) => Some(n + 1),
            None => None,
        }
    }
}

/// The place that was found passes, and nothing before it does.
pub proof fn lemma_first_where(s: Seq<int>, p: spec_fn(int) -> bool)
    ensures
        match first_where(s, p) {
            Some(n) => n < s.len() && p(s[n as int]) && forall|j: int|
                0 <= j < n ==> !p(#[trigger] s[j]),
            None => forall|j: int| 0 <= j < s.len() ==> !p(#[trigger] s[j]),
        },
    decreases s.len(),
{
    if s.len() > 0 && !p(s[0]) {
        let rest = s.drop_first();
        lemma_first_where(rest, p);
        match first_where(rest, p) {
            Some(n) => {
                assert(s[n as int + 1] == rest[n as int]);
                assert forall|j: int| 0 <= j < n + 1 implies !p(#[trigger] s[j]) by {
                    if j > 0 {
                        assert(s[j] == rest[j - 1]);
                    }
                }
            },
            None => {
                assert forall|j: int| 0 <= j < s.len() implies !p(#[trigger] s[j]) by {
                    if j > 0 {
                        assert(s[j] == rest[j - 1]);
                    }
                }
            },
        }
    }
}

/// A place that passes with nothing before it is the one that is found.
pub proof fn lemma_first_where_is(s: Seq<int>, p: spec_fn(int) -> bool, n: int)
    requires
        0 <= n <= s.len(),
        n < s.len() ==> p(s[n]),
        forall|j: int| 0 <= j < n ==> !p(#[trigger] s[j]),
    ensures
        first_where(s, p) == if n < s.len() {
            Some(n as nat)
        } else {
            None
        },
    decreases s.len(),
{
    if n > 0 {
        let rest = s.drop_first();
        assert(!p(s[0]));
        assert forall|j: int| 0 <= j < n - 1 implies !p(#[trigger] rest[j]) by {
            assert(rest[j] == s[j + 1]);
        }
        lemma_first_where_is(rest, p, n - 1);
    }
}

/// Indices as numbers.
pub open spec fn places(v: Seq<usize>) -> Seq<int> {
    Seq::new(v.len(), |i: int| v[i] as int)
}

/// The smaller of two.
pub open spec fn smaller(a: int, b: int) -> int {
    if a <= b {
        a
    } else {
        b
    }
}

/// `x`, pulled into `low..=high`.
pub open spec fn clamped(x: int, low: int, high: int) -> int {
    if x < low {
        low
    } else if x > high {
        high
    } else {
        x
    }
}

/// A selection moved by `delta` and kept on the list.
pub fn step(selected: usize, delta: i64, len: usize) -> (r: usize)
    requires
        len > 0,
    ensures
        r == clamped(selected + delta, 0, len - 1),
{
    let x: i128 = selected as i128 + delta as i128;
    if x < 0 {
        0
    } else if x > len as i128 - 1 {
        len - 1
    } else {
        x as usize
    }
}

/// The scroll position that keeps a selection on screen: it moves only when the
/// selection would leave the view, and never beyond the last full screen.
pub open spec fn settled(selected: int, offset: int, viewport: int, len: int) -> int {
    let view = if viewport < 1 {
        1
    } else {
        viewport
    };
    let shifted = if selected < offset {
        selected
    } else if selected >= offset + view {
        selected + 1 - view
    } else {
        offset
    };
    let most = if len > view {
        len - view
    } else {
        0
    };
    smaller(shifted, most)
}

/// The scroll position that keeps a selection on screen.
pub fn settle(selected: usize, offset: usize, viewport: usize, len: usize) -> (r: usize)
    ensures
        r == settled(selected as int, offset as int, viewport as int, len as int),
{
    let view: usize = if viewport < 1 {
        1
    } else {
        viewport
    };
    let shifted: usize = if selected < offset {
        selected
    } else if selected - offset >= view {
        selected - view + 1
    } else {
        offset
    };
    let most: usize = if len > view {
        len - view
    } else {
        0
    };
    if shifted <= most {
        shifted
    } else {
        most
    }
}

/// A settled list shows its selection, and leaves no room unused while there are
/// rows above the fold.
pub proof fn a_settled_list_shows_its_selection(
    selected: int,
    offset: int,
    viewport: int,
    len: int,
)
    requires
        0 <= selected < len,
        0 <= offset,
        1 <= viewport,
    ensures
        ({
            let at = settled(selected, offset, viewport, len);
            &&& 0 <= at <= selected < at + viewport
            &&& at > 0 ==> at + viewport <= len
        }),
{
}

/// A list that needs no scrolling is not scrolled, and settling twice is
/// settling once.
pub proof fn settling_moves_only_as_far_as_it_must(
    selected: int,
    offset: int,
    viewport: int,
    len: int,
)
    requires
        0 <= selected < len,
        0 <= offset,
        1 <= viewport,
    ensures
        offset <= selected < offset + viewport && offset + viewport <= len ==> settled(
            selected,
            offset,
            viewport,
            len,
        ) == offset,
        settled(selected, settled(selected, offset, viewport, len), viewport, len) == settled(
            selected,
            offset,
            viewport,
            len,
        ),
{
}

} // verus!
