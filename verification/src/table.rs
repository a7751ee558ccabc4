//! Small tables of strings: pairs in a list, with no key twice.
use vstd::prelude::*;
use crate::text::{owned, same};

verus! {

/// The contents of some pairs of strings.
pub open spec fn pairs_view(v: Seq<(String, String)>) -> Seq<(Seq<char>, Seq<char>)> {
    Seq::new(v.len(), |i: int| (v[i].0@, v[i].1@))
}

/// What some pairs set: a later one wins.
pub open spec fn table_of(pairs: Seq<(Seq<char>, Seq<char>)>) -> Map<Seq<char>, Seq<char>>
    decreases pairs.len(),
{
    if pairs.len() == 0 {
        Map::empty()
    } else {
        table_of(pairs.drop_last()).insert(pairs.last().0, pairs.last().1)
    }
}

/// No key occurs twice.
pub open spec fn keys_differ(pairs: Seq<(Seq<char>, Seq<char>)>) -> bool {
    forall|i: int, j: int|
        0 <= i < j < pairs.len() ==> (#[trigger] pairs[i]).0 != (#[trigger] pairs[j]).0
}

/// Sets a key.
pub fn put_key(table: &mut Vec<(String, String)>, key: &str, value: &str)
    requires
        keys_differ(pairs_view(old(table)@)),
    ensures
        keys_differ(pairs_view(final(table)@)),
        table_of(pairs_view(final(table)@)) == table_of(pairs_view(old(table)@)).insert(
            key@,
            value@,
        ),
{
    let ghost before = pairs_view(table@);
    let mut i: usize = 0;
    while i < table.len()
        invariant
            i <= table.len(),
            table@ == old(table)@,
            before == pairs_view(table@),
            keys_differ(before),
            forall|j: int| 0 <= j < i ==> (#[trigger] before[j]).0 != key@,
        decreases table.len() - i,
    {
        assert(before[i as int] == (table[i as int].0@, table[i as int].1@));
        if same(table[i].0.as_str(), key) {
            table[i] = (owned(key), owned(value));
            proof {
                let after = pairs_view(table@);
                assert(after =~= before.update(i as int, (key@, value@)));
                assert forall|a: int, b: int| 0 <= a < b < after.len() implies (
                #[trigger] after[a]).0 != (#[trigger] after[b]).0 by {
                    assert(before[a].0 != before[b].0);
                    assert(after[a].0 == before[a].0);
                    assert(after[b].0 == before[b].0);
                }
                lemma_update(before, i as int, value@);
            }
            return ;
        }
        i += 1;
    }
    table.push((owned(key), owned(value)));
    proof {
        let after = pairs_view(table@);
        assert(after =~= before.push((key@, value@)));
        assert(after.drop_last() =~= before);
        assert forall|a: int, b: int| 0 <= a < b < after.len() implies (#[trigger] after[a]).0 != (
        #[trigger] after[b]).0 by {
            if b < before.len() {
                assert(before[a].0 != before[b].0);
            } else {
                assert(before[a].0 != key@);
            }
        }
    }
}

/// Replacing the value of a key that occurs once is setting it.
proof fn lemma_update(pairs: Seq<(Seq<char>, Seq<char>)>, i: int, value: Seq<char>)
    requires
        keys_differ(pairs),
        0 <= i < pairs.len(),
    ensures
        table_of(pairs.update(i, (pairs[i].0, value))) == table_of(pairs).insert(
            pairs[i].0,
            value,
        ),
    decreases pairs.len(),
{
    let key = pairs[i].0;
    let after = pairs.update(i, (key, value));
    let front = pairs.drop_last();
    let last = pairs.last();
    if i == pairs.len() - 1 {
        assert(after.drop_last() =~= front);
        assert(table_of(after) =~= table_of(pairs).insert(key, value));
    } else {
        assert(after.drop_last() =~= front.update(i, (key, value)));
        assert(keys_differ(front)) by {
            assert forall|a: int, b: int| 0 <= a < b < front.len() implies (#[trigger] front[a]).0
                != (#[trigger] front[b]).0 by {
                assert(pairs[a].0 != pairs[b].0);
            }
        }
        lemma_update(front, i, value);
        assert(last.0 != key) by {
            assert(pairs[i].0 != pairs[pairs.len() - 1].0);
        }
        assert(table_of(after) =~= table_of(pairs).insert(key, value));
    }
}

/// A key of the pairs is a key of the table, with the value of its pair.
proof fn lemma_lookup(pairs: Seq<(Seq<char>, Seq<char>)>, key: Seq<char>)
    requires
        keys_differ(pairs),
    ensures
        forall|i: int|
            0 <= i < pairs.len() && (#[trigger] pairs[i]).0 == key ==> table_of(
                pairs,
            ).contains_key(key) && table_of(pairs)[key] == pairs[i].1,
        (forall|i: int| 0 <= i < pairs.len() ==> (#[trigger] pairs[i]).0 != key)
            ==> !table_of(pairs).contains_key(key),
    decreases pairs.len(),
{
    if pairs.len() > 0 {
        let front = pairs.drop_last();
        assert(keys_differ(front)) by {
            assert forall|a: int, b: int| 0 <= a < b < front.len() implies (#[trigger] front[a]).0
                != (#[trigger] front[b]).0 by {
                assert(pairs[a].0 != pairs[b].0);
            }
        }
        lemma_lookup(front, key);
        assert forall|i: int| 0 <= i < pairs.len() && (#[trigger] pairs[i]).0 == key implies (
        table_of(pairs).contains_key(key) && table_of(pairs)[key] == pairs[i].1) by {
            if i < front.len() {
                assert(front[i] == pairs[i]);
                assert(pairs[i].0 != pairs[pairs.len() - 1].0);
            }
        }
        if forall|i: int| 0 <= i < pairs.len() ==> (#[trigger] pairs[i]).0 != key {
            assert forall|i: int| 0 <= i < front.len() implies (#[trigger] front[i]).0 != key by {
                assert(front[i] == pairs[i]);
            }
            assert(pairs[pairs.len() - 1].0 != key);
        }
    }
}

/// What a key is set to.
pub fn get_key(table: &Vec<(String, String)>, key: &str) -> (r: Option<String>)
    requires
        keys_differ(pairs_view(table@)),
    ensures
        match r {
            Some(value) => table_of(pairs_view(table@)).contains_key(key@) && table_of(
                pairs_view(table@),
            )[key@] == value@,
            None => !table_of(pairs_view(table@)).contains_key(key@),
        },
{
    let ghost pairs = pairs_view(table@);
    proof {
        lemma_lookup(pairs, key@);
    }
    let mut i: usize = 0;
    while i < table.len()
        invariant
            i <= table.len(),
            pairs == pairs_view(table@),
            forall|j: int|
                0 <= j < pairs.len() && (#[trigger] pairs[j]).0 == key@ ==> table_of(
                    pairs,
                ).contains_key(key@) && table_of(pairs)[key@] == pairs[j].1,
            forall|j: int| 0 <= j < i ==> (#[trigger] pairs[j]).0 != key@,
        decreases table.len() - i,
    {
        assert(pairs[i as int] == (table[i as int].0@, table[i as int].1@));
        if same(table[i].0.as_str(), key) {
            return Some(table[i].1.clone());
        }
        i += 1;
    }
    None
}

/// The pairs with each key once.
pub fn collect(pairs: &Vec<(String, String)>) -> (r: Vec<(String, String)>)
    ensures
        keys_differ(pairs_view(r@)),
        table_of(pairs_view(r@)) == table_of(pairs_view(pairs@)),
{
    let ghost all = pairs_view(pairs@);
    let mut out: Vec<(String, String)> = Vec::new();
    let mut i: usize = 0;
    proof {
        assert(pairs_view(out@) =~= Seq::empty());
        assert(all.take(0) =~= Seq::empty());
    }
    while i < pairs.len()
        invariant
            i <= pairs.len(),
            all == pairs_view(pairs@),
            keys_differ(pairs_view(out@)),
            table_of(pairs_view(out@)) == table_of(all.take(i as int)),
        decreases pairs.len() - i,
    {
        proof {
            assert(all.take(i as int + 1).drop_last() =~= all.take(i as int));
            assert(all[i as int] == (pairs[i as int].0@, pairs[i as int].1@));
        }
        put_key(&mut out, pairs[i].0.as_str(), pairs[i].1.as_str());
        i += 1;
    }
    proof {
        assert(all.take(all.len() as int) =~= all);
    }
    out
}

} // verus!
