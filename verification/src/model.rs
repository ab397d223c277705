//! The mathematical model of a port mapping: a finite map from identifiers to
//! ports, and the list of identifier/port pairs that denotes one.

use vstd::prelude::*;
use vstd::set::fold::{is_fun_commutative, lemma_fold_empty, lemma_fold_insert};

verus! {

/// The mapping that a list of identifier/port pairs denotes. The pairs are
/// taken in order, so a later pair replaces an earlier one for the same
/// identifier.
pub open spec fn pairs_map(pairs: Seq<(Seq<char>, u16)>) -> Map<Seq<char>, u16>
    decreases pairs.len(),
{
    if pairs.len() == 0 {
        Map::empty()
    } else {
        pairs_map(pairs.drop_last()).insert(pairs.last().0, pairs.last().1)
    }
}

/// No identifier occurs in two pairs of the list.
pub open spec fn distinct_keys(pairs: Seq<(Seq<char>, u16)>) -> bool {
    forall|i: int, j: int| 0 <= i < j < pairs.len() ==> pairs[i].0 != pairs[j].0
}

/// Some pair of the list carries the identifier.
pub open spec fn has_key(pairs: Seq<(Seq<char>, u16)>, app_id: Seq<char>) -> bool {
    exists|i: int| 0 <= i < pairs.len() && pairs[i].0 == app_id
}

/// What one more identifier adds to a count of characters.
pub open spec fn count_chars() -> spec_fn(nat, Seq<char>) -> nat {
    |sum: nat, app_id: Seq<char>| sum + app_id.len()
}

/// The number of characters that the identifiers of a mapping hold in all.
pub open spec fn identifier_chars(mapping: Map<Seq<char>, u16>) -> nat {
    mapping.dom().fold(0nat, count_chars())
}

/// The number of characters that the identifiers of a list of pairs hold in
/// all.
pub open spec fn total_chars(pairs: Seq<(Seq<char>, u16)>) -> nat
    decreases pairs.len(),
{
    if pairs.len() == 0 {
        0
    } else {
        total_chars(pairs.drop_last()) + pairs.last().0.len()
    }
}

/// The port that a mapping holds for an identifier, if it holds one.
pub open spec fn lookup(mapping: Map<Seq<char>, u16>, app_id: Seq<char>) -> Option<u16> {
    if mapping.contains_key(app_id) {
        Some(mapping[app_id])
    } else {
        None
    }
}

/// The denoted mapping knows exactly the identifiers that occur in the list.
pub proof fn lemma_pairs_map_domain(pairs: Seq<(Seq<char>, u16)>, app_id: Seq<char>)
    ensures
        pairs_map(pairs).contains_key(app_id) <==> has_key(pairs, app_id),
    decreases pairs.len(),
{
    if pairs.len() > 0 {
        let front = pairs.drop_last();
        lemma_pairs_map_domain(front, app_id);
        if has_key(front, app_id) {
            let i = choose|i: int| 0 <= i < front.len() && front[i].0 == app_id;
            assert(pairs[i].0 == app_id);
        }
        if pairs.last().0 == app_id {
            assert(pairs[pairs.len() - 1].0 == app_id);
        }
        if has_key(pairs, app_id) && pairs.last().0 != app_id {
            let i = choose|i: int| 0 <= i < pairs.len() && pairs[i].0 == app_id;
            assert(front[i].0 == app_id);
        }
    }
}

/// Where no identifier occurs twice, each pair's port is the one that the
/// denoted mapping holds for the pair's identifier.
pub proof fn lemma_pairs_map_value(pairs: Seq<(Seq<char>, u16)>, i: int)
    requires
        distinct_keys(pairs),
        0 <= i < pairs.len(),
    ensures
        pairs_map(pairs).contains_key(pairs[i].0),
        pairs_map(pairs)[pairs[i].0] == pairs[i].1,
    decreases pairs.len(),
{
    if i < pairs.len() - 1 {
        let front = pairs.drop_last();
        lemma_distinct_keys_front(pairs);
        lemma_pairs_map_value(front, i);
        assert(front[i] == pairs[i]);
        assert(pairs[i].0 != pairs[pairs.len() - 1].0);
    }
}

/// Any front part of a list without a repeated identifier has none either.
pub proof fn lemma_distinct_keys_front(pairs: Seq<(Seq<char>, u16)>)
    requires
        distinct_keys(pairs),
        pairs.len() > 0,
    ensures
        distinct_keys(pairs.drop_last()),
{
    let front = pairs.drop_last();
    assert forall|a: int, b: int| 0 <= a < b < front.len() implies front[a].0 != front[b].0 by {
        assert(pairs[a].0 != pairs[b].0);
    }
}

/// Replacing the port of one pair, in a list without repeated identifiers,
/// gives that identifier the new port and leaves the others as they were.
pub proof fn lemma_replace_port(pairs: Seq<(Seq<char>, u16)>, i: int, port: u16)
    requires
        distinct_keys(pairs),
        0 <= i < pairs.len(),
    ensures
        distinct_keys(pairs.update(i, (pairs[i].0, port))),
        pairs_map(pairs.update(i, (pairs[i].0, port))) == pairs_map(pairs).insert(
            pairs[i].0,
            port,
        ),
{
    let key = pairs[i].0;
    let after = pairs.update(i, (key, port));
    assert(distinct_keys(after)) by {
        assert forall|a: int, b: int| 0 <= a < b < after.len() implies after[a].0
            != after[b].0 by {
            assert(pairs[a].0 != pairs[b].0);
        }
    }
    let want = pairs_map(pairs).insert(key, port);
    let got = pairs_map(after);
    assert forall|k: Seq<char>| got.contains_key(k) <==> want.contains_key(k) by {
        lemma_pairs_map_domain(after, k);
        lemma_pairs_map_domain(pairs, k);
        if has_key(after, k) {
            let j = choose|j: int| 0 <= j < after.len() && after[j].0 == k;
            assert(pairs[j].0 == k);
        }
        if has_key(pairs, k) {
            let j = choose|j: int| 0 <= j < pairs.len() && pairs[j].0 == k;
            assert(after[j].0 == k);
        }
        if k == key {
            assert(after[i].0 == k);
        }
    }
    assert forall|k: Seq<char>| got.contains_key(k) implies got[k] == want[k] by {
        lemma_pairs_map_domain(after, k);
        let j = choose|j: int| 0 <= j < after.len() && after[j].0 == k;
        lemma_pairs_map_value(after, j);
        if j != i {
            lemma_pairs_map_value(pairs, j);
            assert(pairs[j].0 != pairs[i].0);
        }
    }
    assert(got =~= want);
}

/// Taking one pair out of a list without repeated identifiers takes its
/// identifier out of the denoted mapping and leaves the others as they were.
pub proof fn lemma_remove_pair(pairs: Seq<(Seq<char>, u16)>, i: int)
    requires
        distinct_keys(pairs),
        0 <= i < pairs.len(),
    ensures
        distinct_keys(pairs.remove(i)),
        pairs_map(pairs.remove(i)) == pairs_map(pairs).remove(pairs[i].0),
{
    let key = pairs[i].0;
    let after = pairs.remove(i);
    assert(distinct_keys(after)) by {
        assert forall|a: int, b: int| 0 <= a < b < after.len() implies after[a].0
            != after[b].0 by {
            let a0 = if a < i { a } else { a + 1 };
            let b0 = if b < i { b } else { b + 1 };
            assert(after[a] == pairs[a0]);
            assert(after[b] == pairs[b0]);
            assert(pairs[a0].0 != pairs[b0].0);
        }
    }
    let want = pairs_map(pairs).remove(key);
    let got = pairs_map(after);
    assert forall|k: Seq<char>| got.contains_key(k) <==> want.contains_key(k) by {
        lemma_pairs_map_domain(after, k);
        lemma_pairs_map_domain(pairs, k);
        if has_key(after, k) {
            let j = choose|j: int| 0 <= j < after.len() && after[j].0 == k;
            let j0 = if j < i { j } else { j + 1 };
            assert(after[j] == pairs[j0]);
            assert(pairs[j0].0 == k);
            if k == key {
                if j0 < i {
                    assert(pairs[j0].0 != pairs[i].0);
                } else {
                    assert(pairs[i].0 != pairs[j0].0);
                }
            }
        }
        if has_key(pairs, k) && k != key {
            let j = choose|j: int| 0 <= j < pairs.len() && pairs[j].0 == k;
            let j1 = if j < i { j } else { j - 1 };
            assert(after[j1] == pairs[j]);
            assert(after[j1].0 == k);
        }
    }
    assert forall|k: Seq<char>| got.contains_key(k) implies got[k] == want[k] by {
        lemma_pairs_map_domain(after, k);
        let j = choose|j: int| 0 <= j < after.len() && after[j].0 == k;
        let j0 = if j < i { j } else { j + 1 };
        assert(after[j] == pairs[j0]);
        lemma_pairs_map_value(after, j);
        lemma_pairs_map_value(pairs, j0);
    }
    assert(got =~= want);
}

/// Putting a pair with a new identifier anywhere into a list without
/// repeated identifiers gives that identifier its port and leaves the others
/// as they were.
pub proof fn lemma_insert_pair(
    pairs: Seq<(Seq<char>, u16)>,
    i: int,
    app_id: Seq<char>,
    port: u16,
)
    requires
        distinct_keys(pairs),
        !has_key(pairs, app_id),
        0 <= i <= pairs.len(),
    ensures
        distinct_keys(pairs.insert(i, (app_id, port))),
        pairs_map(pairs.insert(i, (app_id, port))) == pairs_map(pairs).insert(app_id, port),
{
    let after = pairs.insert(i, (app_id, port));
    assert(distinct_keys(after)) by {
        assert forall|a: int, b: int| 0 <= a < b < after.len() implies after[a].0
            != after[b].0 by {
            let a0 = if a < i { a } else { a - 1 };
            let b0 = if b < i { b } else { b - 1 };
            if a == i {
                assert(after[b] == pairs[b0]);
                assert(pairs[b0].0 != app_id);
            } else if b == i {
                assert(after[a] == pairs[a0]);
                assert(pairs[a0].0 != app_id);
            } else {
                assert(after[a] == pairs[a0]);
                assert(after[b] == pairs[b0]);
                assert(pairs[a0].0 != pairs[b0].0);
            }
        }
    }
    assert(after.remove(i) =~= pairs);
    lemma_remove_pair(after, i);
    lemma_pairs_map_value(after, i);
    assert(pairs_map(after) =~= pairs_map(pairs).insert(app_id, port));
}

/// A list without repeated identifiers denotes a mapping with as many
/// identifiers as the list has pairs.
pub proof fn lemma_pairs_map_len(pairs: Seq<(Seq<char>, u16)>)
    requires
        distinct_keys(pairs),
    ensures
        pairs_map(pairs).dom().finite(),
        pairs_map(pairs).dom().len() == pairs.len(),
    decreases pairs.len(),
{
    if pairs.len() > 0 {
        let front = pairs.drop_last();
        let key = pairs.last().0;
        lemma_distinct_keys_front(pairs);
        lemma_pairs_map_len(front);
        lemma_pairs_map_domain(front, key);
        if has_key(front, key) {
            let i = choose|i: int| 0 <= i < front.len() && front[i].0 == key;
            assert(pairs[i].0 != pairs[pairs.len() - 1].0);
        }
        assert(pairs_map(pairs).dom() =~= pairs_map(front).dom().insert(key));
    }
}

/// The identifiers of a list without repeated identifiers hold as many
/// characters as those of the mapping that it denotes.
pub proof fn lemma_pairs_map_chars(pairs: Seq<(Seq<char>, u16)>)
    requires
        distinct_keys(pairs),
    ensures
        identifier_chars(pairs_map(pairs)) == total_chars(pairs),
    decreases pairs.len(),
{
    assert(is_fun_commutative(count_chars()));
    if pairs.len() == 0 {
        lemma_fold_empty::<Seq<char>, nat>(0nat, count_chars());
        assert(pairs_map(pairs).dom() =~= Set::<Seq<char>>::empty());
    } else {
        let front = pairs.drop_last();
        let key = pairs.last().0;
        lemma_distinct_keys_front(pairs);
        lemma_pairs_map_chars(front);
        lemma_pairs_map_len(front);
        lemma_pairs_map_domain(front, key);
        if has_key(front, key) {
            let i = choose|i: int| 0 <= i < front.len() && front[i].0 == key;
            assert(pairs[i].0 != pairs[pairs.len() - 1].0);
        }
        assert(pairs_map(pairs).dom() =~= pairs_map(front).dom().insert(key));
        lemma_fold_insert(pairs_map(front).dom(), 0nat, count_chars(), key);
    }
}

/// The identifiers of the first pairs of a list hold no more characters
/// than those of the whole list.
pub proof fn lemma_total_chars_grows(pairs: Seq<(Seq<char>, u16)>, n: int)
    requires
        0 <= n <= pairs.len(),
    ensures
        total_chars(pairs.take(n)) <= total_chars(pairs),
    decreases pairs.len(),
{
    if n < pairs.len() {
        let front = pairs.drop_last();
        lemma_total_chars_grows(front, n);
        assert(front.take(n) =~= pairs.take(n));
    } else {
        assert(pairs.take(n) =~= pairs);
    }
}

/// Two lists without repeated identifiers and of one length denote the same
/// mapping where the second's mapping holds every pair of the first.
pub proof fn lemma_included_pairs_same_map(a: Seq<(Seq<char>, u16)>, b: Seq<(Seq<char>, u16)>)
    requires
        distinct_keys(a),
        distinct_keys(b),
        a.len() == b.len(),
        forall|i: int|
            0 <= i < a.len() ==> lookup(pairs_map(b), #[trigger] a[i].0) == Some(a[i].1),
    ensures
        pairs_map(a) == pairs_map(b),
{
    let ma = pairs_map(a);
    let mb = pairs_map(b);
    lemma_pairs_map_len(a);
    lemma_pairs_map_len(b);
    assert forall|k: Seq<char>| #[trigger] ma.dom().contains(k) implies mb.dom().contains(k)
        && ma[k] == mb[k] by {
        lemma_pairs_map_domain(a, k);
        let i = choose|i: int| 0 <= i < a.len() && a[i].0 == k;
        lemma_pairs_map_value(a, i);
        assert(lookup(mb, a[i].0) == Some(a[i].1));
    }
    assert(ma.dom().subset_of(mb.dom()));
    vstd::set_lib::lemma_subset_equality(ma.dom(), mb.dom());
    assert(ma =~= mb);
}

} // verus!
