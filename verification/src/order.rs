//! The order in which identifiers are kept: that of their UTF-8 bytes.
//!
//! It is the order in which the decoder hands pairs out. Pairs that come in
//! this order hold no identifier twice, which is what makes reading a
//! document, and reading back what was written, take one pass.

use vstd::prelude::*;
use vstd::utf8::encode_utf8;
use crate::model::distinct_keys;

verus! {

/// `a` comes before `b`, and position `at` decides it: up to there the two
/// agree, and there `a` ends or has the smaller byte.
pub open spec fn precedes_at(a: Seq<u8>, b: Seq<u8>, at: int) -> bool {
    &&& 0 <= at <= a.len()
    &&& at < b.len()
    &&& forall|j: int| 0 <= j < at ==> a[j] == b[j]
    &&& at < a.len() ==> a[at] < b[at]
}

/// `a` comes before `b` in the order of the dictionary, byte by byte.
pub open spec fn precedes(a: Seq<u8>, b: Seq<u8>) -> bool {
    exists|at: int| precedes_at(a, b, at)
}

/// The identifiers of the pairs come in strictly rising order.
pub open spec fn rising_keys(pairs: Seq<(Seq<char>, u16)>) -> bool {
    forall|i: int, j: int|
        0 <= i < j < pairs.len() ==> precedes(
            encode_utf8(#[trigger] pairs[i].0),
            encode_utf8(#[trigger] pairs[j].0),
        )
}

/// Nothing comes before itself.
pub proof fn lemma_precedes_irreflexive(a: Seq<u8>)
    ensures
        !precedes(a, a),
{
    assert forall|at: int| !precedes_at(a, a, at) by {}
}

/// What comes before something that comes before a third comes before the
/// third.
pub proof fn lemma_precedes_transitive(a: Seq<u8>, b: Seq<u8>, c: Seq<u8>)
    requires
        precedes(a, b),
        precedes(b, c),
    ensures
        precedes(a, c),
{
    let i = choose|at: int| precedes_at(a, b, at);
    let j = choose|at: int| precedes_at(b, c, at);
    let k = if i <= j {
        i
    } else {
        j
    };
    assert(precedes_at(a, c, k));
}

/// Identifiers in strictly rising order are all different.
pub proof fn lemma_rising_keys_are_distinct(pairs: Seq<(Seq<char>, u16)>)
    requires
        rising_keys(pairs),
    ensures
        distinct_keys(pairs),
{
    assert forall|i: int, j: int| 0 <= i < j < pairs.len() implies pairs[i].0 != pairs[j].0 by {
        lemma_precedes_irreflexive(encode_utf8(pairs[i].0));
    }
}

/// Whether the bytes `a` come before the bytes `b`.
pub(crate) fn bytes_precede(a: &[u8], b: &[u8]) -> (before: bool)
    ensures
        before == precedes(a@, b@),
{
    let mut i: usize = 0;
    while i < a.len() && i < b.len()
        invariant
            i <= a.len(),
            i <= b.len(),
            forall|j: int| 0 <= j < i ==> a@[j] == b@[j],
        decreases a.len() - i,
    {
        if a[i] != b[i] {
            let before: bool = a[i] < b[i];
            proof {
                if before {
                    assert(precedes_at(a@, b@, i as int));
                } else {
                    assert forall|at: int| !precedes_at(a@, b@, at) by {
                        if at > i {
                            assert(a@[i as int] != b@[i as int]);
                        }
                    }
                }
            }
            return before;
        }
        i += 1;
    }
    let before: bool = i < b.len();
    proof {
        if before {
            assert(precedes_at(a@, b@, i as int));
        } else {
            assert forall|at: int| !precedes_at(a@, b@, at) by {}
        }
    }
    before
}

/// Whether the identifiers of the pairs come in strictly rising order.
pub(crate) fn keys_rise(pairs: &Vec<(String, u16)>) -> (rising: bool)
    ensures
        rising == rising_keys(pairs.deep_view()),
{
    let ghost all = pairs.deep_view();
    let mut i: usize = 1;
    while i < pairs.len()
        invariant
            1 <= i,
            all == pairs.deep_view(),
            forall|a: int, b: int|
                0 <= a < b < i && b < all.len() ==> precedes(
                    encode_utf8(#[trigger] all[a].0),
                    encode_utf8(#[trigger] all[b].0),
                ),
        decreases pairs.len() - i,
    {
        let earlier = pairs[i - 1].0.as_str().as_bytes();
        let later = pairs[i].0.as_str().as_bytes();
        if !bytes_precede(earlier, later) {
            proof {
                assert(!precedes(encode_utf8(all[i - 1].0), encode_utf8(all[i as int].0)));
            }
            return false;
        }
        proof {
            assert forall|a: int, b: int| 0 <= a < b < i + 1 && b < all.len() implies precedes(
                encode_utf8(#[trigger] all[a].0),
                encode_utf8(#[trigger] all[b].0),
            ) by {
                if b == i && a < i - 1 {
                    lemma_precedes_transitive(
                        encode_utf8(all[a].0),
                        encode_utf8(all[i - 1].0),
                        encode_utf8(all[i as int].0),
                    );
                }
            }
        }
        i += 1;
    }
    true
}

} // verus!
