//! Sequences that are picked from others.
use vstd::prelude::*;

verus! {

/// The positions go up.
pub open spec fn increasing(positions: Seq<int>) -> bool {
    forall|i: int, j: int|
        0 <= i < j < positions.len() ==> #[trigger] positions[i] < #[trigger] positions[j]
}

/// Picking position `n` or not, behind all that were picked below it.
pub proof fn lemma_pick(picked: Seq<int>, n: int, pick: bool) -> (next: Seq<int>)
    requires
        increasing(picked),
        forall|i: int| #[trigger] picked.contains(i) ==> i < n,
    ensures
        next == if pick {
            picked.push(n)
        } else {
            picked
        },
        increasing(next),
        forall|i: int| #[trigger] next.contains(i) <==> picked.contains(i) || pick && i == n,
{
    if pick {
        let next = picked.push(n);
        assert forall|i: int, j: int| 0 <= i < j < next.len() implies #[trigger] next[i]
            < #[trigger] next[j] by {
            assert(picked.contains(picked[i]));
        }
        assert forall|i: int| #[trigger] next.contains(i) <==> picked.contains(i) || i == n by {
            if picked.contains(i) {
                let k = picked.index_of(i);
                assert(next[k] == i);
            }
            if i == n {
                assert(next[picked.len() as int] == i);
            }
            if next.contains(i) {
                let k = next.index_of(i);
                if k < picked.len() {
                    assert(picked[k] == i);
                }
            }
        }
        next
    } else {
        picked
    }
}

} // verus!
