//! The reveal table's ordering: participants sorted by their estimate.

use vstd::prelude::*;

use crate::room::Participant;

verus! {

/// Nondecreasing in the cards' rank: `Unset` first, then the question mark,
/// the coffee card, and the numeric cards in increasing order.
pub open spec fn sorted_by_estimate(ps: Seq<Participant>) -> bool {
    forall|i: int, j: int|
        0 <= i <= j < ps.len() ==> (#[trigger] ps[i]).estimate.rank_spec() <= (
        #[trigger] ps[j]).estimate.rank_spec()
}

/// The roster as the reveal table shows it: the same participants, ordered
/// by their estimate.
pub fn sort_participants_by_estimate(participants: &Vec<Participant>) -> (r: Vec<Participant>)
    ensures
        sorted_by_estimate(r@),
        r@.to_multiset() =~= participants@.to_multiset(),
        r@.len() == participants@.len(),
{
    broadcast use vstd::seq_lib::group_to_multiset_ensures;

    let mut work: Vec<Participant> = Vec::new();
    let n = participants.len();
    let mut i: usize = 0;
    while i < n
        invariant
            n == participants@.len(),
            i <= n,
            work@ =~= participants@.take(i as int),
        decreases n - i,
    {
        work.push(participants[i].clone());
        proof {
            assert(work@ =~= participants@.take(i + 1));
        }
        i = i + 1;
    }
    proof {
        assert(participants@.take(n as int) =~= participants@);
        assert(Seq::<Participant>::empty().to_multiset().add(work@.to_multiset())
            =~= participants@.to_multiset());
    }
    let mut out: Vec<Participant> = Vec::new();
    while work.len() > 0
        invariant
            sorted_by_estimate(out@),
            out@.to_multiset().add(work@.to_multiset()) =~= participants@.to_multiset(),
            out@.len() + work@.len() == participants@.len(),
            forall|a: int, b: int|
                0 <= a < out@.len() && 0 <= b < work@.len() ==> (
                #[trigger] out@[a]).estimate.rank_spec() <= (
                #[trigger] work@[b]).estimate.rank_spec(),
        decreases work.len(),
    {
        let mut m: usize = 0;
        let mut k: usize = 1;
        while k < work.len()
            invariant
                m < k,
                k <= work@.len(),
                work@.len() > 0,
                forall|b: int|
                    0 <= b < k ==> work@[m as int].estimate.rank_spec() <= (
                    #[trigger] work@[b]).estimate.rank_spec(),
            decreases work@.len() - k,
        {
            if work[k].estimate.to_i32() < work[m].estimate.to_i32() {
                m = k;
            }
            k = k + 1;
        }
        let ghost work0 = work@;
        let ghost out0 = out@;
        let p = work.remove(m);
        out.push(p);
        proof {
            work0.to_multiset_ensures();
            out0.to_multiset_ensures();
            assert(work@ =~= work0.remove(m as int));
            assert(p == work0[m as int]);
            assert(work0.remove(m as int).to_multiset() =~= work0.to_multiset().remove(p));
            assert(out@ =~= out0.push(p));
            assert(out0.push(p).to_multiset() =~= out0.to_multiset().insert(p));
            assert(work@.to_multiset() =~= work0.to_multiset().remove(p));
            assert(out@.to_multiset() =~= out0.to_multiset().insert(p));
            assert(out@.to_multiset().add(work@.to_multiset())
                =~= participants@.to_multiset());
            assert forall|a: int, b: int|
                0 <= a < out@.len() && 0 <= b < work@.len() implies (
            #[trigger] out@[a]).estimate.rank_spec() <= (
            #[trigger] work@[b]).estimate.rank_spec() by {
                let b0 = if b < m {
                    b
                } else {
                    b + 1
                };
                assert(work@[b] == work0[b0]);
                if a < out0.len() {
                    assert(out@[a] == out0[a]);
                } else {
                    assert(out@[a] == p);
                }
            }
        }
    }
    proof {
        assert(work@.to_multiset() =~= Seq::<Participant>::empty().to_multiset());
        assert(out@.to_multiset() =~= participants@.to_multiset());
    }
    out
}

} // verus!
