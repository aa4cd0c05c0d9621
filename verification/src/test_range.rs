//! The candidates of an odd-only trial division: 3, 5, 7, ... up to a limit.

use vstd::prelude::*;

verus! {

/// The numbers `first`, `first + 2`, `first + 4`, ... that do not exceed
/// `limit`, in increasing order.
pub open spec fn step_two(first: nat, limit: nat) -> Seq<nat> {
    Seq::new(
        if first > limit {
            0nat
        } else {
            ((limit - first) / 2 + 1) as nat
        },
        |i: int| (first + 2 * i) as nat,
    )
}

/// The odd numbers from 3 up to and including `limit`, in increasing order.
pub open spec fn odd_candidates(limit: nat) -> Seq<nat> {
    step_two(3, limit)
}

/// A finite producer of odd trial divisors. Its view is the sequence of
/// candidates it has yet to hand out.
pub struct TestRange {
    current: u64,
    limit: u64,
}

impl View for TestRange {
    type V = Seq<nat>;

    closed spec fn view(&self) -> Seq<nat> {
        step_two(self.current as nat, self.limit as nat)
    }
}

impl TestRange {
    /// A producer of the odd numbers from 3 up to and including `limit`.
    pub fn new(limit: u64) -> (range: TestRange)
        ensures
            range@ == odd_candidates(limit as nat),
    {
        TestRange { current: 3, limit }
    }

    /// Hands out the next candidate, or `None` once all have been handed out.
    pub fn next(&mut self) -> (candidate: Option<u64>)
        ensures
            match candidate {
                Some(c) => old(self)@.len() > 0 && c == old(self)@[0] && final(self)@
                    == old(self)@.drop_first(),
                None => old(self)@.len() == 0 && final(self)@ == old(self)@,
            },
    {
        if self.current > self.limit {
            None
        } else {
            let ret = self.current;
            if ret <= u64::MAX - 2 {
                self.current = ret + 2;
            } else {
                // Nothing above `ret` fits: leave a range that is empty.
                self.limit = 0;
            }
            assert(self@ =~= old(self)@.drop_first());
            Some(ret)
        }
    }
}

/// The candidates are exactly the odd numbers in `3..=limit`: each candidate
/// is such a number, and each such number is a candidate.
pub proof fn lemma_odd_candidates(limit: nat)
    ensures
        forall|i: int|
            0 <= i < odd_candidates(limit).len() ==> {
                let c = #[trigger] odd_candidates(limit)[i];
                3 <= c <= limit && c % 2 == 1
            },
        forall|d: nat|
            3 <= d <= limit && d % 2 == 1 ==> #[trigger] odd_candidates(limit).contains(d),
{
    assert forall|d: nat| 3 <= d <= limit && d % 2 == 1 implies #[trigger] odd_candidates(
        limit,
    ).contains(d) by {
        assert(odd_candidates(limit)[(d - 3) / 2] == d);
    }
}

} // verus!
