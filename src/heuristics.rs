use vstd::prelude::*;
use crate::state::State;

verus! {

/// How many of the first `n` cells differ between `a` and `b`.
pub open spec fn misplaced_upto(a: Seq<u8>, b: Seq<u8>, n: int) -> nat
    decreases n,
{
    if n <= 0 {
        0
    } else {
        misplaced_upto(a, b, n - 1) + if a[n - 1] != b[n - 1] { 1nat } else { 0nat }
    }
}

/// How many of the nine cells differ between `a` and `b`.
pub open spec fn misplaced(a: Seq<u8>, b: Seq<u8>) -> nat {
    misplaced_upto(a, b, 9)
}

/// Counts the cells whose labels differ between `state` and `goal`.
pub fn num_misplaced_tiles(state: &State, goal: &State) -> (r: u64)
    ensures
        r == misplaced(state@, goal@),
        r <= 9,
{
    let mut left = state.iter();
    let mut right = goal.iter();
    let mut acc: u64 = 0;
    let mut k: usize = 0;
    let ghost a = state@;
    let ghost b = goal@;
    while k < 9
        invariant
            k <= 9,
            a.len() == 9,
            b.len() == 9,
            left@ == a.subrange(k as int, 9),
            right@ == b.subrange(k as int, 9),
            acc == misplaced_upto(a, b, k as int),
            acc <= k,
        decreases 9 - k,
    {
        let x = left.next();
        let y = right.next();
        proof {
            assert(a.subrange(k as int, 9).drop_first() =~= a.subrange(k + 1, 9));
            assert(b.subrange(k as int, 9).drop_first() =~= b.subrange(k + 1, 9));
        }
        if x != y {
            acc = acc + 1;
        }
        k += 1;
    }
    acc
}

} // verus!
