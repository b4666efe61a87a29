//! Seeded selection of positions, with and without replacement.

use vstd::prelude::*;
use crate::engine::{rng_choose, rng_draw_below, rng_from_seed, rng_state};

verus! {

/// The state of a generator that was seeded with a number.
pub uninterp spec fn pcg_seeded(seed: u64) -> (int, int);

/// What a generator in a state gives when a number below a bound is drawn
/// from it, and the state in which the draw leaves it.
pub uninterp spec fn pcg_draw(state: (int, int), bound: u64) -> (u64, (int, int));

/// The items that a generator in a state chooses when `amount` of the items
/// are asked for.
pub uninterp spec fn pcg_choice(state: (int, int), items: Seq<usize>, amount: usize) -> Seq<usize>;

/// The state of a generator after `n` draws below a bound.
pub open spec fn state_after(state: (int, int), bound: u64, n: nat) -> (int, int)
    decreases n,
{
    if n == 0 {
        state
    } else {
        pcg_draw(state_after(state, bound, (n - 1) as nat), bound).1
    }
}

/// The first `n` numbers that a generator draws below a bound.
pub open spec fn drawn(state: (int, int), bound: u64, n: nat) -> Seq<usize>
    decreases n,
{
    if n == 0 {
        Seq::empty()
    } else {
        drawn(state, bound, (n - 1) as nat).push(
            pcg_draw(state_after(state, bound, (n - 1) as nat), bound).0 as usize,
        )
    }
}

/// The positions `0, 1, .. length - 1`.
pub open spec fn all_positions(length: usize) -> Seq<usize> {
    Seq::new(length as nat, |i: int| i as usize)
}

/// The positions that a seed gives: with replacement the first `n_samples`
/// draws below `length` of the generator that the seed fixes, none if there
/// is nothing to draw from; without replacement what that generator chooses
/// among all positions when `n_samples` are asked for, or all of them if
/// there are fewer.
pub open spec fn sampled(length: usize, n_samples: usize, with_replacement: bool, seed: u64) -> Seq<
    usize,
> {
    if !with_replacement {
        pcg_choice(
            pcg_seeded(seed),
            all_positions(length),
            if n_samples <= length {
                n_samples
            } else {
                length
            },
        )
    } else if length == 0 {
        Seq::empty()
    } else {
        drawn(pcg_seeded(seed), length as u64, n_samples as nat)
    }
}

/// `picked` holds the items of `items` at the given positions, and no two of
/// the positions are the same.
pub open spec fn picked_at(items: Seq<usize>, picked: Seq<usize>, positions: Seq<int>) -> bool {
    &&& positions.len() == picked.len()
    &&& forall|i: int|
        0 <= i < positions.len() ==> 0 <= #[trigger] positions[i] < items.len() && picked[i]
            == items[positions[i]]
    &&& forall|i: int, j: int|
        0 <= i < j < positions.len() ==> #[trigger] positions[i] != #[trigger] positions[j]
}

/// No position occurs twice.
pub open spec fn all_distinct(indices: Seq<usize>) -> bool {
    forall|i: int, j: int| 0 <= i < j < indices.len() ==> indices[i] != indices[j]
}

/// Every position lies below `length`.
pub open spec fn all_below(indices: Seq<usize>, length: usize) -> bool {
    forall|i: int| 0 <= i < indices.len() ==> indices[i] < length
}

/// The positions `0, 1, .. length - 1`.
fn positions_up_to(length: usize) -> (r: Vec<usize>)
    ensures
        r@ == all_positions(length),
{
    let mut range: Vec<usize> = Vec::new();
    let mut i: usize = 0;
    while i < length
        invariant
            i <= length,
            range@.len() == i,
            forall|j: int| 0 <= j < i ==> range@[j] == j,
        decreases length - i,
    {
        range.push(i);
        i += 1;
    }
    assert(range@ =~= all_positions(length));
    range
}

/// Positions in `0 .. length`, chosen by a generator that the seed fixes:
/// the same arguments give the same positions.
///
/// With replacement, the result has `n_samples` positions, each drawn on its
/// own. From an empty range nothing can be drawn: the result is then empty.
///
/// Without replacement, the result has `n_samples` positions of which no two
/// are the same; where fewer than `n_samples` exist, it has all `length` of
/// them.
pub fn s_seedable_random_indices(
    length: usize,
    n_samples: usize,
    with_replacement: bool,
    seed: u64,
) -> (r: Vec<usize>)
    ensures
        r@ == sampled(length, n_samples, with_replacement, seed),
        all_below(r@, length),
        with_replacement ==> r@.len() == if length == 0 {
            0
        } else {
            n_samples
        },
        !with_replacement ==> all_distinct(r@) && r@.len() == if n_samples <= length {
            n_samples
        } else {
            length
        },
{
    let mut rng = rng_from_seed(seed);
    if with_replacement {
        let mut out: Vec<usize> = Vec::new();
        if length == 0 {
            return out;
        }
        let ghost start = rng_state(rng);
        let bound = length as u64;
        let mut i: usize = 0;
        while i < n_samples
            invariant
                length > 0,
                bound == length,
                i <= n_samples,
                out@.len() == i,
                all_below(out@, length),
                out@ == drawn(start, bound, i as nat),
                rng_state(rng) == state_after(start, bound, i as nat),
            decreases n_samples - i,
        {
            let index = rng_draw_below(&mut rng, bound);
            out.push(index as usize);
            i += 1;
        }
        out
    } else {
        let range = positions_up_to(length);
        let amount = if n_samples <= length {
            n_samples
        } else {
            length
        };
        let out = rng_choose(&mut rng, &range, amount);
        proof {
            let positions = choose|positions: Seq<int>| picked_at(range@, out@, positions);
            assert forall|i: int| 0 <= i < out@.len() implies #[trigger] out@[i] == positions[i] by {
                assert(0 <= positions[i] < range@.len());
            }
            assert forall|i: int, j: int| 0 <= i < j < out@.len() implies out@[i] != out@[j] by {
                assert(positions[i] != positions[j]);
            }
        }
        out
    }
}

/// Sampling is a function of its arguments: two samples taken with the same
/// arguments hold the same positions.
pub proof fn lemma_sampling_is_determined(
    length: usize,
    n_samples: usize,
    with_replacement: bool,
    seed: u64,
    first: Seq<usize>,
    second: Seq<usize>,
)
    requires
        first == sampled(length, n_samples, with_replacement, seed),
        second == sampled(length, n_samples, with_replacement, seed),
    ensures
        first == second,
{
}

} // verus!
