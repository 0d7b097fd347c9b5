//! Composite Simpson weights used for the radial enclosed-mass integral.

use vstd::prelude::*;

verus! {

/// The Simpson weight of sample `i` out of `0..=steps`: 1 at both ends, 4 at
/// odd interior samples and 2 at even interior samples.
pub open spec fn simpson_weight_of(i: nat, steps: nat) -> nat {
    if i == 0 || i == steps {
        1
    } else if i % 2 == 0 {
        2
    } else {
        4
    }
}

/// The weight of sample `i` in a Simpson sum over `0..=steps`.
pub fn simpson_weight(i: usize, steps: usize) -> (w: u32)
    requires
        i <= steps,
    ensures
        w == simpson_weight_of(i as nat, steps as nat),
{
    if i == 0 || i == steps {
        1
    } else if i % 2 == 0 {
        2
    } else {
        4
    }
}

/// The sum of the weights of samples `0..upto`.
pub open spec fn weight_sum(upto: nat, steps: nat) -> nat
    decreases upto,
{
    if upto == 0 {
        0
    } else {
        weight_sum((upto - 1) as nat, steps) + simpson_weight_of((upto - 1) as nat, steps)
    }
}

proof fn lemma_weight_sum_prefix(j: nat, steps: nat)
    requires
        1 <= j <= steps,
    ensures
        weight_sum(j, steps) == 1 + 3 * (j - 1) + ((j - 1) as nat) % 2,
    decreases j,
{
    if j > 1 {
        let i = (j - 1) as nat;
        lemma_weight_sum_prefix(i, steps);
        assert(weight_sum(j, steps) == weight_sum(i, steps) + simpson_weight_of(i, steps));
        if i % 2 == 0 {
            assert(((i - 1) as nat) % 2 == 1);
        } else {
            assert(((i - 1) as nat) % 2 == 0);
        }
    } else {
        assert(weight_sum(0, steps) == 0);
    }
}

/// The weights over `0..=steps` add up to `3 * steps` when `steps` is even,
/// so `h / 3` times the weighted sum integrates a constant exactly; with an
/// odd `steps` they add up to one less.
pub proof fn lemma_simpson_weights_total(steps: nat)
    requires
        steps >= 2,
    ensures
        steps % 2 == 0 ==> weight_sum(steps + 1, steps) == 3 * steps,
        steps % 2 == 1 ==> weight_sum(steps + 1, steps) == 3 * steps - 1,
{
    lemma_weight_sum_prefix(steps, steps);
}

} // verus!
