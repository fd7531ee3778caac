//! Arithmetic on a ring of positions, as along each axis of the torus.

use vstd::arithmetic::div_mod::{lemma_mod_add_multiples_vanish, lemma_small_mod};
use vstd::prelude::*;

verus! {

/// How far `x` lies after `origin` on a ring of `n` positions.
pub open spec fn ring_offset(x: int, origin: int, n: int) -> int {
    (x - origin) % n
}

/// The position after `i` on a ring of `n` positions.
pub open spec fn ring_next(i: int, n: int) -> int {
    if i + 1 == n {
        0
    } else {
        i + 1
    }
}

/// The position before `i` on a ring of `n` positions.
pub open spec fn ring_prev(i: int, n: int) -> int {
    if i == 0 {
        n - 1
    } else {
        i - 1
    }
}

/// On a ring of `n` positions, one step back from the first position is the
/// last, one step on from the last is the first, and every other step is the
/// plain one.
pub proof fn lemma_ring_steps(i: int, n: int)
    requires
        0 <= i < n,
    ensures
        i % n == i,
        (i + 1) % n == ring_next(i, n),
        (i - 1) % n == ring_prev(i, n),
{
    lemma_small_mod(i as nat, n as nat);
    if i + 1 == n {
        lemma_mod_add_multiples_vanish(0, n);
        lemma_small_mod(0, n as nat);
    } else {
        lemma_small_mod((i + 1) as nat, n as nat);
    }
    if i == 0 {
        lemma_mod_add_multiples_vanish(-1, n);
        lemma_small_mod((n - 1) as nat, n as nat);
    } else {
        lemma_small_mod((i - 1) as nat, n as nat);
    }
}

/// The offset on a ring is the plain difference, taken once around when `x`
/// lies before `origin`.
pub proof fn lemma_ring_offset(x: int, origin: int, n: int)
    requires
        0 <= x < n,
        0 <= origin < n,
    ensures
        ring_offset(x, origin, n) == (if x >= origin {
            x - origin
        } else {
            x - origin + n
        }),
{
    if x >= origin {
        lemma_small_mod((x - origin) as nat, n as nat);
    } else {
        lemma_mod_add_multiples_vanish(x - origin, n);
        lemma_small_mod((x - origin + n) as nat, n as nat);
    }
}

/// A step along a ring moves the offset from any origin by the same step.
pub proof fn lemma_ring_offset_steps(x: int, origin: int, n: int)
    requires
        0 <= x < n,
        0 <= origin < n,
    ensures
        0 <= ring_offset(x, origin, n) < n,
        0 <= (x - 1) % n < n,
        0 <= (x + 1) % n < n,
        ring_offset((x - 1) % n, origin, n) == ring_prev(ring_offset(x, origin, n), n),
        ring_offset((x + 1) % n, origin, n) == ring_next(ring_offset(x, origin, n), n),
        ring_offset(x, (origin + 1) % n, n) == ring_prev(ring_offset(x, origin, n), n),
{
    lemma_ring_steps(x, n);
    lemma_ring_steps(origin, n);
    lemma_ring_offset(x, origin, n);
    lemma_ring_offset((x - 1) % n, origin, n);
    lemma_ring_offset((x + 1) % n, origin, n);
    lemma_ring_offset(x, (origin + 1) % n, n);
}

} // verus!
