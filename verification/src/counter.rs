//! Counters that tell a stale holder of a number from the current one.

use vstd::prelude::*;

verus! {

/// The number after `n`, starting over at zero.
pub open spec fn next_number(n: u64) -> u64 {
    if n == u64::MAX {
        0
    } else {
        (n + 1) as u64
    }
}

/// The number `steps` after `n`.
pub open spec fn number_after(n: u64, steps: nat) -> u64
    decreases steps,
{
    if steps == 0 {
        n
    } else {
        next_number(number_after(n, (steps - 1) as nat))
    }
}

/// The number after `n`, starting over at zero.
pub fn advance(n: u64) -> (next: u64)
    ensures
        next == next_number(n),
{
    n.wrapping_add(1)
}

/// Where `steps` lead.
proof fn lemma_number_after(n: u64, steps: nat)
    requires
        steps <= u64::MAX,
    ensures
        number_after(n, steps) == if n + steps <= u64::MAX {
            n + steps
        } else {
            n + steps - u64::MAX - 1
        },
    decreases steps,
{
    if steps > 0 {
        lemma_number_after(n, (steps - 1) as nat);
    }
}

/// A number comes back only after all others: fewer steps lead to another.
pub proof fn later_number_differs(n: u64, steps: nat)
    requires
        0 < steps <= u64::MAX,
    ensures
        number_after(n, steps) != n,
{
    lemma_number_after(n, steps);
}

} // verus!
