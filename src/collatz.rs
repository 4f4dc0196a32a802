//! Steps of the Collatz rule from a seed down to one.
//!
//! The rule maps an even `v` to `v / 2` and an odd `v` to `3v + 1`. Whether
//! every positive seed reaches one is an open question, so both counters ask
//! of their caller that the seed does, that no value met on the way
//! overflows `usize` when tripled, and that the count fits in `usize`.

use vstd::prelude::*;

verus! {

/// One application of the rule.
pub open spec fn collatz_step(v: nat) -> nat {
    if v % 2 == 0 {
        v / 2
    } else {
        3 * v + 1
    }
}

/// The value reached from `v` after `k` applications of the rule.
pub open spec fn collatz_iterate(v: nat, k: nat) -> nat
    decreases k,
{
    if k == 0 {
        v
    } else {
        collatz_iterate(collatz_step(v), (k - 1) as nat)
    }
}

/// `k` applications of the rule take `v` to one, and no fewer do.
pub open spec fn is_stopping_time(v: nat, k: nat) -> bool {
    &&& collatz_iterate(v, k) == 1
    &&& forall|j: nat| j < k ==> #[trigger] collatz_iterate(v, j) != 1
}

/// Some number of applications of the rule takes `v` to one.
pub open spec fn reaches_one(v: nat) -> bool {
    exists|k: nat| #[trigger] collatz_iterate(v, k) == 1
}

/// The number of applications of the rule that take `v` to one for the
/// first time; meaningful where `reaches_one(v)`.
pub open spec fn collatz_length(v: nat) -> nat {
    choose|k: nat| is_stopping_time(v, k)
}

/// The seed reaches one, the count of steps fits in `usize`, and every odd
/// value met before one can be tripled and incremented within `usize`.
pub open spec fn collatz_fits(v: nat) -> bool {
    &&& reaches_one(v)
    &&& collatz_length(v) <= usize::MAX
    &&& forall|j: nat|
        j < collatz_length(v) && #[trigger] collatz_iterate(v, j) % 2 == 1
            ==> 3 * collatz_iterate(v, j) + 1 <= usize::MAX
}

/// A value reached after `k` steps has a least such `k`.
proof fn lemma_least_stopping_time(v: nat, k: nat)
    requires
        collatz_iterate(v, k) == 1,
    ensures
        exists|m: nat| is_stopping_time(v, m),
    decreases k,
{
    if exists|j: nat| j < k && #[trigger] collatz_iterate(v, j) == 1 {
        let j = choose|j: nat| j < k && #[trigger] collatz_iterate(v, j) == 1;
        lemma_least_stopping_time(v, j);
    } else {
        assert(is_stopping_time(v, k));
    }
}

/// The stopping time of a seed is unique. Both counters return a stopping
/// time of their seed, so the recursive and the iterative counter agree on
/// every seed either accepts.
pub proof fn lemma_stopping_time_unique(v: nat, a: nat, b: nat)
    requires
        is_stopping_time(v, a),
        is_stopping_time(v, b),
    ensures
        a == b,
{
    if a < b {
        assert(collatz_iterate(v, a) != 1);
    } else if b < a {
        assert(collatz_iterate(v, b) != 1);
    }
}

/// Zero is a fixed point of the rule.
proof fn lemma_zero_stays(k: nat)
    ensures
        collatz_iterate(0, k) == 0,
    decreases k,
{
    if k > 0 {
        lemma_zero_stays((k - 1) as nat);
    }
}

/// `collatz_length` is the stopping time of every seed that reaches one,
/// and such a seed is positive.
pub proof fn lemma_collatz_length(v: nat)
    requires
        reaches_one(v),
    ensures
        is_stopping_time(v, collatz_length(v)),
        v >= 1,
{
    let k = choose|k: nat| #[trigger] collatz_iterate(v, k) == 1;
    lemma_least_stopping_time(v, k);
    if v == 0 {
        lemma_zero_stays(k);
    }
}

/// Away from one, a step shortens the remaining count by one, and what the
/// seed satisfies its successor satisfies too.
proof fn lemma_collatz_fits_step(v: nat)
    requires
        collatz_fits(v),
        v != 1,
    ensures
        collatz_length(v) >= 1,
        collatz_fits(collatz_step(v)),
        collatz_length(collatz_step(v)) == collatz_length(v) - 1,
{
    lemma_collatz_length(v);
    let n = collatz_length(v);
    let w = collatz_step(v);
    assert(collatz_iterate(v, 0) == v);
    assert(n >= 1);
    let m = (n - 1) as nat;
    assert forall|j: nat| j <= m implies #[trigger] collatz_iterate(w, j) == collatz_iterate(
        v,
        j + 1,
    ) by {
        assert(collatz_iterate(v, j + 1) == collatz_iterate(w, j));
    }
    assert(collatz_iterate(w, m) == 1);
    assert forall|j: nat| j < m implies #[trigger] collatz_iterate(w, j) != 1 by {
        assert(collatz_iterate(v, j + 1) != 1);
    }
    assert(is_stopping_time(w, m));
    assert(reaches_one(w));
    lemma_collatz_length(w);
    lemma_stopping_time_unique(w, m, collatz_length(w));
    assert forall|j: nat|
        j < collatz_length(w) && #[trigger] collatz_iterate(w, j) % 2 == 1 implies 3
        * collatz_iterate(w, j) + 1 <= usize::MAX by {
        assert(collatz_iterate(v, j + 1) == collatz_iterate(w, j));
        assert(j + 1 < n);
    }
}

/// Counts the steps from `n` to one, one recursive call per step.
pub fn collatz_recursive(n: usize) -> (r: usize)
    requires
        collatz_fits(n as nat),
    ensures
        is_stopping_time(n as nat, r as nat),
        r == collatz_length(n as nat),
        r == 0 <==> n == 1,
    decreases collatz_length(n as nat),
{
    proof {
        lemma_collatz_length(n as nat);
    }
    if n == 1 {
        proof {
            assert(collatz_iterate(1, 0) == 1);
            lemma_stopping_time_unique(1nat, 0nat, collatz_length(1nat));
        }
        0
    } else {
        proof {
            lemma_collatz_fits_step(n as nat);
            assert(collatz_iterate(n as nat, 0) == n);
            if n % 2 == 1 {
                assert(3 * collatz_iterate(n as nat, 0) + 1 <= usize::MAX);
            }
        }
        let nn: usize = if n % 2 == 0 {
            n / 2
        } else {
            (3 * n) + 1
        };
        let r = collatz_recursive(nn);
        1 + r
    }
}

/// Counts the steps from `n` to one in a loop with a running counter.
pub fn collatz_iterative(n: usize) -> (r: usize)
    requires
        collatz_fits(n as nat),
    ensures
        is_stopping_time(n as nat, r as nat),
        r == collatz_length(n as nat),
        r == 0 <==> n == 1,
{
    let mut nn: usize = n;
    let mut acc: usize = 0;
    proof {
        lemma_collatz_length(n as nat);
    }
    while nn > 1
        invariant
            collatz_fits(nn as nat),
            collatz_fits(n as nat),
            nn >= 1,
            acc + collatz_length(nn as nat) == collatz_length(n as nat),
        decreases collatz_length(nn as nat),
    {
        proof {
            lemma_collatz_fits_step(nn as nat);
            assert(collatz_iterate(nn as nat, 0) == nn);
            if nn % 2 == 1 {
                assert(3 * collatz_iterate(nn as nat, 0) + 1 <= usize::MAX);
            }
        }
        acc += 1;
        if nn % 2 == 0 {
            nn = nn / 2;
        } else {
            nn = (3 * nn) + 1;
        }
    }
    proof {
        assert(collatz_iterate(1, 0) == 1);
        lemma_collatz_length(1nat);
        lemma_stopping_time_unique(1nat, 0nat, collatz_length(1nat));
        lemma_collatz_length(n as nat);
    }
    acc
}

} // verus!
