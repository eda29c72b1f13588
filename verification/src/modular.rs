//! Facts about remainders that the placement proofs share.

use vstd::prelude::*;
use vstd::arithmetic::div_mod::{
    lemma_add_mod_noop_right,
    lemma_fundamental_div_mod,
    lemma_fundamental_div_mod_converse,
    lemma_mod_add_multiples_vanish,
    lemma_mod_bound,
    lemma_mod_equivalence,
    lemma_small_mod,
    lemma_sub_mod_noop_right,
};

verus! {

/// Two integers less than a modulus apart with the same remainder are equal.
pub proof fn lemma_mod_injective(a: int, b: int, n: int)
    requires
        n > 0,
        a % n == b % n,
        -n < a - b < n,
    ensures
        a == b,
{
    lemma_fundamental_div_mod(a, n);
    lemma_fundamental_div_mod(b, n);
    let qa = a / n;
    let qb = b / n;
    assert(a - b == n * (qa - qb)) by (nonlinear_arith)
        requires
            a == n * qa + a % n,
            b == n * qb + b % n,
            a % n == b % n,
    ;
    assert(qa - qb == 0) by (nonlinear_arith)
        requires
            a - b == n * (qa - qb),
            -n < a - b < n,
            n > 0,
    ;
}

/// Adding the same integer on both sides keeps remainders apart.
pub proof fn lemma_mod_cancel(a: int, b: int, c: int, n: int)
    requires
        n > 0,
    ensures
        ((a + c) % n == (b + c) % n) <==> (a % n == b % n),
{
    lemma_mod_equivalence(a + c, b + c, n);
    lemma_mod_equivalence(a, b, n);
    assert((a + c) - (b + c) == a - b);
}

/// The remainder of an integer below twice the modulus.
pub proof fn lemma_mod_below_twice(x: int, n: int)
    requires
        n > 0,
        0 <= x < 2 * n,
    ensures
        x % n == if x < n {
            x
        } else {
            x - n
        },
{
    if x < n {
        lemma_small_mod(x as nat, n as nat);
    } else {
        lemma_fundamental_div_mod_converse(x, n, 1, x - n);
    }
}

/// Rotating upwards reaches every remainder: the node that holds `target`.
pub proof fn lemma_rotation_reaches(turn: int, target: int, n: int)
    requires
        n > 0,
        0 <= target < n,
    ensures
        0 <= (target - turn) % n < n,
        (turn + (target - turn) % n) % n == target,
{
    lemma_mod_bound(target - turn, n);
    lemma_add_mod_noop_right(turn, target - turn, n);
    lemma_small_mod(target as nat, n as nat);
}

/// Rotating downwards reaches every remainder: the node that holds `target`.
pub proof fn lemma_counter_rotation_reaches(turn: int, target: int, n: int)
    requires
        n > 0,
        0 <= target < n,
    ensures
        0 <= (turn - target) % n < n,
        (n + turn - (turn - target) % n) % n == target,
{
    lemma_mod_bound(turn - target, n);
    lemma_sub_mod_noop_right(n + turn, turn - target, n);
    lemma_mod_add_multiples_vanish(target, n);
    lemma_small_mod(target as nat, n as nat);
}

} // verus!
