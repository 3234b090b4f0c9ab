//! The integer square root, by which a flat array finds the size of its board.

use vstd::prelude::*;

verus! {

/// Whether `root` is the largest number whose square does not exceed `n`.
pub open spec fn is_sqrt_of(root: nat, n: nat) -> bool {
    root * root <= n < (root + 1) * (root + 1)
}

/// The integer square root of `n`.
pub open spec fn int_sqrt(n: nat) -> nat {
    choose|root: nat| is_sqrt_of(root, n)
}

/// Whether `n` is the square of a whole number.
pub open spec fn is_square(n: nat) -> bool {
    int_sqrt(n) * int_sqrt(n) == n
}

/// A number has one integer square root only.
pub proof fn lemma_int_sqrt_unique(n: nat, root: nat)
    requires
        is_sqrt_of(root, n),
    ensures
        int_sqrt(n) == root,
{
    let other = int_sqrt(n);
    assert(is_sqrt_of(other, n));
    assert(other == root) by (nonlinear_arith)
        requires
            root * root <= n < (root + 1) * (root + 1),
            other * other <= n < (other + 1) * (other + 1),
    ;
}

/// The square of `root` is a square, and `root` is its square root.
pub proof fn lemma_square_of(root: nat)
    ensures
        is_square(root * root),
        int_sqrt(root * root) == root,
{
    assert(root * root < (root + 1) * (root + 1)) by (nonlinear_arith);
    lemma_int_sqrt_unique(root * root, root);
}

/// The integer square root of `n`.
pub fn integer_sqrt(n: usize) -> (root: usize)
    ensures
        root == int_sqrt(n as nat),
        is_sqrt_of(root as nat, n as nat),
{
    let mut root: usize = 0;
    let mut next_square: u128 = 1;
    while next_square <= n as u128
        invariant
            root * root <= n,
            next_square == (root + 1) * (root + 1),
        decreases n - root,
    {
        proof {
            assert(root + 1 <= n && (root + 2) * (root + 2) == (root + 1) * (root + 1) + 2 * (root
                + 1) + 1) by (nonlinear_arith)
                requires
                    (root + 1) * (root + 1) <= n,
            ;
        }
        root = root + 1;
        next_square = next_square + 2 * (root as u128) + 1;
    }
    proof {
        lemma_int_sqrt_unique(n as nat, root as nat);
    }
    root
}

} // verus!
