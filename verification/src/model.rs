//! The mathematical model of the scheme: what each operation computes, over
//! sequences of ring elements and unbounded integers.

use crate::ring::wrap;
use vstd::prelude::*;

verus! {

/// The sum of the products of the first `n` coefficients of `a` and `s`, as
/// an unbounded integer.
pub open spec fn dot_prefix(a: Seq<i32>, s: Seq<i32>, n: nat) -> int
    decreases n,
{
    if n == 0 {
        0
    } else {
        dot_prefix(a, s, (n - 1) as nat) + a[n - 1] * s[n - 1]
    }
}

/// The inner product of a mask and a key of the same length.
pub open spec fn dot(a: Seq<i32>, s: Seq<i32>) -> int
    recommends
        a.len() == s.len(),
{
    dot_prefix(a, s, a.len())
}

/// The body of a ciphertext: `message + <a, key> + noise` in the ring.
pub open spec fn encrypt_body(message: i32, a: Seq<i32>, key: Seq<i32>, noise: i32) -> i32
    recommends
        a.len() == key.len(),
{
    wrap(message + dot(a, key) + noise)
}

/// What decryption recovers: `b - <a, key>` in the ring.
pub open spec fn decrypt_body(a: Seq<i32>, b: i32, key: Seq<i32>) -> i32
    recommends
        a.len() == key.len(),
{
    wrap(b - dot(a, key))
}

/// The componentwise sum of two masks in the ring.
pub open spec fn mask_add(left: Seq<i32>, right: Seq<i32>) -> Seq<i32>
    recommends
        left.len() == right.len(),
{
    Seq::new(left.len(), |i: int| wrap(left[i] + right[i]))
}

/// The componentwise difference of two masks in the ring.
pub open spec fn mask_sub(left: Seq<i32>, right: Seq<i32>) -> Seq<i32>
    recommends
        left.len() == right.len(),
{
    Seq::new(left.len(), |i: int| wrap(left[i] - right[i]))
}

/// Every component of a mask multiplied by `c` in the ring.
pub open spec fn mask_scale(c: i32, a: Seq<i32>) -> Seq<i32> {
    Seq::new(a.len(), |i: int| wrap(a[i] * c))
}

/// Every coefficient is zero or one.
pub open spec fn is_binary(key: Seq<i32>) -> bool {
    forall|i: int| 0 <= i < key.len() ==> key[i] == 0 || key[i] == 1
}

} // verus!
