//! The ring of integers modulo 2^32 and its signed 32-bit representatives.

use vstd::arithmetic::div_mod::{lemma_add_mod_noop, lemma_mul_mod_noop_general, lemma_sub_mod_noop};
use vstd::prelude::*;

verus! {

/// The number of residues in the ring, 2^32.
pub open spec fn modulus() -> int {
    0x1_0000_0000
}

/// The representative of `x` modulo 2^32 that lies in the range of `i32`.
pub open spec fn wrap(x: int) -> i32 {
    let r = x % 0x1_0000_0000;
    if r >= 0x8000_0000 {
        (r - 0x1_0000_0000) as i32
    } else {
        r as i32
    }
}

/// `x` and `y` name the same ring element.
pub open spec fn congruent(x: int, y: int) -> bool {
    x % modulus() == y % modulus()
}

/// Wrapping leaves the residue class unchanged.
pub proof fn lemma_wrap_congruent(x: int)
    ensures
        congruent(wrap(x) as int, x),
{
}

/// Congruent terms give congruent sums and differences.
pub proof fn lemma_congruent_add(x1: int, x2: int, y1: int, y2: int)
    requires
        congruent(x1, x2),
        congruent(y1, y2),
    ensures
        congruent(x1 + y1, x2 + y2),
        congruent(x1 - y1, x2 - y2),
{
    let m = modulus();
    lemma_add_mod_noop(x1, y1, m);
    lemma_add_mod_noop(x2, y2, m);
    lemma_sub_mod_noop(x1, y1, m);
    lemma_sub_mod_noop(x2, y2, m);
}

/// Congruent factors give congruent products.
pub proof fn lemma_congruent_mul(x1: int, x2: int, y: int)
    requires
        congruent(x1, x2),
    ensures
        congruent(x1 * y, x2 * y),
        congruent(y * x1, y * x2),
{
    let m = modulus();
    lemma_mul_mod_noop_general(x1, y, m);
    lemma_mul_mod_noop_general(x2, y, m);
    lemma_mul_mod_noop_general(y, x1, m);
    lemma_mul_mod_noop_general(y, x2, m);
}

/// Sums may be wrapped early or late.
pub proof fn lemma_wrap_add(x: int, y: int)
    ensures
        wrap(wrap(x) + wrap(y)) == wrap(x + y),
        wrap(wrap(x) + y) == wrap(x + y),
        wrap(x + wrap(y)) == wrap(x + y),
{
    lemma_wrap_congruent(x);
    lemma_wrap_congruent(y);
    lemma_congruent_add(wrap(x) as int, x, wrap(y) as int, y);
    lemma_congruent_add(wrap(x) as int, x, y, y);
    lemma_congruent_add(x, x, wrap(y) as int, y);
}

/// Differences may be wrapped early or late.
pub proof fn lemma_wrap_sub(x: int, y: int)
    ensures
        wrap(wrap(x) - wrap(y)) == wrap(x - y),
        wrap(wrap(x) - y) == wrap(x - y),
        wrap(x - wrap(y)) == wrap(x - y),
{
    lemma_wrap_congruent(x);
    lemma_wrap_congruent(y);
    lemma_congruent_add(wrap(x) as int, x, wrap(y) as int, y);
    lemma_congruent_add(wrap(x) as int, x, y, y);
    lemma_congruent_add(x, x, wrap(y) as int, y);
}

/// Products may be wrapped early or late.
pub proof fn lemma_wrap_mul(x: int, y: int)
    ensures
        wrap(wrap(x) * wrap(y)) == wrap(x * y),
        wrap(wrap(x) * y) == wrap(x * y),
        wrap(x * wrap(y)) == wrap(x * y),
{
    let m = modulus();
    lemma_mul_mod_noop_general(x, y, m);
    lemma_mul_mod_noop_general(wrap(x) as int, wrap(y) as int, m);
    lemma_mul_mod_noop_general(wrap(x) as int, y, m);
    lemma_mul_mod_noop_general(x, wrap(y) as int, m);
}

/// Ring addition on representatives.
pub fn ring_add(x: i32, y: i32) -> (r: i32)
    ensures
        r == wrap(x + y),
{
    x.wrapping_add(y)
}

/// Ring subtraction on representatives.
pub fn ring_sub(x: i32, y: i32) -> (r: i32)
    ensures
        r == wrap(x - y),
{
    x.wrapping_sub(y)
}

/// Ring multiplication on representatives.
pub fn ring_mul(x: i32, y: i32) -> (r: i32)
    ensures
        r == wrap(x * y),
{
    x.wrapping_mul(y)
}

} // verus!
