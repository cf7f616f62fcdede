//! What holds of the scheme as a whole: decoding undoes encoding and absorbs
//! small noise, decryption undoes encryption up to the noise, and the
//! ciphertext operations act on what decryption recovers.

use crate::model::{decrypt_body, dot_prefix, encrypt_body, mask_add, mask_scale, mask_sub};
use crate::ring::{
    congruent, lemma_congruent_add, lemma_congruent_mul, lemma_wrap_add, lemma_wrap_congruent,
    lemma_wrap_mul, lemma_wrap_sub, modulus, wrap,
};
use crate::utils::{
    center, decode_spec, encode_spec, in_domain, round_to_scale, HALF_SCALE, SCALE,
};
use vstd::arithmetic::mul::{
    lemma_mul_is_associative, lemma_mul_is_commutative, lemma_mul_is_distributive_add_other_way,
    lemma_mul_is_distributive_sub_other_way,
};
use vstd::prelude::*;

verus! {

/// Decoding an encoded message gives the message back.
pub proof fn lemma_decode_encode(message: int)
    requires
        in_domain(message),
    ensures
        decode_spec(encode_spec(message)) == message,
{
}

/// Rounding picks a nearest multiple of 2^29: the result is at most 2^28
/// away from the argument.
pub proof fn lemma_round_is_nearest(x: int)
    ensures
        -HALF_SCALE <= x - round_to_scale(x) * SCALE <= HALF_SCALE,
{
}

/// Decoding always lands in the message domain.
pub proof fn lemma_decode_in_domain(x: int)
    ensures
        in_domain(decode_spec(x)),
{
}

/// Noise below 2^28 in absolute value is rounded away: the ring element
/// `m * 2^29 + noise` decodes to `m` reduced into `[-4, 4)`, for every
/// integer `m`.
pub proof fn lemma_decode_absorbs_noise(m: int, noise: int)
    requires
        -HALF_SCALE < noise < HALF_SCALE,
    ensures
        decode_spec(wrap(encode_spec(m) + noise) as int) == center(m),
        in_domain(m) ==> decode_spec(wrap(encode_spec(m) + noise) as int) == m,
{
    let x = encode_spec(m) + noise;
    let w = wrap(x) as int;
    let q = (x - w) / modulus();
    assert(x - w == q * modulus());
    assert(w == (m - 8 * q) * SCALE + noise);
    assert(round_to_scale(w) == m - 8 * q);
}

/// Noise above 2^28 in absolute value makes an encoded message decode to
/// another one.
pub proof fn lemma_decode_drifts(message: int, noise: i32)
    requires
        in_domain(message),
        noise < -HALF_SCALE || noise > HALF_SCALE,
    ensures
        decode_spec(wrap(encode_spec(message) + noise) as int) != message,
{
    let x = encode_spec(message) + noise;
    let w = wrap(x) as int;
    let q = (x - w) / modulus();
    assert(x - w == q * modulus());
    lemma_round_is_nearest(w);
    let k = round_to_scale(w) - (message - 8 * q);
    assert(w == (message - 8 * q) * SCALE + noise);
    assert(-HALF_SCALE <= noise - k * SCALE <= HALF_SCALE);
    assert(k != 0 && -4 <= k <= 4);
}

/// The inner product with a sum of masks is congruent to the sum of the
/// inner products.
pub proof fn lemma_dot_add(left: Seq<i32>, right: Seq<i32>, key: Seq<i32>, n: nat)
    requires
        n <= left.len(),
        left.len() == right.len(),
    ensures
        congruent(
            dot_prefix(mask_add(left, right), key, n),
            dot_prefix(left, key, n) + dot_prefix(right, key, n),
        ),
    decreases n,
{
    if n > 0 {
        let i = n - 1;
        lemma_dot_add(left, right, key, i as nat);
        let k = key[i] as int;
        lemma_congruent_mul(wrap(left[i] + right[i]) as int, left[i] + right[i], k);
        lemma_mul_is_distributive_add_other_way(k, left[i] as int, right[i] as int);
    }
}

/// The inner product with a difference of masks is congruent to the
/// difference of the inner products.
pub proof fn lemma_dot_sub(left: Seq<i32>, right: Seq<i32>, key: Seq<i32>, n: nat)
    requires
        n <= left.len(),
        left.len() == right.len(),
    ensures
        congruent(
            dot_prefix(mask_sub(left, right), key, n),
            dot_prefix(left, key, n) - dot_prefix(right, key, n),
        ),
    decreases n,
{
    if n > 0 {
        let i = n - 1;
        lemma_dot_sub(left, right, key, i as nat);
        let k = key[i] as int;
        lemma_congruent_mul(wrap(left[i] - right[i]) as int, left[i] - right[i], k);
        lemma_mul_is_distributive_sub_other_way(k, left[i] as int, right[i] as int);
    }
}

/// The inner product with a scaled mask is congruent to the scaled inner
/// product.
pub proof fn lemma_dot_scale(c: i32, a: Seq<i32>, key: Seq<i32>, n: nat)
    requires
        n <= a.len(),
    ensures
        congruent(dot_prefix(mask_scale(c, a), key, n), dot_prefix(a, key, n) * c),
    decreases n,
{
    if n > 0 {
        let i = n - 1;
        lemma_dot_scale(c, a, key, i as nat);
        let k = key[i] as int;
        lemma_congruent_mul(wrap(a[i] * c) as int, a[i] * c, k);
        lemma_mul_is_associative(a[i] as int, c as int, k);
        lemma_mul_is_commutative(c as int, k);
        lemma_mul_is_associative(a[i] as int, k, c as int);
        lemma_mul_is_distributive_add_other_way(
            c as int,
            dot_prefix(a, key, i as nat),
            a[i] * k,
        );
    }
}

/// Decryption undoes encryption up to the noise: what it recovers is the
/// encoded message plus the noise term, whatever the mask and the key.
pub proof fn lemma_decrypt_encrypt(message: i32, a: Seq<i32>, key: Seq<i32>, noise: i32)
    ensures
        decrypt_body(a, encrypt_body(message, a, key, noise), key) == wrap(message + noise),
{
}

/// With noise below 2^28 in absolute value, encoding, encrypting, decrypting
/// and decoding gives the message back.
pub proof fn lemma_round_trip(message: int, a: Seq<i32>, key: Seq<i32>, noise: i32)
    requires
        in_domain(message),
        -HALF_SCALE < noise < HALF_SCALE,
    ensures
        decode_spec(
            decrypt_body(a, encrypt_body(encode_spec(message) as i32, a, key, noise), key) as int,
        ) == message,
{
    let encoded = encode_spec(message) as i32;
    assert(encoded == encode_spec(message));
    lemma_decrypt_encrypt(encoded, a, key, noise);
    lemma_decode_absorbs_noise(message, noise as int);
}

/// In the ring, `(b1 + b2) - d` is `(b1 - d1) + (b2 - d2)` when `d` is
/// congruent to `d1 + d2`.
proof fn lemma_phase_sum(b1: int, b2: int, d1: int, d2: int, d: int)
    requires
        congruent(d, d1 + d2),
    ensures
        wrap(wrap(b1 + b2) - d) == wrap(wrap(b1 - d1) + wrap(b2 - d2)),
{
    lemma_wrap_congruent(b1 + b2);
    lemma_congruent_add(wrap(b1 + b2) as int, b1 + b2, d, d1 + d2);
    lemma_wrap_add(b1 - d1, b2 - d2);
    assert((b1 + b2) - (d1 + d2) == (b1 - d1) + (b2 - d2));
}

/// In the ring, `(b1 - b2) - d` is `(b1 - d1) - (b2 - d2)` when `d` is
/// congruent to `d1 - d2`.
proof fn lemma_phase_difference(b1: int, b2: int, d1: int, d2: int, d: int)
    requires
        congruent(d, d1 - d2),
    ensures
        wrap(wrap(b1 - b2) - d) == wrap(wrap(b1 - d1) - wrap(b2 - d2)),
{
    lemma_wrap_congruent(b1 - b2);
    lemma_congruent_add(wrap(b1 - b2) as int, b1 - b2, d, d1 - d2);
    lemma_wrap_sub(b1 - d1, b2 - d2);
    assert((b1 - b2) - (d1 - d2) == (b1 - d1) - (b2 - d2));
}

/// In the ring, `b * c - ds` is `(b - d) * c` when `ds` is congruent to
/// `d * c`.
proof fn lemma_phase_scale(b: int, c: int, d: int, ds: int)
    requires
        congruent(ds, d * c),
    ensures
        wrap(wrap(b * c) - ds) == wrap(wrap(b - d) * c),
{
    lemma_wrap_congruent(b * c);
    lemma_congruent_add(wrap(b * c) as int, b * c, ds, d * c);
    lemma_mul_is_distributive_sub_other_way(c, b, d);
    assert(b * c - d * c == (b - d) * c);
    lemma_wrap_mul(b - d, c);
}

/// Decrypting a sum of ciphertexts gives the sum of what each decrypts to.
pub proof fn lemma_decrypt_add(a1: Seq<i32>, b1: i32, a2: Seq<i32>, b2: i32, key: Seq<i32>)
    requires
        a1.len() == a2.len(),
    ensures
        decrypt_body(mask_add(a1, a2), wrap(b1 + b2), key) == wrap(
            decrypt_body(a1, b1, key) + decrypt_body(a2, b2, key),
        ),
{
    let d1 = dot_prefix(a1, key, a1.len());
    let d2 = dot_prefix(a2, key, a2.len());
    let d = dot_prefix(mask_add(a1, a2), key, a1.len());
    lemma_dot_add(a1, a2, key, a1.len());
    lemma_phase_sum(b1 as int, b2 as int, d1, d2, d);
}

/// Decrypting a difference of ciphertexts gives the difference of what each
/// decrypts to.
pub proof fn lemma_decrypt_sub(a1: Seq<i32>, b1: i32, a2: Seq<i32>, b2: i32, key: Seq<i32>)
    requires
        a1.len() == a2.len(),
    ensures
        decrypt_body(mask_sub(a1, a2), wrap(b1 - b2), key) == wrap(
            decrypt_body(a1, b1, key) - decrypt_body(a2, b2, key),
        ),
{
    let d1 = dot_prefix(a1, key, a1.len());
    let d2 = dot_prefix(a2, key, a2.len());
    let d = dot_prefix(mask_sub(a1, a2), key, a1.len());
    lemma_dot_sub(a1, a2, key, a1.len());
    lemma_phase_difference(b1 as int, b2 as int, d1, d2, d);
}

/// Decrypting a ciphertext multiplied by a constant gives what the
/// ciphertext decrypts to, multiplied by that constant.
pub proof fn lemma_decrypt_scale(c: i32, a: Seq<i32>, b: i32, key: Seq<i32>)
    ensures
        decrypt_body(mask_scale(c, a), wrap(b * c), key) == wrap(decrypt_body(a, b, key) * c),
{
    lemma_dot_scale(c, a, key, a.len());
    lemma_phase_scale(
        b as int,
        c as int,
        dot_prefix(a, key, a.len()),
        dot_prefix(mask_scale(c, a), key, a.len()),
    );
}

/// Adding two fresh encryptions and decrypting gives the sum of the
/// messages, reduced into `[-4, 4)`, as long as the two noise terms together
/// stay below 2^28 in absolute value.
pub proof fn lemma_add_decodes_to_sum(
    m1: int,
    a1: Seq<i32>,
    e1: i32,
    m2: int,
    a2: Seq<i32>,
    e2: i32,
    key: Seq<i32>,
)
    requires
        in_domain(m1),
        in_domain(m2),
        a1.len() == a2.len(),
        -HALF_SCALE < e1 + e2 < HALF_SCALE,
    ensures
        decode_spec(
            decrypt_body(
                mask_add(a1, a2),
                wrap(
                    encrypt_body(encode_spec(m1) as i32, a1, key, e1) + encrypt_body(
                        encode_spec(m2) as i32,
                        a2,
                        key,
                        e2,
                    ),
                ),
                key,
            ) as int,
        ) == center(m1 + m2),
{
    let plain1 = encode_spec(m1) as i32;
    let plain2 = encode_spec(m2) as i32;
    let b1 = encrypt_body(plain1, a1, key, e1);
    let b2 = encrypt_body(plain2, a2, key, e2);
    lemma_decrypt_add(a1, b1, a2, b2, key);
    lemma_decrypt_encrypt(plain1, a1, key, e1);
    lemma_decrypt_encrypt(plain2, a2, key, e2);
    lemma_wrap_add(plain1 + e1, plain2 + e2);
    assert((plain1 + e1) + (plain2 + e2) == encode_spec(m1 + m2) + (e1 + e2));
    lemma_decode_absorbs_noise(m1 + m2, e1 + e2);
}

/// Subtracting two fresh encryptions and decrypting gives the difference of
/// the messages, reduced into `[-4, 4)`, as long as the difference of the
/// two noise terms stays below 2^28 in absolute value.
pub proof fn lemma_sub_decodes_to_difference(
    m1: int,
    a1: Seq<i32>,
    e1: i32,
    m2: int,
    a2: Seq<i32>,
    e2: i32,
    key: Seq<i32>,
)
    requires
        in_domain(m1),
        in_domain(m2),
        a1.len() == a2.len(),
        -HALF_SCALE < e1 - e2 < HALF_SCALE,
    ensures
        decode_spec(
            decrypt_body(
                mask_sub(a1, a2),
                wrap(
                    encrypt_body(encode_spec(m1) as i32, a1, key, e1) - encrypt_body(
                        encode_spec(m2) as i32,
                        a2,
                        key,
                        e2,
                    ),
                ),
                key,
            ) as int,
        ) == center(m1 - m2),
{
    let plain1 = encode_spec(m1) as i32;
    let plain2 = encode_spec(m2) as i32;
    let b1 = encrypt_body(plain1, a1, key, e1);
    let b2 = encrypt_body(plain2, a2, key, e2);
    lemma_decrypt_sub(a1, b1, a2, b2, key);
    lemma_decrypt_encrypt(plain1, a1, key, e1);
    lemma_decrypt_encrypt(plain2, a2, key, e2);
    lemma_wrap_sub(plain1 + e1, plain2 + e2);
    assert((plain1 + e1) - (plain2 + e2) == encode_spec(m1 - m2) + (e1 - e2));
    lemma_decode_absorbs_noise(m1 - m2, e1 - e2);
}

/// Multiplying a fresh encryption by a constant and decrypting gives the
/// message times the constant, reduced into `[-4, 4)`, as long as the noise
/// times the constant stays below 2^28 in absolute value.
pub proof fn lemma_multiply_decodes_to_product(
    c: i32,
    m: int,
    a: Seq<i32>,
    e: i32,
    key: Seq<i32>,
)
    requires
        in_domain(m),
        -HALF_SCALE < e * c < HALF_SCALE,
    ensures
        decode_spec(
            decrypt_body(
                mask_scale(c, a),
                wrap(encrypt_body(encode_spec(m) as i32, a, key, e) * c),
                key,
            ) as int,
        ) == center(m * c),
{
    let p = encode_spec(m) as i32;
    let b = encrypt_body(p, a, key, e);
    lemma_decrypt_scale(c, a, b, key);
    lemma_decrypt_encrypt(p, a, key, e);
    lemma_wrap_mul(p + e, c as int);
    lemma_mul_is_distributive_add_other_way(c as int, p as int, e as int);
    lemma_mul_is_associative(m, SCALE as int, c as int);
    lemma_mul_is_commutative(SCALE as int, c as int);
    lemma_mul_is_associative(m, c as int, SCALE as int);
    assert((p + e) * c == encode_spec(m * c) + e * c);
    lemma_decode_absorbs_noise(m * c, e * c);
}

} // verus!
