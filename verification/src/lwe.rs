//! Keys, ciphertexts and the operations of the scheme.

use crate::config::LweConfig;
use crate::model::{decrypt_body, dot_prefix, encrypt_body, is_binary, mask_add, mask_scale, mask_sub};
use crate::ring::{lemma_wrap_add, lemma_wrap_sub, ring_add, ring_mul, ring_sub, wrap};
use crate::utils::{
    decode, decode_spec, encode, encode_spec, gen_range_inclusive, in_domain, uniform_sample_int32,
    DomainError,
};
use vstd::prelude::*;

verus! {

/// A message in its encoded form: a ring element whose top three bits carry
/// the message and whose low 29 bits carry noise.
#[derive(Debug, Clone, Copy)]
pub struct LwePlaintext {
    pub message: i32,
}

/// A ciphertext: the mask `a` and the body `b = <a, key> + message + noise`.
#[derive(Debug)]
pub struct LweCiphertext {
    config: LweConfig,
    a: Vec<i32>,
    b: i32,
}

/// What a ciphertext holds.
pub struct LweCiphertextView {
    pub config: LweConfig,
    pub a: Seq<i32>,
    pub b: i32,
}

/// A secret key: one binary coefficient per dimension.
#[derive(Debug)]
pub struct LweEncryptionKey {
    config: LweConfig,
    key: Vec<i32>,
}

/// What a secret key holds.
pub struct LweEncryptionKeyView {
    pub config: LweConfig,
    pub key: Seq<i32>,
}

impl LweCiphertextView {
    /// The mask has one element per dimension.
    pub open spec fn wf(self) -> bool {
        self.a.len() == self.config.len()
    }
}

impl LweEncryptionKeyView {
    /// The key has one coefficient per dimension, each zero or one.
    pub open spec fn wf(self) -> bool {
        &&& self.key.len() == self.config.len()
        &&& is_binary(self.key)
    }
}

impl View for LweCiphertext {
    type V = LweCiphertextView;

    closed spec fn view(&self) -> LweCiphertextView {
        LweCiphertextView { config: self.config, a: self.a@, b: self.b }
    }
}

impl View for LweEncryptionKey {
    type V = LweEncryptionKeyView;

    closed spec fn view(&self) -> LweEncryptionKeyView {
        LweEncryptionKeyView { config: self.config, key: self.key@ }
    }
}

impl LweCiphertext {
    #[verifier::type_invariant]
    pub open spec fn wf(self) -> bool {
        self@.wf()
    }
}

impl LweEncryptionKey {
    #[verifier::type_invariant]
    pub open spec fn wf(self) -> bool {
        self@.wf()
    }
}

impl Clone for LweCiphertext {
    fn clone(&self) -> (r: Self)
        ensures
            r@ == self@,
    {
        proof {
            use_type_invariant(self);
        }
        LweCiphertext { config: self.config, a: self.a.clone(), b: self.b }
    }
}

impl Clone for LweEncryptionKey {
    fn clone(&self) -> (r: Self)
        ensures
            r@ == self@,
    {
        proof {
            use_type_invariant(self);
        }
        LweEncryptionKey { config: self.config, key: self.key.clone() }
    }
}

impl LweCiphertext {
    /// Builds a ciphertext from its parts. The mask must have one element
    /// per dimension of the configuration.
    pub fn new(config: LweConfig, a: Vec<i32>, b: i32) -> (r: Option<LweCiphertext>)
        ensures
            match r {
                Some(c) => a@.len() == config.len() && c@ == (LweCiphertextView {
                    config,
                    a: a@,
                    b,
                }),
                None => a@.len() != config.len(),
            },
    {
        if a.len() == config.len() {
            Some(LweCiphertext { config, a, b })
        } else {
            None
        }
    }

    /// The configuration that the ciphertext was made under.
    pub fn config(&self) -> (config: LweConfig)
        ensures
            config == self@.config,
    {
        self.config
    }

    /// The mask.
    pub fn a(&self) -> (a: &Vec<i32>)
        ensures
            a@ == self@.a,
    {
        &self.a
    }

    /// The body.
    pub fn b(&self) -> (b: i32)
        ensures
            b == self@.b,
    {
        self.b
    }
}

impl LweEncryptionKey {
    /// Builds a key from its coefficients. There must be one per dimension
    /// of the configuration, each zero or one.
    pub fn new(config: LweConfig, key: Vec<i32>) -> (r: Option<LweEncryptionKey>)
        ensures
            match r {
                Some(k) => key@.len() == config.len() && is_binary(key@) && k@ == (
                LweEncryptionKeyView { config, key: key@ }),
                None => key@.len() != config.len() || !is_binary(key@),
            },
    {
        if key.len() != config.len() {
            return None;
        }
        let n = key.len();
        let mut i: usize = 0;
        while i < n
            invariant
                n == key@.len(),
                i <= n,
                forall|j: int| 0 <= j < i ==> key@[j] == 0 || key@[j] == 1,
            decreases n - i,
        {
            if key[i] != 0 && key[i] != 1 {
                return None;
            }
            i = i + 1;
        }
        Some(LweEncryptionKey { config, key })
    }

    /// The configuration that the key was made under.
    pub fn config(&self) -> (config: LweConfig)
        ensures
            config == self@.config,
    {
        self.config
    }

    /// The coefficients.
    pub fn key(&self) -> (key: &Vec<i32>)
        ensures
            key@ == self@.key,
    {
        &self.key
    }
}

/// Encodes a message of `[-4, 4)` as a plaintext. Any other message is
/// refused.
pub fn lwe_encode(message: i32) -> (r: Result<LwePlaintext, DomainError>)
    ensures
        match r {
            Ok(plaintext) => in_domain(message as int) && plaintext.message == encode_spec(
                message as int,
            ),
            Err(e) => !in_domain(message as int) && e.message == message,
        },
{
    match encode(message) {
        Ok(encoded) => Ok(LwePlaintext { message: encoded }),
        Err(e) => Err(e),
    }
}

/// Reads the message off a plaintext, rounding away the noise it carries.
pub fn lwe_decode(plaintext: LwePlaintext) -> (message: i32)
    ensures
        message == decode_spec(plaintext.message as int),
{
    decode(plaintext.message)
}

/// Encrypts under `key` with the mask and the noise term that the caller
/// supplies.
pub fn lwe_encrypt_with(
    plaintext: LwePlaintext,
    key: LweEncryptionKey,
    a: Vec<i32>,
    noise: i32,
) -> (c: LweCiphertext)
    requires
        a@.len() == key@.key.len(),
    ensures
        c@.wf(),
        c@.config == key@.config,
        c@.a == a@,
        c@.b == encrypt_body(plaintext.message, a@, key@.key, noise),
{
    proof {
        use_type_invariant(&key);
    }
    let n = a.len();
    let mut acc: i32 = plaintext.message;
    let mut i: usize = 0;
    while i < n
        invariant
            n == a@.len(),
            n == key.key@.len(),
            i <= n,
            acc == wrap(plaintext.message + dot_prefix(a@, key.key@, i as nat)),
        decreases n - i,
    {
        let term = ring_mul(a[i], key.key[i]);
        proof {
            lemma_wrap_add(
                plaintext.message + dot_prefix(a@, key.key@, i as nat),
                a@[i as int] * key.key@[i as int],
            );
        }
        acc = ring_add(acc, term);
        i = i + 1;
    }
    proof {
        lemma_wrap_add(plaintext.message + dot_prefix(a@, key.key@, n as nat), noise as int);
    }
    let b = ring_add(acc, noise);
    LweCiphertext { config: key.config, a, b }
}

/// Encrypts under `key` with a fresh uniform mask and the noise term that
/// the caller supplies. Whatever mask was drawn, the body is the message
/// plus the inner product of mask and key plus the noise.
pub fn lwe_encrypt(plaintext: LwePlaintext, key: LweEncryptionKey, noise: i32) -> (c: LweCiphertext)
    ensures
        c@.wf(),
        c@.config == key@.config,
        c@.a.len() == key@.key.len(),
        c@.b == encrypt_body(plaintext.message, c@.a, key@.key, noise),
{
    proof {
        use_type_invariant(&key);
    }
    let a = uniform_sample_int32(key.config.dimension);
    lwe_encrypt_with(plaintext, key, a, noise)
}

/// Recovers the encoded message with its noise: `b - <a, key>` in the ring.
/// The ciphertext and the key must have the same number of coefficients.
pub fn lwe_decrypt(ciphertext: LweCiphertext, key: LweEncryptionKey) -> (plaintext: LwePlaintext)
    requires
        ciphertext@.a.len() == key@.key.len(),
    ensures
        plaintext.message == decrypt_body(ciphertext@.a, ciphertext@.b, key@.key),
{
    let n = key.key.len();
    let mut acc: i32 = ciphertext.b;
    let mut i: usize = 0;
    while i < n
        invariant
            n == ciphertext.a@.len(),
            n == key.key@.len(),
            i <= n,
            acc == wrap(ciphertext.b - dot_prefix(ciphertext.a@, key.key@, i as nat)),
        decreases n - i,
    {
        let term = ring_mul(ciphertext.a[i], key.key[i]);
        proof {
            lemma_wrap_sub(
                ciphertext.b - dot_prefix(ciphertext.a@, key.key@, i as nat),
                ciphertext.a@[i as int] * key.key@[i as int],
            );
        }
        acc = ring_sub(acc, term);
        i = i + 1;
    }
    LwePlaintext { message: acc }
}

/// The sum of two ciphertexts of the same dimension: masks and bodies are
/// added in the ring. The result carries the configuration of the left one.
pub fn lwe_add(ciphertext_left: LweCiphertext, ciphertext_right: LweCiphertext) -> (c: LweCiphertext)
    requires
        ciphertext_left@.a.len() == ciphertext_right@.a.len(),
    ensures
        c@.wf(),
        c@.config == ciphertext_left@.config,
        c@.a == mask_add(ciphertext_left@.a, ciphertext_right@.a),
        c@.b == wrap(ciphertext_left@.b + ciphertext_right@.b),
{
    proof {
        use_type_invariant(&ciphertext_left);
    }
    let n = ciphertext_left.a.len();
    let mut a: Vec<i32> = Vec::new();
    let mut i: usize = 0;
    while i < n
        invariant
            n == ciphertext_left.a@.len(),
            n == ciphertext_right.a@.len(),
            i <= n,
            a@.len() == i,
            forall|j: int|
                0 <= j < i ==> a@[j] == wrap(ciphertext_left.a@[j] + ciphertext_right.a@[j]),
        decreases n - i,
    {
        a.push(ring_add(ciphertext_left.a[i], ciphertext_right.a[i]));
        i = i + 1;
    }
    let b = ring_add(ciphertext_left.b, ciphertext_right.b);
    assert(a@ =~= mask_add(ciphertext_left.a@, ciphertext_right.a@));
    LweCiphertext { config: ciphertext_left.config, a, b }
}

/// The difference of two ciphertexts of the same dimension: masks and bodies
/// are subtracted in the ring. The result carries the configuration of the
/// left one.
pub fn lwe_sub(ciphertext_left: LweCiphertext, ciphertext_right: LweCiphertext) -> (c: LweCiphertext)
    requires
        ciphertext_left@.a.len() == ciphertext_right@.a.len(),
    ensures
        c@.wf(),
        c@.config == ciphertext_left@.config,
        c@.a == mask_sub(ciphertext_left@.a, ciphertext_right@.a),
        c@.b == wrap(ciphertext_left@.b - ciphertext_right@.b),
{
    proof {
        use_type_invariant(&ciphertext_left);
    }
    let n = ciphertext_left.a.len();
    let mut a: Vec<i32> = Vec::new();
    let mut i: usize = 0;
    while i < n
        invariant
            n == ciphertext_left.a@.len(),
            n == ciphertext_right.a@.len(),
            i <= n,
            a@.len() == i,
            forall|j: int|
                0 <= j < i ==> a@[j] == wrap(ciphertext_left.a@[j] - ciphertext_right.a@[j]),
        decreases n - i,
    {
        a.push(ring_sub(ciphertext_left.a[i], ciphertext_right.a[i]));
        i = i + 1;
    }
    let b = ring_sub(ciphertext_left.b, ciphertext_right.b);
    assert(a@ =~= mask_sub(ciphertext_left.a@, ciphertext_right.a@));
    LweCiphertext { config: ciphertext_left.config, a, b }
}

/// The ciphertext multiplied by the public constant `c`: every component of
/// the mask and the body are multiplied by `c` in the ring.
pub fn lwe_plaintext_multiply(c: i32, ciphertext: LweCiphertext) -> (r: LweCiphertext)
    ensures
        r@.wf(),
        r@.config == ciphertext@.config,
        r@.a == mask_scale(c, ciphertext@.a),
        r@.b == wrap(ciphertext@.b * c),
{
    proof {
        use_type_invariant(&ciphertext);
    }
    let n = ciphertext.a.len();
    let mut a: Vec<i32> = Vec::new();
    let mut i: usize = 0;
    while i < n
        invariant
            n == ciphertext.a@.len(),
            i <= n,
            a@.len() == i,
            forall|j: int| 0 <= j < i ==> a@[j] == wrap(ciphertext.a@[j] * c),
        decreases n - i,
    {
        a.push(ring_mul(ciphertext.a[i], c));
        i = i + 1;
    }
    let b = ring_mul(ciphertext.b, c);
    assert(a@ =~= mask_scale(c, ciphertext.a@));
    LweCiphertext { config: ciphertext.config, a, b }
}

/// Draws a fresh secret key: one uniform bit per dimension.
pub fn generate_lwe_key(config: LweConfig) -> (key: LweEncryptionKey)
    ensures
        key@.wf(),
        key@.config == config,
{
    let mut rng = rand::thread_rng();
    let mut key: Vec<i32> = Vec::new();
    let mut i: i32 = 0;
    while i < config.dimension
        invariant
            0 <= i,
            i == 0 || i <= config.dimension,
            key@.len() == i,
            is_binary(key@),
        decreases config.dimension - i,
    {
        let bit = gen_range_inclusive(&mut rng, 0, 1);
        key.push(bit);
        i = i + 1;
    }
    LweEncryptionKey { config, key }
}

} // verus!
