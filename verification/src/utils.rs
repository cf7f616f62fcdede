//! Uniform sampling of ring elements, and the message encoding.

use rand::rngs::ThreadRng;
use rand::Rng;
use vstd::prelude::*;

verus! {

/// `rand::rngs::ThreadRng`, the handle to the generator of the running
/// thread. Nothing is known of its state.
#[verifier::external_type_specification]
#[verifier::external_body]
pub struct ExThreadRng(ThreadRng);

/// `rand::thread_rng` hands out the generator of the running thread. Nothing
/// is claimed of the handle.
pub assume_specification[ rand::thread_rng ]() -> (rng: ThreadRng);

/// `Rng::gen_range` on the inclusive range `low..=high`. It panics on an
/// empty range, which the precondition rules out, and otherwise returns some
/// value of the range. Which one is left open.
#[verifier::external_body]
pub(crate) fn gen_range_inclusive(rng: &mut ThreadRng, low: i32, high: i32) -> (r: i32)
    requires
        low <= high,
    ensures
        low <= r <= high,
{
    rng.gen_range(low..=high)
}

/// Draws `size` ring elements, each uniform over all of `i32`. A `size`
/// below one gives the empty vector.
pub fn uniform_sample_int32(size: i32) -> (v: Vec<i32>)
    ensures
        v@.len() == if size > 0 { size as nat } else { 0 },
{
    let mut rng = rand::thread_rng();
    let mut v: Vec<i32> = Vec::new();
    let mut i: i32 = 0;
    while i < size
        invariant
            0 <= i,
            i == 0 || i <= size,
            v@.len() == i,
        decreases size - i,
    {
        let x = gen_range_inclusive(&mut rng, i32::MIN, i32::MAX);
        v.push(x);
        i = i + 1;
    }
    v
}

/// The factor that lifts a message into the top three bits of a ring
/// element: 2^29.
pub const SCALE: i32 = 0x2000_0000;

/// Half the scale factor, 2^28: the noise that decoding cannot absorb.
pub const HALF_SCALE: i32 = 0x1000_0000;

/// An attempt to encode a message outside `[-4, 4)`.
#[derive(Debug, Clone, Copy, PartialEq, Eq)]
pub struct DomainError {
    /// The message that was refused.
    pub message: i32,
}

/// The messages that can be encoded: the integers in `[-4, 4)`.
pub open spec fn in_domain(message: int) -> bool {
    -4 <= message < 4
}

/// The encoding of a message: the message times 2^29.
pub open spec fn encode_spec(message: int) -> int {
    message * SCALE
}

/// `x / 2^29` rounded to the nearest integer, a tie going away from zero.
pub open spec fn round_to_scale(x: int) -> int {
    if x >= 0 {
        (x + HALF_SCALE) / (SCALE as int)
    } else {
        -((HALF_SCALE - x) / (SCALE as int))
    }
}

/// The integer in `[-4, 4)` that is congruent to `d` modulo 8.
pub open spec fn center(d: int) -> int {
    (d + 4) % 8 - 4
}

/// The message that a ring element decodes to.
pub open spec fn decode_spec(x: int) -> int {
    center(round_to_scale(x))
}

/// Lifts a message into a ring element. A message outside `[-4, 4)` is
/// refused.
pub fn encode(message: i32) -> (r: Result<i32, DomainError>)
    ensures
        match r {
            Ok(x) => in_domain(message as int) && x == encode_spec(message as int),
            Err(e) => !in_domain(message as int) && e.message == message,
        },
{
    if message >= -4 && message < 4 {
        Ok(message * SCALE)
    } else {
        Err(DomainError { message })
    }
}

/// Reads the message off a ring element: divides by 2^29, rounds to the
/// nearest integer and reduces into `[-4, 4)`.
pub fn decode(message: i32) -> (r: i32)
    ensures
        r == decode_spec(message as int),
{
    let wide: i64 = message as i64;
    let half: i64 = HALF_SCALE as i64;
    let scale: i64 = SCALE as i64;
    let d: i64 = if wide >= 0 {
        (wide + half) / scale
    } else {
        -((half - wide) / scale)
    };
    let r: i64 = (d + 4) % 8 - 4;
    r as i32
}

} // verus!
