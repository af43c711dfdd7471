//! Fixed-point side of the format conversion of played samples, and the
//! byte layout of 16-bit PCM.
use vstd::prelude::*;

use crate::codec::{kept_len, CHANNELS};

verus! {

/// Bound the scaled sample is clamped to before it is narrowed to 16 bits.
/// It lies outside the 16-bit range, so the narrowing saturates there.
pub const CLAMP_LIMIT: i64 = 65535;

/// Fixed-point value of a sample already scaled by `65535 * 1.6` and
/// truncated toward zero: clamped to `[-CLAMP_LIMIT, CLAMP_LIMIT]`, then
/// narrowed to 16 bits with saturation.
pub open spec fn fixed_of(v: int) -> i16 {
    let c = if v > CLAMP_LIMIT {
        CLAMP_LIMIT as int
    } else if v < -CLAMP_LIMIT {
        -CLAMP_LIMIT as int
    } else {
        v
    };
    if c > 32767 {
        32767i16
    } else if c < -32768 {
        -32768i16
    } else {
        c as i16
    }
}

/// Converts one scaled, truncated sample.
pub fn fixed_from_scaled(v: i64) -> (r: i16)
    ensures
        r == fixed_of(v as int),
{
    let c: i64 = if v > CLAMP_LIMIT {
        CLAMP_LIMIT
    } else if v < -CLAMP_LIMIT {
        -CLAMP_LIMIT
    } else {
        v
    };
    if c > 32767 {
        32767
    } else if c < -32768 {
        -32768
    } else {
        c as i16
    }
}

/// Converts a whole buffer of scaled samples; the length is kept.
pub fn fixed_buffer(scaled: &Vec<i64>) -> (r: Vec<i16>)
    ensures
        r@.len() == scaled@.len(),
        forall|i: int| 0 <= i < r@.len() ==> r@[i] == fixed_of(scaled@[i] as int),
{
    let mut r: Vec<i16> = Vec::with_capacity(scaled.len());
    let mut i: usize = 0;
    while i < scaled.len()
        invariant
            i <= scaled@.len(),
            r@.len() == i,
            forall|k: int| 0 <= k < i ==> r@[k] == fixed_of(scaled@[k] as int),
        decreases scaled@.len() - i,
    {
        r.push(fixed_from_scaled(scaled[i]));
        i = i + 1;
    }
    r
}

/// Low byte of a sample in two's complement.
pub open spec fn low_byte(s: i16) -> u8 {
    ((s as u16) % 256) as u8
}

/// High byte of a sample in two's complement.
pub open spec fn high_byte(s: i16) -> u8 {
    ((s as u16) / 256) as u8
}

/// Raw little-endian bytes of 16-bit PCM, two per sample.
pub fn pcm_to_le_bytes(pcm: &Vec<i16>) -> (r: Vec<u8>)
    requires
        pcm@.len() * 2 <= usize::MAX,
    ensures
        r@.len() == 2 * pcm@.len(),
        forall|i: int|
            0 <= i < pcm@.len() ==> r@[2 * i] == low_byte(pcm@[i]) && r@[2 * i + 1] == high_byte(
                pcm@[i],
            ),
{
    let mut r: Vec<u8> = Vec::with_capacity(pcm.len() * 2);
    let mut i: usize = 0;
    while i < pcm.len()
        invariant
            i <= pcm@.len(),
            r@.len() == 2 * i,
            forall|k: int|
                0 <= k < i ==> r@[2 * k] == low_byte(pcm@[k]) && r@[2 * k + 1] == high_byte(
                    pcm@[k],
                ),
        decreases pcm@.len() - i,
    {
        let u = pcm[i] as u16;
        r.push((u % 256) as u8);
        r.push((u / 256) as u8);
        i = i + 1;
    }
    r
}

/// A frame of `decoded` samples per channel, cut from a scratch buffer that
/// holds it, takes `2 * decoded * CHANNELS` bytes once laid out as 16-bit
/// PCM.
pub proof fn lemma_decoded_frame_bytes(scratch_len: int, decoded: int)
    requires
        0 <= decoded,
        decoded * CHANNELS <= scratch_len,
    ensures
        2 * kept_len(scratch_len, decoded) == 2 * decoded * CHANNELS,
{
}

} // verus!
