//! Codec tags of inbound voice packets and the per-source decoder profile.
use vstd::prelude::*;

verus! {

/// Sample rate every decoder is opened with, in Hz.
pub const SAMPLE_RATE: u32 = 48000;

/// Interleaved channels of every decoded frame (stereo).
pub const CHANNELS: usize = 2;

/// Samples per channel in one nominal 20 ms frame at 48 kHz.
pub const USUAL_FRAME_SIZE: usize = 960;

/// Length of the preallocated scratch buffer a decoder writes into.
pub const SCRATCH_LEN: usize = 48000;

/// Codec tag carried by an inbound audio packet.
#[derive(Clone, Copy, Debug, PartialEq, Eq, Structural)]
pub enum Codec {
    SpeexNarrowband,
    SpeexWideband,
    SpeexUltrawideband,
    CeltMono,
    OpusVoice,
    OpusMusic,
}

/// Only the two Opus profiles are decoded.
pub open spec fn supported(c: Codec) -> bool {
    c == Codec::OpusVoice || c == Codec::OpusMusic
}

impl Codec {
    /// Whether packets with this tag are decoded at all.
    pub fn is_supported(&self) -> (r: bool)
        ensures
            r == supported(*self),
    {
        match self {
            Codec::OpusVoice => true,
            Codec::OpusMusic => true,
            _ => false,
        }
    }
}

/// Number of interleaved samples kept from a decode that reported
/// `decoded` samples per channel into a scratch buffer of `scratch_len`.
pub open spec fn kept_len(scratch_len: int, decoded: int) -> int {
    if decoded * CHANNELS as int <= scratch_len {
        decoded * CHANNELS as int
    } else {
        scratch_len
    }
}

/// Cuts the scratch buffer of a decode down to the decoded frame:
/// `decoded` samples per channel, interleaved over `CHANNELS`.
pub fn decoded_frame(scratch: &Vec<i16>, decoded: usize) -> (r: Vec<i16>)
    ensures
        r@ == scratch@.take(kept_len(scratch@.len() as int, decoded as int)),
        decoded * CHANNELS <= scratch@.len() ==> r@.len() == decoded * CHANNELS,
{
    let keep: usize = if decoded <= scratch.len() / CHANNELS {
        decoded * CHANNELS
    } else {
        scratch.len()
    };
    let mut r: Vec<i16> = Vec::with_capacity(keep);
    let mut i: usize = 0;
    while i < keep
        invariant
            keep <= scratch@.len(),
            keep == kept_len(scratch@.len() as int, decoded as int),
            i <= keep,
            r@ == scratch@.take(i as int),
        decreases keep - i,
    {
        r.push(scratch[i]);
        i = i + 1;
        assert(r@ =~= scratch@.take(i as int));
    }
    r
}

} // verus!
