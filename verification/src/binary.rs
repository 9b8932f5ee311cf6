//! The binary wire format: one sample in two bytes, low byte first.
//!
//! The device's converter has ten bits, so a frame is valid when its value is
//! below 1024.  Other frames are line noise and are left out without a
//! diagnostic.

use vstd::prelude::*;
use crate::decoder::Decoded;

verus! {

/// The number of bytes in a frame.
pub const FRAME_BYTES: usize = 2;

/// The first value that the device's converter cannot produce.
pub const ADC_LIMIT: u64 = 1024;

/// The unsigned 16-bit number that a frame holds, low byte first.
pub open spec fn frame_value(low: u8, high: u8) -> u64 {
    (low + 256 * high) as u64
}

pub open spec fn in_range(raw: u64) -> bool {
    raw < ADC_LIMIT
}

/// The number of whole frames in `bytes`.
pub open spec fn frame_count(bytes: Seq<u8>) -> int {
    bytes.len() as int / 2
}

/// The values of the whole frames in `bytes`, in order.  An odd byte at the
/// end belongs to a frame that has not fully arrived and is left out.
pub open spec fn frames_of(bytes: Seq<u8>) -> Seq<u64> {
    Seq::new(frame_count(bytes) as nat, |k: int| frame_value(bytes[2 * k], bytes[2 * k + 1]))
}

/// The samples that `bytes` yield: the values of the valid frames, in order.
pub open spec fn binary_samples_of(bytes: Seq<u8>) -> Seq<u64> {
    frames_of(bytes).filter(|raw: u64| in_range(raw))
}

/// Decodes one frame.  Returns its raw value, or nothing where the value is
/// out of the converter's range.
pub fn decode_frame(low: u8, high: u8) -> (sample: Option<u64>)
    ensures
        sample == if in_range(frame_value(low, high)) {
            Some(frame_value(low, high))
        } else {
            None
        },
{
    let raw: u64 = low as u64 + 256 * (high as u64);
    if raw < ADC_LIMIT {
        Some(raw)
    } else {
        None
    }
}

/// One decoding pass over the bytes of whole frames.  An odd byte at the end
/// is not taken: it stays with the transport until its frame is complete.
pub fn decode_frames(input: &[u8]) -> (pass: Decoded)
    ensures
        pass.samples@ == binary_samples_of(input@),
        pass.accepted == FRAME_BYTES * frame_count(input@),
        pass.unrecognized@ == Seq::<u8>::empty(),
        !pass.frame_overflow,
{
    let frames: usize = input.len() / FRAME_BYTES;
    let mut samples: Vec<u64> = Vec::new();
    let mut k: usize = 0;
    proof {
        assert(frames_of(input@).take(0) =~= Seq::<u64>::empty());
        reveal(Seq::filter);
    }
    while k < frames
        invariant
            k <= frames,
            frames == frame_count(input@),
            samples@ == frames_of(input@).take(k as int).filter(|raw: u64| in_range(raw)),
        decreases frames - k,
    {
        let sample = decode_frame(input[2 * k], input[2 * k + 1]);
        proof {
            let all = frames_of(input@);
            assert(all.take(k + 1) =~= all.take(k as int).push(all[k as int]));
            all.take(k as int).lemma_filter_push(all[k as int], |raw: u64| in_range(raw));
        }
        match sample {
            Some(raw) => {
                samples.push(raw);
            },
            None => {},
        }
        k += 1;
    }
    assert(frames_of(input@).take(frames as int) =~= frames_of(input@));
    Decoded { samples, accepted: FRAME_BYTES * frames, unrecognized: Vec::new(), frame_overflow: false }
}

/// Every sample of the binary format is within the converter's range.
pub proof fn lemma_binary_samples_in_range(bytes: Seq<u8>)
    ensures
        forall|i: int|
            0 <= i < binary_samples_of(bytes).len() ==> in_range(
                #[trigger] binary_samples_of(bytes)[i],
            ),
        binary_samples_of(bytes).len() <= frame_count(bytes),
{
    let valid = |raw: u64| in_range(raw);
    frames_of(bytes).lemma_filter_len(valid);
    assert forall|i: int| 0 <= i < binary_samples_of(bytes).len() implies in_range(
        #[trigger] binary_samples_of(bytes)[i],
    ) by {
        frames_of(bytes).lemma_filter_pred(valid, i);
    }
}

/// Whole frames decode the same whether they arrive in one read or in two:
/// where `first` ends on a frame boundary, the samples of `first + second`
/// are those of `first` followed by those of `second`.
pub proof fn lemma_binary_split(first: Seq<u8>, second: Seq<u8>)
    requires
        first.len() % 2 == 0,
    ensures
        binary_samples_of(first + second) == binary_samples_of(first) + binary_samples_of(second),
{
    let valid = |raw: u64| in_range(raw);
    assert(frames_of(first + second) =~= frames_of(first) + frames_of(second));
    Seq::filter_distributes_over_add(frames_of(first), frames_of(second), valid);
}

/// An odd byte at the end yields nothing: `bytes` decode as their whole
/// frames do.
pub proof fn lemma_binary_odd_byte_left(bytes: Seq<u8>)
    ensures
        binary_samples_of(bytes) == binary_samples_of(bytes.take(2 * frame_count(bytes))),
{
    assert(frames_of(bytes) =~= frames_of(bytes.take(2 * frame_count(bytes))));
}

} // verus!
