//! Sound chunks: differential PCM in which every byte stands for the signed
//! square of a 7-bit difference.

use super::frame::signed_byte;
use vstd::prelude::*;

verus! {

/// The difference a byte stands for: the square of its low seven bits,
/// negative when the high bit is set.
pub open spec fn spec_square_lut(b: u8) -> int {
    if b < 128 {
        b * b
    } else {
        -((b - 128) * (b - 128))
    }
}

/// A sum of a sample and a difference brought back into 16 bits by
/// wrapping around.
pub open spec fn wrap16(sum: int) -> int {
    if sum > 32767 {
        sum - 65536
    } else if sum < -32768 {
        sum + 65536
    } else {
        sum
    }
}

/// The value a mono chunk's accumulator starts with: the low byte of the
/// chunk's argument, as the high byte of the sample.
pub open spec fn mono_seed(arg: u16) -> int {
    256 * signed_byte((arg & 0xFF) as int)
}

/// The value a stereo chunk's left accumulator starts with: the high byte
/// of the chunk's argument, as the high byte of the sample.
pub open spec fn left_seed(arg: u16) -> int {
    256 * signed_byte((arg >> 8) as int)
}

/// The value a stereo chunk's right accumulator starts with: the low byte
/// of the chunk's argument, as the high byte of the sample.
pub open spec fn right_seed(arg: u16) -> int {
    256 * signed_byte((arg & 0xFF) as int)
}

/// A channel's accumulator after `count` of its bytes: it starts at `seed`
/// and each byte adds its difference. The channel's bytes are those at
/// `first`, `first + step`, `first + 2 * step` and so on.
pub open spec fn channel(seed: int, bytes: Seq<u8>, first: int, step: int, count: nat) -> int
    decreases count,
{
    if count == 0 {
        seed
    } else {
        wrap16(
            channel(seed, bytes, first, step, (count - 1) as nat) + spec_square_lut(
                bytes[first + step * (count - 1)],
            ),
        )
    }
}

/// The samples of a mono chunk: one for each byte.
pub open spec fn mono_samples(bytes: Seq<u8>, arg: u16) -> Seq<i16> {
    Seq::new(bytes.len(), |i: int| channel(mono_seed(arg), bytes, 0, 1, (i + 1) as nat) as i16)
}

/// The samples of a stereo chunk: one for each byte of each whole pair,
/// left and right in turn.
pub open spec fn stereo_samples(bytes: Seq<u8>, arg: u16) -> Seq<i16> {
    Seq::new(
        ((bytes.len() / 2) * 2) as nat,
        |i: int|
            if i % 2 == 0 {
                channel(left_seed(arg), bytes, 0, 2, (i / 2 + 1) as nat) as i16
            } else {
                channel(right_seed(arg), bytes, 1, 2, (i / 2 + 1) as nat) as i16
            },
    )
}

/// The difference that byte `b` stands for.
pub fn square_lut(b: u8) -> (v: i16)
    ensures
        v == spec_square_lut(b),
        -16129 <= v <= 16129,
{
    if b < 128 {
        let d = b as i16;
        assert(0 <= d * d <= 16129) by (nonlinear_arith)
            requires
                0 <= d <= 127,
        ;
        d * d
    } else {
        let d = (b - 128) as i16;
        assert(0 <= d * d <= 16129) by (nonlinear_arith)
            requires
                0 <= d <= 127,
        ;
        -(d * d)
    }
}

/// A byte of a chunk's argument as the high byte of a sample.
fn seed_from(byte: u16) -> (seed: i16)
    requires
        byte <= 255,
    ensures
        seed == 256 * signed_byte(byte as int),
{
    if byte >= 128 {
        ((byte as i32 - 256) * 256) as i16
    } else {
        (byte * 256) as i16
    }
}

/// Decodes the payload of a mono sound chunk into `out`, replacing what it
/// held.
pub fn decode_mono(payload: &[u8], chunk_arg: u16, out: &mut Vec<i16>)
    ensures
        final(out)@ == mono_samples(payload@, chunk_arg),
{
    assert(chunk_arg & 0xFF <= 255) by (bit_vector);
    let seed = seed_from(chunk_arg & 0xFF);
    let mut snd = seed;
    out.clear();
    let mut i: usize = 0;
    while i < payload.len()
        invariant
            i <= payload@.len(),
            seed == mono_seed(chunk_arg),
            snd == channel(seed as int, payload@, 0, 1, i as nat),
            out@.len() == i,
            forall|k: int| 0 <= k < i ==> out@[k] == mono_samples(payload@, chunk_arg)[k],
        decreases payload@.len() - i,
    {
        snd = snd.wrapping_add(square_lut(payload[i]));
        out.push(snd);
        i = i + 1;
    }
    assert(out@ =~= mono_samples(payload@, chunk_arg));
}

/// Decodes the payload of a stereo sound chunk into `out`, replacing what
/// it held. A last byte without a partner is left out.
pub fn decode_stereo(payload: &[u8], chunk_arg: u16, out: &mut Vec<i16>)
    ensures
        final(out)@ == stereo_samples(payload@, chunk_arg),
{
    assert(chunk_arg >> 8 <= 255 && chunk_arg & 0xFF <= 255) by (bit_vector);
    let left = seed_from(chunk_arg >> 8);
    let right = seed_from(chunk_arg & 0xFF);
    let mut snd_left = left;
    let mut snd_right = right;
    let pairs = payload.len() / 2;
    out.clear();
    let mut i: usize = 0;
    while i < pairs
        invariant
            i <= pairs,
            pairs == payload@.len() / 2,
            payload@.len() <= usize::MAX,
            left == left_seed(chunk_arg),
            right == right_seed(chunk_arg),
            snd_left == channel(left as int, payload@, 0, 2, i as nat),
            snd_right == channel(right as int, payload@, 1, 2, i as nat),
            out@.len() == 2 * i,
            forall|k: int| 0 <= k < 2 * i ==> out@[k] == stereo_samples(payload@, chunk_arg)[k],
        decreases pairs - i,
    {
        snd_left = snd_left.wrapping_add(square_lut(payload[2 * i]));
        snd_right = snd_right.wrapping_add(square_lut(payload[2 * i + 1]));
        out.push(snd_left);
        out.push(snd_right);
        i = i + 1;
    }
    assert(out@ =~= stereo_samples(payload@, chunk_arg));
}

/// Channel `channel` of interleaved stereo samples: every second sample,
/// from the first for the left channel, 0, and from the second for the
/// right channel, 1.
pub open spec fn channel_of(samples: Seq<i16>, channel: int) -> Seq<i16> {
    Seq::new((samples.len() / 2) as nat, |i: int| samples[2 * i + channel])
}

/// Takes interleaved stereo samples apart into the left and the right
/// channel. A last sample without a partner is left out.
pub fn split_stereo(samples: &[i16]) -> (channels: (Vec<i16>, Vec<i16>))
    ensures
        channels.0@ == channel_of(samples@, 0),
        channels.1@ == channel_of(samples@, 1),
{
    let pairs = samples.len() / 2;
    let mut left: Vec<i16> = Vec::new();
    let mut right: Vec<i16> = Vec::new();
    let mut i: usize = 0;
    while i < pairs
        invariant
            i <= pairs,
            pairs == samples@.len() / 2,
            samples@.len() <= usize::MAX,
            left@.len() == i,
            right@.len() == i,
            forall|k: int| 0 <= k < i ==> left@[k] == samples@[2 * k],
            forall|k: int| 0 <= k < i ==> right@[k] == samples@[2 * k + 1],
        decreases pairs - i,
    {
        left.push(samples[2 * i]);
        right.push(samples[2 * i + 1]);
        i = i + 1;
    }
    assert(left@ =~= channel_of(samples@, 0));
    assert(right@ =~= channel_of(samples@, 1));
    (left, right)
}

} // verus!
