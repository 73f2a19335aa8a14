use vstd::prelude::*;
use crate::matrix::{Matrix, frames_of, is_rectangular};

verus! {

/// Size in bytes of one encoded sample.
pub const SAMPLE_BYTES: usize = 4;

/// The unsigned 32-bit word stored little-endian in the four bytes starting at
/// `at`.
pub open spec fn le_word(bytes: Seq<u8>, at: int) -> u32 {
    (bytes[at] + 256 * bytes[at + 1] + 65536 * bytes[at + 2] + 16777216 * bytes[at + 3]) as u32
}

/// Number of whole frames of `channels` four-byte samples in `len` bytes.
pub open spec fn frame_count(len: nat, channels: nat) -> nat {
    if channels == 0 {
        0
    } else {
        (len / 4) / channels
    }
}

/// The interleaved samples of `bytes`, split by channel: sample `f` of channel
/// `c` is the word of frame `f` at position `c`. A trailing partial frame is
/// left out.
pub open spec fn deinterleaved(bytes: Seq<u8>, channels: nat) -> Seq<Seq<u32>> {
    Seq::new(
        channels,
        |c: int|
            Seq::new(
                frame_count(bytes.len(), channels),
                |f: int| le_word(bytes, 4 * (f * channels + c)),
            ),
    )
}

/// Reads the little-endian word at byte `at`.
pub fn read_le_word(bytes: &[u8], at: usize) -> (r: u32)
    requires
        at + 4 <= bytes@.len(),
    ensures
        r == le_word(bytes@, at as int),
{
    let b0 = bytes[at] as u32;
    let b1 = bytes[at + 1] as u32;
    let b2 = bytes[at + 2] as u32;
    let b3 = bytes[at + 3] as u32;
    b0 + 256 * b1 + 65536 * b2 + 16777216 * b3
}

/// Splits the first `len` bytes of an interleaved buffer of four-byte
/// little-endian samples into one sequence per channel.
pub fn deinterleave(bytes: &[u8], len: usize, channels: usize) -> (r: Matrix<u32>)
    requires
        len <= bytes@.len(),
        channels > 0,
    ensures
        r.wf(),
        r@ == deinterleaved(bytes@.take(len as int), channels as nat),
{
    let ghost valid = bytes@.take(len as int);
    let frames = (len / SAMPLE_BYTES) / channels;
    assert(frames * channels <= len / 4) by (nonlinear_arith)
        requires
            frames == (len / 4) / channels,
            channels > 0,
    ;
    let mut rows: Vec<Vec<u32>> = Vec::with_capacity(channels);
    let mut c: usize = 0;
    while c < channels
        invariant
            c <= channels,
            len <= bytes@.len(),
            valid == bytes@.take(len as int),
            frames == frame_count(len as nat, channels as nat),
            frames * channels <= len / 4,
            rows@.len() == c,
            forall|k: int|
                0 <= k < c ==> #[trigger] rows@[k]@ == deinterleaved(valid, channels as nat)[k],
        decreases channels - c,
    {
        let mut row: Vec<u32> = Vec::with_capacity(frames);
        let mut f: usize = 0;
        while f < frames
            invariant
                f <= frames,
                c < channels,
                len <= bytes@.len(),
                valid == bytes@.take(len as int),
                frames == frame_count(len as nat, channels as nat),
                frames * channels <= len / 4,
                row@ == deinterleaved(valid, channels as nat)[c as int].take(f as int),
            decreases frames - f,
        {
            assert(4 * (f * channels + c) + 4 <= len) by (nonlinear_arith)
                requires
                    f < frames,
                    c < channels,
                    frames * channels <= len / 4,
            {
                assert(f * channels + c < (f + 1) * channels);
                assert((f + 1) * channels <= frames * channels);
            }
            let at = SAMPLE_BYTES * (f * channels + c);
            let w = read_le_word(bytes, at);
            assert(le_word(bytes@, at as int) == le_word(valid, at as int));
            row.push(w);
            f += 1;
            assert(row@ =~= deinterleaved(valid, channels as nat)[c as int].take(f as int));
        }
        assert(row@ =~= deinterleaved(valid, channels as nat)[c as int]);
        rows.push(row);
        c += 1;
    }
    let r = Matrix::init(rows);
    assert(r@ =~= deinterleaved(valid, channels as nat));
    assert(is_rectangular(r@)) by {
        assert(frames_of(r@) == frames);
    }
    r
}

} // verus!
