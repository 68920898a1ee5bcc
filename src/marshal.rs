//! Byte-level marshalling between the host and the compute kernel: the
//! little-endian parameter block, shader words, and pixel readback.

use vstd::prelude::*;
use crate::frame::{Frame, RenderError};

verus! {

/// Byte `k` (0 is least significant) of the little-endian form of `w`.
pub open spec fn byte_of(w: u32, k: int) -> u8 {
    if k == 0 {
        (w % 256) as u8
    } else if k == 1 {
        ((w / 256) % 256) as u8
    } else if k == 2 {
        ((w / 65536) % 256) as u8
    } else {
        (w / 16777216) as u8
    }
}

/// The little-endian bytes of a word sequence, four per word.
pub open spec fn encodes_le(words: Seq<u32>, bytes: Seq<u8>) -> bool {
    &&& bytes.len() == 4 * words.len()
    &&& forall|i: int| 0 <= i < bytes.len() ==> #[trigger] bytes[i] == byte_of(words[i / 4], i % 4)
}

/// The word whose little-endian bytes start at `bytes[at]`.
pub open spec fn word_at(bytes: Seq<u8>, at: int) -> u32 {
    (bytes[at] as int + 256 * bytes[at + 1] as int + 65536 * bytes[at + 2] as int
        + 16777216 * bytes[at + 3] as int) as u32
}

/// Pixel `k` of `dst` is pixel `k` of `src` with its first and third byte
/// exchanged.
pub open spec fn pixel_swapped(src: Seq<u8>, dst: Seq<u8>, k: int) -> bool {
    &&& dst[4 * k] == src[4 * k + 2]
    &&& dst[4 * k + 1] == src[4 * k + 1]
    &&& dst[4 * k + 2] == src[4 * k]
    &&& dst[4 * k + 3] == src[4 * k + 3]
}

/// Appends the four little-endian bytes of `w`.
fn push_word_le(out: &mut Vec<u8>, w: u32)
    ensures
        final(out)@.len() == old(out)@.len() + 4,
        forall|i: int| 0 <= i < old(out)@.len() ==> final(out)@[i] == old(out)@[i],
        forall|k: int| 0 <= k < 4 ==> final(out)@[old(out)@.len() + k] == byte_of(w, k),
{
    out.push((w % 256) as u8);
    out.push(((w / 256) % 256) as u8);
    out.push(((w / 65536) % 256) as u8);
    out.push((w / 16777216) as u8);
}

/// Encodes words as little-endian bytes.
pub fn encode_words_le(words: &[u32]) -> (r: Vec<u8>)
    requires
        words@.len() * 4 <= usize::MAX,
    ensures
        encodes_le(words@, r@),
{
    let mut out: Vec<u8> = Vec::new();
    let mut j: usize = 0;
    while j < words.len()
        invariant
            j <= words@.len(),
            words@.len() * 4 <= usize::MAX,
            out@.len() == 4 * j,
            forall|i: int| 0 <= i < out@.len() ==> #[trigger] out@[i] == byte_of(words@[i / 4], i % 4),
        decreases words@.len() - j,
    {
        let ghost prev = out@;
        push_word_le(&mut out, words[j]);
        assert forall|i: int| 0 <= i < out@.len() implies #[trigger] out@[i] == byte_of(
            words@[i / 4],
            i % 4,
        ) by {
            if i >= prev.len() {
                assert(i / 4 == j as int);
                assert(out@[prev.len() + (i - prev.len())] == byte_of(words@[j as int], i - prev.len()));
            } else {
                assert(out@[i] == prev[i]);
            }
        }
        j = j + 1;
    }
    out
}

/// The compute kernel's parameter block: width, height, iteration bound,
/// and the single-precision bit patterns of the center's real and imaginary
/// parts and of the zoom, as six little-endian words (24 bytes).
pub fn param_block(frame: &Frame, center_re_bits: u32, center_im_bits: u32, zoom_bits: u32) -> (r: Vec<u8>)
    ensures
        encodes_le(
            seq![frame.width, frame.height, frame.max_iter, center_re_bits, center_im_bits, zoom_bits],
            r@,
        ),
        r@.len() == 24,
{
    let words: [u32; 6] = [frame.width, frame.height, frame.max_iter, center_re_bits, center_im_bits, zoom_bits];
    let r = encode_words_le(&words);
    assert(words@ =~= seq![frame.width, frame.height, frame.max_iter, center_re_bits, center_im_bits, zoom_bits]);
    r
}

/// Decodes little-endian 32-bit words, as a shader binary is stored; `None`
/// when the length is not a multiple of four.
pub fn decode_words_le(bytes: &[u8]) -> (r: Option<Vec<u32>>)
    ensures
        r is None <==> bytes@.len() % 4 != 0,
        r matches Some(ws) ==> ws@.len() == bytes@.len() / 4 && forall|k: int|
            0 <= k < ws@.len() ==> #[trigger] ws@[k] == word_at(bytes@, 4 * k),
{
    if bytes.len() % 4 != 0 {
        return None;
    }
    let len: usize = bytes.len();
    let n: usize = len / 4;
    let mut ws: Vec<u32> = Vec::new();
    let mut k: usize = 0;
    while k < n
        invariant
            n == bytes@.len() / 4,
            4 * n == bytes@.len(),
            len == bytes@.len(),
            k <= n,
            ws@.len() == k,
            forall|j: int| 0 <= j < k ==> #[trigger] ws@[j] == word_at(bytes@, 4 * j),
        decreases n - k,
    {
        let at: usize = 4 * k;
        let w: u32 = bytes[at] as u32 + 256 * (bytes[at + 1] as u32) + 65536 * (bytes[at + 2] as u32)
            + 16777216 * (bytes[at + 3] as u32);
        ws.push(w);
        k = k + 1;
    }
    Some(ws)
}

/// A word is recovered from its four little-endian bytes.
pub proof fn lemma_word_round_trip(w: u32)
    ensures
        word_at(seq![byte_of(w, 0), byte_of(w, 1), byte_of(w, 2), byte_of(w, 3)], 0) == w,
{
    let s = seq![byte_of(w, 0), byte_of(w, 1), byte_of(w, 2), byte_of(w, 3)];
    assert(s[0] == byte_of(w, 0) && s[1] == byte_of(w, 1) && s[2] == byte_of(w, 2) && s[3] == byte_of(w, 3));
    let x = w as int;
    assert(x == x % 256 + 256 * ((x / 256) % 256) + 65536 * ((x / 65536) % 256) + 16777216 * (x / 16777216))
        by (nonlinear_arith)
        requires
            0 <= x < 0x1_0000_0000,
    ;
}

/// Decoding the little-endian bytes of a word sequence gives the words back.
pub proof fn lemma_words_round_trip(words: Seq<u32>, bytes: Seq<u8>)
    requires
        encodes_le(words, bytes),
    ensures
        bytes.len() % 4 == 0,
        bytes.len() / 4 == words.len(),
        forall|k: int| 0 <= k < words.len() ==> #[trigger] word_at(bytes, 4 * k) == words[k],
{
    assert forall|k: int| 0 <= k < words.len() implies #[trigger] word_at(bytes, 4 * k) == words[k] by {
        let w = words[k];
        lemma_word_round_trip(w);
        let s = seq![byte_of(w, 0), byte_of(w, 1), byte_of(w, 2), byte_of(w, 3)];
        assert forall|i: int| 0 <= i < 4 implies bytes[4 * k + i] == #[trigger] s[i] by {
            assert(bytes[4 * k + i] == byte_of(words[(4 * k + i) / 4], (4 * k + i) % 4));
            assert((4 * k + i) / 4 == k);
            assert((4 * k + i) % 4 == i);
        }
        assert(bytes[4 * k] == s[0]);
        assert(bytes[4 * k + 1] == s[1]);
        assert(bytes[4 * k + 2] == s[2]);
        assert(bytes[4 * k + 3] == s[3]);
    }
}

/// Exchanges the first and third byte of each of the first `n` pixels.
fn swap_pixels(data: &[u8], n: usize) -> (r: Vec<u8>)
    requires
        4 * n <= data@.len(),
    ensures
        r@.len() == 4 * n,
        forall|k: int| 0 <= k < n ==> #[trigger] pixel_swapped(data@, r@, k),
{
    let len: usize = data.len();
    let mut out: Vec<u8> = Vec::new();
    let mut k: usize = 0;
    while k < n
        invariant
            4 * n <= data@.len(),
            len == data@.len(),
            k <= n,
            out@.len() == 4 * k,
            forall|j: int| 0 <= j < k ==> #[trigger] pixel_swapped(data@, out@, j),
        decreases n - k,
    {
        let at: usize = 4 * k;
        let ghost prev = out@;
        out.push(data[at + 2]);
        out.push(data[at + 1]);
        out.push(data[at]);
        out.push(data[at + 3]);
        assert forall|j: int| 0 <= j < k + 1 implies #[trigger] pixel_swapped(data@, out@, j) by {
            if j < k {
                assert(pixel_swapped(data@, prev, j));
            }
        }
        k = k + 1;
    }
    out
}

/// Turns device pixels stored as BGRA into RGBA, pixel by pixel; trailing
/// bytes that do not make up a whole pixel are left out.
pub fn bgra_to_rgba(data: &[u8]) -> (r: Vec<u8>)
    ensures
        r@.len() == 4 * (data@.len() / 4),
        forall|k: int| 0 <= k < data@.len() / 4 ==> #[trigger] pixel_swapped(data@, r@, k),
{
    swap_pixels(data, data.len() / 4)
}

/// The frame's RGBA pixels out of the device's BGRA output buffer;
/// `DispatchFailure` when the buffer is shorter than the frame.
pub fn read_frame(frame: &Frame, data: &[u8]) -> (r: Result<Vec<u8>, RenderError>)
    ensures
        r is Err <==> data@.len() < frame.bytes(),
        r matches Err(e) ==> e == RenderError::DispatchFailure,
        r matches Ok(px) ==> px@.len() == frame.bytes() && forall|k: int|
            0 <= k < frame.pixels() ==> #[trigger] pixel_swapped(data@, px@, k),
{
    let w: u64 = frame.width as u64;
    let h: u64 = frame.height as u64;
    assert(w * h <= 0xffff_ffff_u64 * 0xffff_ffff_u64) by (nonlinear_arith)
        requires
            w <= 0xffff_ffff_u64,
            h <= 0xffff_ffff_u64,
    ;
    let n: u64 = w * h;
    if n > (data.len() / 4) as u64 {
        return Err(RenderError::DispatchFailure);
    }
    Ok(swap_pixels(data, n as usize))
}

} // verus!
