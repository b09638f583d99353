//! Byte encodings of a frame: raw RGB, RGBA with an opaque alpha channel,
//! and the binary portable pixmap.
//!
//! A channel is turned into a byte by a quantizer: `to_byte`, or one that
//! the caller supplies. The contracts speak of a quantizer through its
//! postcondition and fix where each byte stands.

use vstd::prelude::*;
use vstd::view::View as _;
use num_traits::{Float, Num};
use crate::geometry::GVec;
use crate::render::{lemma_grid_position, Frame, View};
use crate::scalar::{
    is_max, is_min, is_natural, is_one, is_rounded, is_u8_of, is_zero, max, min, multiplies,
    natural, one, round, to_u8, total, zero, Scalar,
};

verus! {

/// The decimal digits of `n` in ASCII, most significant first, without
/// leading zeros.
pub open spec fn decimal(n: nat) -> Seq<u8>
    decreases n,
{
    if n < 10 {
        seq![(48 + n) as u8]
    } else {
        decimal(n / 10).push((48 + n % 10) as u8)
    }
}

/// The header of a binary portable pixmap of the given size with 8-bit
/// channels: `P6`, the width and the height in decimal, and `255`, each
/// followed by a line feed but the width, which a space follows.
pub open spec fn ppm_header(width: nat, height: nat) -> Seq<u8> {
    seq![0x50u8, 0x36u8, 0x0au8] + decimal(width) + seq![0x20u8] + decimal(height) + seq![
        0x0au8,
        0x32u8,
        0x35u8,
        0x35u8,
        0x0au8,
    ]
}

/// `bytes` holds the three channels of each pixel of `pixels`, pixel after
/// pixel, each channel as the quantizer gives it.
pub open spec fn is_rgb<T, Q: Fn(T) -> u8>(pixels: Seq<GVec<T, 3>>, quantize: Q, bytes: Seq<u8>) -> bool {
    &&& bytes.len() == 3 * pixels.len()
    &&& forall|p: int|
        0 <= p < bytes.len() ==> call_ensures(quantize, (pixels[p / 3]@[p % 3],), #[trigger] bytes[p])
}

/// `bytes` holds four bytes for each pixel of `pixels`, pixel after pixel:
/// the three channels as the quantizer gives them, then 255.
pub open spec fn is_rgba<T, Q: Fn(T) -> u8>(pixels: Seq<GVec<T, 3>>, quantize: Q, bytes: Seq<u8>) -> bool {
    &&& bytes.len() == 4 * pixels.len()
    &&& forall|p: int|
        0 <= p < bytes.len() ==> if p % 4 == 3 {
            #[trigger] bytes[p] == 255
        } else {
            call_ensures(quantize, (pixels[p / 4]@[p % 4],), bytes[p])
        }
}

/// `bytes` is the binary portable pixmap of `frame`: the header for its
/// size, then its pixels as RGB bytes.
pub open spec fn is_ppm<T, Q: Fn(T) -> u8>(frame: Frame<T>, quantize: Q, bytes: Seq<u8>) -> bool {
    let header = ppm_header(frame.width_of(), frame.height_of());
    &&& header.len() <= bytes.len()
    &&& bytes.subrange(0, header.len() as int) == header
    &&& is_rgb(frame.pixels(), quantize, bytes.subrange(header.len() as int, bytes.len() as int))
}

/// The quantizer accepts every channel of every pixel.
pub open spec fn quantizes<T, Q: Fn(T) -> u8>(pixels: Seq<GVec<T, 3>>, quantize: Q) -> bool {
    forall|k: int, c: int|
        0 <= k < pixels.len() && 0 <= c < 3 ==> call_requires(quantize, (#[trigger] pixels[k]@[c],))
}

/// The byte that a conversion gave, or zero where it gave none.
pub open spec fn byte_of(converted: Option<u8>) -> u8 {
    match converted {
        Some(byte) => byte,
        None => 0,
    }
}

/// `out` is the byte of the linear channel `channel`: the channel kept
/// between zero and one, scaled to 255, rounded to the nearest whole number
/// and converted, and zero where the conversion gives nothing.
pub open spec fn is_byte<T: Float + Num + Scalar>(channel: T, out: u8) -> bool {
    exists|o: T, z: T, top: T, capped: T, clamped: T, scaled: T, rounded: T, converted: Option<u8>|
        #![trigger is_min(o, channel, capped), is_max(z, capped, clamped), multiplies(top, clamped, scaled), is_rounded(scaled, rounded), is_u8_of(rounded, converted)]
        {
            &&& is_one(o)
            &&& is_zero(z)
            &&& is_natural(255, top)
            &&& is_min(o, channel, capped)
            &&& is_max(z, capped, clamped)
            &&& multiplies(top, clamped, scaled)
            &&& is_rounded(scaled, rounded)
            &&& is_u8_of(rounded, converted)
            &&& out == byte_of(converted)
        }
}

/// The byte of a linear channel: the channel kept between zero and one,
/// scaled to 255 and rounded.
pub fn to_byte<T: Float + Num + Scalar>(channel: T) -> (out: u8)
    requires
        total::<T>(),
    ensures
        is_byte(channel, out),
{
    let o: T = one();
    let z: T = zero();
    let top: T = natural(255);
    let capped: T = min(o, channel);
    let clamped: T = max(z, capped);
    let scaled: T = top * clamped;
    let rounded: T = round(scaled);
    match to_u8(rounded) {
        Some(byte) => byte,
        None => 0,
    }
}

/// The decimal digits of `n` in ASCII.
pub fn decimal_digits(n: usize) -> (out: Vec<u8>)
    ensures
        out@ == decimal(n as nat),
    decreases n,
{
    if n < 10 {
        let digit: u8 = 48 + n as u8;
        vec![digit]
    } else {
        let mut out = decimal_digits(n / 10);
        let digit: u8 = 48 + (n % 10) as u8;
        out.push(digit);
        out
    }
}

/// The header of a binary portable pixmap of the given size.
pub fn header(width: usize, height: usize) -> (out: Vec<u8>)
    ensures
        out@ == ppm_header(width as nat, height as nat),
{
    let mut out: Vec<u8> = vec![0x50u8, 0x36u8, 0x0au8];
    let mut columns = decimal_digits(width);
    out.append(&mut columns);
    out.push(0x20u8);
    let mut rows = decimal_digits(height);
    out.append(&mut rows);
    let mut depth: Vec<u8> = vec![0x0au8, 0x32u8, 0x35u8, 0x35u8, 0x0au8];
    out.append(&mut depth);
    out
}

impl<T: Copy> Frame<T> {
    /// The pixels as RGB bytes in row-major order, appended to `out`.
    fn push_rgb<Q: Fn(T) -> u8>(&self, quantize: &Q, out: &mut Vec<u8>)
        requires
            quantizes(self.pixels(), *quantize),
        ensures
            old(out)@.len() <= final(out)@.len(),
            final(out)@.subrange(0, old(out)@.len() as int) == old(out)@,
            is_rgb(
                self.pixels(),
                *quantize,
                final(out)@.subrange(old(out)@.len() as int, final(out)@.len() as int),
            ),
    {
        let pixels = self.framebuffer();
        let ghost start = out@;
        let mut k: usize = 0;
        while k < pixels.len()
            invariant
                k <= pixels@.len(),
                pixels@ == self.pixels(),
                quantizes(pixels@, *quantize),
                out@.len() == start.len() + 3 * k,
                out@.subrange(0, start.len() as int) == start,
                forall|p: int|
                    0 <= p < 3 * k ==> call_ensures(
                        *quantize,
                        (pixels@[p / 3]@[p % 3],),
                        #[trigger] out@[start.len() + p],
                    ),
            decreases pixels@.len() - k,
        {
            let pixel = pixels[k];
            assert(call_requires(*quantize, (pixels@[k as int]@[0],)));
            assert(call_requires(*quantize, (pixels@[k as int]@[1],)));
            assert(call_requires(*quantize, (pixels@[k as int]@[2],)));
            out.push(quantize(pixel.0[0]));
            out.push(quantize(pixel.0[1]));
            out.push(quantize(pixel.0[2]));
            k += 1;
        }
        proof {
            let tail = out@.subrange(start.len() as int, out@.len() as int);
            assert forall|p: int| 0 <= p < tail.len() implies call_ensures(
                *quantize,
                (self.pixels()[p / 3]@[p % 3],),
                #[trigger] tail[p],
            ) by {
                assert(tail[p] == out@[start.len() + p]);
            }
        }
    }

    /// The pixels as RGB bytes in row-major order.
    pub fn as_rgb_with<Q: Fn(T) -> u8>(&self, quantize: Q) -> (out: Vec<u8>)
        requires
            quantizes(self.pixels(), quantize),
        ensures
            is_rgb(self.pixels(), quantize, out@),
    {
        let mut out: Vec<u8> = Vec::new();
        self.push_rgb(&quantize, &mut out);
        assert(out@.subrange(0, out@.len() as int) =~= out@);
        out
    }

    /// The binary portable pixmap of the frame.
    pub fn to_ppm_with<Q: Fn(T) -> u8>(&self, quantize: Q) -> (out: Vec<u8>)
        requires
            quantizes(self.pixels(), quantize),
        ensures
            is_ppm(*self, quantize, out@),
    {
        let mut out = header(self.width(), self.height());
        self.push_rgb(&quantize, &mut out);
        out
    }

    /// The pixels as RGBA bytes in row-major order, alpha at 255.
    pub fn as_u8_with<Q: Fn(T) -> u8>(&self, quantize: Q) -> (out: Vec<u8>)
        requires
            quantizes(self.pixels(), quantize),
        ensures
            is_rgba(self.pixels(), quantize, out@),
    {
        let pixels = self.framebuffer();
        let mut out: Vec<u8> = Vec::new();
        let mut k: usize = 0;
        while k < pixels.len()
            invariant
                k <= pixels@.len(),
                pixels@ == self.pixels(),
                quantizes(pixels@, quantize),
                is_rgba(pixels@.subrange(0, k as int), quantize, out@),
            decreases pixels@.len() - k,
        {
            let pixel = pixels[k];
            assert(call_requires(quantize, (pixels@[k as int]@[0],)));
            assert(call_requires(quantize, (pixels@[k as int]@[1],)));
            assert(call_requires(quantize, (pixels@[k as int]@[2],)));
            out.push(quantize(pixel.0[0]));
            out.push(quantize(pixel.0[1]));
            out.push(quantize(pixel.0[2]));
            out.push(255u8);
            k += 1;
        }
        out
    }
}

impl<T: Float + Num + Scalar> Frame<T> {
    /// The pixels as RGB bytes in row-major order, each channel as `to_byte`
    /// gives it.
    pub fn as_rgb(&self) -> (out: Vec<u8>)
        requires
            total::<T>(),
        ensures
            is_rgb(self.pixels(), to_byte::<T>, out@),
    {
        self.as_rgb_with(to_byte::<T>)
    }

    /// The binary portable pixmap of the frame, each channel as `to_byte`
    /// gives it.
    pub fn to_ppm(&self) -> (out: Vec<u8>)
        requires
            total::<T>(),
        ensures
            is_ppm(*self, to_byte::<T>, out@),
    {
        self.to_ppm_with(to_byte::<T>)
    }

    /// The pixels as RGBA bytes in row-major order, each channel as
    /// `to_byte` gives it and alpha at 255.
    pub fn as_u8(&self) -> (out: Vec<u8>)
        requires
            total::<T>(),
        ensures
            is_rgba(self.pixels(), to_byte::<T>, out@),
    {
        self.as_u8_with(to_byte::<T>)
    }
}

/// Two frames of one size with the same pixels have the same portable
/// pixmap, where the quantizer allows one result for an argument.
pub proof fn lemma_pixmap_repeatable<T, Q: Fn(T) -> u8>(
    first: Frame<T>,
    second: Frame<T>,
    quantize: Q,
    first_bytes: Seq<u8>,
    second_bytes: Seq<u8>,
)
    requires
        forall|c: T, x: u8, y: u8|
            #![trigger call_ensures(quantize, (c,), x), call_ensures(quantize, (c,), y)]
            call_ensures(quantize, (c,), x) && call_ensures(quantize, (c,), y) ==> x == y,
        first.width_of() == second.width_of(),
        first.height_of() == second.height_of(),
        first.pixels() == second.pixels(),
        is_ppm(first, quantize, first_bytes),
        is_ppm(second, quantize, second_bytes),
    ensures
        first_bytes == second_bytes,
{
    let header = ppm_header(first.width_of(), first.height_of());
    let start = header.len() as int;
    let first_body = first_bytes.subrange(start, first_bytes.len() as int);
    let second_body = second_bytes.subrange(start, second_bytes.len() as int);
    assert forall|p: int| 0 <= p < first_bytes.len() implies first_bytes[p] == second_bytes[p] by {
        if p < start {
            assert(first_bytes[p] == first_bytes.subrange(0, start)[p]);
            assert(second_bytes[p] == second_bytes.subrange(0, start)[p]);
        } else {
            let r = p - start;
            let channel = first.pixels()[r / 3]@[r % 3];
            assert(call_ensures(quantize, (channel,), first_body[r]));
            assert(call_ensures(quantize, (channel,), second_body[r]));
        }
    }
    assert(first_bytes =~= second_bytes);
}

/// Rendering is repeatable: where the shading function and the quantizer
/// each allow one result for an argument, two frames of one view under one
/// shading function hold the same pixels, and their portable pixmaps are the
/// same bytes.
pub proof fn lemma_render_repeatable<T, F: Fn(usize, usize) -> GVec<T, 3>, Q: Fn(T) -> u8>(
    view: View<T>,
    shade: F,
    quantize: Q,
    first: Frame<T>,
    second: Frame<T>,
    first_bytes: Seq<u8>,
    second_bytes: Seq<u8>,
)
    requires
        forall|i: usize, j: usize, p: GVec<T, 3>, q: GVec<T, 3>|
            #![trigger call_ensures(shade, (i, j), p), call_ensures(shade, (i, j), q)]
            call_ensures(shade, (i, j), p) && call_ensures(shade, (i, j), q) ==> p == q,
        forall|c: T, x: u8, y: u8|
            #![trigger call_ensures(quantize, (c,), x), call_ensures(quantize, (c,), y)]
            call_ensures(quantize, (c,), x) && call_ensures(quantize, (c,), y) ==> x == y,
        view.renders(shade, first),
        view.renders(shade, second),
        is_ppm(first, quantize, first_bytes),
        is_ppm(second, quantize, second_bytes),
    ensures
        first.pixels() == second.pixels(),
        first_bytes == second_bytes,
{
    let width = view.width_of() as int;
    let height = view.height_of() as int;
    first.lemma_len();
    second.lemma_len();
    assert forall|k: int| 0 <= k < first.pixels().len() implies first.pixels()[k]
        == second.pixels()[k] by {
        lemma_grid_position(width, height, k);
        let i = k % width;
        let j = k / width;
        assert(call_ensures(shade, (i as usize, j as usize), first.pixel_at(i, j)));
        assert(call_ensures(shade, (i as usize, j as usize), second.pixel_at(i, j)));
    }
    assert(first.pixels() =~= second.pixels());
    lemma_pixmap_repeatable(first, second, quantize, first_bytes, second_bytes);
}

} // verus!
