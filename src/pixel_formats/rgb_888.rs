//! 32-bit pixels with one byte per color channel and one unused byte.
use vstd::prelude::*;

use crate::rfb::{ColorSpecification, PixelFormat};

verus! {

pub const BYTES_PER_PIXEL: usize = 4;

pub const BITS_PER_PIXEL: u8 = 32;

pub const BITS_PER_COLOR: u8 = 8;

pub const DEPTH: u8 = 24;

pub const MAX_VALUE: u16 = 255;

/// A channel shift that selects a whole byte of a 32-bit pixel.
pub open spec fn spec_valid_shift(shift: u8) -> bool {
    shift % 8 == 0 && shift < 32
}

#[verifier::when_used_as_spec(spec_valid_shift)]
pub fn valid_shift(shift: u8) -> (r: bool)
    ensures
        r == spec_valid_shift(shift),
{
    shift % 8 == 0 && shift < 32
}

/// Position, inside a 4-byte pixel, of the byte that a channel with this shift occupies.
pub open spec fn spec_byte_index(shift: u8, big_endian: bool) -> int {
    if big_endian {
        3 - (shift / 8) as int
    } else {
        (shift / 8) as int
    }
}

pub fn byte_index(shift: u8, big_endian: bool) -> (r: usize)
    requires
        spec_valid_shift(shift),
    ensures
        r == spec_byte_index(shift, big_endian),
        r < 4,
{
    if big_endian {
        3 - (shift / 8) as usize
    } else {
        (shift / 8) as usize
    }
}

/// Byte positions of the red, green and blue channels of an RGB888 format.
pub open spec fn channel_indices(pf: PixelFormat) -> (int, int, int) {
    match pf.color_spec {
        ColorSpecification::ColorFormat(cf) => (
            spec_byte_index(cf.red_shift, pf.big_endian),
            spec_byte_index(cf.green_shift, pf.big_endian),
            spec_byte_index(cf.blue_shift, pf.big_endian),
        ),
        ColorSpecification::ColorMap(_) => (0, 0, 0),
    }
}

/// Byte `k` of a pixel, re-laid from the input channel positions `i` into the output
/// positions `o`; a byte that holds no output channel keeps its input value.
pub open spec fn relaid_byte(px: Seq<u8>, base: int, k: int, i: (int, int, int), o: (int, int, int)) -> u8 {
    if k == o.2 {
        px[base + i.2]
    } else if k == o.1 {
        px[base + i.1]
    } else if k == o.0 {
        px[base + i.0]
    } else {
        px[base + k]
    }
}

/// `pixels` re-laid from `input` into `output`, pixel by pixel. Trailing bytes that do not
/// make up a whole pixel are kept as they are.
pub open spec fn transformed(pixels: Seq<u8>, input: PixelFormat, output: PixelFormat) -> Seq<u8> {
    let whole = pixels.len() - pixels.len() % 4;
    Seq::new(
        pixels.len(),
        |j: int|
            if j < whole {
                relaid_byte(
                    pixels,
                    j - j % 4,
                    j % 4,
                    channel_indices(input),
                    channel_indices(output),
                )
            } else {
                pixels[j]
            },
    )
}

fn channel_byte_indices(pf: &PixelFormat) -> (r: (usize, usize, usize))
    requires
        pf.spec_is_rgb_888(),
    ensures
        r.0 == channel_indices(*pf).0,
        r.1 == channel_indices(*pf).1,
        r.2 == channel_indices(*pf).2,
        r.0 < 4 && r.1 < 4 && r.2 < 4,
{
    match &pf.color_spec {
        ColorSpecification::ColorFormat(cf) => (
            byte_index(cf.red_shift, pf.big_endian),
            byte_index(cf.green_shift, pf.big_endian),
            byte_index(cf.blue_shift, pf.big_endian),
        ),
        ColorSpecification::ColorMap(_) => (0, 0, 0),
    }
}

fn relaid_pixel(
    pixels: &[u8],
    base: usize,
    i: (usize, usize, usize),
    o: (usize, usize, usize),
) -> (r: (u8, u8, u8, u8))
    requires
        base + 4 <= pixels.len(),
        i.0 < 4 && i.1 < 4 && i.2 < 4,
        o.0 < 4 && o.1 < 4 && o.2 < 4,
    ensures
        r.0 == relaid_byte(pixels@, base as int, 0, (i.0 as int, i.1 as int, i.2 as int), (o.0 as int, o.1 as int, o.2 as int)),
        r.1 == relaid_byte(pixels@, base as int, 1, (i.0 as int, i.1 as int, i.2 as int), (o.0 as int, o.1 as int, o.2 as int)),
        r.2 == relaid_byte(pixels@, base as int, 2, (i.0 as int, i.1 as int, i.2 as int), (o.0 as int, o.1 as int, o.2 as int)),
        r.3 == relaid_byte(pixels@, base as int, 3, (i.0 as int, i.1 as int, i.2 as int), (o.0 as int, o.1 as int, o.2 as int)),
{
    let mut px: [u8; 4] = [pixels[base], pixels[base + 1], pixels[base + 2], pixels[base + 3]];
    px[o.0] = pixels[base + i.0];
    px[o.1] = pixels[base + i.1];
    px[o.2] = pixels[base + i.2];
    (px[0], px[1], px[2], px[3])
}

/// Re-lays RGB888 pixel data from one channel order and byte order into another.
pub fn transform(pixels: &[u8], input: &PixelFormat, output: &PixelFormat) -> (r: Vec<u8>)
    requires
        input.spec_is_rgb_888(),
        output.spec_is_rgb_888(),
    ensures
        r@ == transformed(pixels@, *input, *output),
{
    let ii = channel_byte_indices(input);
    let oi = channel_byte_indices(output);
    let ghost t = transformed(pixels@, *input, *output);
    let len = pixels.len();
    let whole = len - len % 4;
    let mut out: Vec<u8> = Vec::new();
    let mut base: usize = 0;
    while base < whole
        invariant
            len == pixels@.len(),
            whole == len - len % 4,
            base % 4 == 0,
            base <= whole,
            ii.0 < 4 && ii.1 < 4 && ii.2 < 4,
            oi.0 < 4 && oi.1 < 4 && oi.2 < 4,
            (ii.0 as int, ii.1 as int, ii.2 as int) == channel_indices(*input),
            (oi.0 as int, oi.1 as int, oi.2 as int) == channel_indices(*output),
            t == transformed(pixels@, *input, *output),
            out@ == t.subrange(0, base as int),
        decreases whole - base,
    {
        let (b0, b1, b2, b3) = relaid_pixel(pixels, base, ii, oi);
        out.push(b0);
        out.push(b1);
        out.push(b2);
        out.push(b3);
        assert((base as int + 1) % 4 == 1 && (base as int + 2) % 4 == 2 && (base as int + 3) % 4 == 3);
        assert(out@ =~= t.subrange(0, base + 4));
        base = base + 4;
    }
    while base < len
        invariant
            len == pixels@.len(),
            whole == len - len % 4,
            whole <= base <= len,
            t == transformed(pixels@, *input, *output),
            out@ == t.subrange(0, base as int),
        decreases len - base,
    {
        out.push(pixels[base]);
        assert(out@ =~= t.subrange(0, base + 1));
        base = base + 1;
    }
    assert(out@ =~= t);
    out
}

} // verus!
