//! The portable-pixmap text encoding: a width/height/maxval header, then
//! one integer triple per pixel, each channel scaled by 255.99 and
//! truncated.

use vstd::prelude::*;
use crate::fixed::tzd;
use crate::math::vec3::Vec3;
use crate::decimal::{dec_digits, ascii_chars, ascii_string, push_decimal,
    lemma_dec_digits_ascii};
use crate::math::time_utils::all_ascii;

verus! {

/// One color channel scaled by 255.99 and truncated; a value that cannot
/// be represented in 32 bits reads as zero.
pub open spec fn ppm_channel(c: i64) -> int {
    let t = tzd((c as int) * 25599, 6553600);
    if -0x8000_0000 <= t <= 0x7FFF_FFFF {
        t
    } else {
        0
    }
}

/// The integer triple a pixel color prints as.
pub open spec fn ppm_color_spec(v: Vec3) -> (int, int, int) {
    (ppm_channel(v.x), ppm_channel(v.y), ppm_channel(v.z))
}

fn channel(c: i64) -> (r: i32)
    ensures
        r as int == ppm_channel(c),
{
    proof {
        crate::fixed::lemma_i64_product_fits(c as int, 25599);
    }
    let p: i128 = (c as i128) * 25599;
    let q: i128 = crate::fixed::udiv_trunc(p, 6553600);
    if q >= -0x8000_0000 && q <= 0x7FFF_FFFF {
        q as i32
    } else {
        0
    }
}

/// The integer triple a pixel color prints as.
pub fn to_ppm_color(v: &Vec3) -> (r: (i32, i32, i32))
    ensures
        r.0 as int == ppm_color_spec(*v).0,
        r.1 as int == ppm_color_spec(*v).1,
        r.2 as int == ppm_color_spec(*v).2,
{
    (channel(v.x), channel(v.y), channel(v.z))
}

/// A possibly signed decimal rendering.
pub open spec fn dec_signed(x: int) -> Seq<u8> {
    if x < 0 {
        seq![45u8] + dec_digits((-x) as nat)
    } else {
        dec_digits(x as nat)
    }
}

fn push_signed(out: &mut Vec<u8>, x: i32)
    ensures
        final(out)@ == old(out)@ + dec_signed(x as int),
        all_ascii(old(out)@) ==> all_ascii(final(out)@),
{
    let ghost entry = out@;
    if x < 0 {
        out.push(45);
        push_decimal(out, (-(x as i64)) as u64);
        proof {
            lemma_dec_digits_ascii((-(x as int)) as nat);
            assert(out@ =~= entry + dec_signed(x as int));
        }
    } else {
        push_decimal(out, x as u64);
        proof {
            lemma_dec_digits_ascii(x as nat);
        }
    }
}

/// The text line one pixel prints as: three channels and a newline.
pub open spec fn ppm_line(v: Vec3) -> Seq<u8> {
    dec_signed(ppm_channel(v.x)) + seq![32u8] + dec_signed(ppm_channel(v.y)) + seq![32u8]
        + dec_signed(ppm_channel(v.z)) + seq![10u8]
}

/// The pixel lines from index `i` on.
pub open spec fn ppm_body(pixels: Seq<Vec3>, i: int) -> Seq<u8>
    decreases pixels.len() - i,
{
    if i < 0 || i >= pixels.len() {
        Seq::empty()
    } else {
        ppm_line(pixels[i]) + ppm_body(pixels, i + 1)
    }
}

/// The whole file: `P3`, the dimensions, the maximum channel value, and
/// one line per pixel.
pub open spec fn ppm_bytes(pixels: Seq<Vec3>, width: nat, height: nat) -> Seq<u8> {
    seq![80u8, 51u8, 10u8] + dec_digits(width) + seq![32u8] + dec_digits(height) + seq![10u8]
        + seq![50u8, 53u8, 53u8, 10u8] + ppm_body(pixels, 0)
}

/// The characters of the portable-pixmap text for the pixel buffer.
pub open spec fn ppm_chars(pixels: Seq<Vec3>, width: nat, height: nat) -> Seq<char> {
    ascii_chars(ppm_bytes(pixels, width, height))
}

/// Encode the pixel buffer as portable-pixmap text.  Writing the text to
/// a file is the caller's business.
pub fn ppm_encode(pixels: &Vec<Vec3>, width: usize, height: usize) -> (s: String)
    ensures
        s@ == ppm_chars(pixels@, width as nat, height as nat),
{
    let mut out: Vec<u8> = Vec::new();
    out.push(80);
    out.push(51);
    out.push(10);
    push_decimal(&mut out, width as u64);
    proof {
        lemma_dec_digits_ascii(width as nat);
        assert(all_ascii(out@));
    }
    out.push(32);
    push_decimal(&mut out, height as u64);
    proof {
        lemma_dec_digits_ascii(height as nat);
        assert(all_ascii(out@));
    }
    out.push(10);
    out.push(50);
    out.push(53);
    out.push(53);
    out.push(10);
    let ghost header = out@;
    proof {
        assert(all_ascii(out@));
        assert(header =~= seq![80u8, 51u8, 10u8] + dec_digits(width as nat) + seq![32u8]
            + dec_digits(height as nat) + seq![10u8] + seq![50u8, 53u8, 53u8, 10u8]);
    }
    let n = pixels.len();
    let mut i: usize = 0;
    while i < n
        invariant
            i <= n,
            n == pixels@.len(),
            all_ascii(out@),
            out@ + ppm_body(pixels@, i as int) == header + ppm_body(pixels@, 0),
        decreases n - i,
    {
        let ghost before = out@;
        let c = to_ppm_color(&pixels[i]);
        push_signed(&mut out, c.0);
        out.push(32);
        push_signed(&mut out, c.1);
        out.push(32);
        push_signed(&mut out, c.2);
        out.push(10);
        proof {
            assert(out@ =~= before + ppm_line(pixels@[i as int]));
            assert(out@ + ppm_body(pixels@, i + 1) =~= before + (ppm_line(pixels@[i as int])
                + ppm_body(pixels@, i + 1)));
            assert(all_ascii(out@));
        }
        i = i + 1;
    }
    proof {
        assert(out@ + Seq::<u8>::empty() =~= out@);
        assert(out@ =~= header + ppm_body(pixels@, 0));
    }
    ascii_string(out)
}

} // verus!
