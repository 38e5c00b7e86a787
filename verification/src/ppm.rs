//! Plain-text pixel-map encoding.
//!
//! The format is a three-line header — the two-byte magic, the image
//! dimensions, and the maximum channel value 255 — followed by one decimal
//! integer per channel, three channels per pixel in row-major top-to-bottom
//! order, each integer followed by a single space. Channels arrive here
//! already gamma-corrected and scaled to 0..=255; this module only turns
//! them into bytes, so the byte stream is a function of the channel values
//! alone.
use vstd::prelude::*;

verus! {

/// The decimal digits of `n`, most significant first, as ASCII bytes.
pub open spec fn decimal(n: nat) -> Seq<u8>
    decreases n,
{
    if n < 10 {
        seq![(48 + n) as u8]
    } else {
        decimal(n / 10).push((48 + n % 10) as u8)
    }
}

/// The header: magic `P` `3`, then `width height`, then the maximum channel
/// value, each line ended by a newline byte.
pub open spec fn ppm_header(width: u32, height: u32) -> Seq<u8> {
    seq![80u8, 51u8, 10u8] + decimal(width as nat) + seq![32u8] + decimal(height as nat)
        + seq![10u8] + decimal(255) + seq![10u8]
}

/// The body: every channel value in order as decimal digits, each followed
/// by one space byte.
pub open spec fn ppm_body(channels: Seq<u8>) -> Seq<u8>
    decreases channels.len(),
{
    if channels.len() == 0 {
        Seq::empty()
    } else {
        (ppm_body(channels.drop_last()) + decimal(channels.last() as nat)).push(32u8)
    }
}

/// The whole file: header then body.
pub open spec fn ppm_encoding(width: u32, height: u32, channels: Seq<u8>) -> Seq<u8> {
    ppm_header(width, height) + ppm_body(channels)
}

/// Appends the decimal digits of `n` to `out`.
fn push_decimal(out: &mut Vec<u8>, n: u32)
    ensures
        final(out)@ == old(out)@ + decimal(n as nat),
    decreases n,
{
    if n < 10 {
        out.push(48 + (n as u8));
        proof {
            assert(final(out)@ =~= old(out)@ + decimal(n as nat));
        }
    } else {
        push_decimal(out, n / 10);
        out.push(48 + ((n % 10) as u8));
        proof {
            assert(final(out)@ =~= old(out)@ + decimal(n as nat));
        }
    }
}

/// Encodes a finished image — `3 * width * height` channel values of at most
/// 255 each, row-major, top row first — as the bytes of a plain-text pixel
/// map. The result is exactly `ppm_encoding`, so equal channel values give
/// byte-identical files.
pub fn encode_ppm(width: u32, height: u32, channels: &Vec<u8>) -> (out: Vec<u8>)
    requires
        channels@.len() == 3 * (width as int) * (height as int),
    ensures
        out@ == ppm_encoding(width, height, channels@),
{
    let mut out: Vec<u8> = Vec::new();
    out.push(80);
    out.push(51);
    out.push(10);
    push_decimal(&mut out, width);
    out.push(32);
    push_decimal(&mut out, height);
    out.push(10);
    push_decimal(&mut out, 255);
    out.push(10);
    proof {
        assert(out@ =~= ppm_header(width, height));
        assert(channels@.subrange(0, 0) =~= Seq::<u8>::empty());
        assert(out@ =~= ppm_header(width, height) + ppm_body(channels@.subrange(0, 0)));
    }
    let len: usize = channels.len();
    let mut i: usize = 0;
    while i < len
        invariant
            i <= len,
            len == channels@.len(),
            out@ == ppm_header(width, height) + ppm_body(channels@.subrange(0, i as int)),
        decreases len - i,
    {
        push_decimal(&mut out, channels[i] as u32);
        out.push(32);
        proof {
            let pre = channels@.subrange(0, i as int);
            let cur = channels@.subrange(0, i + 1);
            assert(cur.drop_last() =~= pre);
            assert(cur.last() == channels@[i as int]);
            assert(out@ =~= ppm_header(width, height) + ppm_body(cur));
        }
        i += 1;
    }
    proof {
        assert(channels@.subrange(0, len as int) =~= channels@);
    }
    out
}

} // verus!
