use rgb::ComponentBytes;
use vstd::prelude::*;

use crate::lightstrip::{pixel_bytes, Pixel};

verus! {

/// The header that `PixelControl::emit` writes before the pixel bytes: the
/// channel 0, the command 0, then the length of 512 pixels (1536 bytes)
/// big-endian, whatever the number of pixels sent.
pub open spec fn fixed_header() -> Seq<u8> {
    seq![0u8, 0u8, 6u8, 0u8]
}

/// The bytes of the pixels as `rgb`'s `ComponentBytes::as_bytes` lays out a
/// slice of `RGB8`: each pixel is a `#[repr(C)]` struct of the fields
/// `r`, `g`, `b` in that order, one byte each, so the slice's bytes are the
/// components of each pixel in turn.
#[verifier::external_body]
fn rgb_bytes(pixels: &[Pixel]) -> (bytes: Vec<u8>)
    ensures
        bytes@ == pixel_bytes(pixels@),
{
    let pixels: Vec<rgb::RGB8> = pixels.iter().map(|p| rgb::RGB8 { r: p.r, g: p.g, b: p.b }).collect();
    pixels.as_bytes().to_vec()
}

/// Everything `PixelControl::emit` writes to the stream for `pixels`: the
/// fixed header, then the pixel bytes.
pub fn emit_bytes(pixels: &[Pixel]) -> (bytes: Vec<u8>)
    ensures
        bytes@ == fixed_header() + pixel_bytes(pixels@),
{
    let mut header: Vec<u8> = vec![0u8, 0u8, 0u8, 0u8];
    let length: u16 = 512u16 * 3;
    header.set(2, (length >> 8) as u8);
    header.set(3, (length & 255) as u8);
    assert(((1536u16 >> 8u16) as u8) == 6u8 && ((1536u16 & 255u16) as u8) == 0u8) by (bit_vector);
    let mut body = rgb_bytes(pixels);
    header.append(&mut body);
    assert(header@ =~= fixed_header() + pixel_bytes(pixels@));
    header
}

} // verus!
