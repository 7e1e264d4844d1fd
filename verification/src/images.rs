//! The bundled images: the window icon and the disc profile logos.
use vstd::prelude::*;

verus! {

/// Decodes an image with `image::load_from_memory` and converts it to 8-bit RGBA with
/// `DynamicImage::to_rgba8`, giving its width, height and pixel bytes. Claimed: the
/// bytes are four per pixel, row by row (an RGBA `ImageBuffer` always holds a buffer
/// fitting its size, and `to_rgba8` makes one of exactly that size). Which formats are
/// read, and what the pixels are, is left to the `image` crate and to the format
/// hooks registered in the process at the time of the call.
#[verifier::external_body]
fn decode_rgba(data: &[u8]) -> (r: Option<(u32, u32, Vec<u8>)>)
    ensures
        r matches Some((w, h, px)) ==> px@.len() == 4 * (w as int) * (h as int),
{
    match image::load_from_memory(data) {
        Ok(img) => {
            let rgba = img.to_rgba8();
            let (w, h) = rgba.dimensions();
            Some((w, h, rgba.into_raw()))
        },
        Err(_) => None,
    }
}

/// Decodes a bundled image file (the icon or a disc profile logo) into its width,
/// height and RGBA bytes (four per pixel), or `None` when it cannot be decoded.
/// What the pixels are is the `image` crate's; `alpha_of` turns them into a logo mask.
pub fn decode_image(data: &[u8]) -> (r: Option<(u32, u32, Vec<u8>)>)
    ensures
        r matches Some((w, h, px)) ==> px@.len() == 4 * (w as int) * (h as int),
{
    decode_rgba(data)
}

/// The alpha byte of each whole pixel of RGBA bytes.
pub open spec fn alpha_channel(px: Seq<u8>) -> Seq<u8> {
    Seq::new(px.len() / 4, |i: int| px[4 * i + 3])
}

/// The alpha channel of RGBA bytes, one byte per whole pixel: the mask with which a
/// disc profile logo is drawn in one color.
pub fn alpha_of(px: &[u8]) -> (r: Vec<u8>)
    ensures
        r@ == alpha_channel(px@),
{
    let n = px.len() / 4;
    let mut r: Vec<u8> = Vec::new();
    let mut i: usize = 0;
    while i < n
        invariant
            n == px.len() / 4,
            i <= n,
            r@.len() == i,
            forall|k: int| 0 <= k < i ==> r@[k] == px@[4 * k + 3],
        decreases n - i,
    {
        assert(4 * i + 3 < px.len()) by (nonlinear_arith)
            requires
                i < n,
                n == px.len() / 4,
        ;
        r.push(px[4 * i + 3]);
        i += 1;
    }
    assert(r@ == alpha_channel(px@));
    r
}

} // verus!
