//! The decoded image and its pixel stream, as the decoder `tinyqoi` gives
//! them. Nothing in this file is proved: each function states what the
//! decoder's source shows of the call it makes.

use vstd::prelude::*;
use embedded_graphics::geometry::OriginDimensions;
use embedded_graphics::pixelcolor::RgbColor;
use tinyqoi::{PixelsIter, Qoi};
use crate::geometry::Size;

verus! {

/// `tinyqoi::Qoi`: a parsed image, which keeps its width and height and the
/// encoded bytes.
#[verifier::external_type_specification]
#[verifier::external_body]
pub struct ExQoi<'a>(Qoi<'a>);

/// `tinyqoi::PixelsIter`: the decoder's state while it walks the encoded
/// bytes of an image.
#[verifier::external_type_specification]
#[verifier::external_body]
pub struct ExPixelsIter<'a>(PixelsIter<'a>);

/// The width and the height that the image's header gives, in this order.
pub uninterp spec fn decoded_size(image: Qoi<'_>) -> (u32, u32);

/// The pixels that the image's bytes decode to, as red, green and blue, in
/// the order in which the decoder yields them (row by row), up to the first
/// point at which it yields none.
pub uninterp spec fn decoded_pixels(image: Qoi<'_>) -> Seq<(u8, u8, u8)>;

/// The pixels that the stream yields from here on, up to the first point at
/// which it yields none.
pub uninterp spec fn pending(stream: PixelsIter<'_>) -> Seq<(u8, u8, u8)>;

/// `Qoi::size` (the method of `OriginDimensions`): returns the size that the
/// image keeps from its header.
#[verifier::external_body]
pub(crate) fn image_size(image: &Qoi<'_>) -> (size: Size)
    ensures
        (size.width, size.height) == decoded_size(*image),
{
    let size = image.size();
    Size { width: size.width, height: size.height }
}

/// `Qoi::pixels`: returns a stream at the start of the image's pixels.
#[verifier::external_body]
pub(crate) fn pixel_stream<'a>(image: &'a Qoi<'a>) -> (stream: PixelsIter<'a>)
    ensures
        pending(stream) == decoded_pixels(*image),
{
    image.pixels()
}

/// `PixelsIter::next` (the method of `Iterator`): yields the next pixel and
/// moves past it, or yields none where no further pixel can be decoded. The
/// channels are read with `r`, `g` and `b` of `RgbColor`.
#[verifier::external_body]
pub(crate) fn next_pixel(stream: &mut PixelsIter<'_>) -> (pixel: Option<(u8, u8, u8)>)
    ensures
        pixel is None <==> pending(*old(stream)).len() == 0,
        pixel is Some ==> pixel->0 == pending(*old(stream))[0] && pending(*final(stream))
            == pending(*old(stream)).drop_first(),
{
    match stream.next() {
        Some(color) => Some((color.r(), color.g(), color.b())),
        None => None,
    }
}

} // verus!
