//! Conversion of a whole single-image buffer into an owned image, with an
//! exact size check: the buffer must hold exactly one value of the pixel
//! type per pixel.
use vstd::prelude::*;

use crate::buffer::{BufferPayloadType, PartData};
use crate::image_ext::{collect_u16_words, depth_bytes, is_part_image, PartImage, PixelBuffer, PixelDepth};
use vstd::string::StringExecFns;

use crate::text::{decimal, push_decimal};

verus! {

broadcast use vstd::layout::layout_of_primitives;

/// Why a buffer could not be turned into an image.
#[derive(Debug, Clone)]
pub enum ToPilatusImageError {
    /// The buffer does not carry a plain image.
    NotAnImage,
    /// The buffer size does not fit the pixel type; `format` is the
    /// buffer's pixel format code.
    InvalidPixelType { format: u32, details: String },
    /// A dimension is zero.
    InvalidSize { width: u32, height: u32 },
}

/// The text of the size mismatch reported by `check_dimensions`.
pub open spec fn bit_depth_mismatch_text(expected: nat, area: nat, size: nat) -> Seq<char> {
    "Expected "@ + decimal(expected) + " bit deep (area: "@ + decimal(area) + ", size: "@
        + decimal(size) + ")"@
}

/// Renders the size mismatch, with the numbers in decimal.
fn bit_depth_mismatch_details(expected: usize, area: usize, size: usize) -> (r: String)
    ensures
        r@ == bit_depth_mismatch_text(expected as nat, area as nat, size as nat),
{
    let mut text = String::from_str("Expected ");
    push_decimal(&mut text, expected as u64);
    text.append(" bit deep (area: ");
    push_decimal(&mut text, area as u64);
    text.append(", size: ");
    push_decimal(&mut text, size as u64);
    text.append(")");
    text
}

/// Checks that a buffer of `buf_size` bytes holds exactly one value of type
/// `T` per pixel of a `width` x `height` image, and returns the dimensions.
pub fn check_dimensions<T>(pixel_format: u32, width: u32, height: u32, buf_size: usize) -> (r:
    Result<(u32, u32), ToPilatusImageError>)
    requires
        width as nat * height as nat > 0,
        width as nat * height as nat <= usize::MAX,
    ensures
        r is Ok <==> buf_size as nat == (width as nat * height as nat) * vstd::layout::size_of::<T>(),
        r matches Ok(dims) ==> dims == (width, height) && width > 0 && height > 0,
        r matches Err(e) ==> (e matches ToPilatusImageError::InvalidPixelType { format, details }
            && format == pixel_format && details@ == bit_depth_mismatch_text(
            vstd::layout::size_of::<T>(),
            width as nat * height as nat,
            buf_size as nat,
        )),
{
    proof {
        vstd::arithmetic::mul::lemma_mul_is_commutative(width as int, height as int);
    }
    let area: usize = (height as usize) * (width as usize);
    let pixel_size: usize = buf_size / area;
    let remainder: usize = buf_size % area;
    let expected: usize = core::mem::size_of::<T>();
    proof {
        vstd::arithmetic::div_mod::lemma_fundamental_div_mod(buf_size as int, area as int);
        if buf_size as nat == (area as nat) * vstd::layout::size_of::<T>() {
            vstd::arithmetic::div_mod::lemma_div_multiples_vanish(
                vstd::layout::size_of::<T>() as int,
                area as int,
            );
            vstd::arithmetic::div_mod::lemma_mod_multiples_basic(
                vstd::layout::size_of::<T>() as int,
                area as int,
            );
            vstd::arithmetic::mul::lemma_mul_is_commutative(
                area as int,
                vstd::layout::size_of::<T>() as int,
            );
        }
        vstd::arithmetic::mul::lemma_mul_is_commutative(area as int, pixel_size as int);
    }
    if remainder != 0 || pixel_size != expected {
        return Err(
            ToPilatusImageError::InvalidPixelType {
                format: pixel_format,
                details: bit_depth_mismatch_details(expected, area, buf_size),
            },
        );
    }
    if width == 0 || height == 0 {
        return Err(ToPilatusImageError::InvalidSize { width, height });
    }
    Ok((width, height))
}

/// Reads a whole buffer as an image of one depth: the payload must be a
/// plain image, which is checked before the dimensions are looked at, and
/// the buffer must hold exactly one value of the depth per pixel.
pub fn try_into_pilatus(payload: BufferPayloadType, image: &PartData, depth: PixelDepth) -> (r:
    Result<PartImage, ToPilatusImageError>)
    requires
        payload == BufferPayloadType::Image ==> image.has_valid_area(),
    ensures
        payload != BufferPayloadType::Image ==> r matches Err(ToPilatusImageError::NotAnImage),
        payload == BufferPayloadType::Image ==> (r is Ok <==> image.data@.len() == image.area()
            * depth_bytes(depth)),
        payload == BufferPayloadType::Image && image.data@.len() != image.area() * depth_bytes(depth)
            ==> (r matches Err(ToPilatusImageError::InvalidPixelType { format, details })
            && format == image.pixel_format && details@ == bit_depth_mismatch_text(
            depth_bytes(depth),
            image.area(),
            image.data@.len(),
        )),
        r matches Ok(img) ==> img@.wf() && is_part_image(img@, *image, depth),
{
    if payload != BufferPayloadType::Image {
        return Err(ToPilatusImageError::NotAnImage);
    }
    let len: usize = image.data.len();
    match depth {
        PixelDepth::Luma8 => {
            let (width, height) = check_dimensions::<u8>(image.pixel_format, image.width, image.height, len)?;
            let pixels = vstd::slice::slice_to_vec(image.data.as_slice());
            let img = PartImage { width, height, pixels: PixelBuffer::Luma8(pixels) };
            assert(image.data@.take(image.area() as int) == image.data@);
            Ok(img)
        },
        PixelDepth::Luma16 => {
            let (width, height) = check_dimensions::<u16>(image.pixel_format, image.width, image.height, len)?;
            let words = collect_u16_words(image.data.as_slice());
            let img = PartImage { width, height, pixels: PixelBuffer::Luma16(words) };
            assert(image.data@.take(2 * image.area() as int) == image.data@);
            Ok(img)
        },
    }
}

} // verus!
