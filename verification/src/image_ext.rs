//! Conversion of the parts of a camera buffer into owned images.
use vstd::prelude::*;

use crate::buffer::{is_image_payload, payload_is_image, BufferPayloadType, PartData};
use vstd::string::StringExecFns;

use crate::text::{decimal, push_decimal};

verus! {

broadcast use vstd::layout::layout_of_primitives;

/// Why a buffer part could not be turned into an image.
#[derive(Debug, Clone)]
pub enum ToPilatusImageError {
    /// The buffer does not carry image data.
    NotAnImage,
    /// The bytes per pixel do not fit the requested pixel type.
    InvalidPixelType { details: String },
    /// A dimension is zero.
    InvalidSize { width: u32, height: u32 },
}

/// The pixels of an image, stored row by row; a planar RGB image stores the
/// red, green and blue planes one after the other.
#[derive(Debug, Clone)]
pub enum PixelBuffer {
    Luma8(Vec<u8>),
    Luma16(Vec<u16>),
    Rgb8Planar(Vec<u8>),
}

/// An image with its dimensions.
#[derive(Debug, Clone)]
pub struct PartImage {
    pub width: u32,
    pub height: u32,
    pub pixels: PixelBuffer,
}

/// The pixel values of a `PixelBuffer`.
pub enum PixelsView {
    Luma8(Seq<u8>),
    Luma16(Seq<u16>),
    Rgb8Planar(Seq<u8>),
}

/// The dimensions and pixel values of a `PartImage`.
pub struct ImageView {
    pub width: u32,
    pub height: u32,
    pub pixels: PixelsView,
}

impl View for PixelBuffer {
    type V = PixelsView;

    open spec fn view(&self) -> PixelsView {
        match self {
            PixelBuffer::Luma8(v) => PixelsView::Luma8(v@),
            PixelBuffer::Luma16(v) => PixelsView::Luma16(v@),
            PixelBuffer::Rgb8Planar(v) => PixelsView::Rgb8Planar(v@),
        }
    }
}

impl View for PartImage {
    type V = ImageView;

    open spec fn view(&self) -> ImageView {
        ImageView { width: self.width, height: self.height, pixels: self.pixels@ }
    }
}

impl ImageView {
    /// Both dimensions are positive and the pixel buffer holds one value per
    /// pixel and channel.
    pub open spec fn wf(self) -> bool {
        let area = self.width as nat * self.height as nat;
        &&& self.width > 0
        &&& self.height > 0
        &&& match self.pixels {
            PixelsView::Luma8(p) => p.len() == area,
            PixelsView::Luma16(p) => p.len() == area,
            PixelsView::Rgb8Planar(p) => p.len() == 3 * area,
        }
    }
}

/// The pixel type an image part is read as.
#[derive(Debug, Clone, Copy, PartialEq, Eq, Structural)]
pub enum PixelDepth {
    /// One byte per pixel.
    Luma8,
    /// Two bytes per pixel, in the machine's byte order.
    Luma16,
}

/// Bytes per pixel of a depth.
pub open spec fn depth_bytes(depth: PixelDepth) -> nat {
    match depth {
        PixelDepth::Luma8 => 1,
        PixelDepth::Luma16 => 2,
    }
}

/// The 16-bit value of two bytes, the first one being the low byte.
pub open spec fn u16_from_bytes(lo: u8, hi: u8) -> u16 {
    (lo as nat + 256 * (hi as nat)) as u16
}

/// `words` are the consecutive byte pairs of `bytes`, all read in the same
/// byte order, which is either little or big endian.
pub open spec fn is_u16_reading(bytes: Seq<u8>, words: Seq<u16>) -> bool {
    &&& 2 * words.len() == bytes.len()
    &&& {
        ||| forall|i: int|
            0 <= i < words.len() ==> #[trigger] words[i] == u16_from_bytes(bytes[2 * i], bytes[2 * i + 1])
        ||| forall|i: int|
            0 <= i < words.len() ==> #[trigger] words[i] == u16_from_bytes(bytes[2 * i + 1], bytes[2 * i])
    }
}

/// `img` is the image of `depth` that `part` holds: its dimensions, and as
/// pixels the first `width * height` values of that depth in its bytes.
pub open spec fn is_part_image(img: ImageView, part: PartData, depth: PixelDepth) -> bool {
    let area = part.area();
    &&& img.width == part.width
    &&& img.height == part.height
    &&& match depth {
        PixelDepth::Luma8 => img.pixels == PixelsView::Luma8(part.data@.take(area as int)),
        PixelDepth::Luma16 => match img.pixels {
            PixelsView::Luma16(words) => is_u16_reading(part.data@.take(2 * area as int), words),
            _ => false,
        },
    }
}

/// The text of the pixel size mismatch reported by `check_dimensions`.
pub open spec fn depth_mismatch_text(expected: nat, area: nat, size: nat) -> Seq<char> {
    "Expected "@ + decimal(expected) + " byte deep (area: "@ + decimal(area) + ", size: "@
        + decimal(size) + ")"@
}

/// The text of the unknown depth error of `try_into_dynamic_pilatus_image`.
pub open spec fn unknown_depth_text(pixel_format: nat, area: nat, size: nat) -> Seq<char> {
    "Unknown bit dept of PixelFormat PixelFormat("@ + decimal(pixel_format) + "). Area "@
        + decimal(area) + ", BufferSize: "@ + decimal(size)
}

/// Renders the pixel size mismatch, with the numbers in decimal.
fn depth_mismatch_details(expected: usize, area: usize, size: usize) -> (r: String)
    ensures
        r@ == depth_mismatch_text(expected as nat, area as nat, size as nat),
{
    let mut text = String::from_str("Expected ");
    push_decimal(&mut text, expected as u64);
    text.append(" byte deep (area: ");
    push_decimal(&mut text, area as u64);
    text.append(", size: ");
    push_decimal(&mut text, size as u64);
    text.append(")");
    text
}

/// Renders the unknown depth error, with the numbers in decimal.
fn unknown_depth_details(pixel_format: u32, area: usize, size: usize) -> (r: String)
    ensures
        r@ == unknown_depth_text(pixel_format as nat, area as nat, size as nat),
{
    let mut text = String::from_str("Unknown bit dept of PixelFormat PixelFormat(");
    push_decimal(&mut text, pixel_format as u64);
    text.append("). Area ");
    push_decimal(&mut text, area as u64);
    text.append(", BufferSize: ");
    push_decimal(&mut text, size as u64);
    text
}

/// Calls `bytemuck::pod_collect_to_vec` from bytes to `u16`: the bytes are
/// copied into `bytes.len() / 2` words, each pair read in the machine's byte
/// order, which the contract leaves open between little and big endian.
#[verifier::external_body]
pub(crate) fn collect_u16_words(bytes: &[u8]) -> (r: Vec<u16>)
    requires
        bytes@.len() % 2 == 0,
    ensures
        is_u16_reading(bytes@, r@),
{
    bytemuck::pod_collect_to_vec::<u8, u16>(bytes)
}

/// Checks that a buffer of `buf_size` bytes holds pixels of type `T` for an
/// image of `width` x `height` and returns the dimensions.
///
/// The bytes per pixel are `buf_size / (width * height)`, rounded down; they
/// must equal the size of `T`.
pub fn check_dimensions<T>(width: u32, height: u32, buf_size: usize) -> (r: Result<
    (u32, u32),
    ToPilatusImageError,
>)
    requires
        width as nat * height as nat > 0,
        width as nat * height as nat <= usize::MAX,
    ensures
        r is Ok <==> buf_size as nat / (width as nat * height as nat) == vstd::layout::size_of::<T>(),
        r matches Ok(dims) ==> dims == (width, height) && width > 0 && height > 0,
        r matches Err(e) ==> (e matches ToPilatusImageError::InvalidPixelType { details }
            && details@ == depth_mismatch_text(
            vstd::layout::size_of::<T>(),
            width as nat * height as nat,
            buf_size as nat,
        )),
{
    proof {
        vstd::arithmetic::mul::lemma_mul_is_commutative(width as int, height as int);
    }
    let area: usize = (height as usize) * (width as usize);
    let pixel_size: usize = buf_size / area;
    let expected: usize = core::mem::size_of::<T>();
    if pixel_size != expected {
        return Err(
            ToPilatusImageError::InvalidPixelType {
                details: depth_mismatch_details(expected, area, buf_size),
            },
        );
    }
    if width == 0 || height == 0 {
        return Err(ToPilatusImageError::InvalidSize { width, height });
    }
    Ok((width, height))
}

proof fn lemma_depth_bounds(len: nat, area: nat, depth: nat)
    requires
        area > 0,
        len / area == depth,
    ensures
        depth * area <= len,
{
    vstd::arithmetic::div_mod::lemma_fundamental_div_mod(len as int, area as int);
    vstd::arithmetic::mul::lemma_mul_is_commutative(depth as int, area as int);
}

/// Reads a buffer part as an image of one depth.
///
/// Fails with `NotAnImage` unless the payload may hold images, without
/// looking at the dimensions; the area only matters for image payloads.
/// Otherwise fails as
/// `check_dimensions` does when the bytes per pixel do not fit the depth;
/// otherwise the image holds the part's dimensions and its first
/// `width * height` pixel values.
pub fn try_into_pilatus(payload: BufferPayloadType, part: &PartData, depth: PixelDepth) -> (r:
    Result<PartImage, ToPilatusImageError>)
    requires
        is_image_payload(payload) ==> part.has_valid_area(),
    ensures
        !is_image_payload(payload) ==> r matches Err(ToPilatusImageError::NotAnImage),
        is_image_payload(payload) ==> (r is Ok <==> part.data@.len() / part.area() == depth_bytes(
            depth,
        )),
        is_image_payload(payload) && !(part.data@.len() / part.area() == depth_bytes(depth)) ==> (
        r matches Err(ToPilatusImageError::InvalidPixelType { details }) && details@
            == depth_mismatch_text(depth_bytes(depth), part.area(), part.data@.len())),
        r matches Ok(img) ==> img@.wf() && is_part_image(img@, *part, depth),
{
    if !payload_is_image(payload) {
        return Err(ToPilatusImageError::NotAnImage);
    }
    proof {
        vstd::arithmetic::mul::lemma_mul_is_commutative(part.width as int, part.height as int);
    }
    let area: usize = (part.height as usize) * (part.width as usize);
    let len: usize = part.data.len();
    match depth {
        PixelDepth::Luma8 => {
            let (width, height) = check_dimensions::<u8>(part.width, part.height, len)?;
            proof {
                lemma_depth_bounds(len as nat, area as nat, 1);
            }
            let pixels = vstd::slice::slice_to_vec(&part.data.as_slice()[0..area]);
            let img = PartImage { width, height, pixels: PixelBuffer::Luma8(pixels) };
            assert(img@.pixels == PixelsView::Luma8(part.data@.take(area as int)));
            Ok(img)
        },
        PixelDepth::Luma16 => {
            let (width, height) = check_dimensions::<u16>(part.width, part.height, len)?;
            proof {
                lemma_depth_bounds(len as nat, area as nat, 2);
            }
            let words = collect_u16_words(&part.data.as_slice()[0..2 * area]);
            let img = PartImage { width, height, pixels: PixelBuffer::Luma16(words) };
            Ok(img)
        },
    }
}

/// The depth a part is read as by `try_into_dynamic_pilatus_image`: its
/// bytes per pixel, `data.len() / (width * height)` rounded down, when that
/// is one or two.
pub open spec fn dynamic_depth(part: PartData) -> Option<PixelDepth> {
    let depth = part.data@.len() / part.area();
    if depth == 1 {
        Some(PixelDepth::Luma8)
    } else if depth == 2 {
        Some(PixelDepth::Luma16)
    } else {
        None
    }
}

/// `try_into_dynamic_pilatus_image` succeeds on this part.
pub open spec fn dynamic_conversion_succeeds(payload: BufferPayloadType, part: PartData) -> bool {
    dynamic_depth(part) is Some && is_image_payload(payload)
}

/// A part is read at one byte per pixel when its buffer holds at least one
/// but fewer than two bytes per pixel, at two bytes per pixel when it holds
/// at least two but fewer than three, and not at all otherwise; and it
/// converts exactly when it is read at some depth and its payload is an
/// image or a multi-part payload.
pub proof fn lemma_dynamic_depth_by_buffer_size(payload: BufferPayloadType, part: PartData)
    requires
        part.has_valid_area(),
    ensures
        (dynamic_depth(part) == Some(PixelDepth::Luma8)) <==> (part.area() <= part.data@.len() && part.data@.len()
            < 2 * part.area()),
        (dynamic_depth(part) == Some(PixelDepth::Luma16)) <==> (2 * part.area() <= part.data@.len()
            && part.data@.len() < 3 * part.area()),
        (dynamic_depth(part) is None) <==> (part.data@.len() < part.area() || 3 * part.area()
            <= part.data@.len()),
        dynamic_conversion_succeeds(payload, part) <==> (dynamic_depth(part) is Some && (payload
            == BufferPayloadType::Image || payload == BufferPayloadType::Multipart)),
{
    let a = part.area() as int;
    let l = part.data@.len() as int;
    assert(a > 0);
    let q = l / a;
    assert(q * a <= l < q * a + a) by (nonlinear_arith)
        requires
            a > 0,
            q == l / a,
    ;
    assert(q == 1 <==> (a <= l && l < 2 * a)) by (nonlinear_arith)
        requires
            a > 0,
            q * a <= l < q * a + a,
    ;
    assert(q == 2 <==> (2 * a <= l && l < 3 * a)) by (nonlinear_arith)
        requires
            a > 0,
            q * a <= l < q * a + a,
    ;
}

/// `e` is the error `try_into_dynamic_pilatus_image` reports for this part:
/// the unknown depth first, then a payload without images.
pub open spec fn is_dynamic_conversion_error(
    payload: BufferPayloadType,
    part: PartData,
    e: ToPilatusImageError,
) -> bool {
    match dynamic_depth(part) {
        None => e matches ToPilatusImageError::InvalidPixelType { details } && details@
            == unknown_depth_text(part.pixel_format as nat, part.area(), part.data@.len()),
        Some(_) => !is_image_payload(payload) && e matches ToPilatusImageError::NotAnImage,
    }
}

/// Reads a buffer part as an image whose depth follows from its size: the
/// bytes per pixel, `data.len() / (width * height)` rounded down, must be one
/// (8-bit gray) or two (16-bit gray). Otherwise the error names the pixel
/// format, the area and the buffer size.
pub fn try_into_dynamic_pilatus_image(payload: BufferPayloadType, part: &PartData) -> (r: Result<
    PartImage,
    ToPilatusImageError,
>)
    requires
        part.has_valid_area(),
    ensures
        r is Ok <==> dynamic_conversion_succeeds(payload, *part),
        r matches Err(e) ==> is_dynamic_conversion_error(payload, *part, e),
        r matches Ok(img) ==> img@.wf() && is_part_image(img@, *part, dynamic_depth(*part)->0),
{
    let area: usize = (part.width as usize) * (part.height as usize);
    let buffer_size: usize = part.data.len();
    let byte_depth: usize = buffer_size / area;
    if byte_depth == 1 {
        try_into_pilatus(payload, part, PixelDepth::Luma8)
    } else if byte_depth == 2 {
        try_into_pilatus(payload, part, PixelDepth::Luma16)
    } else {
        Err(
            ToPilatusImageError::InvalidPixelType {
                details: unknown_depth_details(part.pixel_format, area, buffer_size),
            },
        )
    }
}

} // verus!
