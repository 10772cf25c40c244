//! What the acquisition logic reads of a camera buffer: its status, the kind
//! of payload it carries, and for each part the kind of data, the
//! dimensions, the pixel format and the bytes.
use vstd::prelude::*;

verus! {

/// Completion status of a buffer handed back by the stream.
#[derive(Debug, Clone, Copy, PartialEq, Eq, Structural)]
pub enum BufferStatus {
    Unknown,
    Success,
    Cleared,
    Timeout,
    MissingPackets,
    WrongPacketId,
    SizeMismatch,
    Filling,
    Aborted,
    PayloadNotSupported,
    Other(i32),
}

/// The kind of payload a buffer carries.
#[derive(Debug, Clone, Copy, PartialEq, Eq, Structural)]
pub enum BufferPayloadType {
    Unknown,
    NoData,
    Image,
    Rawdata,
    File,
    ChunkData,
    ExtendedChunkData,
    Jpeg,
    Jpeg2000,
    H264,
    MultizoneImage,
    Multipart,
    GendcContainer,
    GendcComponentData,
    Other(i32),
}

/// The kind of data a part of a multi-part buffer holds.
#[derive(Debug, Clone, Copy, PartialEq, Eq, Structural)]
pub enum BufferPartDataType {
    Unknown,
    Image2d,
    PlaneBiplanar2d,
    PlaneTriplanar2d,
    PlaneQuadplanar2d,
    Image3d,
    PlaneBiplanar3d,
    PlaneTriplanar3d,
    PlaneQuadplanar3d,
    ConfidenceMap,
    ChunkData,
    Jpeg,
    Jpeg2000,
    DeviceSpecific,
    Other(i32),
}

/// One image region of a buffer: its dimensions as the camera reports them,
/// its pixel format code and a copy of its bytes.
#[derive(Debug, Clone)]
pub struct PartData {
    pub width: u32,
    pub height: u32,
    pub pixel_format: u32,
    pub data: Vec<u8>,
}

impl PartData {
    /// The number of pixels the dimensions describe.
    pub open spec fn area(&self) -> nat {
        self.width as nat * self.height as nat
    }

    /// The dimensions describe at least one pixel and their product fits in
    /// a `usize`.
    pub open spec fn has_valid_area(&self) -> bool {
        &&& self.width as nat * self.height as nat > 0
        &&& self.width as nat * self.height as nat <= usize::MAX
    }
}

/// A payload that may hold images: plain images and multi-part payloads.
pub open spec fn is_image_payload(payload: BufferPayloadType) -> bool {
    payload == BufferPayloadType::Image || payload == BufferPayloadType::Multipart
}

/// Parts whose data is turned into images; chunk data, confidence maps,
/// device specific data, compressed images and parts of unknown kind are
/// ignored.
pub open spec fn is_convertible_part(kind: BufferPartDataType) -> bool {
    !(kind == BufferPartDataType::ChunkData || kind == BufferPartDataType::ConfidenceMap
        || kind == BufferPartDataType::DeviceSpecific || kind == BufferPartDataType::Jpeg
        || kind == BufferPartDataType::Jpeg2000 || kind == BufferPartDataType::Unknown)
}

/// The kinds of part that are turned into images are exactly the 2D and 3D
/// images, their planes, and kinds the library does not name; chunk data,
/// confidence maps, device specific data, JPEG and JPEG 2000 images and
/// parts of unknown kind never are.
pub proof fn lemma_convertible_kinds(kind: BufferPartDataType)
    ensures
        is_convertible_part(kind) <==> (kind is Image2d || kind is PlaneBiplanar2d || kind is PlaneTriplanar2d
            || kind is PlaneQuadplanar2d || kind is Image3d || kind is PlaneBiplanar3d
            || kind is PlaneTriplanar3d || kind is PlaneQuadplanar3d || kind is Other),
        kind is ConfidenceMap ==> !is_convertible_part(kind),
        kind is ChunkData ==> !is_convertible_part(kind),
{
}

/// Whether a part of this kind is turned into an image.
pub fn part_is_convertible(kind: BufferPartDataType) -> (r: bool)
    ensures
        r == is_convertible_part(kind),
{
    match kind {
        BufferPartDataType::ChunkData | BufferPartDataType::ConfidenceMap
        | BufferPartDataType::DeviceSpecific | BufferPartDataType::Jpeg
        | BufferPartDataType::Jpeg2000 | BufferPartDataType::Unknown => false,
        _ => true,
    }
}

/// Whether a payload of this type may hold images.
pub fn payload_is_image(payload: BufferPayloadType) -> (r: bool)
    ensures
        r == is_image_payload(payload),
{
    match payload {
        BufferPayloadType::Image | BufferPayloadType::Multipart => true,
        _ => false,
    }
}

} // verus!
