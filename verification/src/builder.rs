//! A camera configured before it connects: which camera, which features,
//! and a flag through which its acquisition can be asked to end; and the
//! decisions of its single-image acquisition loop.
use vstd::prelude::*;

use std::sync::atomic::AtomicBool;
use std::sync::Arc;

use crate::buffer::{BufferPayloadType, BufferStatus};
use crate::genicam::GenicamFeatureCollection;
use crate::image_ext::PixelDepth;

verus! {

/// What the acquisition does after an image was handed to its consumer.
#[derive(Debug, Clone, Copy, PartialEq, Eq, Structural)]
pub enum StreamingAction {
    Continue,
    Stop,
}

/// The pixel format code of 8-bit gray images.
pub const PIXEL_FORMAT_MONO_8: u32 = 0x0108_0001;

/// The pixel format code of 16-bit gray images.
pub const PIXEL_FORMAT_MONO_16: u32 = 0x0110_0007;

/// The pixel format code of 16-bit single-coordinate 3D images.
pub const PIXELFORMAT_COORD3D_C16: u32 = 0x0110_00b8;

/// The depth an image of this pixel format is read as: 8-bit gray images
/// with one byte per pixel, 16-bit gray and 16-bit coordinate images with
/// two; no other format is handled.
pub fn depth_for_pixel_format(pixel_format: u32) -> (r: Option<PixelDepth>)
    ensures
        r == if pixel_format == PIXEL_FORMAT_MONO_8 {
            Some(PixelDepth::Luma8)
        } else if pixel_format == PIXEL_FORMAT_MONO_16 || pixel_format == PIXELFORMAT_COORD3D_C16 {
            Some(PixelDepth::Luma16)
        } else {
            None
        },
{
    if pixel_format == PIXEL_FORMAT_MONO_8 {
        Some(PixelDepth::Luma8)
    } else if pixel_format == PIXEL_FORMAT_MONO_16 || pixel_format == PIXELFORMAT_COORD3D_C16 {
        Some(PixelDepth::Luma16)
    } else {
        None
    }
}

/// A buffer the stream handed back.
#[derive(Debug, Clone, Copy, PartialEq, Eq, Structural)]
pub struct PoppedBuffer {
    pub status: BufferStatus,
    pub payload: BufferPayloadType,
    pub pixel_format: u32,
}

/// What the single-image acquisition loop does next.
#[derive(Debug, Clone, Copy, PartialEq, Eq, Structural)]
pub enum BuilderStep {
    /// Give up: no image arrived for too long.
    Fail,
    /// End the acquisition.
    Stop,
    /// Hand the buffer back to the stream and wait for the next one.
    Requeue,
    /// Hand the buffer back to the stream and end the acquisition.
    RequeueAndStop,
    /// Convert the buffer into an image of this depth.
    Convert(PixelDepth),
}

/// The step `decide_on_buffer` takes.
pub open spec fn builder_step(popped: Option<PoppedBuffer>, termination_requested: bool, pool_closed: bool) -> BuilderStep {
    match popped {
        None => BuilderStep::Fail,
        Some(buf) => if termination_requested {
            BuilderStep::Stop
        } else if buf.status != BufferStatus::Success || !(buf.payload == BufferPayloadType::Image
            || buf.payload == BufferPayloadType::Unknown) {
            if pool_closed {
                BuilderStep::RequeueAndStop
            } else {
                BuilderStep::Requeue
            }
        } else {
            match depth_for_pixel_format_spec(buf.pixel_format) {
                Some(depth) => BuilderStep::Convert(depth),
                None => BuilderStep::Stop,
            }
        },
    }
}

/// Decides on a wait for a buffer. No buffer in time is a failure; a
/// requested termination ends the loop; an incomplete buffer, or one whose
/// payload is neither an image nor of unknown type, is handed back, and ends
/// the loop once the pool of conversion buffers is closed; otherwise the
/// pixel format decides the depth, and an unhandled format ends the loop.
pub fn decide_on_buffer(popped: Option<PoppedBuffer>, termination_requested: bool, pool_closed: bool) -> (r:
    BuilderStep)
    ensures
        r == builder_step(popped, termination_requested, pool_closed),
{
    match popped {
        None => BuilderStep::Fail,
        Some(buf) => {
            if termination_requested {
                return BuilderStep::Stop;
            }
            let image_like = match buf.payload {
                BufferPayloadType::Image | BufferPayloadType::Unknown => true,
                _ => false,
            };
            if buf.status != BufferStatus::Success || !image_like {
                if pool_closed {
                    BuilderStep::RequeueAndStop
                } else {
                    BuilderStep::Requeue
                }
            } else {
                match depth_for_pixel_format(buf.pixel_format) {
                    Some(depth) => BuilderStep::Convert(depth),
                    None => BuilderStep::Stop,
                }
            }
        },
    }
}

/// The depth `depth_for_pixel_format` gives.
pub open spec fn depth_for_pixel_format_spec(pixel_format: u32) -> Option<PixelDepth> {
    if pixel_format == PIXEL_FORMAT_MONO_8 {
        Some(PixelDepth::Luma8)
    } else if pixel_format == PIXEL_FORMAT_MONO_16 || pixel_format == PIXELFORMAT_COORD3D_C16 {
        Some(PixelDepth::Luma16)
    } else {
        None
    }
}

/// A complete image buffer, with no termination requested, is converted at
/// the depth of its pixel format: 8-bit gray images at one byte per pixel,
/// 16-bit gray and 16-bit coordinate images at two; a buffer of any other
/// format ends the loop. The pool of conversion buffers plays no part.
pub proof fn lemma_complete_image_converts_at_format_depth(buf: PoppedBuffer, pool_closed: bool)
    requires
        buf.status == BufferStatus::Success,
        buf.payload == BufferPayloadType::Image || buf.payload == BufferPayloadType::Unknown,
    ensures
        (builder_step(Some(buf), false, pool_closed) == BuilderStep::Convert(PixelDepth::Luma8)) <==> buf.pixel_format
            == PIXEL_FORMAT_MONO_8,
        (builder_step(Some(buf), false, pool_closed) == BuilderStep::Convert(PixelDepth::Luma16)) <==> (
        buf.pixel_format == PIXEL_FORMAT_MONO_16 || buf.pixel_format == PIXELFORMAT_COORD3D_C16),
        (builder_step(Some(buf), false, pool_closed) == BuilderStep::Stop) <==> !(buf.pixel_format
            == PIXEL_FORMAT_MONO_8 || buf.pixel_format == PIXEL_FORMAT_MONO_16 || buf.pixel_format == PIXELFORMAT_COORD3D_C16),
        builder_step(Some(buf), false, pool_closed) == builder_step(Some(buf), false, !pool_closed),
{
}

/// No buffer in time is a failure, whatever else holds. With no termination
/// requested, an incomplete buffer, or one whose payload is neither an
/// image nor of unknown type, is handed back, and ends the loop exactly
/// when the pool of conversion buffers is closed.
pub proof fn lemma_buffers_handed_back(buf: PoppedBuffer, termination_requested: bool, pool_closed: bool)
    ensures
        builder_step(None, termination_requested, pool_closed) == BuilderStep::Fail,
        (buf.status != BufferStatus::Success || !(buf.payload == BufferPayloadType::Image || buf.payload
            == BufferPayloadType::Unknown)) ==> builder_step(Some(buf), false, pool_closed) == (if pool_closed {
            BuilderStep::RequeueAndStop
        } else {
            BuilderStep::Requeue
        }),
{
}

/// A requested termination ends the loop at once for every buffer that
/// arrives, whatever it holds.
pub proof fn lemma_termination_stops(buf: PoppedBuffer, pool_closed: bool)
    ensures
        builder_step(Some(buf), true, pool_closed) == BuilderStep::Stop,
{
}

/// How to connect to a camera and configure it.
#[derive(Clone)]
pub struct CameraBuilder {
    camera_identifier: Option<String>,
    features: GenicamFeatureCollection,
    is_termination_requested: Arc<AtomicBool>,
}

impl CameraBuilder {
    /// The camera to connect to; `None` picks the first one found.
    pub closed spec fn spec_camera_identifier(&self) -> Option<String> {
        self.camera_identifier
    }

    /// The features applied after connecting.
    pub closed spec fn spec_features(&self) -> GenicamFeatureCollection {
        self.features
    }

    /// The flag through which the acquisition is asked to end.
    pub closed spec fn spec_termination(&self) -> Arc<AtomicBool> {
        self.is_termination_requested
    }

    /// A builder for the camera `camera_identifier`, with no features and a
    /// termination flag of its own that is not set.
    pub fn new(camera_identifier: Option<String>) -> (r: CameraBuilder)
        ensures
            r.spec_camera_identifier() == camera_identifier,
            r.spec_features().spec_len() == 0,
    {
        CameraBuilder {
            camera_identifier,
            features: GenicamFeatureCollection::default(),
            is_termination_requested: Arc::new(AtomicBool::new(false)),
        }
    }

    /// The same builder with these features.
    pub fn with_features(self, features: GenicamFeatureCollection) -> (r: CameraBuilder)
        ensures
            r.spec_camera_identifier() == self.spec_camera_identifier(),
            r.spec_features() == features,
            r.spec_termination() == self.spec_termination(),
    {
        let mut s = self;
        s.features = features;
        s
    }

    /// The same builder with this termination flag.
    pub fn with_termination(self, is_termination_requested: Arc<AtomicBool>) -> (r: CameraBuilder)
        ensures
            r.spec_camera_identifier() == self.spec_camera_identifier(),
            r.spec_features() == self.spec_features(),
            r.spec_termination() == is_termination_requested,
    {
        let mut s = self;
        s.is_termination_requested = is_termination_requested;
        s
    }

    /// The camera to connect to.
    pub fn camera_identifier(&self) -> (r: &Option<String>)
        ensures
            *r == self.spec_camera_identifier(),
    {
        &self.camera_identifier
    }

    /// The features applied after connecting.
    pub fn features(&self) -> (r: &GenicamFeatureCollection)
        ensures
            *r == self.spec_features(),
    {
        &self.features
    }

    /// The termination flag.
    pub fn termination(&self) -> (r: &Arc<AtomicBool>)
        ensures
            *r == self.spec_termination(),
    {
        &self.is_termination_requested
    }
}

} // verus!
