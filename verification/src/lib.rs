//! Verified core of a GenICam camera driver built on aravis: feature
//! validation, conversion of camera buffers into images, combination of
//! multi-part frames and the decisions of the acquisition loops.
use vstd::prelude::*;

pub mod acquisition;
pub mod buffer;
pub mod builder;
pub mod device;
pub mod genicam;
pub mod image_ext;
pub mod single_image;
pub mod status;
pub mod text;
pub mod wrapper;

verus! {

} // verus!
