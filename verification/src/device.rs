//! The camera device: its parameters, its messages and the state it
//! publishes.
use vstd::prelude::*;

use crate::genicam::GenicamFeatureCollection;

verus! {

/// The type name under which the device is registered.
pub const DEVICE_TYPE: &'static str = "pilatus-camera-aravis";

/// The parameters of a camera device: which camera, and which features to
/// apply to it.
#[derive(Debug)]
pub struct Params {
    pub identifier: Option<String>,
    pub features: GenicamFeatureCollection,
}

impl Default for Params {
    /// Any camera, no features.
    fn default() -> (r: Params)
        ensures
            r.identifier is None,
            r.features.spec_len() == 0,
    {
        Params { identifier: None, features: GenicamFeatureCollection::default() }
    }
}

/// Asks the device to record its stream.
#[derive(Debug)]
pub struct RecordStreamMessage {}

/// The state of the camera device, as published to subscribers.
#[derive(Debug, Clone, Copy, PartialEq, Eq, Structural)]
pub enum RunningState {
    NotConnected,
    Error,
    Running,
}

/// Replaces the state held in `cur` by `new` and reports whether it
/// changed; subscribers are only notified when it did.
pub fn replace_if_changed(cur: &mut RunningState, new: RunningState) -> (changed: bool)
    ensures
        changed == (*old(cur) != new),
        *final(cur) == new,
{
    if *cur == new {
        false
    } else {
        *cur = new;
        true
    }
}

} // verus!
