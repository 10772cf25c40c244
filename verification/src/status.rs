//! The connection status a camera device reports, and the description of
//! the cameras that are found on the network.
use vstd::prelude::*;
use vstd::utf8::{decode_utf8, valid_utf8};

use crate::text::str_from_utf8;

verus! {

/// The state of the camera connection, as published to subscribers.
#[derive(Debug, Clone, Copy, PartialEq, Eq, Structural)]
pub enum CameraStatus {
    NotConnected,
    Error,
    Running,
}

/// Publishing `new` over `cur` notifies subscribers.
pub open spec fn notifies(cur: CameraStatus, new: CameraStatus) -> bool {
    cur != new
}

/// Replaces the status held in `cur` by `new` and reports whether it
/// changed; subscribers are only notified when it did.
pub fn replace_if_changed(cur: &mut CameraStatus, new: CameraStatus) -> (changed: bool)
    ensures
        changed == notifies(*old(cur), new),
        *final(cur) == new,
{
    if *cur == new {
        false
    } else {
        *cur = new;
        true
    }
}

/// Publishing the same status twice in a row notifies subscribers at most
/// once: the second publication finds the status already in place.
pub proof fn lemma_publish_twice(new: CameraStatus)
    ensures
        !notifies(new, new),
{
}

/// A camera as the camera library lists it: each text field as the raw
/// bytes of its C string, without the terminating NUL.
#[derive(Debug, Clone)]
pub struct RawDeviceInfo {
    pub id: Vec<u8>,
    pub physical_id: Vec<u8>,
    pub vendor: Vec<u8>,
    pub model: Vec<u8>,
    pub protocol: Vec<u8>,
    pub address: Vec<u8>,
}

/// A camera as reported to users, every field decoded from UTF-8.
#[derive(Debug, Clone)]
pub struct DeviceInfo {
    pub id: String,
    pub physical_id: String,
    pub vendor: String,
    pub model: String,
    pub protocol: String,
    pub address: String,
}

/// The characters of each field of a `DeviceInfo`.
pub struct DeviceInfoView {
    pub id: Seq<char>,
    pub physical_id: Seq<char>,
    pub vendor: Seq<char>,
    pub model: Seq<char>,
    pub protocol: Seq<char>,
    pub address: Seq<char>,
}

impl View for DeviceInfo {
    type V = DeviceInfoView;

    open spec fn view(&self) -> DeviceInfoView {
        DeviceInfoView {
            id: self.id@,
            physical_id: self.physical_id@,
            vendor: self.vendor@,
            model: self.model@,
            protocol: self.protocol@,
            address: self.address@,
        }
    }
}

impl RawDeviceInfo {
    /// Every field is valid UTF-8.
    pub open spec fn is_decodable(&self) -> bool {
        &&& valid_utf8(self.id@)
        &&& valid_utf8(self.physical_id@)
        &&& valid_utf8(self.vendor@)
        &&& valid_utf8(self.model@)
        &&& valid_utf8(self.protocol@)
        &&& valid_utf8(self.address@)
    }

    /// The decoded fields, meaningful when `is_decodable` holds.
    pub open spec fn decoded(&self) -> DeviceInfoView {
        DeviceInfoView {
            id: decode_utf8(self.id@),
            physical_id: decode_utf8(self.physical_id@),
            vendor: decode_utf8(self.vendor@),
            model: decode_utf8(self.model@),
            protocol: decode_utf8(self.protocol@),
            address: decode_utf8(self.address@),
        }
    }
}

/// The devices of `raws` whose fields all decode, in their order.
pub open spec fn decoded_devices(raws: Seq<RawDeviceInfo>) -> Seq<DeviceInfoView>
    decreases raws.len(),
{
    if raws.len() == 0 {
        seq![]
    } else {
        let rest = decoded_devices(raws.drop_last());
        if raws.last().is_decodable() {
            rest.push(raws.last().decoded())
        } else {
            rest
        }
    }
}

fn decode_field(bytes: &Vec<u8>) -> (r: Option<String>)
    ensures
        r is Some <==> valid_utf8(bytes@),
        r matches Some(s) ==> s@ == decode_utf8(bytes@),
{
    match str_from_utf8(bytes.as_slice()) {
        Some(s) => Some(s.to_owned()),
        None => None,
    }
}

impl DeviceInfo {
    /// Decodes every field of a listed camera; `None` when one of them is not
    /// valid UTF-8.
    pub fn from_raw(raw: &RawDeviceInfo) -> (r: Option<DeviceInfo>)
        ensures
            r is Some <==> raw.is_decodable(),
            r matches Some(info) ==> info@ == raw.decoded(),
    {
        let id = decode_field(&raw.id)?;
        let physical_id = decode_field(&raw.physical_id)?;
        let vendor = decode_field(&raw.vendor)?;
        let model = decode_field(&raw.model)?;
        let protocol = decode_field(&raw.protocol)?;
        let address = decode_field(&raw.address)?;
        Some(DeviceInfo { id, physical_id, vendor, model, protocol, address })
    }
}

/// The cameras to report: those whose fields all decode, in the order in
/// which they were listed; the others are skipped.
pub fn list_device_infos(raws: &Vec<RawDeviceInfo>) -> (r: Vec<DeviceInfo>)
    ensures
        r@.map_values(|d: DeviceInfo| d@) == decoded_devices(raws@),
{
    let mut out: Vec<DeviceInfo> = Vec::new();
    let mut i: usize = 0;
    while i < raws.len()
        invariant
            i <= raws.len(),
            out@.map_values(|d: DeviceInfo| d@) == decoded_devices(raws@.take(i as int)),
        decreases raws.len() - i,
    {
        assert(raws@.take(i + 1).drop_last() == raws@.take(i as int));
        match DeviceInfo::from_raw(&raws[i]) {
            Some(info) => {
                out.push(info);
            },
            None => {},
        }
        i = i + 1;
    }
    assert(raws@.take(raws.len() as int) == raws@);
    out
}

} // verus!
