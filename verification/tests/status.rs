use pilatus_aravis::device::{self, RunningState};
use pilatus_aravis::status::{list_device_infos, replace_if_changed, CameraStatus, DeviceInfo, RawDeviceInfo};

fn raw(id: &[u8]) -> RawDeviceInfo {
    RawDeviceInfo {
        id: id.to_vec(),
        physical_id: b"00:11:22".to_vec(),
        vendor: b"Basler".to_vec(),
        model: b"acA1300".to_vec(),
        protocol: b"GigEVision".to_vec(),
        address: b"192.168.0.2".to_vec(),
    }
}

#[test]
fn status_change_is_reported_once() {
    let mut s = CameraStatus::NotConnected;
    assert!(replace_if_changed(&mut s, CameraStatus::Running));
    assert_eq!(s, CameraStatus::Running);
    assert!(!replace_if_changed(&mut s, CameraStatus::Running));
    assert_eq!(s, CameraStatus::Running);
    assert!(replace_if_changed(&mut s, CameraStatus::Error));
}

#[test]
fn running_state_change_is_reported_once() {
    let mut s = RunningState::NotConnected;
    assert!(!device::replace_if_changed(&mut s, RunningState::NotConnected));
    assert!(device::replace_if_changed(&mut s, RunningState::Error));
    assert_eq!(s, RunningState::Error);
}

#[test]
fn device_info_decodes_every_field() {
    let info = DeviceInfo::from_raw(&raw("Kämera-1".as_bytes())).unwrap();
    assert_eq!(info.id, "Kämera-1");
    assert_eq!(info.vendor, "Basler");
    assert_eq!(info.address, "192.168.0.2");
    assert!(DeviceInfo::from_raw(&raw(&[0x66, 0xff, 0x66])).is_none());
}

#[test]
fn device_list_skips_undecodable_entries_in_order() {
    let list = list_device_infos(&vec![raw(b"a"), raw(&[0xc3]), raw(b"c")]);
    let ids: Vec<&str> = list.iter().map(|d| d.id.as_str()).collect();
    assert_eq!(ids, vec!["a", "c"]);
    assert!(list_device_infos(&vec![]).is_empty());
}
