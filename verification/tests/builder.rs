use std::sync::atomic::AtomicBool;
use std::sync::Arc;

use pilatus_aravis::buffer::{BufferPayloadType, BufferStatus, PartData};
use pilatus_aravis::builder::{
    decide_on_buffer, depth_for_pixel_format, BuilderStep, CameraBuilder, PoppedBuffer,
    PIXELFORMAT_COORD3D_C16, PIXEL_FORMAT_MONO_16, PIXEL_FORMAT_MONO_8,
};
use pilatus_aravis::device::{Params, DEVICE_TYPE};
use pilatus_aravis::genicam::{FeatureName, FeatureValue, GenicamFeatureCollection};
use pilatus_aravis::image_ext::{PixelBuffer, PixelDepth};
use pilatus_aravis::single_image::{check_dimensions, try_into_pilatus, ToPilatusImageError};

#[test]
fn builder_keeps_identifier_features_and_flag() {
    let b = CameraBuilder::new(Some("cam-1".to_string()));
    assert_eq!(b.camera_identifier().as_deref(), Some("cam-1"));
    assert_eq!(b.features().len(), 0);
    let features = GenicamFeatureCollection::new(vec![(
        FeatureName::try_from("Gain".to_string()).unwrap(),
        FeatureValue::Integer(2),
    )]);
    let flag = Arc::new(AtomicBool::new(true));
    let b = b.with_features(features).with_termination(flag.clone());
    assert_eq!(b.features().len(), 1);
    assert!(Arc::ptr_eq(b.termination(), &flag));
    assert_eq!(b.camera_identifier().as_deref(), Some("cam-1"));
}

#[test]
fn pixel_formats_select_depth() {
    assert_eq!(depth_for_pixel_format(PIXEL_FORMAT_MONO_8), Some(PixelDepth::Luma8));
    assert_eq!(depth_for_pixel_format(PIXEL_FORMAT_MONO_16), Some(PixelDepth::Luma16));
    assert_eq!(depth_for_pixel_format(PIXELFORMAT_COORD3D_C16), Some(PixelDepth::Luma16));
    assert_eq!(depth_for_pixel_format(0x0218_0014), None);
}

#[test]
fn single_image_loop_decisions() {
    let ok = PoppedBuffer { status: BufferStatus::Success, payload: BufferPayloadType::Image, pixel_format: PIXEL_FORMAT_MONO_8 };
    assert_eq!(decide_on_buffer(None, false, false), BuilderStep::Fail);
    assert_eq!(decide_on_buffer(Some(ok), true, false), BuilderStep::Stop);
    assert_eq!(decide_on_buffer(Some(ok), false, false), BuilderStep::Convert(PixelDepth::Luma8));
    let unknown = PoppedBuffer { payload: BufferPayloadType::Unknown, pixel_format: PIXEL_FORMAT_MONO_16, ..ok };
    assert_eq!(decide_on_buffer(Some(unknown), false, false), BuilderStep::Convert(PixelDepth::Luma16));
    let failed = PoppedBuffer { status: BufferStatus::Aborted, ..ok };
    assert_eq!(decide_on_buffer(Some(failed), false, false), BuilderStep::Requeue);
    assert_eq!(decide_on_buffer(Some(failed), false, true), BuilderStep::RequeueAndStop);
    let chunk = PoppedBuffer { payload: BufferPayloadType::ChunkData, ..ok };
    assert_eq!(decide_on_buffer(Some(chunk), false, false), BuilderStep::Requeue);
    let rgb = PoppedBuffer { pixel_format: 0x0218_0014, ..ok };
    assert_eq!(decide_on_buffer(Some(rgb), false, false), BuilderStep::Stop);
}

#[test]
fn single_image_check_requires_exact_size() {
    assert_eq!(check_dimensions::<u8>(7, 4, 3, 12).unwrap(), (4, 3));
    match check_dimensions::<u8>(7, 4, 3, 13).unwrap_err() {
        ToPilatusImageError::InvalidPixelType { format, details } => {
            assert_eq!(format, 7);
            assert_eq!(details, "Expected 1 bit deep (area: 12, size: 13)");
        }
        other => panic!("unexpected {other:?}"),
    }
    assert!(check_dimensions::<u16>(7, 4, 3, 24).is_ok());
}

#[test]
fn single_image_conversion() {
    let image = PartData { width: 2, height: 1, pixel_format: PIXEL_FORMAT_MONO_16, data: vec![1, 0, 0, 1] };
    match try_into_pilatus(BufferPayloadType::Image, &image, PixelDepth::Luma16).unwrap().pixels {
        PixelBuffer::Luma16(p) => assert_eq!(p, vec![u16::from_ne_bytes([1, 0]), u16::from_ne_bytes([0, 1])]),
        other => panic!("unexpected {other:?}"),
    }
    assert!(matches!(
        try_into_pilatus(BufferPayloadType::Multipart, &image, PixelDepth::Luma16),
        Err(ToPilatusImageError::NotAnImage)
    ));
    assert!(matches!(
        try_into_pilatus(BufferPayloadType::Image, &image, PixelDepth::Luma8),
        Err(ToPilatusImageError::InvalidPixelType { .. })
    ));
}

#[test]
fn default_params_select_any_camera_without_features() {
    let p = Params::default();
    assert!(p.identifier.is_none());
    assert_eq!(p.features.len(), 0);
    assert_eq!(DEVICE_TYPE, "pilatus-camera-aravis");
}

#[test]
fn single_image_non_image_payload_is_rejected_before_dimensions_are_read() {
    let empty = PartData { width: 0, height: 0, pixel_format: 17301505, data: vec![] };
    let e = try_into_pilatus(BufferPayloadType::Multipart, &empty, PixelDepth::Luma8).unwrap_err();
    assert!(matches!(e, ToPilatusImageError::NotAnImage));
    let e = try_into_pilatus(BufferPayloadType::Unknown, &empty, PixelDepth::Luma16).unwrap_err();
    assert!(matches!(e, ToPilatusImageError::NotAnImage));
}
