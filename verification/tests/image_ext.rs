use pilatus_aravis::buffer::{BufferPayloadType, PartData};
use pilatus_aravis::image_ext::{
    check_dimensions, try_into_dynamic_pilatus_image, try_into_pilatus, PixelBuffer, PixelDepth,
    ToPilatusImageError,
};

fn part(width: u32, height: u32, data: Vec<u8>) -> PartData {
    PartData { width, height, pixel_format: 17301505, data }
}

fn details(e: ToPilatusImageError) -> String {
    match e {
        ToPilatusImageError::InvalidPixelType { details } => details,
        other => panic!("unexpected {other:?}"),
    }
}

#[test]
fn check_dimensions_accepts_matching_pixel_size() {
    assert_eq!(check_dimensions::<u8>(4, 3, 12).unwrap(), (4, 3));
    assert_eq!(check_dimensions::<u16>(4, 3, 24).unwrap(), (4, 3));
    // the bytes per pixel are rounded down
    assert_eq!(check_dimensions::<u8>(4, 3, 13).unwrap(), (4, 3));
    assert_eq!(check_dimensions::<u16>(4, 3, 35).unwrap(), (4, 3));
}

#[test]
fn check_dimensions_reports_pixel_size_mismatch() {
    let e = check_dimensions::<u16>(4, 3, 12).unwrap_err();
    assert_eq!(details(e), "Expected 2 byte deep (area: 12, size: 12)");
    let e = check_dimensions::<u8>(1, 1, 1000).unwrap_err();
    assert_eq!(details(e), "Expected 1 byte deep (area: 1, size: 1000)");
}

#[test]
fn dynamic_conversion_reads_one_byte_per_pixel_as_luma8() {
    let img = try_into_dynamic_pilatus_image(BufferPayloadType::Image, &part(3, 2, vec![1, 2, 3, 4, 5, 6, 7]))
        .unwrap();
    assert_eq!((img.width, img.height), (3, 2));
    match img.pixels {
        PixelBuffer::Luma8(p) => assert_eq!(p, vec![1, 2, 3, 4, 5, 6]),
        other => panic!("unexpected {other:?}"),
    }
}

#[test]
fn dynamic_conversion_reads_two_bytes_per_pixel_as_luma16() {
    let data: Vec<u8> = vec![1, 0, 2, 0, 3, 0, 0, 1];
    let img = try_into_dynamic_pilatus_image(BufferPayloadType::Multipart, &part(2, 2, data)).unwrap();
    match img.pixels {
        PixelBuffer::Luma16(p) => {
            let expected: Vec<u16> = vec![
                u16::from_ne_bytes([1, 0]),
                u16::from_ne_bytes([2, 0]),
                u16::from_ne_bytes([3, 0]),
                u16::from_ne_bytes([0, 1]),
            ];
            assert_eq!(p, expected);
        }
        other => panic!("unexpected {other:?}"),
    }
}

#[test]
fn dynamic_conversion_rejects_unknown_depth() {
    let e = try_into_dynamic_pilatus_image(BufferPayloadType::Image, &part(3, 2, vec![0; 20])).unwrap_err();
    assert_eq!(
        details(e),
        "Unknown bit dept of PixelFormat PixelFormat(17301505). Area 6, BufferSize: 20"
    );
    let e = try_into_dynamic_pilatus_image(BufferPayloadType::Image, &part(3, 2, vec![0; 5])).unwrap_err();
    assert_eq!(
        details(e),
        "Unknown bit dept of PixelFormat PixelFormat(17301505). Area 6, BufferSize: 5"
    );
}

#[test]
fn dynamic_conversion_rejects_non_image_payload() {
    let e = try_into_dynamic_pilatus_image(BufferPayloadType::ChunkData, &part(3, 2, vec![0; 6])).unwrap_err();
    assert!(matches!(e, ToPilatusImageError::NotAnImage));
}

#[test]
fn part_conversion_with_fixed_depth() {
    let img = try_into_pilatus(BufferPayloadType::Image, &part(2, 1, vec![9, 8, 7]), PixelDepth::Luma8).unwrap();
    match img.pixels {
        PixelBuffer::Luma8(p) => assert_eq!(p, vec![9, 8]),
        other => panic!("unexpected {other:?}"),
    }
    let e = try_into_pilatus(BufferPayloadType::Image, &part(2, 1, vec![9, 8, 7]), PixelDepth::Luma16).unwrap_err();
    assert_eq!(details(e), "Expected 2 byte deep (area: 2, size: 3)");
    let e = try_into_pilatus(BufferPayloadType::Jpeg, &part(2, 1, vec![9, 8]), PixelDepth::Luma8).unwrap_err();
    assert!(matches!(e, ToPilatusImageError::NotAnImage));
}

#[test]
fn non_image_payload_is_rejected_before_dimensions_are_read() {
    let e = try_into_pilatus(BufferPayloadType::Unknown, &part(0, 5, vec![]), PixelDepth::Luma8).unwrap_err();
    assert!(matches!(e, ToPilatusImageError::NotAnImage));
    let e = try_into_pilatus(BufferPayloadType::ChunkData, &part(3, 0, vec![1, 2]), PixelDepth::Luma16).unwrap_err();
    assert!(matches!(e, ToPilatusImageError::NotAnImage));
}
