use pilatus_aravis::buffer::{BufferPartDataType, BufferPayloadType, BufferStatus, PartData};
use pilatus_aravis::image_ext::{PartImage, PixelBuffer, ToPilatusImageError};
use pilatus_aravis::wrapper::{
    combine_component, combine_components, component_key, convert_parts, decide_on_buffer, first_zero_area_part,
    part_has_valid_area, BufferDecision, FrameError, PopOutcome, RawPart, TaggedPart,
};

fn luma8(width: u32, height: u32, fill: u8) -> PartImage {
    PartImage { width, height, pixels: PixelBuffer::Luma8(vec![fill; (width * height) as usize]) }
}

fn tagged(part_id: u32, component_id: u32, image: PartImage) -> TaggedPart {
    TaggedPart { part_id, component_id, image }
}

fn raw(part_id: u32, component_id: u32, data_type: BufferPartDataType, data: Vec<u8>) -> RawPart {
    RawPart { part_id, component_id, data_type, part: PartData { width: 2, height: 2, pixel_format: 0, data } }
}

#[test]
fn three_luma8_planes_become_planar_rgb() {
    let frame = combine_components(vec![
        tagged(0, 5, luma8(2, 1, 1)),
        tagged(1, 5, luma8(2, 1, 2)),
        tagged(2, 5, luma8(2, 1, 3)),
    ])
    .unwrap();
    assert_eq!((frame.main.width, frame.main.height), (2, 1));
    match frame.main.pixels {
        PixelBuffer::Rgb8Planar(p) => assert_eq!(p, vec![1, 1, 2, 2, 3, 3]),
        other => panic!("unexpected {other:?}"),
    }
    assert!(frame.others.is_empty());
}

#[test]
fn planes_of_different_size_are_not_combined() {
    let group = vec![luma8(2, 1, 1), luma8(1, 2, 2), luma8(2, 1, 3)];
    assert!(combine_component(group).is_none());
    assert!(combine_components(vec![
        tagged(0, 1, luma8(2, 1, 1)),
        tagged(1, 1, luma8(1, 2, 2)),
        tagged(2, 1, luma8(2, 1, 3)),
    ])
    .is_none());
}

#[test]
fn only_luma8_planes_are_combined() {
    let sixteen = PartImage { width: 2, height: 1, pixels: PixelBuffer::Luma16(vec![7, 7]) };
    assert!(combine_component(vec![luma8(2, 1, 1), sixteen, luma8(2, 1, 3)]).is_none());
}

#[test]
fn components_with_two_or_four_parts_yield_no_image() {
    assert!(combine_component(vec![luma8(1, 1, 1), luma8(1, 1, 2)]).is_none());
    assert!(combine_component(vec![luma8(1, 1, 1), luma8(1, 1, 2), luma8(1, 1, 3), luma8(1, 1, 4)]).is_none());
    assert!(combine_component(vec![]).is_none());
}

#[test]
fn first_component_is_main_and_others_are_keyed_by_id() {
    let frame = combine_components(vec![
        tagged(0, 9, luma8(1, 1, 10)),
        tagged(1, 3, luma8(1, 1, 30)),
        tagged(2, 4, luma8(1, 1, 40)),
        tagged(3, 4, luma8(1, 1, 41)),
        tagged(4, 7, luma8(1, 1, 70)),
    ])
    .unwrap();
    match &frame.main.pixels {
        PixelBuffer::Luma8(p) => assert_eq!(p, &vec![10]),
        other => panic!("unexpected {other:?}"),
    }
    let ids: Vec<u32> = frame.others.iter().map(|(id, _)| *id).collect();
    // component 4 has two parts and is dropped; the others come in ascending order
    assert_eq!(ids, vec![3, 7]);
    for (id, img) in &frame.others {
        let expected = if *id == 3 { 30 } else { 70 };
        match &img.pixels {
            PixelBuffer::Luma8(p) => assert_eq!(p, &vec![expected]),
            other => panic!("unexpected {other:?}"),
        }
    }
}

#[test]
fn no_main_image_when_first_component_yields_none() {
    assert!(combine_components(vec![
        tagged(0, 1, luma8(1, 1, 1)),
        tagged(1, 1, luma8(1, 1, 2)),
        tagged(2, 2, luma8(1, 1, 3)),
    ])
    .is_none());
    assert!(combine_components(vec![]).is_none());
}

#[test]
fn convert_parts_skips_non_image_parts() {
    let parts = vec![
        raw(0, 1, BufferPartDataType::ChunkData, vec![0; 3]),
        raw(1, 1, BufferPartDataType::Image2d, vec![1, 2, 3, 4]),
        raw(2, 2, BufferPartDataType::Image3d, vec![1, 0, 2, 0, 3, 0, 4, 0]),
        raw(3, 2, BufferPartDataType::Jpeg, vec![]),
    ];
    let converted = convert_parts(BufferPayloadType::Multipart, &parts).unwrap();
    assert_eq!(converted.len(), 2);
    assert_eq!((converted[0].part_id, converted[0].component_id), (1, 1));
    assert_eq!((converted[1].part_id, converted[1].component_id), (2, 2));
    assert!(matches!(converted[0].image.pixels, PixelBuffer::Luma8(_)));
    assert!(matches!(converted[1].image.pixels, PixelBuffer::Luma16(_)));
}

#[test]
fn convert_parts_reports_first_failing_part() {
    let parts = vec![
        raw(0, 1, BufferPartDataType::Image2d, vec![1, 2, 3, 4]),
        raw(1, 1, BufferPartDataType::Image2d, vec![0; 12]),
        raw(2, 1, BufferPartDataType::Image2d, vec![0; 13]),
    ];
    match convert_parts(BufferPayloadType::Image, &parts) {
        Err(FrameError::Part { part_id, n_parts, error: ToPilatusImageError::InvalidPixelType { .. } }) => {
            assert_eq!((part_id, n_parts), (1, 3));
        }
        other => panic!("unexpected {other:?}"),
    }
    assert!(matches!(convert_parts(BufferPayloadType::Image, &vec![]), Err(FrameError::NoParts)));
}

#[test]
fn buffer_decisions() {
    assert_eq!(decide_on_buffer(PopOutcome::TimedOut { serial_readable: true }, false), BufferDecision::Retry);
    assert_eq!(decide_on_buffer(PopOutcome::TimedOut { serial_readable: false }, false), BufferDecision::Fail);
    let incomplete = PopOutcome::Received { status: BufferStatus::MissingPackets, payload: BufferPayloadType::Image };
    assert_eq!(decide_on_buffer(incomplete, false), BufferDecision::Requeue);
    assert_eq!(decide_on_buffer(incomplete, true), BufferDecision::RequeueAndStop);
    let chunk = PopOutcome::Received { status: BufferStatus::Success, payload: BufferPayloadType::ChunkData };
    assert_eq!(decide_on_buffer(chunk, true), BufferDecision::Requeue);
    let multi = PopOutcome::Received { status: BufferStatus::Success, payload: BufferPayloadType::Multipart };
    assert_eq!(decide_on_buffer(multi, false), BufferDecision::Convert);
}

#[test]
fn component_keys_name_the_component() {
    assert_eq!(component_key(0), "component0");
    assert_eq!(component_key(42), "component42");
    assert_eq!(component_key(u32::MAX), "component4294967295");
}

fn sized(part_id: u32, data_type: BufferPartDataType, width: u32, height: u32, data: Vec<u8>) -> RawPart {
    RawPart { part_id, component_id: 1, data_type, part: PartData { width, height, pixel_format: 0, data } }
}

#[test]
fn part_area_validity() {
    assert!(part_has_valid_area(&PartData { width: 3, height: 2, pixel_format: 0, data: vec![] }));
    assert!(!part_has_valid_area(&PartData { width: 0, height: 2, pixel_format: 0, data: vec![] }));
    assert!(!part_has_valid_area(&PartData { width: 3, height: 0, pixel_format: 0, data: vec![] }));
}

#[test]
fn zero_area_parts_matter_only_until_the_first_failing_part() {
    // a zero-area part after a part that fails to convert is never read
    let parts = vec![
        sized(0, BufferPartDataType::Image2d, 2, 2, vec![0; 4]),
        sized(1, BufferPartDataType::Image2d, 2, 2, vec![0; 12]),
        sized(2, BufferPartDataType::Image2d, 0, 2, vec![]),
    ];
    assert_eq!(first_zero_area_part(BufferPayloadType::Image, &parts), None);
    assert!(matches!(
        convert_parts(BufferPayloadType::Image, &parts),
        Err(FrameError::Part { part_id: 1, n_parts: 3, .. })
    ));
    // before it, the zero-area part is reported
    let parts = vec![
        sized(0, BufferPartDataType::ChunkData, 0, 0, vec![]),
        sized(1, BufferPartDataType::Image2d, 2, 2, vec![0; 4]),
        sized(2, BufferPartDataType::Image2d, 5, 0, vec![]),
        sized(3, BufferPartDataType::Image2d, 2, 2, vec![0; 12]),
    ];
    assert_eq!(first_zero_area_part(BufferPayloadType::Image, &parts), Some(2));
    // a non-image payload fails on the first convertible part, so nothing after it is read
    assert_eq!(first_zero_area_part(BufferPayloadType::Jpeg, &parts), None);
}
