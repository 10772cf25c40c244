//! Turning a camera frame into images: the parts of a buffer are converted,
//! grouped by the component they belong to, and a component of three
//! equally sized 8-bit gray planes becomes one planar RGB image.
use vstd::prelude::*;

use std::collections::BTreeMap;
use vstd::std_specs::btree::spec_keys_iter;
use vstd::std_specs::iter::IteratorSpec;
use vstd::std_specs::cmp::OrdSpec;
use vstd::string::StringExecFns;

use crate::buffer::{
    is_convertible_part, lemma_convertible_kinds, is_image_payload, part_is_convertible, payload_is_image, BufferPartDataType,
    BufferPayloadType, BufferStatus, PartData,
};
use crate::text::{decimal, push_decimal};
use crate::image_ext::{
    dynamic_conversion_succeeds, dynamic_depth, is_dynamic_conversion_error, is_part_image,
    try_into_dynamic_pilatus_image, ImageView, PartImage, PixelBuffer, PixelsView,
    ToPilatusImageError,
};

verus! {

broadcast use {
    vstd::std_specs::btree::group_btree_axioms,
    vstd::laws_cmp::group_laws_cmp,
};

/// What the acquisition does after an image was handed to its consumer.
#[derive(Debug, Clone, Copy, PartialEq, Eq, Structural)]
pub enum StreamingAction {
    Continue,
    Stop,
}

/// One part of a frame as the buffer describes it.
#[derive(Debug, Clone)]
pub struct RawPart {
    pub part_id: u32,
    pub component_id: u32,
    pub data_type: BufferPartDataType,
    pub part: PartData,
}

/// A converted part, with the part and component it came from.
#[derive(Debug)]
pub struct TaggedPart {
    pub part_id: u32,
    pub component_id: u32,
    pub image: PartImage,
}

/// Why a frame could not be converted.
#[derive(Debug)]
pub enum FrameError {
    /// The buffer holds no part at all.
    NoParts,
    /// Part `part_id` of `n_parts` could not be converted.
    Part { part_id: u32, n_parts: usize, error: ToPilatusImageError },
}

/// The images of a frame: the one of the component of the first converted
/// part, and those of the other components by component id.
#[derive(Debug)]
pub struct FrameImages {
    pub main: PartImage,
    pub others: Vec<(u32, PartImage)>,
}

/// The parts of a frame that are turned into images, in their order.
pub open spec fn convertible_parts(parts: Seq<RawPart>) -> Seq<RawPart>
    decreases parts.len(),
{
    if parts.len() == 0 {
        seq![]
    } else {
        let rest = convertible_parts(parts.drop_last());
        if is_convertible_part(parts.last().data_type) {
            rest.push(parts.last())
        } else {
            rest
        }
    }
}

/// Every convertible part that conversion reaches describes at least one
/// pixel: conversion stops at the first part that fails, so only the parts
/// up to it are measured.
pub open spec fn parts_have_valid_areas(payload: BufferPayloadType, parts: Seq<RawPart>) -> bool {
    forall|j: int|
        0 <= j < convertible_parts(parts).len() && (forall|k: int|
            0 <= k < j ==> dynamic_conversion_succeeds(payload, convertible_parts(parts)[k].part))
            ==> (#[trigger] convertible_parts(parts)[j]).part.has_valid_area()
}

/// `tagged` is the conversion of `raw`.
pub open spec fn is_conversion_of(payload: BufferPayloadType, raw: RawPart, tagged: TaggedPart) -> bool {
    &&& tagged.part_id == raw.part_id
    &&& tagged.component_id == raw.component_id
    &&& tagged.image@.wf()
    &&& is_part_image(tagged.image@, raw.part, dynamic_depth(raw.part)->0)
}

/// Converts every convertible part of a frame, in order.
///
/// Fails with `NoParts` when the frame has no part, and otherwise with the
/// first convertible part that does not convert, together with the number
/// of parts.
pub fn convert_parts(payload: BufferPayloadType, parts: &Vec<RawPart>) -> (r: Result<
    Vec<TaggedPart>,
    FrameError,
>)
    requires
        parts_have_valid_areas(payload, parts@),
    ensures
        r matches Err(FrameError::NoParts) <==> parts@.len() == 0,
        parts@.len() > 0 ==> (r is Ok <==> forall|j: int|
            0 <= j < convertible_parts(parts@).len() ==> dynamic_conversion_succeeds(
                payload,
                #[trigger] convertible_parts(parts@)[j].part,
            )),
        r matches Ok(v) ==> v@.len() == convertible_parts(parts@).len() && forall|j: int|
            0 <= j < v@.len() ==> is_conversion_of(payload, convertible_parts(parts@)[j], #[trigger] v@[j]),
        r matches Err(FrameError::Part { part_id, n_parts, error }) ==> (exists|j: int|
            0 <= j < convertible_parts(parts@).len() && !dynamic_conversion_succeeds(
                payload,
                #[trigger] convertible_parts(parts@)[j].part,
            ) && (forall|k: int|
                0 <= k < j ==> dynamic_conversion_succeeds(payload, convertible_parts(parts@)[k].part))
                && part_id == convertible_parts(parts@)[j].part_id && n_parts == parts@.len()
                && is_dynamic_conversion_error(payload, convertible_parts(parts@)[j].part, error)),
{
    let n_parts = parts.len();
    if n_parts == 0 {
        return Err(FrameError::NoParts);
    }
    let mut out: Vec<TaggedPart> = Vec::new();
    let mut i: usize = 0;
    while i < n_parts
        invariant
            n_parts == parts@.len(),
            i <= n_parts,
            parts_have_valid_areas(payload, parts@),
            out@.len() == convertible_parts(parts@.take(i as int)).len(),
            forall|j: int|
                0 <= j < out@.len() ==> is_conversion_of(
                    payload,
                    convertible_parts(parts@.take(i as int))[j],
                    #[trigger] out@[j],
                ),
            forall|j: int|
                0 <= j < out@.len() ==> dynamic_conversion_succeeds(
                    payload,
                    #[trigger] convertible_parts(parts@.take(i as int))[j].part,
                ),
        decreases n_parts - i,
    {
        let ghost before = convertible_parts(parts@.take(i as int));
        assert(parts@.take(i + 1).drop_last() == parts@.take(i as int));
        assert(parts@.take(i + 1).last() == parts@[i as int]);
        let raw = &parts[i];
        if part_is_convertible(raw.data_type) {
            proof {
                lemma_prefix_of_convertible(parts@, i as int);
                assert(convertible_parts(parts@.take(i + 1)) == before.push(*raw));
                let jj = before.len() as int;
                assert(convertible_parts(parts@)[jj] == *raw);
                assert forall|k: int| 0 <= k < jj implies dynamic_conversion_succeeds(
                    payload,
                    convertible_parts(parts@)[k].part,
                ) by {
                    assert(convertible_parts(parts@)[k] == convertible_parts(parts@.take(i + 1))[k]);
                    assert(convertible_parts(parts@.take(i + 1))[k] == before[k]);
                }
                assert(raw.part.has_valid_area());
            }
            match try_into_dynamic_pilatus_image(payload, &raw.part) {
                Ok(image) => {
                    out.push(TaggedPart { part_id: raw.part_id, component_id: raw.component_id, image });
                },
                Err(error) => {
                    return Err(FrameError::Part { part_id: raw.part_id, n_parts, error });
                },
            }
        }
        i = i + 1;
    }
    assert(parts@.take(n_parts as int) == parts@);
    Ok(out)
}

/// Whether a part describes at least one pixel, with an area that fits a
/// `usize`.
pub fn part_has_valid_area(part: &PartData) -> (r: bool)
    ensures
        r == part.has_valid_area(),
{
    let w: u64 = part.width as u64;
    let h: u64 = part.height as u64;
    assert(w * h <= 0xffff_ffff_ffff_ffffnat) by (nonlinear_arith)
        requires
            w <= 0xffff_ffff,
            h <= 0xffff_ffff,
    ;
    let area: u64 = w * h;
    area > 0 && area <= usize::MAX as u64
}

/// Whether `try_into_dynamic_pilatus_image` succeeds on a part.
fn dynamic_conversion_would_succeed(payload: BufferPayloadType, part: &PartData) -> (r: bool)
    requires
        part.has_valid_area(),
    ensures
        r == dynamic_conversion_succeeds(payload, *part),
{
    let area: usize = (part.width as usize) * (part.height as usize);
    let depth: usize = part.data.len() / area;
    (depth == 1 || depth == 2) && payload_is_image(payload)
}

/// The part at which converting a frame would divide by a zero area: the
/// first convertible part whose dimensions describe no pixel (or whose area
/// does not fit a `usize`), provided every convertible part before it
/// converts. `None` exactly when `convert_parts` may be called.
pub fn first_zero_area_part(payload: BufferPayloadType, parts: &Vec<RawPart>) -> (r: Option<u32>)
    ensures
        r is None <==> parts_have_valid_areas(payload, parts@),
        r matches Some(id) ==> exists|j: int|
            0 <= j < convertible_parts(parts@).len() && (#[trigger] convertible_parts(parts@)[j]).part_id
                == id && !convertible_parts(parts@)[j].part.has_valid_area() && forall|k: int|
                0 <= k < j ==> convertible_parts(parts@)[k].part.has_valid_area()
                    && dynamic_conversion_succeeds(payload, convertible_parts(parts@)[k].part),
{
    let n = parts.len();
    let mut i: usize = 0;
    while i < n
        invariant
            n == parts@.len(),
            i <= n,
            forall|j: int|
                0 <= j < convertible_parts(parts@.take(i as int)).len() ==> (#[trigger] convertible_parts(
                    parts@.take(i as int),
                )[j]).part.has_valid_area() && dynamic_conversion_succeeds(
                    payload,
                    convertible_parts(parts@.take(i as int))[j].part,
                ),
        decreases n - i,
    {
        let ghost before = convertible_parts(parts@.take(i as int));
        assert(parts@.take(i + 1).drop_last() == parts@.take(i as int));
        assert(parts@.take(i + 1).last() == parts@[i as int]);
        let raw = &parts[i];
        if part_is_convertible(raw.data_type) {
            let ghost jj = before.len() as int;
            proof {
                lemma_prefix_of_convertible(parts@, i as int);
                assert(convertible_parts(parts@.take(i + 1)) == before.push(*raw));
                assert(convertible_parts(parts@)[jj] == *raw);
                assert forall|k: int| 0 <= k < jj implies convertible_parts(parts@)[k] == before[k] by {
                    assert(convertible_parts(parts@)[k] == convertible_parts(parts@.take(i + 1))[k]);
                }
            }
            if !part_has_valid_area(&raw.part) {
                return Some(raw.part_id);
            }
            if !dynamic_conversion_would_succeed(payload, &raw.part) {
                proof {
                    assert forall|j: int|
                        0 <= j < convertible_parts(parts@).len() && (forall|k: int|
                            0 <= k < j ==> dynamic_conversion_succeeds(
                                payload,
                                convertible_parts(parts@)[k].part,
                            )) implies (#[trigger] convertible_parts(parts@)[j]).part.has_valid_area() by {
                        if j > jj {
                            assert(!dynamic_conversion_succeeds(payload, convertible_parts(parts@)[jj].part));
                        }
                    }
                }
                return None;
            }
        }
        i = i + 1;
    }
    proof {
        assert(parts@.take(n as int) == parts@);
    }
    None
}

/// The parts a frame converts are its parts of an image kind, in frame
/// order: every converted part is a part of the frame, every part of an
/// image kind is converted, and chunk data, confidence maps, device
/// specific data, JPEG and JPEG 2000 images and parts of unknown kind never
/// are.
pub proof fn lemma_converted_parts_are_image_parts(parts: Seq<RawPart>)
    ensures
        forall|j: int|
            0 <= j < convertible_parts(parts).len() ==> parts.contains(
                #[trigger] convertible_parts(parts)[j],
            ) && is_convertible_part(convertible_parts(parts)[j].data_type),
        forall|i: int|
            0 <= i < parts.len() && is_convertible_part(#[trigger] parts[i].data_type)
                ==> convertible_parts(parts).contains(parts[i]),
        forall|j: int|
            0 <= j < convertible_parts(parts).len() ==> !(#[trigger] convertible_parts(parts)[j].data_type
                is ChunkData || convertible_parts(parts)[j].data_type is ConfidenceMap
                || convertible_parts(parts)[j].data_type is DeviceSpecific
                || convertible_parts(parts)[j].data_type is Jpeg
                || convertible_parts(parts)[j].data_type is Jpeg2000
                || convertible_parts(parts)[j].data_type is Unknown),
    decreases parts.len(),
{
    if parts.len() > 0 {
        let init = parts.drop_last();
        let last = parts.last();
        lemma_converted_parts_are_image_parts(init);
        let rest = convertible_parts(init);
        assert forall|j: int| 0 <= j < convertible_parts(parts).len() implies parts.contains(
            #[trigger] convertible_parts(parts)[j],
        ) && is_convertible_part(convertible_parts(parts)[j].data_type) by {
            if j < rest.len() {
                assert(convertible_parts(parts)[j] == rest[j]);
                let k = choose|k: int| 0 <= k < init.len() && init[k] == rest[j];
                assert(parts[k] == init[k]);
            } else {
                assert(convertible_parts(parts)[j] == last);
                assert(parts[parts.len() - 1] == last);
            }
        }
        assert forall|i: int|
            0 <= i < parts.len() && is_convertible_part(#[trigger] parts[i].data_type) implies convertible_parts(
            parts,
        ).contains(parts[i]) by {
            if i < parts.len() - 1 {
                assert(init[i] == parts[i]);
                assert(is_convertible_part(init[i].data_type));
                let k = choose|k: int| 0 <= k < rest.len() && rest[k] == init[i];
                assert(convertible_parts(parts)[k] == rest[k]);
            } else {
                assert(convertible_parts(parts)[rest.len() as int] == last);
            }
        }
        assert forall|j: int| 0 <= j < convertible_parts(parts).len() implies !(
        #[trigger] convertible_parts(parts)[j].data_type is ChunkData || convertible_parts(
            parts,
        )[j].data_type is ConfidenceMap || convertible_parts(parts)[j].data_type is DeviceSpecific
            || convertible_parts(parts)[j].data_type is Jpeg || convertible_parts(parts)[j].data_type is Jpeg2000
            || convertible_parts(parts)[j].data_type is Unknown) by {
            lemma_convertible_kinds(convertible_parts(parts)[j].data_type);
        }
    }
}

/// The convertible parts of a prefix are a prefix of the convertible parts.
proof fn lemma_prefix_of_convertible(parts: Seq<RawPart>, i: int)
    requires
        0 <= i < parts.len(),
    ensures
        convertible_parts(parts.take(i + 1)).len() <= convertible_parts(parts).len(),
        forall|j: int|
            0 <= j < convertible_parts(parts.take(i + 1)).len() ==> #[trigger] convertible_parts(parts)[j]
                == convertible_parts(parts.take(i + 1))[j],
    decreases parts.len(),
{
    if i + 1 == parts.len() {
        assert(parts.take(i + 1) == parts);
    } else {
        lemma_prefix_of_convertible(parts.drop_last(), i);
        assert(parts.drop_last().take(i + 1) == parts.take(i + 1));
    }
}

/// The images of the parts of component `cid`, in part order.
pub open spec fn component_group(parts: Seq<TaggedPart>, cid: u32) -> Seq<ImageView>
    decreases parts.len(),
{
    if parts.len() == 0 {
        seq![]
    } else {
        let rest = component_group(parts.drop_last(), cid);
        if parts.last().component_id == cid {
            rest.push(parts.last().image@)
        } else {
            rest
        }
    }
}

/// Some part belongs to component `cid`.
pub open spec fn has_component(parts: Seq<TaggedPart>, cid: u32) -> bool {
    exists|i: int| 0 <= i < parts.len() && #[trigger] parts[i].component_id == cid
}

/// Two images have the same width and height.
pub open spec fn same_dimensions(a: ImageView, b: ImageView) -> bool {
    a.width == b.width && a.height == b.height
}

/// The image a component yields: its only part, or the planar RGB image of
/// three equally sized 8-bit gray parts taken as red, green and blue in part
/// order. Any other component yields none.
pub open spec fn combined_image(group: Seq<ImageView>) -> Option<ImageView> {
    if group.len() == 1 {
        Some(group[0])
    } else if group.len() == 3 && same_dimensions(group[0], group[1]) && same_dimensions(
        group[0],
        group[2],
    ) {
        match (group[0].pixels, group[1].pixels, group[2].pixels) {
            (PixelsView::Luma8(r), PixelsView::Luma8(g), PixelsView::Luma8(b)) => Some(
                ImageView {
                    width: group[0].width,
                    height: group[0].height,
                    pixels: PixelsView::Rgb8Planar(r + g + b),
                },
            ),
            _ => None,
        }
    } else {
        None
    }
}

/// The images of a group.
pub open spec fn image_views(images: Seq<PartImage>) -> Seq<ImageView> {
    images.map_values(|img: PartImage| img@)
}

/// Combines the images of one component as `combined_image` describes.
pub fn combine_component(group: Vec<PartImage>) -> (r: Option<PartImage>)
    requires
        forall|i: int| 0 <= i < group@.len() ==> (#[trigger] group@[i])@.wf(),
    ensures
        r matches Some(img) ==> combined_image(image_views(group@)) == Some(img@) && img@.wf(),
        r is None ==> combined_image(image_views(group@)) is None,
{
    let ghost views = image_views(group@);
    let n = group.len();
    let mut g = group;
    if n == 1 {
        let only = g.pop();
        return only;
    }
    if n != 3 {
        return None;
    }
    let b = g.pop().unwrap();
    let gr = g.pop().unwrap();
    let r = g.pop().unwrap();
    assert(views[0] == r@ && views[1] == gr@ && views[2] == b@);
    if r.width != gr.width || r.height != gr.height || r.width != b.width || r.height != b.height {
        return None;
    }
    let width = r.width;
    let height = r.height;
    match (r.pixels, gr.pixels, b.pixels) {
        (PixelBuffer::Luma8(red), PixelBuffer::Luma8(green), PixelBuffer::Luma8(blue)) => {
            let mut planes = red;
            let mut green = green;
            let mut blue = blue;
            planes.append(&mut green);
            planes.append(&mut blue);
            Some(PartImage { width, height, pixels: PixelBuffer::Rgb8Planar(planes) })
        },
        _ => None,
    }
}


proof fn lemma_component_group_step(parts: Seq<TaggedPart>, i: int, cid: u32)
    requires
        0 <= i < parts.len(),
    ensures
        component_group(parts.take(i + 1), cid) == if parts[i].component_id == cid {
            component_group(parts.take(i), cid).push(parts[i].image@)
        } else {
            component_group(parts.take(i), cid)
        },
{
    assert(parts.take(i + 1).drop_last() == parts.take(i));
    assert(parts.take(i + 1).last() == parts[i]);
}

proof fn lemma_has_component_step(parts: Seq<TaggedPart>, i: int, cid: u32)
    requires
        0 <= i < parts.len(),
    ensures
        has_component(parts.take(i + 1), cid) == (has_component(parts.take(i), cid)
            || parts[i].component_id == cid),
{
    let next = parts.take(i + 1);
    let prev = parts.take(i);
    if has_component(next, cid) {
        let j = choose|j: int| 0 <= j < next.len() && #[trigger] next[j].component_id == cid;
        if j < i {
            assert(prev[j] == next[j]);
        }
    }
    if has_component(prev, cid) {
        let j = choose|j: int| 0 <= j < prev.len() && #[trigger] prev[j].component_id == cid;
        assert(next[j] == prev[j]);
    }
    if parts[i].component_id == cid {
        assert(next[i] == parts[i]);
    }
}

proof fn lemma_group_of_absent(parts: Seq<TaggedPart>, cid: u32)
    requires
        !has_component(parts, cid),
    ensures
        component_group(parts, cid) == Seq::<ImageView>::empty(),
    decreases parts.len(),
{
    if parts.len() > 0 {
        let rest = parts.drop_last();
        if has_component(rest, cid) {
            let j = choose|j: int| 0 <= j < rest.len() && #[trigger] rest[j].component_id == cid;
            assert(parts[j] == rest[j]);
        }
        assert(parts[parts.len() - 1] == parts.last());
        lemma_group_of_absent(rest, cid);
    }
}

/// Groups the images of a frame by component, keeping the part order within
/// each group.
fn group_by_component(parts: Vec<TaggedPart>) -> (r: BTreeMap<u32, Vec<PartImage>>)
    requires
        forall|i: int| 0 <= i < parts@.len() ==> (#[trigger] parts@[i]).image@.wf(),
    ensures
        forall|cid: u32| #[trigger] r@.contains_key(cid) <==> has_component(parts@, cid),
        forall|cid: u32|
            #[trigger] r@.contains_key(cid) ==> image_views(r@[cid]@) == component_group(parts@, cid)
                && forall|j: int| 0 <= j < r@[cid]@.len() ==> (#[trigger] r@[cid]@[j])@.wf(),
{
    let ghost orig = parts@;
    let n = parts.len();
    let mut rest = parts;
    let mut groups: BTreeMap<u32, Vec<PartImage>> = BTreeMap::new();
    let mut i: usize = 0;
    while i < n
        invariant
            n == orig.len(),
            i <= n,
            rest@ == orig.subrange(i as int, n as int),
            forall|j: int| 0 <= j < orig.len() ==> (#[trigger] orig[j]).image@.wf(),
            forall|cid: u32| #[trigger] groups@.contains_key(cid) <==> has_component(orig.take(i as int), cid),
            forall|cid: u32|
                #[trigger] groups@.contains_key(cid) ==> image_views(groups@[cid]@) == component_group(
                    orig.take(i as int),
                    cid,
                ) && forall|j: int| 0 <= j < groups@[cid]@.len() ==> (#[trigger] groups@[cid]@[j])@.wf(),
        decreases n - i,
    {
        let part = rest.remove(0);
        assert(part == orig[i as int]);
        let cid = part.component_id;
        let ghost before = groups@;
        proof {
            assert forall|c: u32| #[trigger] has_component(orig.take(i + 1), c) == (has_component(
                orig.take(i as int),
                c,
            ) || orig[i as int].component_id == c) by {
                lemma_has_component_step(orig, i as int, c);
            }
            assert forall|c: u32| #[trigger] component_group(orig.take(i + 1), c) == if orig[i as int].component_id == c {
                component_group(orig.take(i as int), c).push(orig[i as int].image@)
            } else {
                component_group(orig.take(i as int), c)
            } by {
                lemma_component_group_step(orig, i as int, c);
            }
        }
        let mut group = match groups.remove(&cid) {
            Some(g) => g,
            None => {
                proof {
                    lemma_group_of_absent(orig.take(i as int), cid);
                }
                Vec::new()
            },
        };
        assert(image_views(group@) == component_group(orig.take(i as int), cid));
        let ghost old_group = group@;
        group.push(part.image);
        assert(image_views(group@) =~= image_views(old_group).push(orig[i as int].image@));
        groups.insert(cid, group);
        proof {
            assert forall|c: u32| #[trigger] groups@.contains_key(c) implies image_views(groups@[c]@)
                == component_group(orig.take(i + 1), c) && forall|j: int|
                0 <= j < groups@[c]@.len() ==> (#[trigger] groups@[c]@[j])@.wf() by {
                if c != cid {
                    assert(groups@[c] == before[c]);
                }
            }
        }
        i = i + 1;
    }
    assert(orig.take(n as int) == orig);
    groups
}

/// The component ids of a grouping, in increasing order.
fn sorted_components(groups: &BTreeMap<u32, Vec<PartImage>>) -> (r: Vec<u32>)
    ensures
        r@.to_set() == groups@.dom(),
        r@.no_duplicates(),
        forall|a: int, b: int| 0 <= a < b < r@.len() ==> #[trigger] r@[a] < #[trigger] r@[b],
{
    let mut ids: Vec<u32> = Vec::new();
    let ghost s = spec_keys_iter(groups).remaining();
    for k in it: groups.keys()
        invariant
            it.seq() == s,
            ids@ == it.seq().take(it.index()).unref(),
    {
        ids.push(*k);
        assert(ids@ =~= it.seq().take(it.index() + 1).unref());
    }
    assert(ids@.len() == s.len());
    proof {
        assert(ids@ =~= s.unref());
        lemma_increasing_ids(s, ids@);
    }
    ids
}

proof fn lemma_increasing_ids(keys: Seq<&u32>, ids: Seq<u32>)
    requires
        vstd::std_specs::btree::increasing_seq(keys),
        ids == keys.unref(),
    ensures
        forall|a: int, b: int| 0 <= a < b < ids.len() ==> #[trigger] ids[a] < #[trigger] ids[b],
{
    assert(vstd::laws_cmp::obeys_cmp::<&u32>());
    assert(vstd::laws_cmp::obeys_cmp::<u32>());
    vstd::std_specs::btree::axiom_increasing_seq_meaning::<&u32>(keys);
    assert forall|a: int, b: int| 0 <= a < b < ids.len() implies #[trigger] ids[a] < #[trigger] ids[b] by {
        assert(OrdSpec::cmp_spec(&keys[a], &keys[b]) is Less);
        assert((*keys[a]).cmp_spec(&*keys[b]) is Less);
    }
}

/// The images of a frame.
///
/// The main image is the one of the component of the first part; without
/// parts, or when that component yields no image, there is none. Every
/// other component that yields an image (see `combined_image`) is listed
/// once in `others`, in increasing order of component id; the components
/// that yield none are left out.
pub fn combine_components(parts: Vec<TaggedPart>) -> (r: Option<FrameImages>)
    requires
        forall|i: int| 0 <= i < parts@.len() ==> (#[trigger] parts@[i]).image@.wf(),
    ensures
        parts@.len() == 0 ==> r is None,
        parts@.len() > 0 ==> (r is Some <==> combined_image(
            component_group(parts@, parts@[0].component_id),
        ) is Some),
        r matches Some(frame) ==> {
            let first = parts@[0].component_id;
            &&& Some(frame.main@) == combined_image(component_group(parts@, first))
            &&& frame.main@.wf()
            &&& forall|a: int, b: int|
                0 <= a < b < frame.others@.len() ==> (#[trigger] frame.others@[a]).0
                    < (#[trigger] frame.others@[b]).0
            &&& forall|a: int|
                0 <= a < frame.others@.len() ==> {
                    let (cid, img) = #[trigger] frame.others@[a];
                    &&& cid != first
                    &&& has_component(parts@, cid)
                    &&& Some(img@) == combined_image(component_group(parts@, cid))
                    &&& img@.wf()
                }
            &&& forall|cid: u32|
                #![trigger has_component(parts@, cid)]
                has_component(parts@, cid) && cid != first && combined_image(
                    component_group(parts@, cid),
                ) is Some ==> exists|a: int|
                    0 <= a < frame.others@.len() && (#[trigger] frame.others@[a]).0 == cid
        },
{
    if parts.len() == 0 {
        return None;
    }
    let ghost orig = parts@;
    let first = parts[0].component_id;
    proof {
        assert(has_component(orig, first)) by {
            assert(orig[0].component_id == first);
        }
    }
    let mut groups = group_by_component(parts);
    let ghost gmap = groups@;
    let keys = sorted_components(&groups);
    let ghost tf = choose|t: int| 0 <= t < keys@.len() && keys@[t] == first;
    proof {
        assert(keys@.to_set().contains(first));
        assert(keys@.contains(first));
    }
    let m = keys.len();
    let mut main: Option<PartImage> = None;
    let mut others: Vec<(u32, PartImage)> = Vec::new();
    let ghost mut pos: Seq<int> = Seq::empty();
    let mut k: usize = 0;
    while k < m
        invariant
            m == keys@.len(),
            0 <= tf < m,
            keys@[tf] == first,
            keys@.no_duplicates(),
            keys@.to_set() == gmap.dom(),
            forall|a: int, b: int| 0 <= a < b < keys@.len() ==> #[trigger] keys@[a] < #[trigger] keys@[b],
            k <= m,
            forall|cid: u32| #[trigger] gmap.contains_key(cid) <==> has_component(orig, cid),
            forall|cid: u32|
                #[trigger] gmap.contains_key(cid) ==> image_views(gmap[cid]@) == component_group(orig, cid)
                    && forall|j: int| 0 <= j < gmap[cid]@.len() ==> (#[trigger] gmap[cid]@[j])@.wf(),
            forall|t: int| k <= t < m ==> #[trigger] groups@.contains_key(keys@[t]) && groups@[keys@[t]]
                == gmap[keys@[t]],
            k <= tf ==> main is None,
            k > tf ==> (main is Some <==> combined_image(component_group(orig, first)) is Some),
            main matches Some(mm) ==> Some(mm@) == combined_image(component_group(orig, first))
                && mm@.wf(),
            pos.len() == others@.len(),
            forall|a: int| 0 <= a < pos.len() ==> 0 <= #[trigger] pos[a] < k && pos[a] != tf,
            forall|a: int, b: int| 0 <= a < b < pos.len() ==> #[trigger] pos[a] < #[trigger] pos[b],
            forall|a: int|
                0 <= a < pos.len() ==> {
                    let (cid, img) = #[trigger] others@[a];
                    &&& cid == keys@[pos[a]]
                    &&& Some(img@) == combined_image(component_group(orig, cid))
                    &&& img@.wf()
                },
            forall|t: int|
                0 <= t < k && t != tf && combined_image(component_group(orig, #[trigger] keys@[t])) is Some
                    ==> exists|a: int| 0 <= a < pos.len() && pos[a] == t,
        decreases m - k,
    {
        let ghost old_pos = pos;
        let ghost old_groups = groups@;
        let cid = keys[k];
        assert(gmap.contains_key(cid)) by {
            assert(keys@.to_set().contains(cid));
        }
        let group = match groups.remove(&cid) {
            Some(g) => g,
            None => {
                assert(false);
                Vec::new()
            },
        };
        proof {
            assert forall|t: int| k + 1 <= t < m implies #[trigger] groups@.contains_key(keys@[t])
                && groups@[keys@[t]] == gmap[keys@[t]] by {
                assert(old_groups.contains_key(keys@[t]));
                assert(keys@[t] != keys@[k as int]);
            }
        }
        let combined = combine_component(group);
        if cid == first {
            assert(k as int == tf);
            main = combined;
        } else {
            assert(k as int != tf);
            match combined {
                Some(img) => {
                    others.push((cid, img));
                    proof {
                        pos = pos.push(k as int);
                    }
                },
                None => {},
            }
        }
        proof {
            assert forall|t: int|
                0 <= t < k + 1 && t != tf && combined_image(component_group(orig, #[trigger] keys@[t])) is Some
                    implies exists|a: int| 0 <= a < pos.len() && pos[a] == t by {
                if t == k {
                    assert(pos[pos.len() - 1] == t);
                } else {
                    let a = choose|a: int| 0 <= a < old_pos.len() && old_pos[a] == t;
                    assert(pos[a] == old_pos[a]);
                }
            }
        }
        k = k + 1;
    }
    match main {
        Some(main) => {
            let frame = FrameImages { main, others };
            proof {
                assert forall|a: int, b: int|
                    0 <= a < b < frame.others@.len() implies (#[trigger] frame.others@[a]).0
                    < (#[trigger] frame.others@[b]).0 by {
                    assert(pos[a] < pos[b]);
                }
                assert forall|a: int| 0 <= a < frame.others@.len() implies {
                    let (cid, img) = #[trigger] frame.others@[a];
                    &&& cid != first
                    &&& has_component(orig, cid)
                    &&& Some(img@) == combined_image(component_group(orig, cid))
                    &&& img@.wf()
                } by {
                    let cid = frame.others@[a].0;
                    assert(keys@.contains(cid));
                    assert(keys@.to_set().contains(cid));
                    assert(pos[a] != tf);
                }
                assert forall|cid: u32|
                    #![trigger has_component(orig, cid)]
                    has_component(orig, cid) && cid != first && combined_image(
                        component_group(orig, cid),
                    ) is Some implies exists|a: int|
                    0 <= a < frame.others@.len() && (#[trigger] frame.others@[a]).0 == cid by {
                    assert(gmap.contains_key(cid));
                    assert(keys@.to_set().contains(cid));
                    let t = choose|t: int| 0 <= t < keys@.len() && keys@[t] == cid;
                    assert(t != tf);
                    let a = choose|a: int| 0 <= a < pos.len() && pos[a] == t;
                    assert(frame.others@[a].0 == cid);
                }
            }
            Some(frame)
        },
        None => None,
    }
}

/// What waiting for the next filled buffer gave.
#[derive(Debug, Clone, Copy, PartialEq, Eq, Structural)]
pub enum PopOutcome {
    /// No buffer arrived in time; `serial_readable` tells whether the camera
    /// still answered a read of its serial number.
    TimedOut { serial_readable: bool },
    /// A buffer arrived with this status and payload.
    Received { status: BufferStatus, payload: BufferPayloadType },
}

/// What the acquisition loop does with the outcome of a wait.
#[derive(Debug, Clone, Copy, PartialEq, Eq, Structural)]
pub enum BufferDecision {
    /// Wait for the next buffer again.
    Retry,
    /// Give up: no image arrived for too long.
    Fail,
    /// Hand the buffer back to the stream and wait for the next one.
    Requeue,
    /// Hand the buffer back to the stream and end the acquisition.
    RequeueAndStop,
    /// Convert the buffer into images.
    Convert,
}

/// The decision `decide_on_buffer` takes.
pub open spec fn buffer_decision(outcome: PopOutcome, pool_closed: bool) -> BufferDecision {
    match outcome {
        PopOutcome::TimedOut { serial_readable } => if serial_readable {
            BufferDecision::Retry
        } else {
            BufferDecision::Fail
        },
        PopOutcome::Received { status, payload } => if status != BufferStatus::Success {
            if pool_closed {
                BufferDecision::RequeueAndStop
            } else {
                BufferDecision::Requeue
            }
        } else if is_image_payload(payload) {
            BufferDecision::Convert
        } else {
            BufferDecision::Requeue
        },
    }
}

/// Decides on the outcome of a wait for a buffer. A timeout is tolerated
/// while the camera still answers; an incomplete buffer is handed back, and
/// ends the acquisition once the pool of conversion buffers is closed; a
/// complete buffer without images is handed back.
pub fn decide_on_buffer(outcome: PopOutcome, pool_closed: bool) -> (r: BufferDecision)
    ensures
        r == buffer_decision(outcome, pool_closed),
{
    match outcome {
        PopOutcome::TimedOut { serial_readable } => {
            if serial_readable {
                BufferDecision::Retry
            } else {
                BufferDecision::Fail
            }
        },
        PopOutcome::Received { status, payload } => {
            if status != BufferStatus::Success {
                if pool_closed {
                    BufferDecision::RequeueAndStop
                } else {
                    BufferDecision::Requeue
                }
            } else if payload_is_image(payload) {
                BufferDecision::Convert
            } else {
                BufferDecision::Requeue
            }
        },
    }
}

/// The acquisition loop converts exactly the complete buffers whose payload
/// is an image or a multi-part payload. A timeout is retried exactly while
/// the camera still answers and fails otherwise; every other buffer is
/// handed back, and the loop ends with it exactly when it is incomplete and
/// the pool of conversion buffers is closed.
pub proof fn lemma_buffer_decisions(outcome: PopOutcome, pool_closed: bool)
    ensures
        (buffer_decision(outcome, pool_closed) == BufferDecision::Convert) <==> (outcome matches PopOutcome::Received {
            status,
            payload,
        } && status == BufferStatus::Success && (payload == BufferPayloadType::Image || payload
            == BufferPayloadType::Multipart)),
        (buffer_decision(outcome, pool_closed) == BufferDecision::Retry) <==> (outcome matches PopOutcome::TimedOut {
            serial_readable,
        } && serial_readable),
        (buffer_decision(outcome, pool_closed) == BufferDecision::Fail) <==> (outcome matches PopOutcome::TimedOut {
            serial_readable,
        } && !serial_readable),
        (buffer_decision(outcome, pool_closed) == BufferDecision::RequeueAndStop) <==> (outcome matches PopOutcome::Received {
            status,
            ..
        } && status != BufferStatus::Success && pool_closed),
        (outcome matches PopOutcome::Received { status, .. } && status == BufferStatus::Success)
            ==> buffer_decision(outcome, pool_closed) == buffer_decision(outcome, !pool_closed),
{
}

/// The key under which the image of component `component_id` is published
/// beside the main image.
pub open spec fn component_key_text(component_id: u32) -> Seq<char> {
    "component"@ + decimal(component_id as nat)
}

/// Renders the key, with the number in decimal.
fn format_component_key(component_id: u32) -> (r: String)
    ensures
        r@ == component_key_text(component_id),
{
    let mut text = String::from_str("component");
    push_decimal(&mut text, component_id as u64);
    text
}

/// The key under which the image of component `component_id` is published:
/// `component` followed by the id in decimal.
pub fn component_key(component_id: u32) -> (r: String)
    ensures
        r@ == component_key_text(component_id),
{
    format_component_key(component_id)
}

} // verus!
