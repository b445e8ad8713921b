//! Editing the picture of the selected segment: visibility, position,
//! scale, rotation, opacity, crop, fit and background, each checked
//! against its allowed range.
use vstd::prelude::*;

use crate::compiler::filters::{SegmentCrop, SegmentFitMode};
use crate::engine::model::{BackgroundFilling, Draft, SegmentVisual, VisualTransform};
use crate::runtime::selection::{selected_segment, selected_segment_position, TimelineSelection};
use crate::runtime::timeline_view::{
    checked_i32, checked_u32, normalize_rotation_degrees, normalized_rotation, range_message,
};
use crate::text::{clone_opt_string, decimal, lit, signed_decimal};

verus! {

/// The background a patch asks for.
#[derive(Debug, Clone, Copy, PartialEq, Eq, Structural)]
pub enum SegmentBackgroundFillingPatchKind {
    NoFilling,
    Black,
    SolidColor,
    Blur,
    Image,
}

/// The changes an edit of a segment's picture asks for; absent fields stay.
#[derive(Debug, Clone)]
pub struct SegmentVisualPatch {
    pub visible: Option<bool>,
    pub position_x: Option<i32>,
    pub position_y: Option<i32>,
    pub position_delta_x: Option<i32>,
    pub position_delta_y: Option<i32>,
    pub scale_x_millis: Option<u32>,
    pub scale_y_millis: Option<u32>,
    pub rotation_degrees: Option<i32>,
    pub rotation_delta_degrees: Option<i32>,
    pub opacity_millis: Option<u32>,
    pub crop_left_millis: Option<u32>,
    pub crop_right_millis: Option<u32>,
    pub crop_top_millis: Option<u32>,
    pub crop_bottom_millis: Option<u32>,
    pub fit_mode: Option<SegmentFitMode>,
    pub background_kind: Option<SegmentBackgroundFillingPatchKind>,
    pub background_color: Option<String>,
}

/// `value` limited to `[min, max]`.
pub open spec fn clamp_int(value: int, min: int, max: int) -> int {
    if value < min { min } else if value > max { max } else { value }
}

/// A checked field: the patched value if given and in range, the current
/// one if not given, else the range message.
pub open spec fn checked_field_u32(current: u32, patched: Option<u32>, label: Seq<char>, min: u32, max: u32) -> Result<u32, Seq<char>> {
    match patched {
        None => Ok(current),
        Some(v) => if min <= v <= max { Ok(v) } else { Err(range_message(label, decimal(min as nat), decimal(max as nat))) },
    }
}

/// A checked signed field, as `checked_field_u32`.
pub open spec fn checked_field_i32(current: i32, patched: Option<i32>, label: Seq<char>, min: i32, max: i32) -> Result<i32, Seq<char>> {
    match patched {
        None => Ok(current),
        Some(v) => if min <= v <= max { Ok(v) } else { Err(range_message(label, signed_decimal(min as int), signed_decimal(max as int))) },
    }
}

/// A coordinate after its absolute value and then its delta are applied;
/// the delta moves it within `[-1000, 1000]`.
pub open spec fn patched_position(current: i32, absolute: Option<i32>, delta: Option<i32>, label: Seq<char>) -> Result<i32, Seq<char>> {
    match checked_field_i32(current, absolute, label, -1000i32, 1000i32) {
        Err(m) => Err(m),
        Ok(p) => Ok(match delta {
            Some(d) => clamp_int(p + d, -1000, 1000) as i32,
            None => p,
        }),
    }
}

/// The rotation before the patch's delta is added.
pub open spec fn rotation_before_delta(v: SegmentVisual, p: SegmentVisualPatch) -> int {
    match p.rotation_degrees {
        Some(r) => r as int,
        None => v.transform.rotation_degrees as int,
    }
}

/// The transform and visibility a patch gives, or the first range it
/// breaks, checked in order: position, scale, rotation, opacity, crop
/// edges, then the crop totals.
pub open spec fn patched_transform(v: SegmentVisual, p: SegmentVisualPatch) -> Result<VisualTransform, Seq<char>> {
    let t = v.transform;
    match patched_position(t.position_x, p.position_x, p.position_delta_x, "位置 X"@) {
        Err(m) => Err(m),
        Ok(x) => match patched_position(t.position_y, p.position_y, p.position_delta_y, "位置 Y"@) {
            Err(m) => Err(m),
            Ok(y) => match checked_field_u32(t.scale_x_millis, p.scale_x_millis, "缩放 X"@, 1, 3000) {
                Err(m) => Err(m),
                Ok(sx) => match checked_field_u32(t.scale_y_millis, p.scale_y_millis, "缩放 Y"@, 1, 3000) {
                    Err(m) => Err(m),
                    Ok(sy) => match checked_field_i32(t.rotation_degrees, p.rotation_degrees, "旋转"@, -360i32, 360i32) {
                        Err(m) => Err(m),
                        Ok(r0) => {
                            let r = match p.rotation_delta_degrees {
                                Some(d) => normalized_rotation(r0 + d) as i32,
                                None => r0,
                            };
                            match checked_field_u32(t.opacity_millis, p.opacity_millis, "不透明度"@, 0, 1000) {
                                Err(m) => Err(m),
                                Ok(o) => patched_crop(t, p, x, y, sx, sy, r, o),
                            }
                        },
                    },
                },
            },
        },
    }
}

/// The rest of `patched_transform`: the crop edges and totals.
pub open spec fn patched_crop(t: VisualTransform, p: SegmentVisualPatch, x: i32, y: i32, sx: u32, sy: u32, r: i32, o: u32) -> Result<VisualTransform, Seq<char>> {
    match checked_field_u32(t.crop.left_millis, p.crop_left_millis, "左裁剪"@, 0, 999) {
        Err(m) => Err(m),
        Ok(l) => match checked_field_u32(t.crop.right_millis, p.crop_right_millis, "右裁剪"@, 0, 999) {
            Err(m) => Err(m),
            Ok(rt) => match checked_field_u32(t.crop.top_millis, p.crop_top_millis, "上裁剪"@, 0, 999) {
                Err(m) => Err(m),
                Ok(tp) => match checked_field_u32(t.crop.bottom_millis, p.crop_bottom_millis, "下裁剪"@, 0, 999) {
                    Err(m) => Err(m),
                    Ok(b) => if l + rt >= 1000 || tp + b >= 1000 {
                        Err("编辑画面失败：左右或上下裁剪总和必须小于 1000"@)
                    } else {
                        Ok(VisualTransform {
                            position_x: x,
                            position_y: y,
                            scale_x_millis: sx,
                            scale_y_millis: sy,
                            rotation_degrees: r,
                            opacity_millis: o,
                            crop: SegmentCrop { left_millis: l, right_millis: rt, top_millis: tp, bottom_millis: b },
                        })
                    },
                },
            },
        },
    }
}

/// A background by its plain values.
pub enum FillingView {
    NoFilling,
    Black,
    SolidColor(Seq<char>),
    Blur,
    Image(Option<Seq<char>>),
}

/// An optional string by its characters.
pub open spec fn opt_view(o: Option<String>) -> Option<Seq<char>> {
    match o {
        Some(s) => Some(s@),
        None => None,
    }
}

/// A background filling by its plain values.
pub open spec fn filling_view(b: BackgroundFilling) -> FillingView {
    match b {
        BackgroundFilling::NoFilling => FillingView::NoFilling,
        BackgroundFilling::Black => FillingView::Black,
        BackgroundFilling::SolidColor { color } => FillingView::SolidColor(color@),
        BackgroundFilling::Blur => FillingView::Blur,
        BackgroundFilling::Image { material_id } => FillingView::Image(opt_view(material_id)),
    }
}

/// The background a patch gives: the asked kind (a solid colour takes the
/// patch's colour, else keeps the current one, else black; an image keeps
/// its current material); without a kind, a colour only recolours a solid
/// background.
pub open spec fn patched_filling(current: BackgroundFilling, p: SegmentVisualPatch) -> FillingView {
    match p.background_kind {
        Some(kind) => match kind {
            SegmentBackgroundFillingPatchKind::NoFilling => FillingView::NoFilling,
            SegmentBackgroundFillingPatchKind::Black => FillingView::Black,
            SegmentBackgroundFillingPatchKind::Blur => FillingView::Blur,
            SegmentBackgroundFillingPatchKind::SolidColor => FillingView::SolidColor(match p.background_color {
                Some(c) => c@,
                None => match current {
                    BackgroundFilling::SolidColor { color } => color@,
                    _ => "#000000"@,
                },
            }),
            SegmentBackgroundFillingPatchKind::Image => FillingView::Image(match current {
                BackgroundFilling::Image { material_id } => opt_view(material_id),
                _ => None,
            }),
        },
        None => match (p.background_color, current) {
            (Some(c), BackgroundFilling::SolidColor { .. }) => FillingView::SolidColor(c@),
            _ => filling_view(current),
        },
    }
}

fn patch_position(current: i32, absolute: Option<i32>, delta: Option<i32>, label: &str) -> (r: Result<i32, String>)
    ensures
        match patched_position(current, absolute, delta, label@) {
            Ok(v) => r == Ok::<i32, String>(v),
            Err(m) => r matches Err(e) && e@ == m,
        },
{
    let mut p = current;
    match absolute {
        Some(v) => {
            p = match checked_i32(label, v, -1000, 1000) {
                Ok(v) => v,
                Err(e) => return Err(e),
            };
        },
        None => {},
    }
    match delta {
        Some(d) => {
            let sum: i64 = p as i64 + d as i64;
            let clamped: i64 = if sum < -1000 { -1000 } else if sum > 1000 { 1000 } else { sum };
            Ok(clamped as i32)
        },
        None => Ok(p),
    }
}

fn patch_u32(current: u32, patched: Option<u32>, label: &str, min: u32, max: u32) -> (r: Result<u32, String>)
    ensures
        match checked_field_u32(current, patched, label@, min, max) {
            Ok(v) => r == Ok::<u32, String>(v),
            Err(m) => r matches Err(e) && e@ == m,
        },
{
    match patched {
        Some(v) => checked_u32(label, v, min, max),
        None => Ok(current),
    }
}

fn patch_transform(t: VisualTransform, p: &SegmentVisualPatch, v: &SegmentVisual) -> (r: Result<VisualTransform, String>)
    requires
        t == v.transform,
        rotation_delta_fits_visual(*v, *p),
    ensures
        match patched_transform(*v, *p) {
            Ok(nt) => r == Ok::<VisualTransform, String>(nt),
            Err(m) => r matches Err(e) && e@ == m,
        },
{
    let x = match patch_position(t.position_x, p.position_x, p.position_delta_x, "位置 X") {
        Ok(x) => x,
        Err(e) => return Err(e),
    };
    let y = match patch_position(t.position_y, p.position_y, p.position_delta_y, "位置 Y") {
        Ok(y) => y,
        Err(e) => return Err(e),
    };
    let sx = match patch_u32(t.scale_x_millis, p.scale_x_millis, "缩放 X", 1, 3000) {
        Ok(v) => v,
        Err(e) => return Err(e),
    };
    let sy = match patch_u32(t.scale_y_millis, p.scale_y_millis, "缩放 Y", 1, 3000) {
        Ok(v) => v,
        Err(e) => return Err(e),
    };
    let r0 = match p.rotation_degrees {
        Some(rv) => match checked_i32("旋转", rv, -360, 360) {
            Ok(v) => v,
            Err(e) => return Err(e),
        },
        None => t.rotation_degrees,
    };
    let r = match p.rotation_delta_degrees {
        Some(d) => normalize_rotation_degrees(r0 + d),
        None => r0,
    };
    let o = match patch_u32(t.opacity_millis, p.opacity_millis, "不透明度", 0, 1000) {
        Ok(v) => v,
        Err(e) => return Err(e),
    };
    let l = match patch_u32(t.crop.left_millis, p.crop_left_millis, "左裁剪", 0, 999) {
        Ok(v) => v,
        Err(e) => return Err(e),
    };
    let rt = match patch_u32(t.crop.right_millis, p.crop_right_millis, "右裁剪", 0, 999) {
        Ok(v) => v,
        Err(e) => return Err(e),
    };
    let tp = match patch_u32(t.crop.top_millis, p.crop_top_millis, "上裁剪", 0, 999) {
        Ok(v) => v,
        Err(e) => return Err(e),
    };
    let b = match patch_u32(t.crop.bottom_millis, p.crop_bottom_millis, "下裁剪", 0, 999) {
        Ok(v) => v,
        Err(e) => return Err(e),
    };
    if l as u64 + rt as u64 >= 1000 || tp as u64 + b as u64 >= 1000 {
        return Err(lit("编辑画面失败：左右或上下裁剪总和必须小于 1000"));
    }
    Ok(VisualTransform {
        position_x: x,
        position_y: y,
        scale_x_millis: sx,
        scale_y_millis: sy,
        rotation_degrees: r,
        opacity_millis: o,
        crop: SegmentCrop { left_millis: l, right_millis: rt, top_millis: tp, bottom_millis: b },
    })
}

fn copy_filling(b: &BackgroundFilling) -> (r: BackgroundFilling)
    ensures
        filling_view(r) == filling_view(*b),
{
    match b {
        BackgroundFilling::NoFilling => BackgroundFilling::NoFilling,
        BackgroundFilling::Black => BackgroundFilling::Black,
        BackgroundFilling::SolidColor { color } => BackgroundFilling::SolidColor { color: color.clone() },
        BackgroundFilling::Blur => BackgroundFilling::Blur,
        BackgroundFilling::Image { material_id } => BackgroundFilling::Image { material_id: clone_opt_string(material_id) },
    }
}

fn patch_filling(current: &BackgroundFilling, p: &SegmentVisualPatch) -> (r: BackgroundFilling)
    ensures
        filling_view(r) == patched_filling(*current, *p),
{
    match p.background_kind {
        Some(kind) => match kind {
            SegmentBackgroundFillingPatchKind::NoFilling => BackgroundFilling::NoFilling,
            SegmentBackgroundFillingPatchKind::Black => BackgroundFilling::Black,
            SegmentBackgroundFillingPatchKind::Blur => BackgroundFilling::Blur,
            SegmentBackgroundFillingPatchKind::SolidColor => {
                let color = match &p.background_color {
                    Some(c) => c.clone(),
                    None => match current {
                        BackgroundFilling::SolidColor { color } => color.clone(),
                        _ => lit("#000000"),
                    },
                };
                BackgroundFilling::SolidColor { color }
            },
            SegmentBackgroundFillingPatchKind::Image => match current {
                BackgroundFilling::Image { material_id } => BackgroundFilling::Image { material_id: clone_opt_string(material_id) },
                _ => BackgroundFilling::Image { material_id: None },
            },
        },
        None => match (&p.background_color, current) {
            (Some(c), BackgroundFilling::SolidColor { .. }) => BackgroundFilling::SolidColor { color: c.clone() },
            _ => copy_filling(current),
        },
    }
}

/// Whether a patch gets as far as adding its rotation delta: every check
/// before it passes.
pub open spec fn reaches_rotation_delta(v: SegmentVisual, p: SegmentVisualPatch) -> bool {
    &&& p.rotation_delta_degrees is Some
    &&& patched_position(v.transform.position_x, p.position_x, p.position_delta_x, "位置 X"@) is Ok
    &&& patched_position(v.transform.position_y, p.position_y, p.position_delta_y, "位置 Y"@) is Ok
    &&& checked_field_u32(v.transform.scale_x_millis, p.scale_x_millis, "缩放 X"@, 1, 3000) is Ok
    &&& checked_field_u32(v.transform.scale_y_millis, p.scale_y_millis, "缩放 Y"@, 1, 3000) is Ok
    &&& checked_field_i32(v.transform.rotation_degrees, p.rotation_degrees, "旋转"@, -360i32, 360i32) is Ok
}

/// Whether the rotation plus the patch's delta fits an `i32` (the sum is
/// taken in `i32`) wherever the patch gets that far.
pub open spec fn rotation_delta_fits_visual(v: SegmentVisual, p: SegmentVisualPatch) -> bool {
    reaches_rotation_delta(v, p) ==> i32::MIN <= rotation_before_delta(v, p) + p.rotation_delta_degrees->Some_0 <= i32::MAX
}

/// `rotation_delta_fits_visual` for the selected segment.
pub open spec fn rotation_delta_fits(draft: Draft, selection: TimelineSelection, p: SegmentVisualPatch) -> bool {
    selected_segment_position(draft, selection, "编辑画面"@) matches Ok((t, s))
        ==> rotation_delta_fits_visual(draft.tracks@[t].segments@[s].visual, p)
}

/// The picture of the selected segment with a patch applied: every given
/// value checked against its range, the position deltas clamped to
/// `[-1000, 1000]`, the rotation delta normalised to `[-180, 180]`, and the
/// crop totals below 1000 on each axis.
pub fn apply_segment_visual_patch(draft: &Draft, selection: &TimelineSelection, patch: &SegmentVisualPatch) -> (r: Result<SegmentVisual, String>)
    requires
        rotation_delta_fits(*draft, *selection, *patch),
    ensures
        match selected_segment_position(*draft, *selection, "编辑画面"@) {
            Err(m) => r matches Err(e) && e@ == m,
            Ok((t, s)) => {
                let v = draft.tracks@[t].segments@[s].visual;
                match patched_transform(v, *patch) {
                    Err(m) => r matches Err(e) && e@ == m,
                    Ok(nt) => r matches Ok(nv) && {
                        &&& nv.visible == match patch.visible { Some(b) => b, None => v.visible }
                        &&& nv.transform == nt
                        &&& nv.fit_mode == match patch.fit_mode { Some(f) => f, None => v.fit_mode }
                        &&& filling_view(nv.background_filling) == patched_filling(v.background_filling, *patch)
                        &&& nv.blend_reference == v.blend_reference
                        &&& nv.mask_reference == v.mask_reference
                    },
                }
            },
        },
{
    let segment = match selected_segment(draft, selection, "编辑画面") {
        Ok(s) => s,
        Err(e) => return Err(e),
    };
    let mut visual = segment.visual.duplicate();
    let transform = match patch_transform(visual.transform, patch, &segment.visual) {
        Ok(t) => t,
        Err(e) => return Err(e),
    };
    if let Some(visible) = patch.visible {
        visual.visible = visible;
    }
    visual.transform = transform;
    if let Some(fit_mode) = patch.fit_mode {
        visual.fit_mode = fit_mode;
    }
    visual.background_filling = patch_filling(&segment.visual.background_filling, patch);
    Ok(visual)
}

} // verus!
