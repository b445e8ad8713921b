//! Keyframe animation of segment properties: keyframes of one property in
//! time order, eased progress between two keyframes, and the animated value
//! at a segment-relative time.
use vstd::prelude::*;

use crate::text::lit;

verus! {

/// An animatable property.
#[derive(Debug, Clone, Copy, PartialEq, Eq, Structural)]
pub enum KeyframeProperty {
    VisualPositionX,
    VisualPositionY,
    VisualScaleX,
    VisualScaleY,
    VisualRotation,
    VisualOpacity,
    TextFontSize,
    TextColor,
    TextLineHeight,
    TextLetterSpacing,
    TextLayoutX,
    TextLayoutY,
    TextLayoutWidth,
    TextLayoutHeight,
    Volume,
    StickerPositionX,
    StickerPositionY,
    StickerScaleX,
    StickerScaleY,
    FilterParameterUnsupported,
}

/// Value of a keyframe.
#[derive(Debug, Clone)]
pub enum KeyframeValue {
    Int { value: i32 },
    Uint { value: u32 },
    Color { value: String },
}

/// How the value moves towards the next keyframe.
#[derive(Debug, Clone, Copy, PartialEq, Eq, Structural)]
pub enum KeyframeInterpolation {
    Linear,
    Hold,
}

/// Easing of the progress towards the next keyframe.
#[derive(Debug, Clone, Copy, PartialEq, Eq, Structural)]
pub enum KeyframeEasing {
    NoEasing,
    EaseIn,
    EaseOut,
    EaseInOut,
}

/// A keyframe at a segment-relative time.
#[derive(Debug, Clone)]
pub struct Keyframe {
    pub property: KeyframeProperty,
    pub at: u64,
    pub value: KeyframeValue,
    pub interpolation: KeyframeInterpolation,
    pub easing: KeyframeEasing,
}

// ---------------------------------------------------------------------------
// Keyframes of one property, in time order
// ---------------------------------------------------------------------------

/// Order of keyframe positions: by time, then by position in the list (so
/// keyframes at equal times keep their list order).
pub open spec fn kf_before(kfs: Seq<Keyframe>, a: int, b: int) -> bool {
    kfs[a].at < kfs[b].at || (kfs[a].at == kfs[b].at && a < b)
}

/// `order` lists exactly the positions of the keyframes of `property`, each
/// once, sorted by time (stably).
pub open spec fn is_property_order(kfs: Seq<Keyframe>, property: KeyframeProperty, order: Seq<int>) -> bool {
    &&& forall|k: int| 0 <= k < order.len() ==> 0 <= #[trigger] order[k] < kfs.len() && kfs[order[k]].property == property
    &&& forall|i: int| 0 <= i < kfs.len() && (#[trigger] kfs[i]).property == property ==> order.contains(i)
    &&& forall|a: int, b: int| 0 <= a < b < order.len() ==> kf_before(kfs, #[trigger] order[a], #[trigger] order[b])
}

proof fn lemma_kf_before_order(kfs: Seq<Keyframe>, a: int, b: int, c: int)
    ensures
        !kf_before(kfs, a, a),
        kf_before(kfs, a, b) && kf_before(kfs, b, c) ==> kf_before(kfs, a, c),
        a != b ==> kf_before(kfs, a, b) || kf_before(kfs, b, a),
        kf_before(kfs, a, b) ==> !kf_before(kfs, b, a),
{
}

/// Index of the first entry of `order`, from `k` on, whose keyframe comes
/// after time `at` (the length of `order` if there is none).
pub open spec fn upper_pos(kfs: Seq<Keyframe>, order: Seq<int>, at: u64, k: int) -> int
    decreases order.len() - k,
{
    if k < 0 || k >= order.len() {
        order.len() as int
    } else if kfs[order[k]].at > at {
        k
    } else {
        upper_pos(kfs, order, at, k + 1)
    }
}

/// The time order of the keyframes of `property` among the first `n`:
/// each is placed after every earlier one at the same or an earlier time.
pub open spec fn property_order(kfs: Seq<Keyframe>, property: KeyframeProperty, n: int) -> Seq<int>
    decreases n,
{
    if n <= 0 {
        Seq::empty()
    } else {
        let o = property_order(kfs, property, n - 1);
        if kfs[n - 1].property == property {
            o.insert(upper_pos(kfs, o, kfs[n - 1].at, 0), n - 1)
        } else {
            o
        }
    }
}

/// The time order of all keyframes of `property`.
pub open spec fn keyframe_order(kfs: Seq<Keyframe>, property: KeyframeProperty) -> Seq<int> {
    property_order(kfs, property, kfs.len() as int)
}

/// Positions of the keyframes of `property`, sorted by time; keyframes at
/// the same time keep their list order.
pub fn keyframes_for_property(keyframes: &Vec<Keyframe>, property: KeyframeProperty) -> (order: Vec<usize>)
    ensures
        is_property_order(keyframes@, property, order@.map_values(|i: usize| i as int)),
        order@.map_values(|i: usize| i as int) == keyframe_order(keyframes@, property),
{
    let ghost kfs = keyframes@;
    let mut order: Vec<usize> = Vec::new();
    let mut n: usize = 0;
    while n < keyframes.len()
        invariant
            kfs == keyframes@,
            n <= kfs.len(),
            forall|k: int| 0 <= k < order@.len() ==> 0 <= #[trigger] order@[k] < n && kfs[order@[k] as int].property == property,
            forall|i: int| 0 <= i < n && (#[trigger] kfs[i]).property == property ==> order@.contains(i as usize),
            forall|a: int, b: int| 0 <= a < b < order@.len() ==> kf_before(kfs, #[trigger] order@[a] as int, #[trigger] order@[b] as int),
            order@.map_values(|i: usize| i as int) == property_order(kfs, property, n as int),
        decreases kfs.len() - n,
    {
        let ghost ords = order@.map_values(|i: usize| i as int);
        if keyframes[n].property == property {
            // insert n after every entry that comes before it
            let at = keyframes[n].at;
            let mut p: usize = 0;
            while p < order.len() && keyframes[order[p]].at <= at
                invariant
                    kfs == keyframes@,
                    n < kfs.len(),
                    kfs[n as int].at == at,
                    p <= order@.len(),
                    ords == order@.map_values(|i: usize| i as int),
                    upper_pos(kfs, ords, at, 0) == upper_pos(kfs, ords, at, p as int),
                    forall|k: int| 0 <= k < order@.len() ==> 0 <= #[trigger] order@[k] < n,
                    forall|k: int| 0 <= k < p ==> kf_before(kfs, #[trigger] order@[k] as int, n as int),
                decreases order@.len() - p,
            {
                proof {
                    assert(ords[p as int] == order@[p as int] as int);
                }
                p = p + 1;
            }
            proof {
                if p < order@.len() {
                    assert(ords[p as int] == order@[p as int] as int);
                }
                assert(upper_pos(kfs, ords, at, p as int) == p);
            }
            let ghost old_order = order@;
            proof {
                assert forall|k: int| p <= k < old_order.len() implies kf_before(kfs, n as int, #[trigger] old_order[k] as int) by {
                    if k > p {
                        assert(kf_before(kfs, old_order[p as int] as int, old_order[k] as int));
                    }
                }
            }
            order.insert(p, n);
            proof {
                let no = order@;
                assert forall|a: int, b: int| 0 <= a < b < no.len() implies kf_before(kfs, #[trigger] no[a] as int, #[trigger] no[b] as int) by {
                    if a < p && b < p {
                    } else if a < p && b == p {
                    } else if a < p && b > p {
                        assert(no[b] == old_order[b - 1]);
                        lemma_kf_before_order(kfs, no[a] as int, n as int, no[b] as int);
                    } else if a == p {
                        assert(no[b] == old_order[b - 1]);
                    } else {
                        assert(no[a] == old_order[a - 1]);
                        assert(no[b] == old_order[b - 1]);
                    }
                }
                assert forall|i: int| 0 <= i < n + 1 && (#[trigger] kfs[i]).property == property implies no.contains(i as usize) by {
                    if i == n {
                        assert(no[p as int] == n);
                    } else {
                        assert(old_order.contains(i as usize));
                        let k = choose|k: int| 0 <= k < old_order.len() && old_order[k] == i as usize;
                        if k < p {
                            assert(no[k] == old_order[k]);
                        } else {
                            assert(no[k + 1] == old_order[k]);
                        }
                    }
                }
                assert forall|k: int| 0 <= k < no.len() implies 0 <= #[trigger] no[k] < n + 1 && kfs[no[k] as int].property == property by {
                    if k < p {
                        assert(no[k] == old_order[k]);
                    } else if k > p {
                        assert(no[k] == old_order[k - 1]);
                    }
                }
                assert(no.map_values(|i: usize| i as int) =~= ords.insert(p as int, n as int));
            }
        }
        n = n + 1;
    }
    proof {
        let v = order@.map_values(|i: usize| i as int);
        assert forall|i: int| 0 <= i < kfs.len() && (#[trigger] kfs[i]).property == property implies v.contains(i) by {
            assert(order@.contains(i as usize));
            let k = choose|k: int| 0 <= k < order@.len() && order@[k] == i as usize;
            assert(v[k] == i);
        }
    }
    order
}

// ---------------------------------------------------------------------------
// Progress and interpolation
// ---------------------------------------------------------------------------

/// Progress (per mille, before easing) of `at` between `start` and `end`.
pub open spec fn raw_progress(start: int, at: int, end: int) -> int {
    let p = (at - start) * 1000 / (end - start);
    if p > 1000 { 1000 } else { p }
}

/// Eased progress per mille from keyframe time `start` towards `end`.
pub open spec fn spec_eased_progress(easing: KeyframeEasing, start: int, at: int, end: int) -> Option<int> {
    if end < start {
        None
    } else if end == start {
        Some(1000)
    } else if at < start {
        None
    } else {
        let raw = raw_progress(start, at, end);
        Some(
            match easing {
                KeyframeEasing::NoEasing => raw,
                KeyframeEasing::EaseIn => raw * raw / 1000,
                KeyframeEasing::EaseOut => 1000 - (1000 - raw) * (1000 - raw) / 1000,
                KeyframeEasing::EaseInOut => if raw < 500 {
                    2 * raw * raw / 1000
                } else {
                    1000 - 2 * (1000 - raw) * (1000 - raw) / 1000
                },
            },
        )
    }
}

/// Division rounding towards zero (Rust's integer division).
pub open spec fn trunc_div(a: int, b: int) -> int {
    if a >= 0 { a / b } else { -((-a) / b) }
}

/// The value `progress` per mille of the way from `start` to `end`.
pub open spec fn spec_interpolate(start: int, end: int, progress: int) -> int {
    start + trunc_div((end - start) * progress, 1000)
}

fn eased_progress_per_mille(start: &Keyframe, at: u64, end: u64) -> (r: Option<u32>)
    ensures
        match spec_eased_progress(start.easing, start.at as int, at as int, end as int) {
            Some(p) => r == Some(p as u32) && 0 <= p <= 1000,
            None => r is None,
        },
{
    if end < start.at {
        return None;
    }
    let span = end - start.at;
    if span == 0 {
        return Some(1_000);
    }
    if at < start.at {
        return None;
    }
    let elapsed = at - start.at;
    proof {
        vstd::arithmetic::mul::lemma_mul_upper_bound(elapsed as int, u64::MAX as int, 1000, 1000);
        vstd::arithmetic::div_mod::lemma_div_pos_is_pos((elapsed as int) * 1000, span as int);
    }
    let scaled: u128 = (elapsed as u128) * 1_000u128 / (span as u128);
    let raw: u32 = if scaled > 1_000 { 1_000 } else { scaled as u32 };
    proof {
        assert(raw as int == raw_progress(start.at as int, at as int, end as int));
        assert(0 <= (raw as int) * (raw as int) <= 1_000_000) by (nonlinear_arith)
            requires 0 <= raw <= 1000;
        assert(0 <= (2 * raw as int) * (raw as int) <= 2_000_000) by (nonlinear_arith)
            requires 0 <= raw <= 1000;
        let rem = 1000 - raw as int;
        assert(0 <= rem * rem <= 1_000_000) by (nonlinear_arith)
            requires 0 <= rem <= 1000;
        assert(0 <= 2 * rem * rem <= 2_000_000) by (nonlinear_arith)
            requires 0 <= rem <= 1000;
        assert(raw < 500 ==> 2 * (raw as int) * (raw as int) / 1000 <= 1000) by (nonlinear_arith)
            requires 0 <= raw <= 1000;
        assert(raw >= 500 ==> 2 * rem * rem / 1000 <= 1000) by (nonlinear_arith)
            requires 0 <= rem <= 1000, rem == 1000 - raw;
        assert((raw as int) * (raw as int) / 1000 <= 1000) by (nonlinear_arith)
            requires 0 <= raw <= 1000;
        assert(rem * rem / 1000 <= 1000) by (nonlinear_arith)
            requires 0 <= rem <= 1000;
    }
    let eased: u32 = match start.easing {
        KeyframeEasing::NoEasing => raw,
        KeyframeEasing::EaseIn => raw * raw / 1_000,
        KeyframeEasing::EaseOut => {
            let remaining = 1_000 - raw;
            1_000 - remaining * remaining / 1_000
        },
        KeyframeEasing::EaseInOut => {
            if raw < 500 {
                2 * raw * raw / 1_000
            } else {
                let remaining = 1_000 - raw;
                1_000 - 2 * remaining * remaining / 1_000
            }
        },
    };
    Some(eased)
}

/// Moves `progress_per_mille` of the way from `start` to `end`, rounding the
/// step towards zero.
pub fn interpolate_i128(start: i128, end: i128, progress_per_mille: u32) -> (r: i128)
    requires
        -0x1_0000_0000 <= start <= 0x1_0000_0000,
        -0x1_0000_0000 <= end <= 0x1_0000_0000,
        progress_per_mille <= 1000,
    ensures
        r == spec_interpolate(start as int, end as int, progress_per_mille as int),
{
    let delta = end - start;
    proof {
        assert(-0x2_0000_0000 * 1000 <= (delta as int) * (progress_per_mille as int) <= 0x2_0000_0000 * 1000) by (nonlinear_arith)
            requires -0x2_0000_0000 <= delta <= 0x2_0000_0000, 0 <= progress_per_mille <= 1000;
    }
    let product = delta * (progress_per_mille as i128);
    let step = if product >= 0 { product / 1_000 } else { -((-product) / 1_000) };
    proof {
        if product >= 0 {
            vstd::arithmetic::div_mod::lemma_div_pos_is_pos(product as int, 1000);
            vstd::arithmetic::div_mod::lemma_div_is_ordered(product as int, 0x2_0000_0000int * 1000, 1000);
        } else {
            vstd::arithmetic::div_mod::lemma_div_pos_is_pos(-(product as int), 1000);
            vstd::arithmetic::div_mod::lemma_div_is_ordered(-(product as int), 0x2_0000_0000int * 1000, 1000);
        }
    }
    start + step
}

// ---------------------------------------------------------------------------
// Animated values
// ---------------------------------------------------------------------------

/// Numeric value of a keyframe: `Int` values when `signed`, `Uint` otherwise.
pub open spec fn numeric_value(kf: Keyframe, signed: bool) -> Option<int> {
    match kf.value {
        KeyframeValue::Int { value } => if signed { Some(value as int) } else { None },
        KeyframeValue::Uint { value } => if signed { None } else { Some(value as int) },
        KeyframeValue::Color { .. } => None,
    }
}

/// Value between the keyframe before and the keyframe `cur` after `at`.
pub open spec fn between_value(prev: Keyframe, cur: Keyframe, at: int, signed: bool) -> Option<int> {
    match numeric_value(prev, signed) {
        None => None,
        Some(pv) => if prev.interpolation == KeyframeInterpolation::Hold {
            Some(pv)
        } else {
            match numeric_value(cur, signed) {
                None => None,
                Some(cv) => match spec_eased_progress(prev.easing, prev.at as int, at, cur.at as int) {
                    None => None,
                    Some(p) => Some(spec_interpolate(pv, cv, p)),
                },
            }
        },
    }
}

/// Animated value at `at`, scanning the time-ordered keyframes from entry
/// `j` on: the value of a keyframe exactly at `at`, an interpolation towards
/// the first keyframe after `at`, or the last keyframe's value.
pub open spec fn scan_value(kfs: Seq<Keyframe>, order: Seq<int>, j: int, at: int, signed: bool) -> Option<int>
    decreases order.len() - j,
{
    if j >= order.len() || j < 1 {
        if order.len() == 0 { None } else { numeric_value(kfs[order.last()], signed) }
    } else if at == kfs[order[j]].at {
        numeric_value(kfs[order[j]], signed)
    } else if at < kfs[order[j]].at {
        between_value(kfs[order[j - 1]], kfs[order[j]], at, signed)
    } else {
        scan_value(kfs, order, j + 1, at, signed)
    }
}

/// Animated value of a property at `at`: `base` before the first keyframe
/// (or without keyframes), `None` when a keyframe of the wrong value type is
/// involved.
pub open spec fn spec_numeric_keyframe(kfs: Seq<Keyframe>, order: Seq<int>, base: int, at: int, signed: bool) -> Option<int> {
    if order.len() == 0 || at < kfs[order[0]].at {
        Some(base)
    } else if at == kfs[order[0]].at {
        numeric_value(kfs[order[0]], signed)
    } else {
        scan_value(kfs, order, 1, at, signed)
    }
}

pub open spec fn in_value_range(v: int) -> bool {
    -0x1_0000_0000 <= v <= 0x1_0000_0000
}

proof fn lemma_interpolate_range(s: int, e: int, p: int)
    requires
        in_value_range(s),
        in_value_range(e),
        0 <= p <= 1000,
    ensures
        in_value_range(spec_interpolate(s, e, p)),
{
    let d = e - s;
    if d >= 0 {
        assert(0 <= d * p <= d * 1000) by (nonlinear_arith)
            requires 0 <= d, 0 <= p <= 1000;
        vstd::arithmetic::div_mod::lemma_div_pos_is_pos(d * p, 1000);
        vstd::arithmetic::div_mod::lemma_div_is_ordered(d * p, d * 1000, 1000);
        vstd::arithmetic::div_mod::lemma_div_by_multiple(d, 1000);
    } else {
        assert(0 <= (-d) * p <= (-d) * 1000) by (nonlinear_arith)
            requires d < 0, 0 <= p <= 1000;
        assert(-(d * p) == (-d) * p) by (nonlinear_arith);
        vstd::arithmetic::div_mod::lemma_div_pos_is_pos((-d) * p, 1000);
        vstd::arithmetic::div_mod::lemma_div_is_ordered((-d) * p, (-d) * 1000, 1000);
        vstd::arithmetic::div_mod::lemma_div_by_multiple(-d, 1000);
    }
}

proof fn lemma_numeric_value_range(kf: Keyframe, signed: bool)
    ensures
        numeric_value(kf, signed) matches Some(v) ==> in_value_range(v),
{
}

proof fn lemma_between_range(prev: Keyframe, cur: Keyframe, at: int, signed: bool)
    ensures
        between_value(prev, cur, at, signed) matches Some(v) ==> in_value_range(v),
{
    if let Some(pv) = numeric_value(prev, signed) {
        if let Some(cv) = numeric_value(cur, signed) {
            if let Some(p) = spec_eased_progress(prev.easing, prev.at as int, at, cur.at as int) {
                lemma_eased_progress_range(prev.easing, prev.at as int, at, cur.at as int);
                lemma_interpolate_range(pv, cv, p);
            }
        }
    }
}

proof fn lemma_eased_progress_range(easing: KeyframeEasing, start: int, at: int, end: int)
    ensures
        spec_eased_progress(easing, start, at, end) matches Some(p) ==> 0 <= p <= 1000,
{
    if end > start && at >= start {
        let q = (at - start) * 1000 / (end - start);
        assert((at - start) * 1000 >= 0) by (nonlinear_arith) requires at >= start;
        vstd::arithmetic::div_mod::lemma_div_pos_is_pos((at - start) * 1000, end - start);
        let raw = raw_progress(start, at, end);
        assert(0 <= raw <= 1000);
        let rem = 1000 - raw;
        assert(raw * raw / 1000 <= 1000 && raw * raw / 1000 >= 0) by (nonlinear_arith) requires 0 <= raw <= 1000;
        assert(rem * rem / 1000 <= 1000 && rem * rem / 1000 >= 0) by (nonlinear_arith) requires 0 <= rem <= 1000;
        assert(raw < 500 ==> 2 * raw * raw / 1000 <= 1000 && 2 * raw * raw / 1000 >= 0) by (nonlinear_arith) requires 0 <= raw <= 1000;
        assert(raw >= 500 ==> 2 * rem * rem / 1000 <= 1000 && 2 * rem * rem / 1000 >= 0) by (nonlinear_arith) requires 0 <= rem <= 1000, rem == 1000 - raw;
    }
}

proof fn lemma_scan_range(kfs: Seq<Keyframe>, order: Seq<int>, j: int, at: int, signed: bool)
    ensures
        scan_value(kfs, order, j, at, signed) matches Some(v) ==> in_value_range(v),
    decreases order.len() - j,
{
    if j >= order.len() || j < 1 {
        if order.len() > 0 {
            lemma_numeric_value_range(kfs[order.last()], signed);
        }
    } else if at == kfs[order[j]].at {
        lemma_numeric_value_range(kfs[order[j]], signed);
    } else if at < kfs[order[j]].at {
        lemma_between_range(kfs[order[j - 1]], kfs[order[j]], at, signed);
    } else {
        lemma_scan_range(kfs, order, j + 1, at, signed);
    }
}

/// Animated values stay within the range of the keyframe values and base.
proof fn lemma_numeric_keyframe_range(kfs: Seq<Keyframe>, order: Seq<int>, base: int, at: int, signed: bool)
    requires
        in_value_range(base),
    ensures
        spec_numeric_keyframe(kfs, order, base, at, signed) matches Some(v) ==> in_value_range(v),
{
    if order.len() > 0 {
        lemma_numeric_value_range(kfs[order[0]], signed);
    }
    lemma_scan_range(kfs, order, 1, at, signed);
}

fn numeric_value_of(kf: &Keyframe, signed: bool) -> (r: Option<i128>)
    ensures
        match numeric_value(*kf, signed) {
            Some(v) => r == Some(v as i128),
            None => r is None,
        },
{
    match &kf.value {
        KeyframeValue::Int { value } => if signed { Some(*value as i128) } else { None },
        KeyframeValue::Uint { value } => if signed { None } else { Some(*value as i128) },
        KeyframeValue::Color { .. } => None,
    }
}

pub open spec fn order_ints(order: Seq<usize>) -> Seq<int> {
    order.map_values(|i: usize| i as int)
}

fn resolve_numeric_keyframe(keyframes: &Vec<Keyframe>, property: KeyframeProperty, order: &Vec<usize>, base: i128, at: u64, signed: bool) -> (r: Option<i128>)
    requires
        -0x1_0000_0000 <= base <= 0x1_0000_0000,
        is_property_order(keyframes@, property, order_ints(order@)),
    ensures
        match spec_numeric_keyframe(keyframes@, order_ints(order@), base as int, at as int, signed) {
            Some(v) => r == Some(v as i128),
            None => r is None,
        },
{
    let ghost ord = order_ints(order@);
    let ghost kfs = keyframes@;
    if order.len() == 0 || at < keyframes[order[0]].at {
        return Some(base);
    }
    let first = &keyframes[order[0]];
    proof {
        assert(ord[0] == order@[0] as int);
    }
    if at == first.at {
        return numeric_value_of(first, signed);
    }
    let mut index: usize = 1;
    while index < order.len()
        invariant
            1 <= index <= order@.len(),
            kfs == keyframes@,
            ord == order_ints(order@),
            is_property_order(kfs, property, ord),
            spec_numeric_keyframe(kfs, ord, base as int, at as int, signed) == scan_value(kfs, ord, index as int, at as int, signed),
        decreases order@.len() - index,
    {
        let current = &keyframes[order[index]];
        proof {
            assert(ord[index as int] == order@[index as int] as int);
            assert(ord[index - 1] == order@[index - 1] as int);
            assert(scan_value(kfs, ord, index as int, at as int, signed) == if at == kfs[ord[index as int]].at {
                numeric_value(kfs[ord[index as int]], signed)
            } else if at < kfs[ord[index as int]].at {
                between_value(kfs[ord[index - 1]], kfs[ord[index as int]], at as int, signed)
            } else {
                scan_value(kfs, ord, index + 1, at as int, signed)
            });
        }
        if at == current.at {
            return numeric_value_of(current, signed);
        }
        if at < current.at {
            let previous = &keyframes[order[index - 1]];
            let previous_value = match numeric_value_of(previous, signed) {
                Some(v) => v,
                None => return None,
            };
            if previous.interpolation == KeyframeInterpolation::Hold {
                return Some(previous_value);
            }
            let current_value = match numeric_value_of(current, signed) {
                Some(v) => v,
                None => return None,
            };
            let progress = match eased_progress_per_mille(previous, at, current.at) {
                Some(p) => p,
                None => return None,
            };
            return Some(interpolate_i128(previous_value, current_value, progress));
        }
        index = index + 1;
    }
    let last = &keyframes[order[order.len() - 1]];
    proof {
        assert(ord.last() == order@[order@.len() - 1] as int);
    }
    numeric_value_of(last, signed)
}

/// Animated signed value; the base when there is no value or it does not
/// fit in `i32`.
pub open spec fn spec_int_keyframe(kfs: Seq<Keyframe>, order: Seq<int>, base: i32, at: u64) -> i32 {
    match spec_numeric_keyframe(kfs, order, base as int, at as int, true) {
        Some(v) => if i32::MIN <= v <= i32::MAX { v as i32 } else { base },
        None => base,
    }
}

/// Animated unsigned value; the base when there is no value or it does not
/// fit in `u32`.
pub open spec fn spec_uint_keyframe(kfs: Seq<Keyframe>, order: Seq<int>, base: u32, at: u64) -> u32 {
    match spec_numeric_keyframe(kfs, order, base as int, at as int, false) {
        Some(v) => if 0 <= v <= u32::MAX { v as u32 } else { base },
        None => base,
    }
}

/// The signed property value at segment-relative time `at`.
pub fn resolve_int_keyframe(keyframes: &Vec<Keyframe>, property: KeyframeProperty, base: i32, at: u64) -> (r: i32)
    ensures
        r == spec_int_keyframe(keyframes@, keyframe_order(keyframes@, property), base, at),
{
    let order = keyframes_for_property(keyframes, property);
    proof {
        lemma_numeric_keyframe_range(keyframes@, order_ints(order@), base as int, at as int, true);
    }
    let r = match resolve_numeric_keyframe(keyframes, property, &order, base as i128, at, true) {
        Some(v) => if i32::MIN as i128 <= v && v <= i32::MAX as i128 { v as i32 } else { base },
        None => base,
    };
    proof {
        assert(is_property_order(keyframes@, property, order_ints(order@)));
        assert(r == spec_int_keyframe(keyframes@, order_ints(order@), base, at));
    }
    r
}

/// The unsigned property value at segment-relative time `at`.
pub fn resolve_uint_keyframe(keyframes: &Vec<Keyframe>, property: KeyframeProperty, base: u32, at: u64) -> (r: u32)
    ensures
        r == spec_uint_keyframe(keyframes@, keyframe_order(keyframes@, property), base, at),
{
    let order = keyframes_for_property(keyframes, property);
    proof {
        lemma_numeric_keyframe_range(keyframes@, order_ints(order@), base as int, at as int, false);
    }
    let r = match resolve_numeric_keyframe(keyframes, property, &order, base as i128, at, false) {
        Some(v) => if 0 <= v && v <= u32::MAX as i128 { v as u32 } else { base },
        None => base,
    };
    proof {
        assert(is_property_order(keyframes@, property, order_ints(order@)));
        assert(r == spec_uint_keyframe(keyframes@, order_ints(order@), base, at));
    }
    r
}


/// Colour in effect at `at`, scanning the time-ordered keyframes from entry
/// `j` with `last` as the colour so far: each colour keyframe at or before
/// `at` replaces it.
pub open spec fn color_from(kfs: Seq<Keyframe>, order: Seq<int>, j: int, last: Seq<char>, at: int) -> Seq<char>
    decreases order.len() - j,
{
    if j < 0 || j >= order.len() {
        last
    } else if at < kfs[order[j]].at {
        last
    } else {
        let next = match kfs[order[j]].value {
            KeyframeValue::Color { value } => value@,
            _ => last,
        };
        if at == kfs[order[j]].at {
            next
        } else {
            color_from(kfs, order, j + 1, next, at)
        }
    }
}

/// The colour property value at segment-relative time `at`.
pub fn resolve_color_keyframe(keyframes: &Vec<Keyframe>, property: KeyframeProperty, base: &str, at: u64) -> (r: String)
    ensures
        r@ == color_from(keyframes@, keyframe_order(keyframes@, property), 0, base@, at as int),
{
    let order = keyframes_for_property(keyframes, property);
    let ghost ord = order_ints(order@);
    let ghost kfs = keyframes@;
    let mut last_color = lit(base);
    let mut index: usize = 0;
    while index < order.len()
        invariant_except_break
            color_from(kfs, ord, 0, base@, at as int) == color_from(kfs, ord, index as int, last_color@, at as int),
        invariant
            kfs == keyframes@,
            ord == order_ints(order@),
            is_property_order(kfs, property, ord),
            index <= order@.len(),
        ensures
            color_from(kfs, ord, 0, base@, at as int) == last_color@,
        decreases order@.len() - index,
    {
        let keyframe = &keyframes[order[index]];
        proof {
            assert(ord[index as int] == order@[index as int] as int);
        }
        if at < keyframe.at {
            break;
        }
        match &keyframe.value {
            KeyframeValue::Color { value } => {
                last_color = value.clone();
            },
            _ => {},
        }
        if at == keyframe.at {
            break;
        }
        index = index + 1;
    }
    proof {
        assert(is_property_order(keyframes@, property, ord));
    }
    last_color
}

/// Interpolation stays between its two end values, starting at the first
/// and reaching the second at full progress.
pub proof fn law_interpolation_between_ends(start: int, end: int, progress: int)
    requires
        0 <= progress <= 1000,
    ensures
        start <= end ==> start <= spec_interpolate(start, end, progress) <= end,
        end <= start ==> end <= spec_interpolate(start, end, progress) <= start,
        spec_interpolate(start, end, 0) == start,
        spec_interpolate(start, end, 1000) == end,
{
    let d = end - start;
    if d >= 0 {
        assert(0 <= d * progress <= d * 1000) by (nonlinear_arith)
            requires d >= 0, 0 <= progress <= 1000;
        vstd::arithmetic::div_mod::lemma_div_is_ordered(d * progress, d * 1000, 1000);
        vstd::arithmetic::div_mod::lemma_div_pos_is_pos(d * progress, 1000);
        vstd::arithmetic::div_mod::lemma_div_multiples_vanish(d, 1000);
    } else {
        let e = -d;
        assert(0 <= e * progress <= e * 1000) by (nonlinear_arith)
            requires e >= 0, 0 <= progress <= 1000;
        assert(-(d * progress) == e * progress) by (nonlinear_arith)
            requires e == -d;
        vstd::arithmetic::div_mod::lemma_div_is_ordered(e * progress, e * 1000, 1000);
        vstd::arithmetic::div_mod::lemma_div_pos_is_pos(e * progress, 1000);
        vstd::arithmetic::div_mod::lemma_div_multiples_vanish(e, 1000);
        assert(-(d * 1000) == e * 1000) by (nonlinear_arith)
            requires e == -d;
    }
    assert(d * 0 == 0);
}

/// Easing changes how progress is spent between two keyframes, not where
/// it starts or ends: every easing is at 0 on the first keyframe and at
/// 1000 on the second; ease-in never runs ahead of linear progress and
/// ease-out never falls behind it; and on the per-mille scale ease-out is
/// ease-in mirrored, so ease-in at `p` and ease-out at `1000 - p` add up
/// to 1000.
pub proof fn law_ease_out_mirrors_ease_in(easing: KeyframeEasing, start: int, at: int, end: int, p: int)
    requires
        start < end,
        start <= at,
        0 <= p <= 1000,
    ensures
        spec_eased_progress(easing, start, start, end) == Some(0int),
        spec_eased_progress(easing, start, end, end) == Some(1000int),
        ({
            let lin = spec_eased_progress(KeyframeEasing::NoEasing, start, at, end)->Some_0;
            &&& spec_eased_progress(KeyframeEasing::EaseIn, start, at, end) matches Some(e) && e <= lin
            &&& spec_eased_progress(KeyframeEasing::EaseOut, start, at, end) matches Some(o) && lin <= o
        }),
        spec_eased_progress(KeyframeEasing::NoEasing, 0, p, 1000) == Some(p),
        spec_eased_progress(KeyframeEasing::EaseIn, 0, p, 1000)->Some_0
            + spec_eased_progress(KeyframeEasing::EaseOut, 0, 1000 - p, 1000)->Some_0 == 1000,
{
    let d = end - start;
    assert(0int * 1000 / d == 0);
    assert(raw_progress(start, start, end) == 0);
    assert(0int * 0 / 1000 == 0 && 2 * 0int * 0 / 1000 == 0);
    assert(1000int - 1000 == 0);
    vstd::arithmetic::div_mod::lemma_div_multiples_vanish(1000, d);
    assert(d * 1000 / d == 1000) by (nonlinear_arith) requires d > 0, 1000 * d / d == 1000;
    assert(1000int * 1000 / 1000 == 1000);
    assert(2 * 1000int * 1000 / 1000 == 2000);
    lemma_eased_progress_range(KeyframeEasing::NoEasing, start, at, end);
    let raw = raw_progress(start, at, end);
    assert(raw * raw / 1000 <= raw) by (nonlinear_arith) requires 0 <= raw <= 1000;
    let rem = 1000 - raw;
    assert(rem * rem / 1000 <= rem) by (nonlinear_arith) requires 0 <= rem <= 1000;
    assert(p * 1000 / 1000 == p) by (nonlinear_arith);
    let q = 1000 - p;
    assert(q * 1000 / 1000 == q) by (nonlinear_arith);
    assert(1000 - q == p);
}

} // verus!
