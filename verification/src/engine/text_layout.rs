//! Deterministic text layout: the pinned layout profile, font policy,
//! safe area, greedy line wrapping and the resolved overlay of a text
//! segment on a canvas.
use vstd::prelude::*;

use vstd::arithmetic::div_mod::*;
use vstd::arithmetic::mul::*;

use crate::engine::error::{EngineError, EngineErrorKind};
use crate::engine::model::{
    TargetTimerange, TextAlignment, TextBackground, TextResourceRef, TextSegment, TextSegmentSource,
    TextShadow, TextStroke, TextWrapping,
};
use crate::engine::normalize::NormalizedSegment;
use crate::text::{
    append_str, append_string, chars_of, clone_opt_string, clone_strings, contains_string, lit, push_char, str_eq,
    strings_view,
};

verus! {

/// A font that ships with the application.
#[derive(Debug, Clone)]
pub struct BundledTextFont {
    pub family: String,
    pub font_ref: String,
    pub relative_path: String,
}

/// Which font family and candidates text rendering may use.
#[derive(Debug, Clone)]
pub struct TextFontPolicy {
    pub font_family: String,
    pub font_candidate: String,
    pub fallback_candidates: Vec<String>,
}

/// Margins kept free of text, in pixels.
#[derive(Debug, Clone, Copy, PartialEq, Eq, Structural)]
pub struct TextSafeArea {
    pub left: u32,
    pub right: u32,
    pub top: u32,
    pub bottom: u32,
}

/// How overlong lines are wrapped.
#[derive(Debug, Clone, Copy, PartialEq, Eq, Structural)]
pub enum TextWrappingPolicy {
    BoundedWidth,
}

impl TextWrappingPolicy {
    /// The policy's wire name.
    pub fn as_str(self) -> (r: &'static str)
        ensures
            r@ == "boundedWidth"@,
    {
        match self {
            TextWrappingPolicy::BoundedWidth => "boundedWidth",
        }
    }
}

/// The pinned profile that text layout follows.
#[derive(Debug, Clone)]
pub struct TextLayoutProfile {
    pub font_policy: TextFontPolicy,
    pub safe_area: TextSafeArea,
    pub wrapping_policy: TextWrappingPolicy,
    pub line_height_millis: u32,
}

/// A character counted as white space by Unicode (`char::is_whitespace`).
pub open spec fn is_white_space(c: char) -> bool {
    let n = c as u32;
    ||| 0x09 <= n <= 0x0D
    ||| n == 0x20 || n == 0x85 || n == 0xA0 || n == 0x1680
    ||| 0x2000 <= n <= 0x200A
    ||| n == 0x2028 || n == 0x2029 || n == 0x202F || n == 0x205F || n == 0x3000
}

/// Empty once surrounding white space is trimmed.
pub open spec fn is_blank(s: Seq<char>) -> bool {
    forall|i: int| 0 <= i < s.len() ==> #[trigger] is_white_space(s[i])
}

/// Whether `c` is Unicode white space.
pub fn char_is_white_space(c: char) -> (r: bool)
    ensures
        r == is_white_space(c),
{
    let n = c as u32;
    (0x09 <= n && n <= 0x0D) || n == 0x20 || n == 0x85 || n == 0xA0 || n == 0x1680
        || (0x2000 <= n && n <= 0x200A) || n == 0x2028 || n == 0x2029 || n == 0x202F
        || n == 0x205F || n == 0x3000
}

/// Whether a string trims to nothing.
pub fn str_is_blank(s: &str) -> (r: bool)
    ensures
        r == is_blank(s@),
{
    let cs = chars_of(s);
    let mut i: usize = 0;
    while i < cs.len()
        invariant
            cs@ == s@,
            i <= cs@.len(),
            forall|k: int| 0 <= k < i ==> #[trigger] is_white_space(cs@[k]),
        decreases cs@.len() - i,
    {
        if !char_is_white_space(cs[i]) {
            return false;
        }
        i = i + 1;
    }
    true
}

/// The first rule of the font policy that `p` breaks, as its message.
pub open spec fn font_policy_problem(p: TextFontPolicy) -> Option<Seq<char>> {
    if is_blank(p.font_family@) {
        Some("text font policy fontFamily must be pinned"@)
    } else if is_blank(p.font_candidate@) {
        Some("text font policy fontCandidate must be resolved by the caller"@)
    } else if p.fallback_candidates@.len() == 0 {
        Some("text font policy fallbackCandidates must be pinned"@)
    } else if !strings_view(p.fallback_candidates@).contains(p.font_candidate@) {
        Some("text font policy fontCandidate must come from fallbackCandidates"@)
    } else {
        None
    }
}

/// The first rule of the layout profile that `p` breaks on a canvas of the
/// given size, as its message.
pub open spec fn layout_profile_problem(p: TextLayoutProfile, canvas_width: u32, canvas_height: u32) -> Option<Seq<char>> {
    if font_policy_problem(p.font_policy) is Some {
        font_policy_problem(p.font_policy)
    } else if p.line_height_millis == 0 {
        Some("text layout lineHeightMillis must be greater than zero"@)
    } else if p.safe_area.left + p.safe_area.right >= canvas_width {
        Some("text layout horizontal safe-area exceeds canvas width"@)
    } else if p.safe_area.top + p.safe_area.bottom >= canvas_height {
        Some("text layout vertical safe-area exceeds canvas height"@)
    } else {
        None
    }
}

fn invalid_text_layout(message: &str) -> (e: EngineError)
    ensures
        e.kind == EngineErrorKind::InvalidTextLayoutProfile,
        e.message@ == message@,
        e.track_id is None && e.segment_id is None && e.material_id is None,
{
    EngineError::new(EngineErrorKind::InvalidTextLayoutProfile, lit(message))
}


/// The default fallback candidates, in the order they are tried: the font
/// named by `VE_TEXT_FONT_PATH`, then well-known system fonts.
pub open spec fn default_fallback_candidates() -> Seq<Seq<char>> {
    seq![
        "VE_TEXT_FONT_PATH"@,
        "/System/Library/Fonts/PingFang.ttc"@,
        "/System/Library/Fonts/Supplemental/Arial Unicode.ttf"@,
        "/usr/share/fonts/opentype/noto/NotoSansCJK-Regular.ttc"@,
        "/usr/share/fonts/truetype/dejavu/DejaVuSans.ttf"@,
    ]
}

impl TextFontPolicy {
    /// The default policy: the bundled font family, the font named by
    /// `VE_TEXT_FONT_PATH` as the candidate, then well-known system fonts.
    pub fn mvp_default(bundled: &BundledTextFont) -> (p: Self)
        ensures
            p.font_family@ == bundled.family@,
            p.font_candidate@ == "VE_TEXT_FONT_PATH"@,
            strings_view(p.fallback_candidates@) == default_fallback_candidates(),
    {
        let mut fallback: Vec<String> = Vec::new();
        fallback.push(lit("VE_TEXT_FONT_PATH"));
        fallback.push(lit("/System/Library/Fonts/PingFang.ttc"));
        fallback.push(lit("/System/Library/Fonts/Supplemental/Arial Unicode.ttf"));
        fallback.push(lit("/usr/share/fonts/opentype/noto/NotoSansCJK-Regular.ttc"));
        fallback.push(lit("/usr/share/fonts/truetype/dejavu/DejaVuSans.ttf"));
        let p = TextFontPolicy {
            font_family: bundled.family.clone(),
            font_candidate: lit("VE_TEXT_FONT_PATH"),
            fallback_candidates: fallback,
        };
        proof {
            assert(strings_view(p.fallback_candidates@) =~= default_fallback_candidates());
        }
        p
    }

    /// Checks the policy's rules in order and reports the first broken one.
    pub fn validate(&self) -> (r: Result<(), EngineError>)
        ensures
            r is Ok <==> font_policy_problem(*self) is None,
            r matches Err(e) ==> e.kind == EngineErrorKind::InvalidTextLayoutProfile
                && font_policy_problem(*self) == Some(e.message@),
    {
        if str_is_blank(self.font_family.as_str()) {
            return Err(invalid_text_layout("text font policy fontFamily must be pinned"));
        }
        if str_is_blank(self.font_candidate.as_str()) {
            return Err(invalid_text_layout("text font policy fontCandidate must be resolved by the caller"));
        }
        if self.fallback_candidates.len() == 0 {
            return Err(invalid_text_layout("text font policy fallbackCandidates must be pinned"));
        }
        if !contains_string(&self.fallback_candidates, &self.font_candidate) {
            return Err(invalid_text_layout("text font policy fontCandidate must come from fallbackCandidates"));
        }
        Ok(())
    }
}

impl TextLayoutProfile {
    /// The default profile: default font policy, a 96 px horizontal and
    /// 54 px vertical safe area, bounded-width wrapping, 1.2 line height.
    pub fn mvp_default(bundled: &BundledTextFont) -> (p: Self)
        ensures
            p.font_policy.font_family@ == bundled.family@,
            p.font_policy.font_candidate@ == "VE_TEXT_FONT_PATH"@,
            strings_view(p.font_policy.fallback_candidates@) == default_fallback_candidates(),
            p.safe_area == (TextSafeArea { left: 96, right: 96, top: 54, bottom: 54 }),
            p.wrapping_policy == TextWrappingPolicy::BoundedWidth,
            p.line_height_millis == 1_200,
    {
        TextLayoutProfile {
            font_policy: TextFontPolicy::mvp_default(bundled),
            safe_area: TextSafeArea { left: 96, right: 96, top: 54, bottom: 54 },
            wrapping_policy: TextWrappingPolicy::BoundedWidth,
            line_height_millis: 1_200,
        }
    }
}

impl TextLayoutProfile {
    /// A profile that breaks every rule, for exercising validation.
    pub fn invalid_for_tests() -> (p: Self)
        ensures
            p.font_policy.font_family@.len() == 0,
            p.font_policy.font_candidate@.len() == 0,
            p.font_policy.fallback_candidates@.len() == 0,
            p.safe_area == (TextSafeArea { left: 0, right: 0, top: 0, bottom: 0 }),
            p.wrapping_policy == TextWrappingPolicy::BoundedWidth,
            p.line_height_millis == 0,
    {
        TextLayoutProfile {
            font_policy: TextFontPolicy {
                font_family: String::new(),
                font_candidate: String::new(),
                fallback_candidates: Vec::new(),
            },
            safe_area: TextSafeArea { left: 0, right: 0, top: 0, bottom: 0 },
            wrapping_policy: TextWrappingPolicy::BoundedWidth,
            line_height_millis: 0,
        }
    }

    /// Checks the font policy, the line height and that the safe area
    /// leaves room on the canvas; reports the first broken rule.
    pub fn validate(&self, canvas_width: u32, canvas_height: u32) -> (r: Result<(), EngineError>)
        ensures
            r is Ok <==> layout_profile_problem(*self, canvas_width, canvas_height) is None,
            r matches Err(e) ==> e.kind == EngineErrorKind::InvalidTextLayoutProfile
                && layout_profile_problem(*self, canvas_width, canvas_height) == Some(e.message@),
    {
        match self.font_policy.validate() {
            Ok(()) => {},
            Err(e) => return Err(e),
        }
        if self.line_height_millis == 0 {
            return Err(invalid_text_layout("text layout lineHeightMillis must be greater than zero"));
        }
        if self.safe_area.left as u64 + self.safe_area.right as u64 >= canvas_width as u64 {
            return Err(invalid_text_layout("text layout horizontal safe-area exceeds canvas width"));
        }
        if self.safe_area.top as u64 + self.safe_area.bottom as u64 >= canvas_height as u64 {
            return Err(invalid_text_layout("text layout vertical safe-area exceeds canvas height"));
        }
        Ok(())
    }
}

/// The text box in thousandths of the canvas and in pixels.
#[derive(Debug, Clone, Copy, PartialEq, Eq, Structural)]
pub struct ResolvedTextBox {
    pub width_millis: u32,
    pub height_millis: u32,
    pub width: u32,
    pub height: u32,
}

/// The layout region in thousandths of the canvas and in pixels.
#[derive(Debug, Clone, Copy, PartialEq, Eq, Structural)]
pub struct ResolvedTextLayoutRegion {
    pub x_millis: u32,
    pub y_millis: u32,
    pub width_millis: u32,
    pub height_millis: u32,
    pub x: u32,
    pub y: u32,
    pub width: u32,
    pub height: u32,
}

/// A text feature the renderer reports on.
#[derive(Debug, Clone, PartialEq, Eq)]
pub struct ResolvedTextDiagnostic {
    pub property: String,
    pub support: String,
    pub reason: String,
}

/// Colours and decorations of a resolved overlay.
#[derive(Debug, Clone, PartialEq, Eq)]
pub struct ResolvedTextStyle {
    pub color: String,
    pub stroke: Option<TextStroke>,
    pub shadow: Option<TextShadow>,
    pub background: Option<TextBackground>,
}

/// A text segment laid out on the canvas at one frame.
#[derive(Debug, Clone)]
pub struct ResolvedTextOverlay {
    pub track_id: String,
    pub segment_id: String,
    pub content: String,
    pub stack_index: u32,
    pub source_position: u64,
    pub target_timerange: TargetTimerange,
    pub source: TextSegmentSource,
    pub font_family: String,
    pub font_ref: Option<String>,
    pub font_candidate: String,
    pub fallback_candidates: Vec<String>,
    pub alignment: TextAlignment,
    pub text_box: ResolvedTextBox,
    pub layout_region: ResolvedTextLayoutRegion,
    pub safe_area: TextSafeArea,
    pub wrapping: TextWrapping,
    pub wrapping_policy: TextWrappingPolicy,
    pub line_height_millis: u32,
    pub letter_spacing_millis: u32,
    pub font_size: u32,
    pub style: ResolvedTextStyle,
    pub layout_width: u32,
    pub layout_height: u32,
    pub diagnostics: Vec<ResolvedTextDiagnostic>,
}

/// `millis` thousandths of `value`, rounded down, kept to 32 bits.
pub open spec fn spec_millis_of(value: u32, millis: u32) -> u32 {
    ((value as int) * (millis as int) / 1000) as u32
}

/// `value` thousandths of `millis`: `value * millis / 1000` truncated to `u32`.
pub fn millis_of(value: u32, millis: u32) -> (r: u32)
    ensures
        r == spec_millis_of(value, millis),
{
    proof {
        lemma_mul_upper_bound(value as int, u32::MAX as int, millis as int, u32::MAX as int);
        lemma_mul_nonnegative(value as int, millis as int);
    }
    ((value as u64 * millis as u64) / 1000) as u32
}

/// Division rounded up.
pub open spec fn ceil_div(value: int, d: int) -> int {
    (value + d - 1) / d
}

fn ceil_div_u32(value: u32, denominator: u32) -> (r: u32)
    requires
        denominator > 0,
    ensures
        r == ceil_div(value as int, denominator as int),
{
    let q = value / denominator;
    let rem = value % denominator;
    proof {
        lemma_fundamental_div_mod(value as int, denominator as int);
        lemma_div_pos_is_pos(value as int, denominator as int);
        if rem == 0 {
            lemma_div_plus_one_less(value as int, denominator as int);
        } else {
            lemma_ceil_step(value as int, denominator as int);
            let qq = q as int;
            let dd = denominator as int;
            assert(dd * qq <= value);
            assert(dd >= 2);
            assert(qq < u32::MAX) by (nonlinear_arith)
                requires dd * qq <= value, dd >= 2, value <= u32::MAX, qq >= 0;
        }
    }
    if rem == 0 { q } else { q + 1 }
}

proof fn lemma_div_plus_one_less(v: int, d: int)
    requires
        d > 0,
        v >= 0,
        v % d == 0,
    ensures
        (v + d - 1) / d == v / d,
{
    lemma_fundamental_div_mod(v, d);
    let q = v / d;
    assert(v == d * q);
    lemma_div_multiples_vanish_fancy(q, d - 1, d);
    assert(d * q + (d - 1) == v + d - 1);
}

proof fn lemma_ceil_step(v: int, d: int)
    requires
        d > 0,
        v >= 0,
        v % d != 0,
    ensures
        (v + d - 1) / d == v / d + 1,
        v / d + 1 <= u32::MAX || v > u32::MAX - d,
{
    lemma_fundamental_div_mod(v, d);
    let q = v / d;
    let r = v % d;
    assert(0 < r < d);
    lemma_mul_is_distributive_add(d, q, 1);
    assert(v + d - 1 == d * (q + 1) + (r - 1));
    lemma_div_multiples_vanish_fancy(q + 1, r - 1, d);
}

proof fn lemma_div_multiples_vanish_fancy(q: int, r: int, d: int)
    requires
        d > 0,
        0 <= r < d,
    ensures
        (d * q + r) / d == q,
{
    lemma_mul_is_commutative(d, q);
    lemma_fundamental_div_mod_converse(d * q + r, d, q, r);
}

/// White space in the ASCII sense (`char::is_ascii_whitespace`).
pub open spec fn is_ascii_white_space(c: char) -> bool {
    c == ' ' || c == '\t' || c == '\n' || c == '\x0C' || c == '\r'
}

/// `a + b`, capped at `u32::MAX`.
pub open spec fn sat_add_u32(a: int, b: int) -> int {
    if a + b > u32::MAX { u32::MAX as int } else { a + b }
}

/// `a * b`, capped at `u32::MAX`.
pub open spec fn sat_mul_u32(a: int, b: int) -> int {
    if a * b > u32::MAX { u32::MAX as int } else { a * b }
}

/// Estimated width of a character in pixels: half an em for ASCII white
/// space, 0.6 em for other ASCII, a full em otherwise, plus letter
/// spacing; at least one pixel.
pub open spec fn advance_width(c: char, font_size: u32, letter_spacing_millis: u32) -> int {
    let base: int = if is_ascii_white_space(c) { 500 } else if (c as u32) < 128 { 600 } else { 1000 };
    let w = ceil_div(sat_mul_u32(font_size as int, sat_add_u32(base, letter_spacing_millis as int)), 1000);
    if w < 1 { 1 } else { w }
}

fn character_advance_width(character: char, font_size: u32, letter_spacing_millis: u32) -> (r: u32)
    ensures
        r == advance_width(character, font_size, letter_spacing_millis),
{
    let code = character as u32;
    let base_width_millis: u32 = if character == ' ' || character == '\t' || character == '\n'
        || character == '\x0C' || character == '\r' {
        500
    } else if code < 128 {
        600
    } else {
        1000
    };
    let spaced = base_width_millis.saturating_add(letter_spacing_millis);
    proof {
        lemma_mul_upper_bound(font_size as int, u32::MAX as int, spaced as int, u32::MAX as int);
        lemma_mul_nonnegative(font_size as int, spaced as int);
    }
    let product = font_size as u64 * spaced as u64;
    let scaled: u32 = if product > u32::MAX as u64 { u32::MAX } else { product as u32 };
    let w = ceil_div_u32(scaled, 1000);
    if w < 1 { 1 } else { w }
}

/// Greedy wrapping state after `s`: the output so far and the width of
/// its last line. A newline in the input starts a new line; a character
/// that would make a non-empty line wider than `max_width` starts one too.
pub open spec fn wrap_state(s: Seq<char>, font_size: u32, letter_spacing_millis: u32, max_width: u32) -> (Seq<char>, int)
    decreases s.len(),
{
    if s.len() == 0 {
        (Seq::empty(), 0)
    } else {
        let (out, width) = wrap_state(s.drop_last(), font_size, letter_spacing_millis, max_width);
        let c = s.last();
        if c == '\n' {
            (out.push('\n'), 0)
        } else {
            let a = advance_width(c, font_size, letter_spacing_millis);
            if width > 0 && sat_add_u32(width, a) > max_width {
                (out.push('\n').push(c), sat_add_u32(0, a))
            } else {
                (out.push(c), sat_add_u32(width, a))
            }
        }
    }
}

/// The content as laid out: wrapped greedily when wrapping is automatic
/// and there is a width to wrap to, unchanged otherwise.
pub open spec fn wrapped_content(text: TextSegment, max_width: u32) -> Seq<char> {
    if text.wrapping != TextWrapping::Auto || max_width == 0 {
        text.content@
    } else {
        wrap_state(text.content@, text.style.font_size, text.style.letter_spacing_millis, max_width).0
    }
}

fn resolve_wrapped_content(text: &TextSegment, max_line_width: u32) -> (r: String)
    ensures
        r@ == wrapped_content(*text, max_line_width),
{
    if text.wrapping != TextWrapping::Auto || max_line_width == 0 {
        return text.content.clone();
    }
    let font_size = text.style.font_size;
    let spacing = text.style.letter_spacing_millis;
    let cs = chars_of(text.content.as_str());
    let mut out = String::new();
    let mut width: u32 = 0;
    let mut i: usize = 0;
    while i < cs.len()
        invariant
            cs@ == text.content@,
            i <= cs@.len(),
            font_size == text.style.font_size,
            spacing == text.style.letter_spacing_millis,
            (out@, width as int) == wrap_state(cs@.subrange(0, i as int), font_size, spacing, max_line_width),
        decreases cs@.len() - i,
    {
        let c = cs[i];
        proof {
            assert(cs@.subrange(0, i + 1).drop_last() =~= cs@.subrange(0, i as int));
            assert(cs@.subrange(0, i + 1).last() == c);
        }
        if c == '\n' {
            push_char(&mut out, '\n');
            width = 0;
        } else {
            let a = character_advance_width(c, font_size, spacing);
            if width > 0 && width.saturating_add(a) > max_line_width {
                push_char(&mut out, '\n');
                width = 0;
            }
            push_char(&mut out, c);
            width = width.saturating_add(a);
        }
        i = i + 1;
    }
    proof {
        assert(cs@.subrange(0, cs@.len() as int) =~= cs@);
    }
    out
}

/// Number of newline characters in `s`.
pub open spec fn newline_count(s: Seq<char>) -> int
    decreases s.len(),
{
    if s.len() == 0 {
        0
    } else {
        newline_count(s.drop_last()) + if s.last() == '\n' { 1int } else { 0int }
    }
}

/// Number of lines of `s` (`str::lines`): a final newline ends the last
/// line rather than starting an empty one.
pub open spec fn line_count(s: Seq<char>) -> int {
    newline_count(s) + if s.len() > 0 && s.last() != '\n' { 1int } else { 0int }
}

proof fn lemma_newline_count_bound(s: Seq<char>)
    ensures
        0 <= newline_count(s) <= s.len(),
    decreases s.len(),
{
    if s.len() > 0 {
        lemma_newline_count_bound(s.drop_last());
    }
}

fn count_lines(s: &String) -> (r: usize)
    ensures
        r == line_count(s@),
{
    let cs = chars_of(s.as_str());
    let mut n: usize = 0;
    let mut i: usize = 0;
    while i < cs.len()
        invariant
            cs@ == s@,
            i <= cs@.len(),
            n == newline_count(cs@.subrange(0, i as int)),
            n <= i,
        decreases cs@.len() - i,
    {
        proof {
            assert(cs@.subrange(0, i + 1).drop_last() =~= cs@.subrange(0, i as int));
        }
        if cs[i] == '\n' {
            n = n + 1;
        }
        i = i + 1;
    }
    proof {
        assert(cs@.subrange(0, cs@.len() as int) =~= cs@);
        if cs@.len() > 0 {
            lemma_newline_count_bound(cs@.drop_last());
        }
    }
    if cs.len() > 0 && cs[cs.len() - 1] != '\n' {
        n + 1
    } else {
        n
    }
}

/// The text box in pixels on a canvas of the given size.
pub open spec fn spec_text_box(text: TextSegment, canvas_width: u32, canvas_height: u32) -> ResolvedTextBox {
    ResolvedTextBox {
        width_millis: text.text_box.width_millis,
        height_millis: text.text_box.height_millis,
        width: spec_millis_of(canvas_width, text.text_box.width_millis),
        height: spec_millis_of(canvas_height, text.text_box.height_millis),
    }
}

/// The layout region in pixels on a canvas of the given size.
pub open spec fn spec_layout_region(text: TextSegment, canvas_width: u32, canvas_height: u32) -> ResolvedTextLayoutRegion {
    ResolvedTextLayoutRegion {
        x_millis: text.layout_region.x_millis,
        y_millis: text.layout_region.y_millis,
        width_millis: text.layout_region.width_millis,
        height_millis: text.layout_region.height_millis,
        x: spec_millis_of(canvas_width, text.layout_region.x_millis),
        y: spec_millis_of(canvas_height, text.layout_region.y_millis),
        width: spec_millis_of(canvas_width, text.layout_region.width_millis),
        height: spec_millis_of(canvas_height, text.layout_region.height_millis),
    }
}

fn resolve_text_box(text: &TextSegment, canvas_width: u32, canvas_height: u32) -> (r: ResolvedTextBox)
    ensures
        r == spec_text_box(*text, canvas_width, canvas_height),
{
    ResolvedTextBox {
        width_millis: text.text_box.width_millis,
        height_millis: text.text_box.height_millis,
        width: millis_of(canvas_width, text.text_box.width_millis),
        height: millis_of(canvas_height, text.text_box.height_millis),
    }
}

fn resolve_layout_region(text: &TextSegment, canvas_width: u32, canvas_height: u32) -> (r: ResolvedTextLayoutRegion)
    ensures
        r == spec_layout_region(*text, canvas_width, canvas_height),
{
    ResolvedTextLayoutRegion {
        x_millis: text.layout_region.x_millis,
        y_millis: text.layout_region.y_millis,
        width_millis: text.layout_region.width_millis,
        height_millis: text.layout_region.height_millis,
        x: millis_of(canvas_width, text.layout_region.x_millis),
        y: millis_of(canvas_height, text.layout_region.y_millis),
        width: millis_of(canvas_width, text.layout_region.width_millis),
        height: millis_of(canvas_height, text.layout_region.height_millis),
    }
}

/// Why a layout region does not fit the canvas, if it does not.
pub open spec fn region_problem(region: ResolvedTextLayoutRegion, canvas_width: u32, canvas_height: u32) -> Option<Seq<char>> {
    if region.x + region.width > canvas_width {
        Some("text layout region exceeds canvas width"@)
    } else if region.y + region.height > canvas_height {
        Some("text layout region exceeds canvas height"@)
    } else {
        None
    }
}

/// The margins a fitting layout region leaves on the canvas.
pub open spec fn spec_safe_area(region: ResolvedTextLayoutRegion, canvas_width: u32, canvas_height: u32) -> TextSafeArea {
    TextSafeArea {
        left: region.x,
        right: (canvas_width - region.x - region.width) as u32,
        top: region.y,
        bottom: (canvas_height - region.y - region.height) as u32,
    }
}

fn safe_area_from_region(region: &ResolvedTextLayoutRegion, canvas_width: u32, canvas_height: u32) -> (r: Result<TextSafeArea, EngineError>)
    ensures
        match r {
            Ok(a) => region_problem(*region, canvas_width, canvas_height) is None
                && a == spec_safe_area(*region, canvas_width, canvas_height),
            Err(e) => e.kind == EngineErrorKind::InvalidTextLayoutProfile
                && region_problem(*region, canvas_width, canvas_height) == Some(e.message@),
        },
{
    if region.x > canvas_width || region.width > canvas_width - region.x {
        return Err(invalid_text_layout("text layout region exceeds canvas width"));
    }
    let right = canvas_width - region.x - region.width;
    if region.y > canvas_height || region.height > canvas_height - region.y {
        return Err(invalid_text_layout("text layout region exceeds canvas height"));
    }
    let bottom = canvas_height - region.y - region.height;
    Ok(TextSafeArea { left: region.x, right, top: region.y, bottom })
}

/// (property, support, reason) of each diagnostic.
pub open spec fn diagnostic_view(d: ResolvedTextDiagnostic) -> (Seq<char>, Seq<char>, Seq<char>) {
    (d.property@, d.support@, d.reason@)
}

/// The diagnostic for one unsupported text resource.
pub open spec fn unsupported_diagnostic(property: Seq<char>, noun: Seq<char>, name: Seq<char>) -> (Seq<char>, Seq<char>, Seq<char>) {
    (property, "unsupported"@, noun + " "@ + name + " is unsupported"@)
}

/// Diagnostics of a text segment: an unsupported bubble, then an
/// unsupported effect.
pub open spec fn spec_text_diagnostics(text: TextSegment) -> Seq<(Seq<char>, Seq<char>, Seq<char>)> {
    let bubble: Seq<(Seq<char>, Seq<char>, Seq<char>)> = match text.bubble {
        Some(TextResourceRef::Unsupported { name }) => seq![unsupported_diagnostic("bubble"@, "text bubble"@, name@)],
        _ => Seq::empty(),
    };
    let effect: Seq<(Seq<char>, Seq<char>, Seq<char>)> = match text.effect {
        Some(TextResourceRef::Unsupported { name }) => seq![unsupported_diagnostic("effect"@, "text effect"@, name@)],
        _ => Seq::empty(),
    };
    bubble + effect
}

fn unsupported_text_diagnostic(property: &str, noun: &str, name: &String) -> (d: ResolvedTextDiagnostic)
    ensures
        diagnostic_view(d) == unsupported_diagnostic(property@, noun@, name@),
{
    let mut reason = lit(noun);
    append_str(&mut reason, " ");
    append_string(&mut reason, name);
    append_str(&mut reason, " is unsupported");
    ResolvedTextDiagnostic { property: lit(property), support: lit("unsupported"), reason }
}

fn text_diagnostics(text: &TextSegment) -> (r: Vec<ResolvedTextDiagnostic>)
    ensures
        r@.map_values(|d: ResolvedTextDiagnostic| diagnostic_view(d)) == spec_text_diagnostics(*text),
{
    let mut diagnostics: Vec<ResolvedTextDiagnostic> = Vec::new();
    match &text.bubble {
        Some(TextResourceRef::Unsupported { name }) => {
            diagnostics.push(unsupported_text_diagnostic("bubble", "text bubble", name));
        },
        _ => {},
    }
    let ghost first = diagnostics@;
    match &text.effect {
        Some(TextResourceRef::Unsupported { name }) => {
            diagnostics.push(unsupported_text_diagnostic("effect", "text effect", name));
        },
        _ => {},
    }
    proof {
        assert(diagnostics@.map_values(|d: ResolvedTextDiagnostic| diagnostic_view(d)) =~= spec_text_diagnostics(*text));
    }
    diagnostics
}

/// Lines of laid-out content as counted for the overlay's height: at
/// least one, kept to 32 bits.
pub open spec fn overlay_line_count(content: Seq<char>) -> u32 {
    (if line_count(content) < 1 { 1 } else { line_count(content) }) as u32
}

/// Whether the text height `font_size * line_height * lines` overflows 32 bits.
pub open spec fn height_overflows(font_size: u32, line_height_millis: u32, lines: u32) -> bool {
    font_size * line_height_millis > u32::MAX || font_size * line_height_millis * lines > u32::MAX
}

/// The laid-out text height in pixels, bounded by the text box and the
/// layout region.
pub open spec fn spec_layout_height(font_size: u32, line_height_millis: u32, lines: u32, box_height: u32, region_height: u32) -> int {
    let h = ceil_div(font_size * line_height_millis * lines, 1000);
    let h1 = if h < box_height { h } else { box_height as int };
    if h1 < region_height { h1 } else { region_height as int }
}

/// The first problem that stops a text segment from being laid out.
pub open spec fn overlay_problem(text: TextSegment, profile: TextLayoutProfile, canvas_width: u32, canvas_height: u32) -> Option<Seq<char>> {
    let region = spec_layout_region(text, canvas_width, canvas_height);
    let text_box = spec_text_box(text, canvas_width, canvas_height);
    let width = if text_box.width < region.width { text_box.width } else { region.width };
    let lines = overlay_line_count(wrapped_content(text, width));
    if layout_profile_problem(profile, canvas_width, canvas_height) is Some {
        layout_profile_problem(profile, canvas_width, canvas_height)
    } else if region_problem(region, canvas_width, canvas_height) is Some {
        region_problem(region, canvas_width, canvas_height)
    } else if height_overflows(text.style.font_size, text.style.line_height_millis, lines) {
        Some("text layout height calculation overflowed"@)
    } else {
        None
    }
}

/// Everything a resolved overlay states, given the overlay was produced.
pub open spec fn overlay_matches(
    o: ResolvedTextOverlay,
    track_id: Seq<char>,
    segment: NormalizedSegment,
    text: TextSegment,
    stack_index: u32,
    source_position: u64,
    profile: TextLayoutProfile,
    canvas_width: u32,
    canvas_height: u32,
) -> bool {
    &&& overlay_layout_matches(o, track_id, segment, text, stack_index, source_position, profile, canvas_width, canvas_height)
    &&& o.style.color@ == text.style.color@
}

/// Everything a resolved overlay states apart from its text colour.
pub open spec fn overlay_layout_matches(
    o: ResolvedTextOverlay,
    track_id: Seq<char>,
    segment: NormalizedSegment,
    text: TextSegment,
    stack_index: u32,
    source_position: u64,
    profile: TextLayoutProfile,
    canvas_width: u32,
    canvas_height: u32,
) -> bool {
    let region = spec_layout_region(text, canvas_width, canvas_height);
    let text_box = spec_text_box(text, canvas_width, canvas_height);
    let width = if text_box.width < region.width { text_box.width } else { region.width };
    let content = wrapped_content(text, width);
    let lines = overlay_line_count(content);
    &&& o.track_id@ == track_id
    &&& o.segment_id@ == segment.segment_id@
    &&& o.content@ == content
    &&& o.stack_index == stack_index
    &&& o.source_position == source_position
    &&& o.target_timerange == segment.target_timerange
    &&& o.source == text.source
    &&& o.font_family@ == (if is_blank(text.style.font.family@) { profile.font_policy.font_family@ } else { text.style.font.family@ })
    &&& o.font_ref == text.style.font.font_ref
    &&& o.font_candidate@ == profile.font_policy.font_candidate@
    &&& o.fallback_candidates@ == profile.font_policy.fallback_candidates@
    &&& o.alignment == text.style.alignment
    &&& o.text_box == text_box
    &&& o.layout_region == region
    &&& o.safe_area == spec_safe_area(region, canvas_width, canvas_height)
    &&& o.wrapping == text.wrapping
    &&& o.wrapping_policy == profile.wrapping_policy
    &&& o.line_height_millis == text.style.line_height_millis
    &&& o.letter_spacing_millis == text.style.letter_spacing_millis
    &&& o.font_size == text.style.font_size
    &&& o.style.stroke == text.style.stroke
    &&& o.style.shadow == text.style.shadow
    &&& o.style.background == text.style.background
    &&& o.layout_width == width
    &&& o.layout_height == spec_layout_height(text.style.font_size, text.style.line_height_millis, lines, text_box.height, region.height)
    &&& o.diagnostics@.map_values(|d: ResolvedTextDiagnostic| diagnostic_view(d)) == spec_text_diagnostics(text)
}

/// Lays a text segment out on the canvas: validates the profile, resolves
/// the box and region in pixels, wraps the content to the narrower of the
/// two, and measures the height of the wrapped lines.
pub fn resolve_text_overlay(
    track_id: &String,
    segment: &NormalizedSegment,
    text: &TextSegment,
    stack_index: u32,
    source_position: u64,
    profile: &TextLayoutProfile,
    canvas_width: u32,
    canvas_height: u32,
) -> (r: Result<ResolvedTextOverlay, EngineError>)
    ensures
        match r {
            Ok(o) => overlay_problem(*text, *profile, canvas_width, canvas_height) is None
                && overlay_matches(o, track_id@, *segment, *text, stack_index, source_position, *profile, canvas_width, canvas_height),
            Err(e) => e.kind == EngineErrorKind::InvalidTextLayoutProfile
                && overlay_problem(*text, *profile, canvas_width, canvas_height) == Some(e.message@),
        },
{
    match profile.validate(canvas_width, canvas_height) {
        Ok(()) => {},
        Err(e) => return Err(e),
    }
    let text_box = resolve_text_box(text, canvas_width, canvas_height);
    let layout_region = resolve_layout_region(text, canvas_width, canvas_height);
    let safe_area = match safe_area_from_region(&layout_region, canvas_width, canvas_height) {
        Ok(a) => a,
        Err(e) => return Err(e),
    };
    let layout_width = if text_box.width < layout_region.width { text_box.width } else { layout_region.width };
    let resolved_content = resolve_wrapped_content(text, layout_width);
    let counted = count_lines(&resolved_content);
    let line_count: u32 = if counted < 1 { 1 } else { counted as u32 };
    let font_size = text.style.font_size;
    let line_height = text.style.line_height_millis;
    proof {
        lemma_mul_nonnegative(font_size as int, line_height as int);
        lemma_mul_upper_bound(font_size as int, u32::MAX as int, line_height as int, u32::MAX as int);
    }
    let first = font_size as u64 * line_height as u64;
    if first > u32::MAX as u64 {
        return Err(invalid_text_layout("text layout height calculation overflowed"));
    }
    proof {
        lemma_mul_nonnegative(first as int, line_count as int);
        lemma_mul_upper_bound(first as int, u32::MAX as int, line_count as int, u32::MAX as int);
    }
    let total = first * line_count as u64;
    if total > u32::MAX as u64 {
        return Err(invalid_text_layout("text layout height calculation overflowed"));
    }
    let mut layout_height = ceil_div_u32(total as u32, 1000);
    if layout_height > text_box.height {
        layout_height = text_box.height;
    }
    if layout_height > layout_region.height {
        layout_height = layout_region.height;
    }
    let font_family = if str_is_blank(text.style.font.family.as_str()) {
        profile.font_policy.font_family.clone()
    } else {
        text.style.font.family.clone()
    };
    let style = text.style.duplicate();
    let o = ResolvedTextOverlay {
        track_id: track_id.clone(),
        segment_id: segment.segment_id.clone(),
        content: resolved_content,
        stack_index,
        source_position,
        target_timerange: segment.target_timerange,
        source: text.source,
        font_family,
        font_ref: clone_opt_string(&text.style.font.font_ref),
        font_candidate: profile.font_policy.font_candidate.clone(),
        fallback_candidates: clone_strings(&profile.font_policy.fallback_candidates),
        alignment: text.style.alignment,
        text_box,
        layout_region,
        safe_area,
        wrapping: text.wrapping,
        wrapping_policy: profile.wrapping_policy,
        line_height_millis: line_height,
        letter_spacing_millis: text.style.letter_spacing_millis,
        font_size,
        style: ResolvedTextStyle {
            color: style.color,
            stroke: style.stroke,
            shadow: style.shadow,
            background: style.background,
        },
        layout_width,
        layout_height,
        diagnostics: text_diagnostics(text),
    };
    Ok(o)
}

/// Two profiles with the same settings.
pub open spec fn same_layout_profile(a: TextLayoutProfile, b: TextLayoutProfile) -> bool {
    &&& a.font_policy.font_family@ == b.font_policy.font_family@
    &&& a.font_policy.font_candidate@ == b.font_policy.font_candidate@
    &&& a.font_policy.fallback_candidates@ == b.font_policy.fallback_candidates@
    &&& a.safe_area == b.safe_area
    &&& a.wrapping_policy == b.wrapping_policy
    &&& a.line_height_millis == b.line_height_millis
}

impl TextLayoutProfile {
    /// A copy with the same settings.
    pub fn duplicate(&self) -> (r: Self)
        ensures
            same_layout_profile(r, *self),
    {
        TextLayoutProfile {
            font_policy: TextFontPolicy {
                font_family: self.font_policy.font_family.clone(),
                font_candidate: self.font_policy.font_candidate.clone(),
                fallback_candidates: clone_strings(&self.font_policy.fallback_candidates),
            },
            safe_area: self.safe_area,
            wrapping_policy: self.wrapping_policy,
            line_height_millis: self.line_height_millis,
        }
    }
}

/// The characters of `s` other than newlines, in order.
pub open spec fn without_newlines(s: Seq<char>) -> Seq<char>
    decreases s.len(),
{
    if s.len() == 0 {
        Seq::empty()
    } else if s.last() == '\n' {
        without_newlines(s.drop_last())
    } else {
        without_newlines(s.drop_last()).push(s.last())
    }
}

proof fn lemma_without_newlines_push(s: Seq<char>, c: char)
    ensures
        without_newlines(s.push(c)) == if c == '\n' { without_newlines(s) } else { without_newlines(s).push(c) },
{
    assert(s.push(c).drop_last() =~= s);
}

/// Wrapping only inserts line breaks: apart from newlines, the wrapped
/// text has exactly the characters of the input text, in order.
pub proof fn law_wrapping_only_inserts_line_breaks(s: Seq<char>, font_size: u32, letter_spacing_millis: u32, max_width: u32)
    ensures
        without_newlines(wrap_state(s, font_size, letter_spacing_millis, max_width).0) == without_newlines(s),
    decreases s.len(),
{
    if s.len() > 0 {
        law_wrapping_only_inserts_line_breaks(s.drop_last(), font_size, letter_spacing_millis, max_width);
        let (out, width) = wrap_state(s.drop_last(), font_size, letter_spacing_millis, max_width);
        let c = s.last();
        assert(s =~= s.drop_last().push(c));
        lemma_without_newlines_push(s.drop_last(), c);
        lemma_without_newlines_push(out, c);
        lemma_without_newlines_push(out, '\n');
        lemma_without_newlines_push(out.push('\n'), c);
    }
}

/// A laid-out overlay stays on the canvas: its safe area and region
/// tile the canvas width and height, and its laid-out width and height
/// fit both the text box and the region.
pub proof fn law_overlay_fits_canvas(
    o: ResolvedTextOverlay,
    track_id: Seq<char>,
    segment: NormalizedSegment,
    text: TextSegment,
    stack_index: u32,
    source_position: u64,
    profile: TextLayoutProfile,
    canvas_width: u32,
    canvas_height: u32,
)
    requires
        overlay_problem(text, profile, canvas_width, canvas_height) is None,
        overlay_layout_matches(o, track_id, segment, text, stack_index, source_position, profile, canvas_width, canvas_height),
    ensures
        o.safe_area.left + o.layout_region.width + o.safe_area.right == canvas_width,
        o.safe_area.top + o.layout_region.height + o.safe_area.bottom == canvas_height,
        o.layout_width <= o.text_box.width && o.layout_width <= o.layout_region.width,
        o.layout_height <= o.text_box.height && o.layout_height <= o.layout_region.height,
{
}

} // verus!
