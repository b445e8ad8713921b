//! ASS subtitle side files for text overlays: timestamps, colours,
//! escaping, event clipping and the choice of font file.
use vstd::prelude::*;

use crate::compiler::job::{
    is_ascii_alphanumeric, sanitize_id, sanitized, seconds_text, CompileContext, FfmpegCompileError,
    FfmpegCompileErrorKind, FfmpegSidecar, FfmpegSidecarKind, RenderFilterIntent, TextRenderCapability,
};
use crate::compiler::filters::RenderTransitionIntent;
use crate::compiler::job::opt_text;
use crate::engine::model::{TargetTimerange, TextAlignment, TextBackground, TextShadow, TextStroke};
use crate::order::{key_view, lemma_key_lt_order, lemma_stable_order_positions, is_stable_order, pos_before, stable_order, KeyView, SortKey};
use crate::text::{lemma_seq_char_lt_transitive, seq_char_lt};
use crate::engine::text_layout::ResolvedTextOverlay;
use crate::text::{
    append_str, append_string, chars_of, clone_opt_string, decimal, lit, push_char, str_eq,
    string_from_chars, strings_view, u64_to_decimal, u64_to_padded_decimal, zero_padded,
};

verus! {

/// `H:MM:SS.cc` of a time in microseconds (hours unpadded, hundredths of
/// a second truncated).
pub open spec fn ass_time_text(value: u64) -> Seq<char> {
    let whole = value / 1_000_000;
    decimal((whole / 3600) as nat) + seq![':'] + zero_padded(((whole % 3600) / 60) as nat, 2) + seq![':']
        + zero_padded((whole % 60) as nat, 2) + seq!['.'] + zero_padded(((value % 1_000_000) / 10_000) as nat, 2)
}

/// An ASS timestamp.
pub fn ass_time(value: u64) -> (r: String)
    ensures
        r@ == ass_time_text(value),
{
    let whole = value / 1_000_000;
    let mut r = u64_to_decimal(whole / 3600);
    push_char(&mut r, ':');
    let minutes = u64_to_padded_decimal((whole % 3600) / 60, 2);
    append_string(&mut r, &minutes);
    push_char(&mut r, ':');
    let seconds = u64_to_padded_decimal(whole % 60, 2);
    append_string(&mut r, &seconds);
    push_char(&mut r, '.');
    let hundredths = u64_to_padded_decimal((value % 1_000_000) / 10_000, 2);
    append_string(&mut r, &hundredths);
    r
}

/// ASS numpad alignment of the bottom row.
pub open spec fn spec_ass_alignment(a: TextAlignment) -> u8 {
    match a {
        TextAlignment::Left => 1,
        TextAlignment::Center => 2,
        TextAlignment::Right => 3,
    }
}

/// Bottom-left, bottom-centre or bottom-right.
pub fn ass_alignment(alignment: TextAlignment) -> (r: u8)
    ensures
        r == spec_ass_alignment(alignment),
{
    match alignment {
        TextAlignment::Left => 1,
        TextAlignment::Center => 2,
        TextAlignment::Right => 3,
    }
}

/// Letter spacing in pixels: `font_size * spacing / 1000`, truncated to `u32`.
pub open spec fn spec_letter_spacing_pixels(font_size: u32, letter_spacing_millis: u32) -> u32 {
    ((font_size as int) * (letter_spacing_millis as int) / 1000) as u32
}

/// Letter spacing in pixels.
pub fn letter_spacing_pixels(font_size: u32, letter_spacing_millis: u32) -> (r: u32)
    ensures
        r == spec_letter_spacing_pixels(font_size, letter_spacing_millis),
{
    proof {
        vstd::arithmetic::mul::lemma_mul_upper_bound(font_size as int, u32::MAX as int, letter_spacing_millis as int, u32::MAX as int);
        vstd::arithmetic::mul::lemma_mul_nonnegative(font_size as int, letter_spacing_millis as int);
    }
    ((font_size as u64 * letter_spacing_millis as u64) / 1000) as u32
}

/// How a character appears in ASS dialogue text.
pub open spec fn escaped_char(c: char) -> Seq<char> {
    if c == '\\' {
        seq!['\\', '\\']
    } else if c == '{' {
        seq!['\\', '{']
    } else if c == '}' {
        seq!['\\', '}']
    } else if c == '\n' {
        seq!['\\', 'N']
    } else {
        seq![c]
    }
}

/// Text with backslashes doubled, braces escaped as `\{` `\}` and newlines as `\N`.
pub open spec fn escaped_ass(s: Seq<char>) -> Seq<char>
    decreases s.len(),
{
    if s.len() == 0 {
        Seq::empty()
    } else {
        escaped_ass(s.drop_last()) + escaped_char(s.last())
    }
}

/// The character an escape `\x` stands for.
pub open spec fn unescaped_char(c: char) -> char {
    if c == 'N' { '\n' } else { c }
}

/// Dialogue text read back: `\x` gives the character it stands for, any
/// other character stands for itself.
pub open spec fn unescaped_ass(t: Seq<char>) -> Seq<char>
    decreases t.len(),
{
    if t.len() == 0 {
        Seq::empty()
    } else if t[0] == '\\' && t.len() >= 2 {
        seq![unescaped_char(t[1])] + unescaped_ass(t.subrange(2, t.len() as int))
    } else {
        seq![t[0]] + unescaped_ass(t.drop_first())
    }
}

/// Escaping a text splits at its first character.
proof fn lemma_escaped_front(c: char, s: Seq<char>)
    ensures
        escaped_ass(seq![c] + s) == escaped_char(c) + escaped_ass(s),
    decreases s.len(),
{
    if s.len() == 0 {
        assert(seq![c] + s =~= seq![c]);
        assert(seq![c].drop_last() =~= Seq::<char>::empty());
        assert(escaped_ass(Seq::<char>::empty()) =~= Seq::<char>::empty());
        assert(escaped_ass(seq![c]) =~= escaped_char(c));
    } else {
        lemma_escaped_front(c, s.drop_last());
        assert((seq![c] + s).drop_last() =~= seq![c] + s.drop_last());
        assert((seq![c] + s).last() == s.last());
        assert(escaped_ass(seq![c] + s) =~= escaped_char(c) + escaped_ass(s));
    }
}

/// Reading back an escaped text, followed by anything, gives the text back
/// first.
proof fn lemma_unescape_escaped_prefix(s: Seq<char>, t: Seq<char>)
    ensures
        unescaped_ass(escaped_ass(s) + t) == s + unescaped_ass(t),
    decreases s.len(),
{
    if s.len() == 0 {
        assert(escaped_ass(s) =~= Seq::<char>::empty());
        assert(escaped_ass(s) + t =~= t);
        assert(s + unescaped_ass(t) =~= unescaped_ass(t));
    } else {
        let c = s[0];
        let rest = s.drop_first();
        assert(s =~= seq![c] + rest);
        lemma_escaped_front(c, rest);
        lemma_unescape_escaped_prefix(rest, t);
        let whole = escaped_char(c) + escaped_ass(rest) + t;
        assert(escaped_ass(s) + t =~= whole);
        if c == '\\' || c == '{' || c == '}' || c == '\n' {
            assert(whole.subrange(2, whole.len() as int) =~= escaped_ass(rest) + t);
            assert(unescaped_char(whole[1]) == c);
        } else {
            assert(whole.drop_first() =~= escaped_ass(rest) + t);
        }
        assert(unescaped_ass(whole) =~= s + unescaped_ass(t));
    }
}

/// Escaping loses nothing: reading the escaped dialogue text back gives
/// the text that was escaped.
pub proof fn law_ass_escaping_reads_back(s: Seq<char>)
    ensures
        unescaped_ass(escaped_ass(s)) == s,
{
    lemma_unescape_escaped_prefix(s, Seq::empty());
    assert(escaped_ass(s) + Seq::<char>::empty() =~= escaped_ass(s));
    assert(s + unescaped_ass(Seq::<char>::empty()) =~= s);
}

/// Escapes dialogue text for ASS.
pub fn escape_ass_text(value: &str) -> (r: String)
    ensures
        r@ == escaped_ass(value@),
{
    let cs = chars_of(value);
    let mut r = String::new();
    let mut i: usize = 0;
    while i < cs.len()
        invariant
            cs@ == value@,
            i <= cs@.len(),
            r@ == escaped_ass(cs@.subrange(0, i as int)),
        decreases cs@.len() - i,
    {
        let c = cs[i];
        proof {
            assert(cs@.subrange(0, i + 1).drop_last() =~= cs@.subrange(0, i as int));
        }
        if c == '\\' {
            push_char(&mut r, '\\');
            push_char(&mut r, '\\');
        } else if c == '{' {
            push_char(&mut r, '\\');
            push_char(&mut r, '{');
        } else if c == '}' {
            push_char(&mut r, '\\');
            push_char(&mut r, '}');
        } else if c == '\n' {
            push_char(&mut r, '\\');
            push_char(&mut r, 'N');
        } else {
            push_char(&mut r, c);
        }
        proof {
            assert(r@ =~= escaped_ass(cs@.subrange(0, i + 1)));
        }
        i = i + 1;
    }
    proof {
        assert(cs@.subrange(0, cs@.len() as int) =~= cs@);
    }
    r
}

/// A hexadecimal digit in ASCII.
pub open spec fn is_hex_digit(c: char) -> bool {
    ('0' <= c && c <= '9') || ('a' <= c && c <= 'f') || ('A' <= c && c <= 'F')
}

/// Upper-case form of an ASCII character.
pub open spec fn ascii_upper(c: char) -> char {
    if 'a' <= c && c <= 'z' { ((c as u32) - 32) as char } else { c }
}

/// Six hexadecimal digits.
pub open spec fn is_hex6(s: Seq<char>) -> bool {
    s.len() == 6 && forall|i: int| 0 <= i < 6 ==> #[trigger] is_hex_digit(s[i])
}

/// The colour digits used: those of `value` without a leading `#` when
/// they are six hex digits, else the fallback.
pub open spec fn color_digits(value: Seq<char>, fallback: Seq<char>) -> Seq<char> {
    let hex = if value.len() > 0 && value[0] == '#' { value.drop_first() } else { value };
    if is_hex6(hex) { hex } else { fallback }
}

/// Upper-case hexadecimal digit of a value below 16.
pub open spec fn hex_digit_upper(d: int) -> char {
    if d < 10 { (('0' as u32) + d as u32) as char } else { (('A' as u32) + (d - 10) as u32) as char }
}

/// `&HAABBGGRR`, upper case: alpha, then blue, green, red.
pub open spec fn ass_color_text(value: Seq<char>, fallback: Seq<char>, alpha: u8) -> Seq<char> {
    let d = color_digits(value, fallback);
    seq!['&', 'H', hex_digit_upper(alpha as int / 16), hex_digit_upper(alpha as int % 16),
        ascii_upper(d[4]), ascii_upper(d[5]), ascii_upper(d[2]), ascii_upper(d[3]), ascii_upper(d[0]), ascii_upper(d[1])]
}

fn upper(c: char) -> (r: char)
    ensures
        r == ascii_upper(c),
{
    if 'a' <= c && c <= 'z' {
        let n = (c as u32) - 32;
        proof {
            assert(0x41 <= n <= 0x5A);
        }
        char_from_ascii(n)
    } else {
        c
    }
}

fn char_from_ascii(n: u32) -> (c: char)
    requires
        n < 128,
    ensures
        c == n as char,
{
    (n as u8) as char
}

fn hex_upper(d: u8) -> (c: char)
    requires
        d < 16,
    ensures
        c == hex_digit_upper(d as int),
{
    if d < 10 {
        char_from_ascii(48 + d as u32)
    } else {
        char_from_ascii(65 + (d as u32 - 10))
    }
}

/// An ASS colour from a `#rrggbb` value, with `fallback` for anything else.
pub fn ass_color(value: &str, fallback: &str, alpha: u8) -> (r: String)
    requires
        is_hex6(fallback@),
    ensures
        r@ == ass_color_text(value@, fallback@, alpha),
{
    let v = chars_of(value);
    let mut hex: Vec<char> = Vec::new();
    let start: usize = if v.len() > 0 && v[0] == '#' { 1 } else { 0 };
    let mut i: usize = start;
    while i < v.len()
        invariant
            v@ == value@,
            start <= i <= v@.len(),
            start == (if v@.len() > 0 && v@[0] == '#' { 1usize } else { 0usize }),
            hex@ == v@.subrange(start as int, i as int),
        decreases v@.len() - i,
    {
        hex.push(v[i]);
        i = i + 1;
        assert(hex@ =~= v@.subrange(start as int, i as int));
    }
    proof {
        let h = if v@.len() > 0 && v@[0] == '#' { v@.drop_first() } else { v@ };
        assert(hex@ =~= h);
    }
    let mut ok = hex.len() == 6;
    let mut k: usize = 0;
    while ok && k < hex.len()
        invariant
            ok <==> (hex@.len() == 6 && forall|j: int| 0 <= j < k ==> #[trigger] is_hex_digit(hex@[j])),
            k <= hex@.len(),
        decreases hex@.len() - k,
    {
        let c = hex[k];
        if !(('0' <= c && c <= '9') || ('a' <= c && c <= 'f') || ('A' <= c && c <= 'F')) {
            ok = false;
            proof {
                assert(!is_hex_digit(hex@[k as int]));
            }
        }
        k = k + 1;
    }
    proof {
        if ok {
            assert(is_hex6(hex@));
        } else if hex@.len() == 6 {
            assert(!is_hex6(hex@));
        }
    }
    let d: Vec<char> = if ok { hex } else { chars_of(fallback) };
    proof {
        let h = if v@.len() > 0 && v@[0] == '#' { v@.drop_first() } else { v@ };
        if !ok && is_hex6(h) {
            assert(false);
        }
        assert(d@ == color_digits(value@, fallback@));
    }
    let mut r: Vec<char> = Vec::new();
    r.push('&');
    r.push('H');
    r.push(hex_upper(alpha / 16));
    r.push(hex_upper(alpha % 16));
    r.push(upper(d[4]));
    r.push(upper(d[5]));
    r.push(upper(d[2]));
    r.push(upper(d[3]));
    r.push(upper(d[0]));
    r.push(upper(d[1]));
    proof {
        assert(r@ =~= ass_color_text(value@, fallback@, alpha));
    }
    string_from_chars(r.as_slice())
}

/// Start and end of a text event relative to the output: the text's range
/// clipped to the output's, ends saturating at `u64::MAX`, the end never
/// before the start.
pub open spec fn clipped_event(output: TargetTimerange, text: TargetTimerange) -> (int, int) {
    let output_end = if output.start + output.duration > u64::MAX { u64::MAX as int } else { output.start + output.duration };
    let text_end = if text.start + text.duration > u64::MAX { u64::MAX as int } else { text.start + text.duration };
    let s0 = if text.start >= output.start { text.start as int } else { output.start as int };
    let start = s0 - output.start;
    let e0 = if text_end <= output_end { text_end } else { output_end };
    let end = if e0 >= output.start { e0 - output.start } else { 0 };
    (start, if end >= start { end } else { start })
}

/// The event times of a text overlay within the output.
pub fn clipped_event_timerange(output_timerange: &TargetTimerange, text_timerange: &TargetTimerange) -> (r: (u64, u64))
    ensures
        (r.0 as int, r.1 as int) == clipped_event(*output_timerange, *text_timerange),
{
    let output_start = output_timerange.start;
    let output_end = output_start.saturating_add(output_timerange.duration);
    let text_start = text_timerange.start;
    let text_end = text_start.saturating_add(text_timerange.duration);
    let s0 = if text_start >= output_start { text_start } else { output_start };
    let start = s0 - output_start;
    let e0 = if text_end <= output_end { text_end } else { output_end };
    let end = if e0 >= output_start { e0 - output_start } else { 0 };
    (start, if end >= start { end } else { start })
}

/// A font the application bundles, by reference.
#[derive(Debug, Clone)]
pub struct BundledFontEntry {
    pub font_ref: String,
    pub family: String,
}

/// A text overlay of the render graph.
#[derive(Debug, Clone)]
pub struct RenderTextOverlay {
    pub overlay: ResolvedTextOverlay,
    pub material_id: String,
    pub filters: Vec<RenderFilterIntent>,
    pub transition: Option<RenderTransitionIntent>,
}

/// The font file a text overlay is rendered with.
#[derive(Debug, Clone, PartialEq, Eq)]
pub struct ResolvedTextFont {
    pub family: String,
    pub path: String,
    pub candidate: String,
}

/// The family of the first registered bundled font with reference `r`.
pub open spec fn registered_family(reg: Seq<BundledFontEntry>, r: Seq<char>, k: int) -> Option<Seq<char>>
    decreases reg.len() - k,
{
    if k < 0 || k >= reg.len() {
        None
    } else if reg[k].font_ref@ == r {
        Some(reg[k].family@)
    } else {
        registered_family(reg, r, k + 1)
    }
}

/// The first fallback candidate, from position `k`, that is not the
/// environment placeholder and is available.
pub open spec fn first_available(cands: Seq<Seq<char>>, avail: Seq<Seq<char>>, k: int) -> Option<Seq<char>>
    decreases cands.len() - k,
{
    if k < 0 || k >= cands.len() {
        None
    } else if cands[k] != "VE_TEXT_FONT_PATH"@ && avail.contains(cands[k]) {
        Some(cands[k])
    } else {
        first_available(cands, avail, k + 1)
    }
}

/// Strings joined with a separator.
pub open spec fn joined(list: Seq<Seq<char>>, sep: Seq<char>) -> Seq<char>
    decreases list.len(),
{
    if list.len() == 0 {
        Seq::empty()
    } else if list.len() == 1 {
        list[0]
    } else {
        joined(list.drop_last(), sep) + sep + list.last()
    }
}

/// Font resolution for a text overlay: the registered bundled font when the
/// overlay names one (an error if the runtime cannot provide it), else the
/// font at `VE_TEXT_FONT_PATH` when the overlay allows it and it is
/// available, else the first available fallback candidate. Ok is (family,
/// path, candidate); Err is (message, remediation).
pub open spec fn font_resolution(o: RenderTextOverlay, cap: TextRenderCapability, reg: Seq<BundledFontEntry>)
    -> Result<(Seq<char>, Seq<char>, Seq<char>), (Seq<char>, Seq<char>)>
{
    let avail = strings_view(cap.available_font_paths@);
    let cands = strings_view(o.overlay.fallback_candidates@);
    let family = o.overlay.font_family@;
    let bundled = match o.overlay.font_ref {
        Some(fr) => match registered_family(reg, fr@, 0) {
            Some(entry_family) => Some(
                match (cap.bundled_font_path, cap.bundled_font_ref) {
                    (Some(path), Some(cref)) => if cref@ == fr@ && avail.contains(path@) {
                        Ok((match cap.bundled_font_family { Some(f) => f@, None => entry_family }, path@, fr@))
                    } else {
                        Err(("bundled text font "@ + fr@ + " is registered but unavailable to FFmpeg"@,
                            "Restore the bundled font asset and runtime capability registry before compiling text overlays."@))
                    },
                    _ => Err(("bundled text font "@ + fr@ + " is registered but unavailable to FFmpeg"@,
                        "Restore the bundled font asset and runtime capability registry before compiling text overlays."@)),
                }),
            None => None,
        },
        None => None,
    };
    match bundled {
        Some(r) => r,
        None => {
            let env = match cap.env_text_font_path {
                Some(p) => if cands.contains("VE_TEXT_FONT_PATH"@) && avail.contains(p@) { Some(p@) } else { None },
                None => None,
            };
            match env {
                Some(p) => Ok((family, p, "VE_TEXT_FONT_PATH"@)),
                None => match first_available(cands, avail, 0) {
                    Some(c) => Ok((family, c, c)),
                    None => Err(("no deterministic text font resolved from candidates: "@ + joined(cands, ", "@),
                        "Set VE_TEXT_FONT_PATH or install one of the pinned fallback fonts before compiling text overlays."@)),
                },
            }
        },
    }
}

fn contains_path(v: &Vec<String>, s: &str) -> (r: bool)
    ensures
        r == strings_view(v@).contains(s@),
{
    let mut i: usize = 0;
    while i < v.len()
        invariant
            i <= v@.len(),
            forall|k: int| 0 <= k < i ==> #[trigger] v@[k]@ != s@,
        decreases v@.len() - i,
    {
        if str_eq(v[i].as_str(), s) {
            proof {
                assert(strings_view(v@)[i as int] == s@);
            }
            return true;
        }
        i = i + 1;
    }
    proof {
        if strings_view(v@).contains(s@) {
            let k = choose|k: int| 0 <= k < strings_view(v@).len() && strings_view(v@)[k] == s@;
            assert(v@[k]@ == s@);
        }
    }
    false
}

fn find_registered(reg: &Vec<BundledFontEntry>, font_ref: &str) -> (r: Option<String>)
    ensures
        match r {
            Some(f) => registered_family(reg@, font_ref@, 0) == Some(f@),
            None => registered_family(reg@, font_ref@, 0) is None,
        },
{
    let mut i: usize = 0;
    while i < reg.len()
        invariant
            i <= reg@.len(),
            registered_family(reg@, font_ref@, 0) == registered_family(reg@, font_ref@, i as int),
        decreases reg@.len() - i,
    {
        if str_eq(reg[i].font_ref.as_str(), font_ref) {
            return Some(reg[i].family.clone());
        }
        i = i + 1;
    }
    None
}

pub(crate) fn join_strings(list: &Vec<String>, sep: &str) -> (r: String)
    ensures
        r@ == joined(strings_view(list@), sep@),
{
    let mut r = String::new();
    let mut i: usize = 0;
    while i < list.len()
        invariant
            i <= list@.len(),
            r@ == joined(strings_view(list@).subrange(0, i as int), sep@),
        decreases list@.len() - i,
    {
        proof {
            let pre = strings_view(list@).subrange(0, i + 1);
            assert(pre.drop_last() =~= strings_view(list@).subrange(0, i as int));
            if i == 0 {
                assert(pre.len() == 1);
            }
        }
        if i > 0 {
            append_str(&mut r, sep);
        }
        append_string(&mut r, &list[i]);
        i = i + 1;
    }
    proof {
        assert(strings_view(list@).subrange(0, list@.len() as int) =~= strings_view(list@));
    }
    r
}

fn missing_font_error(message: String, remediation: &str, material_id: &String) -> (e: FfmpegCompileError)
    ensures
        e.kind == FfmpegCompileErrorKind::MissingTextFont,
        e.message == message,
        e.remediation@ == remediation@,
        e.material_id == Some(*material_id),
{
    FfmpegCompileError::new(FfmpegCompileErrorKind::MissingTextFont, message, lit(remediation))
        .with_material_id(material_id.clone())
}

fn first_available_candidate(cands: &Vec<String>, available: &Vec<String>) -> (r: Option<String>)
    ensures
        match r {
            Some(c) => first_available(strings_view(cands@), strings_view(available@), 0) == Some(c@),
            None => first_available(strings_view(cands@), strings_view(available@), 0) is None,
        },
{
    let ghost cs = strings_view(cands@);
    let ghost av = strings_view(available@);
    let mut i: usize = 0;
    while i < cands.len()
        invariant
            cs == strings_view(cands@),
            av == strings_view(available@),
            i <= cands@.len(),
            first_available(cs, av, 0) == first_available(cs, av, i as int),
        decreases cands@.len() - i,
    {
        proof {
            assert(cs[i as int] == cands@[i as int]@);
        }
        if !str_eq(cands[i].as_str(), "VE_TEXT_FONT_PATH") && contains_path(available, cands[i].as_str()) {
            return Some(cands[i].clone());
        }
        i = i + 1;
    }
    None
}

/// Chooses the font file of a text overlay (see `font_resolution`).
pub fn resolve_text_font(
    overlay: &RenderTextOverlay,
    capability: &TextRenderCapability,
    registry: &Vec<BundledFontEntry>,
) -> (r: Result<ResolvedTextFont, FfmpegCompileError>)
    ensures
        match r {
            Ok(f) => font_resolution(*overlay, *capability, registry@) == Ok::<_, (Seq<char>, Seq<char>)>((f.family@, f.path@, f.candidate@)),
            Err(e) => e.kind == FfmpegCompileErrorKind::MissingTextFont && e.material_id == Some(overlay.material_id)
                && font_resolution(*overlay, *capability, registry@) == Err::<(Seq<char>, Seq<char>, Seq<char>), _>((e.message@, e.remediation@)),
        },
{
    let o = &overlay.overlay;
    match &o.font_ref {
        Some(font_ref) => {
            match find_registered(registry, font_ref.as_str()) {
                Some(entry_family) => {
                    match (&capability.bundled_font_path, &capability.bundled_font_ref) {
                        (Some(path), Some(cref)) => {
                            if str_eq(cref.as_str(), font_ref.as_str()) && contains_path(&capability.available_font_paths, path.as_str()) {
                                let family = match &capability.bundled_font_family {
                                    Some(f) => f.clone(),
                                    None => entry_family,
                                };
                                return Ok(ResolvedTextFont { family, path: path.clone(), candidate: font_ref.clone() });
                            }
                        },
                        _ => {},
                    }
                    let mut message = lit("bundled text font ");
                    append_string(&mut message, font_ref);
                    append_str(&mut message, " is registered but unavailable to FFmpeg");
                    return Err(missing_font_error(message,
                        "Restore the bundled font asset and runtime capability registry before compiling text overlays.",
                        &overlay.material_id));
                },
                None => {},
            }
        },
        None => {},
    }
    match &capability.env_text_font_path {
        Some(env_path) => {
            if contains_path(&o.fallback_candidates, "VE_TEXT_FONT_PATH") && contains_path(&capability.available_font_paths, env_path.as_str()) {
                return Ok(ResolvedTextFont {
                    family: o.font_family.clone(),
                    path: env_path.clone(),
                    candidate: lit("VE_TEXT_FONT_PATH"),
                });
            }
        },
        None => {},
    }
    match first_available_candidate(&o.fallback_candidates, &capability.available_font_paths) {
        Some(c) => Ok(ResolvedTextFont { family: o.font_family.clone(), path: c.clone(), candidate: c }),
        None => {
            let mut message = lit("no deterministic text font resolved from candidates: ");
            let list = join_strings(&o.fallback_candidates, ", ");
            append_string(&mut message, &list);
            Err(missing_font_error(message,
                "Set VE_TEXT_FONT_PATH or install one of the pinned fallback fonts before compiling text overlays.",
                &overlay.material_id))
        },
    }
}

/// Text resources of an overlay that export cannot render: a font
/// reference the registry does not know, then each diagnostic property
/// marked unsupported.
pub open spec fn unsupported_resources(o: RenderTextOverlay, reg: Seq<BundledFontEntry>) -> Seq<Seq<char>> {
    let font: Seq<Seq<char>> = match o.overlay.font_ref {
        Some(fr) => if registered_family(reg, fr@, 0) is None { seq!["fontRef "@ + fr@] } else { Seq::empty() },
        None => Seq::empty(),
    };
    font + unsupported_properties(o.overlay.diagnostics@, o.overlay.diagnostics@.len() as int)
}

/// Properties of the first `n` diagnostics whose support is `unsupported`.
pub open spec fn unsupported_properties(ds: Seq<crate::engine::text_layout::ResolvedTextDiagnostic>, n: int) -> Seq<Seq<char>>
    decreases n,
{
    if n <= 0 {
        Seq::empty()
    } else if ds[n - 1].support@ == "unsupported"@ {
        unsupported_properties(ds, n - 1).push(ds[n - 1].property@)
    } else {
        unsupported_properties(ds, n - 1)
    }
}

/// Strictly increasing in character order (sorted, without repeats).
pub open spec fn strictly_sorted(l: Seq<Seq<char>>) -> bool {
    forall|a: int, b: int| 0 <= a < b < l.len() ==> seq_char_lt(#[trigger] l[a], #[trigger] l[b])
}

/// `l` lists the distinct strings of `items` in character order.
pub open spec fn sorted_distinct_of(l: Seq<Seq<char>>, items: Seq<Seq<char>>) -> bool {
    &&& strictly_sorted(l)
    &&& forall|x: Seq<char>| #[trigger] l.contains(x) <==> items.contains(x)
}

/// The distinct strings of a list in character order (a sort, then
/// removal of repeats).
pub fn sorted_distinct(items: &Vec<String>) -> (r: Vec<String>)
    ensures
        sorted_distinct_of(strings_view(r@), strings_view(items@)),
{
    let ghost iv = strings_view(items@);
    let mut keys: Vec<SortKey> = Vec::new();
    let mut i: usize = 0;
    while i < items.len()
        invariant
            i <= items@.len(),
            keys@.len() == i,
            forall|q: int| 0 <= q < i ==> key_view(#[trigger] keys@[q]) == (0int, items@[q]@, Seq::<char>::empty()),
        decreases items@.len() - i,
    {
        keys.push(SortKey { rank: 0, first: items[i].clone(), second: String::new() });
        i = i + 1;
    }
    let ghost kv = keys@.map_values(|k: SortKey| key_view(k));
    let order = stable_order(&keys);
    let ghost ov = order@.map_values(|x: usize| x as int);
    proof {
        lemma_stable_order_positions(kv, order@);
    }
    let mut out: Vec<String> = Vec::new();
    let mut k: usize = 0;
    while k < order.len()
        invariant
            iv == strings_view(items@),
            kv == keys@.map_values(|k: SortKey| key_view(k)),
            forall|q: int| 0 <= q < items@.len() ==> key_view(#[trigger] keys@[q]) == (0int, items@[q]@, Seq::<char>::empty()),
            ov == order@.map_values(|x: usize| x as int),
            is_stable_order(kv, ov),
            order@.len() == items@.len(),
            forall|q: int| 0 <= q < order@.len() ==> #[trigger] order@[q] < items@.len(),
            k <= order@.len(),
            strictly_sorted(strings_view(out@)),
            k > 0 ==> out@.len() > 0 && out@.last()@ == items@[order@[k - 1] as int]@,
            k == 0 ==> out@.len() == 0,
            forall|x: Seq<char>| #[trigger] strings_view(out@).contains(x) <==> exists|a: int| 0 <= a < k && items@[order@[a] as int]@ == x,
        decreases order@.len() - k,
    {
        let s = &items[order[k]];
        let ghost ov_out = strings_view(out@);
        if out.len() == 0 || !str_eq(out[out.len() - 1].as_str(), s.as_str()) {
            proof {
                if k > 0 {
                    let pa = order@[k - 1] as int;
                    let pb = order@[k as int] as int;
                    assert(ov[k - 1] == pa && ov[k as int] == pb);
                    assert(pos_before(kv, pa, pb));
                    assert(kv[pa] == key_view(keys@[pa]));
                    assert(kv[pb] == key_view(keys@[pb]));
                    assert(seq_char_lt(items@[pa]@, items@[pb]@));
                    assert forall|a: int| 0 <= a < ov_out.len() implies seq_char_lt(#[trigger] ov_out[a], items@[pb]@) by {
                        if a < ov_out.len() - 1 {
                            assert(seq_char_lt(ov_out[a], ov_out[ov_out.len() - 1]));
                            lemma_seq_char_lt_transitive(ov_out[a], ov_out[ov_out.len() - 1], items@[pb]@);
                        }
                    }
                }
            }
            out.push(s.clone());
            proof {
                let nv = strings_view(out@);
                assert(nv =~= ov_out.push(s@));
                assert forall|x: Seq<char>| #[trigger] nv.contains(x) <==> exists|a: int| 0 <= a < k + 1 && items@[order@[a] as int]@ == x by {
                    if nv.contains(x) {
                        let j = choose|j: int| 0 <= j < nv.len() && nv[j] == x;
                        if j == nv.len() - 1 {
                            assert(items@[order@[k as int] as int]@ == x);
                        } else {
                            assert(ov_out.contains(x));
                        }
                    }
                    if exists|a: int| 0 <= a < k + 1 && items@[order@[a] as int]@ == x {
                        let a = choose|a: int| 0 <= a < k + 1 && items@[order@[a] as int]@ == x;
                        if a == k {
                            assert(nv[nv.len() - 1] == x);
                        } else {
                            assert(ov_out.contains(x));
                            let j = choose|j: int| 0 <= j < ov_out.len() && ov_out[j] == x;
                            assert(nv[j] == x);
                        }
                    }
                }
            }
        } else {
            proof {
                assert forall|x: Seq<char>| #[trigger] ov_out.contains(x) <==> exists|a: int| 0 <= a < k + 1 && items@[order@[a] as int]@ == x by {
                    if exists|a: int| 0 <= a < k + 1 && items@[order@[a] as int]@ == x {
                        let a = choose|a: int| 0 <= a < k + 1 && items@[order@[a] as int]@ == x;
                        if a == k {
                            assert(ov_out[ov_out.len() - 1] == x);
                        }
                    }
                }
            }
        }
        k = k + 1;
    }
    proof {
        let rv = strings_view(out@);
        assert forall|x: Seq<char>| #[trigger] rv.contains(x) <==> iv.contains(x) by {
            if rv.contains(x) {
                let a = choose|a: int| 0 <= a < order@.len() && items@[order@[a] as int]@ == x;
                assert(iv[order@[a] as int] == x);
            }
            if iv.contains(x) {
                let q = choose|q: int| 0 <= q < iv.len() && iv[q] == x;
                assert(ov.contains(q));
                let a = choose|a: int| 0 <= a < ov.len() && ov[a] == q;
                assert(order@[a] as int == q);
                assert(items@[order@[a] as int]@ == x);
            }
        }
    }
    out
}

/// Fails when an overlay uses text resources export cannot render.
pub fn reject_unsupported_text_resources(overlay: &RenderTextOverlay, registry: &Vec<BundledFontEntry>) -> (r: Result<(), FfmpegCompileError>)
    ensures
        r is Ok <==> unsupported_resources(*overlay, registry@).len() == 0,
        r matches Err(e) ==> e.kind == FfmpegCompileErrorKind::UnsupportedTextResource
            && e.material_id == Some(overlay.material_id)
            && e.remediation@ == "Remove or replace unsupported text bubble, effect, or fontRef resources before compiling ASS sidecars."@
            && exists|l: Seq<Seq<char>>| #[trigger] sorted_distinct_of(l, unsupported_resources(*overlay, registry@))
                && e.message@ == "text segment "@ + overlay.overlay.segment_id@ + " contains unsupported text resources: "@ + joined(l, ", "@),
{
    let o = &overlay.overlay;
    let mut unsupported: Vec<String> = Vec::new();
    match &o.font_ref {
        Some(fr) => {
            if find_registered(registry, fr.as_str()).is_none() {
                let mut m = lit("fontRef ");
                append_string(&mut m, fr);
                unsupported.push(m);
            }
        },
        None => {},
    }
    let ghost first = strings_view(unsupported@);
    let mut i: usize = 0;
    while i < o.diagnostics.len()
        invariant
            i <= o.diagnostics@.len(),
            strings_view(unsupported@) == first + unsupported_properties(o.diagnostics@, i as int),
        decreases o.diagnostics@.len() - i,
    {
        if str_eq(o.diagnostics[i].support.as_str(), "unsupported") {
            let ghost before = strings_view(unsupported@);
            unsupported.push(o.diagnostics[i].property.clone());
            proof {
                assert(strings_view(unsupported@) =~= before.push(o.diagnostics@[i as int].property@));
            }
        }
        i = i + 1;
    }
    proof {
        assert(strings_view(unsupported@) =~= unsupported_resources(*overlay, registry@));
    }
    if unsupported.len() == 0 {
        return Ok(());
    }
    let list = sorted_distinct(&unsupported);
    let mut message = lit("text segment ");
    append_string(&mut message, &o.segment_id);
    append_str(&mut message, " contains unsupported text resources: ");
    let joined_list = join_strings(&list, ", ");
    append_string(&mut message, &joined_list);
    let e = FfmpegCompileError::new(
        FfmpegCompileErrorKind::UnsupportedTextResource,
        message,
        lit("Remove or replace unsupported text bubble, effect, or fontRef resources before compiling ASS sidecars."),
    ).with_material_id(overlay.material_id.clone());
    proof {
        assert(sorted_distinct_of(strings_view(list@), unsupported_resources(*overlay, registry@)));
    }
    Err(e)
}

/// Outline width of an optional stroke.
pub open spec fn outline_width(stroke: Option<TextStroke>) -> u32 {
    match stroke {
        Some(s) => s.width,
        None => 0,
    }
}

/// Absolute value of an `i32` as `u32`.
pub open spec fn unsigned_abs(v: i32) -> u32 {
    (if v < 0 { -(v as int) } else { v as int }) as u32
}

/// Shadow size: the largest of blur and the absolute offsets.
pub open spec fn shadow_size(shadow: Option<TextShadow>) -> u32 {
    match shadow {
        Some(s) => {
            let a = if s.blur >= unsigned_abs(s.offset_x) { s.blur } else { unsigned_abs(s.offset_x) };
            if a >= unsigned_abs(s.offset_y) { a } else { unsigned_abs(s.offset_y) }
        },
        None => 0,
    }
}

/// Colour value of an optional stroke, black when absent.
pub open spec fn stroke_color(stroke: Option<TextStroke>) -> Seq<char> {
    match stroke {
        Some(s) => s.color@,
        None => "#000000"@,
    }
}

/// Colour value of an optional background, black when absent.
pub open spec fn background_color(background: Option<TextBackground>) -> Seq<char> {
    match background {
        Some(b) => b.color@,
        None => "#000000"@,
    }
}

/// The script header: the canvas the positions refer to.
pub open spec fn ass_head_text(canvas_width: u32, canvas_height: u32) -> Seq<char> {
    "[Script Info]\nScriptType: v4.00+\nWrapStyle: 2\nScaledBorderAndShadow: yes\nPlayResX: "@
        + decimal(canvas_width as nat) + "\nPlayResY: "@ + decimal(canvas_height as nat) + "\n"@
}

/// The comment lines of one overlay: its font file, text box, layout
/// region and line height.
pub open spec fn overlay_comment_text(o: ResolvedTextOverlay, font_path: Seq<char>) -> Seq<char> {
    "; FontPath: "@ + font_path
        + "\n; TextBox: "@ + decimal(o.text_box.width as nat) + "x"@ + decimal(o.text_box.height as nat)
        + "\n; LayoutRegion: "@ + decimal(o.layout_region.x as nat) + ","@ + decimal(o.layout_region.y as nat)
        + " "@ + decimal(o.layout_region.width as nat) + "x"@ + decimal(o.layout_region.height as nat)
        + "\n; LineHeightMillis: "@ + decimal(o.line_height_millis as nat) + "\n"@
}

/// The head of the styles section.
pub open spec fn styles_head_text() -> Seq<char> {
    "\n[V4+ Styles]\nFormat: Name, Fontname, Fontsize, PrimaryColour, OutlineColour, BackColour, Bold, Italic, Underline, StrikeOut, ScaleX, ScaleY, Spacing, Angle, BorderStyle, Outline, Shadow, Alignment, MarginL, MarginR, MarginV, Encoding\n"@
}

/// The head of the events section.
pub open spec fn events_head_text() -> Seq<char> {
    "\n[Events]\nFormat: Layer, Start, End, Style, Name, MarginL, MarginR, MarginV, Effect, Text\n"@
}

/// `Style{index}_{segment}`: the style of the `index`-th overlay of a file.
pub open spec fn style_name_text(index: nat, segment_id: Seq<char>) -> Seq<char> {
    "Style"@ + decimal(index) + "_"@ + segment_id
}

/// The style line of the `index`-th overlay of a file.
pub open spec fn overlay_style_text(o: ResolvedTextOverlay, font_family: Seq<char>, index: nat) -> Seq<char> {
    let style = o.style;
    "Style: "@ + style_name_text(index, o.segment_id@) + ","@
        + font_family + ","@ + decimal(o.font_size as nat) + ","@ + ass_color_text(style.color@, "ffffff"@, 0)
        + ","@ + ass_color_text(stroke_color(style.stroke), "000000"@, 0)
        + ","@ + ass_color_text(background_color(style.background), "000000"@, 0x80)
        + ",0,0,0,0,100,100,"@ + decimal(spec_letter_spacing_pixels(o.font_size, o.letter_spacing_millis) as nat)
        + ",0,"@ + decimal((if style.background is Some { 3nat } else { 1nat }))
        + ","@ + decimal(outline_width(style.stroke) as nat) + ","@ + decimal(shadow_size(style.shadow) as nat)
        + ","@ + decimal(spec_ass_alignment(o.alignment) as nat)
        + ","@ + decimal(o.safe_area.left as nat) + ","@ + decimal(o.safe_area.right as nat)
        + ","@ + decimal(o.safe_area.bottom as nat) + ",1\n"@
}

/// The fields of a style line that follow BorderStyle: Outline, Shadow,
/// Alignment, the three margins and Encoding.
pub open spec fn style_fields_after_border(o: ResolvedTextOverlay) -> Seq<char> {
    ","@ + decimal(outline_width(o.style.stroke) as nat) + ","@ + decimal(shadow_size(o.style.shadow) as nat)
        + ","@ + decimal(spec_ass_alignment(o.alignment) as nat)
        + ","@ + decimal(o.safe_area.left as nat) + ","@ + decimal(o.safe_area.right as nat)
        + ","@ + decimal(o.safe_area.bottom as nat) + ",1\n"@
}

/// An overlay's text is drawn on an opaque box (ASS BorderStyle 3)
/// exactly when it has a background; without one it gets outline and
/// shadow (BorderStyle 1). In the style line, BorderStyle follows an
/// Angle of 0 and precedes the remaining fields.
pub proof fn law_border_style_follows_background(o: ResolvedTextOverlay, font_family: Seq<char>, index: nat)
    ensures
        ({
            let line = overlay_style_text(o, font_family, index);
            let rest = style_fields_after_border(o);
            let n = line.len();
            let m = rest.len();
            let border = if o.style.background is Some { '3' } else { '1' };
            &&& n >= m + 4
            &&& line.subrange(n - m, n as int) == rest
            &&& line.subrange(n - m - 4, n - m) == seq![',', '0', ',', border]
        }),
{
    let line = overlay_style_text(o, font_family, index);
    let rest = style_fields_after_border(o);
    let b: nat = if o.style.background is Some { 3nat } else { 1nat };
    assert(decimal(b) == seq![crate::text::digit_char(b)]);
    reveal_strlit(",0,");
    let style = o.style;
    let x = "Style: "@ + style_name_text(index, o.segment_id@) + ","@
        + font_family + ","@ + decimal(o.font_size as nat) + ","@ + ass_color_text(style.color@, "ffffff"@, 0)
        + ","@ + ass_color_text(stroke_color(style.stroke), "000000"@, 0)
        + ","@ + ass_color_text(background_color(style.background), "000000"@, 0x80)
        + ",0,0,0,0,100,100,"@ + decimal(spec_letter_spacing_pixels(o.font_size, o.letter_spacing_millis) as nat)
        + ",0,"@ + decimal(b);
    let c = ","@;
    let d1 = decimal(outline_width(style.stroke) as nat);
    let d2 = decimal(shadow_size(style.shadow) as nat);
    let d3 = decimal(spec_ass_alignment(o.alignment) as nat);
    let d4 = decimal(o.safe_area.left as nat);
    let d5 = decimal(o.safe_area.right as nat);
    let d6 = decimal(o.safe_area.bottom as nat);
    let e = ",1\n"@;
    lemma_concat_assoc(x, c, d1);
    lemma_concat_assoc(x, c + d1, c);
    lemma_concat_assoc(x, c + d1 + c, d2);
    lemma_concat_assoc(x, c + d1 + c + d2, c);
    lemma_concat_assoc(x, c + d1 + c + d2 + c, d3);
    lemma_concat_assoc(x, c + d1 + c + d2 + c + d3, c);
    lemma_concat_assoc(x, c + d1 + c + d2 + c + d3 + c, d4);
    lemma_concat_assoc(x, c + d1 + c + d2 + c + d3 + c + d4, c);
    lemma_concat_assoc(x, c + d1 + c + d2 + c + d3 + c + d4 + c, d5);
    lemma_concat_assoc(x, c + d1 + c + d2 + c + d3 + c + d4 + c + d5, c);
    lemma_concat_assoc(x, c + d1 + c + d2 + c + d3 + c + d4 + c + d5 + c, d6);
    lemma_concat_assoc(x, c + d1 + c + d2 + c + d3 + c + d4 + c + d5 + c + d6, e);
    assert(line == x + rest);
    let n = line.len();
    let m = rest.len();
    assert(line.subrange(n - m, n as int) =~= rest);
    assert(line.subrange(n - m - 4, n - m) =~= ",0,"@ + decimal(b));
}

proof fn lemma_concat_assoc(a: Seq<char>, b: Seq<char>, c: Seq<char>)
    ensures
        a + b + c == a + (b + c),
{
    assert(a + b + c =~= a + (b + c));
}

/// The dialogue line of the `index`-th overlay of a file.
pub open spec fn overlay_dialogue_text(output: TargetTimerange, o: ResolvedTextOverlay, index: nat) -> Seq<char> {
    let (event_start, event_end) = clipped_event(output, o.target_timerange);
    "Dialogue: "@ + decimal(o.stack_index as nat) + ","@ + ass_time_text(event_start as u64) + ","@
        + ass_time_text(event_end as u64) + ","@ + style_name_text(index, o.segment_id@) + ","@ + o.segment_id@
        + ","@ + decimal(o.safe_area.left as nat) + ","@ + decimal(o.safe_area.right as nat)
        + ","@ + decimal(o.safe_area.bottom as nat) + ",,"@ + escaped_ass(o.content@) + "\n"@
}

/// The ASS script of one text overlay, as the only overlay of its file.
pub open spec fn ass_contents_text(
    canvas_width: u32,
    canvas_height: u32,
    output: TargetTimerange,
    ov: RenderTextOverlay,
    font_family: Seq<char>,
    font_path: Seq<char>,
) -> Seq<char> {
    ass_head_text(canvas_width, canvas_height) + overlay_comment_text(ov.overlay, font_path) + styles_head_text()
        + overlay_style_text(ov.overlay, font_family, 0) + events_head_text() + overlay_dialogue_text(output, ov.overlay, 0)
}

fn append_u64(r: &mut String, n: u64)
    ensures
        final(r)@ == old(r)@ + decimal(n as nat),
{
    let d = u64_to_decimal(n);
    append_string(r, &d);
}

fn ass_head(canvas_width: u32, canvas_height: u32) -> (r: String)
    ensures
        r@ == ass_head_text(canvas_width, canvas_height),
{
    let mut r = lit("[Script Info]\nScriptType: v4.00+\nWrapStyle: 2\nScaledBorderAndShadow: yes\nPlayResX: ");
    append_u64(&mut r, canvas_width as u64);
    append_str(&mut r, "\nPlayResY: ");
    append_u64(&mut r, canvas_height as u64);
    append_str(&mut r, "\n");
    r
}

fn overlay_comment(o: &ResolvedTextOverlay, font_path: &String) -> (r: String)
    ensures
        r@ == overlay_comment_text(*o, font_path@),
{
    let mut r = lit("; FontPath: ");
    append_string(&mut r, font_path);
    append_str(&mut r, "\n; TextBox: ");
    append_u64(&mut r, o.text_box.width as u64);
    append_str(&mut r, "x");
    append_u64(&mut r, o.text_box.height as u64);
    append_str(&mut r, "\n; LayoutRegion: ");
    append_u64(&mut r, o.layout_region.x as u64);
    append_str(&mut r, ",");
    append_u64(&mut r, o.layout_region.y as u64);
    append_str(&mut r, " ");
    append_u64(&mut r, o.layout_region.width as u64);
    append_str(&mut r, "x");
    append_u64(&mut r, o.layout_region.height as u64);
    append_str(&mut r, "\n; LineHeightMillis: ");
    append_u64(&mut r, o.line_height_millis as u64);
    append_str(&mut r, "\n");
    r
}

fn style_name(index: u64, segment_id: &String) -> (r: String)
    ensures
        r@ == style_name_text(index as nat, segment_id@),
{
    let mut r = lit("Style");
    append_u64(&mut r, index);
    append_str(&mut r, "_");
    append_string(&mut r, segment_id);
    r
}

fn overlay_style(o: &ResolvedTextOverlay, font_family: &String, index: u64) -> (r: String)
    ensures
        r@ == overlay_style_text(*o, font_family@, index as nat),
{
    let style = &o.style;
    proof {
        reveal_strlit("ffffff");
        reveal_strlit("000000");
    }
    let primary = ass_color(style.color.as_str(), "ffffff", 0x00);
    let outline = match &style.stroke {
        Some(st) => ass_color(st.color.as_str(), "000000", 0x00),
        None => ass_color("#000000", "000000", 0x00),
    };
    let back = match &style.background {
        Some(b) => ass_color(b.color.as_str(), "000000", 0x80),
        None => ass_color("#000000", "000000", 0x80),
    };
    let border_style: u64 = if style.background.is_some() { 3 } else { 1 };
    let outline_w: u32 = match &style.stroke {
        Some(st) => st.width,
        None => 0,
    };
    let shadow: u32 = match &style.shadow {
        Some(sh) => {
            let ax: u32 = if sh.offset_x < 0 { (-(sh.offset_x as i64)) as u32 } else { sh.offset_x as u32 };
            let ay: u32 = if sh.offset_y < 0 { (-(sh.offset_y as i64)) as u32 } else { sh.offset_y as u32 };
            let a = if sh.blur >= ax { sh.blur } else { ax };
            if a >= ay { a } else { ay }
        },
        None => 0,
    };
    let spacing = letter_spacing_pixels(o.font_size, o.letter_spacing_millis);
    let alignment = ass_alignment(o.alignment);
    let name = style_name(index, &o.segment_id);
    let mut r = lit("Style: ");
    append_string(&mut r, &name);
    append_str(&mut r, ",");
    append_string(&mut r, font_family);
    append_str(&mut r, ",");
    append_u64(&mut r, o.font_size as u64);
    append_str(&mut r, ",");
    append_string(&mut r, &primary);
    append_str(&mut r, ",");
    append_string(&mut r, &outline);
    append_str(&mut r, ",");
    append_string(&mut r, &back);
    append_str(&mut r, ",0,0,0,0,100,100,");
    append_u64(&mut r, spacing as u64);
    append_str(&mut r, ",0,");
    append_u64(&mut r, border_style);
    append_str(&mut r, ",");
    append_u64(&mut r, outline_w as u64);
    append_str(&mut r, ",");
    append_u64(&mut r, shadow as u64);
    append_str(&mut r, ",");
    append_u64(&mut r, alignment as u64);
    append_str(&mut r, ",");
    append_u64(&mut r, o.safe_area.left as u64);
    append_str(&mut r, ",");
    append_u64(&mut r, o.safe_area.right as u64);
    append_str(&mut r, ",");
    append_u64(&mut r, o.safe_area.bottom as u64);
    append_str(&mut r, ",1\n");
    r
}

fn overlay_dialogue(output_timerange: &TargetTimerange, o: &ResolvedTextOverlay, index: u64) -> (r: String)
    ensures
        r@ == overlay_dialogue_text(*output_timerange, *o, index as nat),
{
    let (event_start, event_end) = clipped_event_timerange(output_timerange, &o.target_timerange);
    let start_text = ass_time(event_start);
    let end_text = ass_time(event_end);
    let text = escape_ass_text(o.content.as_str());
    let name = style_name(index, &o.segment_id);
    let mut r = lit("Dialogue: ");
    append_u64(&mut r, o.stack_index as u64);
    append_str(&mut r, ",");
    append_string(&mut r, &start_text);
    append_str(&mut r, ",");
    append_string(&mut r, &end_text);
    append_str(&mut r, ",");
    append_string(&mut r, &name);
    append_str(&mut r, ",");
    append_string(&mut r, &o.segment_id);
    append_str(&mut r, ",");
    append_u64(&mut r, o.safe_area.left as u64);
    append_str(&mut r, ",");
    append_u64(&mut r, o.safe_area.right as u64);
    append_str(&mut r, ",");
    append_u64(&mut r, o.safe_area.bottom as u64);
    append_str(&mut r, ",,");
    append_string(&mut r, &text);
    append_str(&mut r, "\n");
    r
}

/// The ASS script of one text overlay, as the only overlay of its file.
pub fn ass_contents(
    canvas_width: u32,
    canvas_height: u32,
    output_timerange: &TargetTimerange,
    overlay: &RenderTextOverlay,
    font: &ResolvedTextFont,
) -> (r: String)
    ensures
        r@ == ass_contents_text(canvas_width, canvas_height, *output_timerange, *overlay, font.family@, font.path@),
{
    let mut r = ass_head(canvas_width, canvas_height);
    let c = overlay_comment(&overlay.overlay, &font.path);
    append_string(&mut r, &c);
    append_str(&mut r, "\n[V4+ Styles]\nFormat: Name, Fontname, Fontsize, PrimaryColour, OutlineColour, BackColour, Bold, Italic, Underline, StrikeOut, ScaleX, ScaleY, Spacing, Angle, BorderStyle, Outline, Shadow, Alignment, MarginL, MarginR, MarginV, Encoding\n");
    let st = overlay_style(&overlay.overlay, &font.family, 0);
    append_string(&mut r, &st);
    append_str(&mut r, "\n[Events]\nFormat: Layer, Start, End, Style, Name, MarginL, MarginR, MarginV, Effect, Text\n");
    let d = overlay_dialogue(output_timerange, &overlay.overlay, 0);
    append_string(&mut r, &d);
    r
}

/// What a render plan holds that text side files need.
#[derive(Debug, Clone)]
pub struct RenderTextPlan {
    pub canvas_width: u32,
    pub canvas_height: u32,
    pub output_timerange: TargetTimerange,
    pub text_overlays: Vec<RenderTextOverlay>,
}

/// Overlay `o` can be written: no unsupported resources and a font.
pub open spec fn overlay_writable(o: RenderTextOverlay, cap: TextRenderCapability, reg: Seq<BundledFontEntry>) -> bool {
    unsupported_resources(o, reg).len() == 0 && font_resolution(o, cap, reg) is Ok
}

/// The error writing overlay `o` gives: its unsupported resources, listed
/// sorted and without repeats, else why no font resolved.
pub open spec fn overlay_error_matches(e: FfmpegCompileError, o: RenderTextOverlay, cap: TextRenderCapability, reg: Seq<BundledFontEntry>) -> bool {
    &&& e.material_id == Some(o.material_id)
    &&& if unsupported_resources(o, reg).len() != 0 {
        &&& e.kind == FfmpegCompileErrorKind::UnsupportedTextResource
        &&& e.remediation@ == "Remove or replace unsupported text bubble, effect, or fontRef resources before compiling ASS sidecars."@
        &&& exists|l: Seq<Seq<char>>| #[trigger] sorted_distinct_of(l, unsupported_resources(o, reg))
            && e.message@ == "text segment "@ + o.overlay.segment_id@ + " contains unsupported text resources: "@ + joined(l, ", "@)
    } else {
        &&& e.kind == FfmpegCompileErrorKind::MissingTextFont
        &&& font_resolution(o, cap, reg) == Err::<(Seq<char>, Seq<char>, Seq<char>), _>((e.message@, e.remediation@))
    }
}

/// The resolved fonts of the overlays (meaningful for writable ones).
pub open spec fn overlay_fonts(ovs: Seq<RenderTextOverlay>, cap: TextRenderCapability, reg: Seq<BundledFontEntry>) -> Seq<(Seq<char>, Seq<char>, Seq<char>)> {
    Seq::new(ovs.len(), |k: int| font_resolution(ovs[k], cap, reg)->Ok_0)
}

/// The directory of each overlay's font file.
pub open spec fn font_dirs(fonts: Seq<(Seq<char>, Seq<char>, Seq<char>)>) -> Seq<Option<Seq<char>>> {
    Seq::new(fonts.len(), |k: int| crate::compiler::filters::path_parent_of(fonts[k].1))
}

/// The distinct font directories of the first `n` overlays, in order of
/// first use.
pub open spec fn group_keys(dirs: Seq<Option<Seq<char>>>, n: int) -> Seq<Option<Seq<char>>>
    decreases n,
{
    if n <= 0 {
        Seq::empty()
    } else {
        let prev = group_keys(dirs, n - 1);
        if prev.contains(dirs[n - 1]) { prev } else { prev.push(dirs[n - 1]) }
    }
}

/// The comment, style and dialogue lines of the overlays among the first
/// `n` whose font lies in directory `key`, numbered in order, and how
/// many there are.
pub open spec fn batch_parts(
    ovs: Seq<RenderTextOverlay>,
    fonts: Seq<(Seq<char>, Seq<char>, Seq<char>)>,
    dirs: Seq<Option<Seq<char>>>,
    key: Option<Seq<char>>,
    output: TargetTimerange,
    n: int,
) -> (Seq<char>, Seq<char>, Seq<char>, nat)
    decreases n,
{
    if n <= 0 {
        (Seq::empty(), Seq::empty(), Seq::empty(), 0)
    } else {
        let p = batch_parts(ovs, fonts, dirs, key, output, n - 1);
        if dirs[n - 1] == key {
            let o = ovs[n - 1].overlay;
            let f = fonts[n - 1];
            (p.0 + overlay_comment_text(o, f.1), p.1 + overlay_style_text(o, f.0, p.3),
                p.2 + overlay_dialogue_text(output, o, p.3), p.3 + 1)
        } else {
            p
        }
    }
}

/// The ASS script of the overlays whose font lies in directory `key`.
pub open spec fn batch_text(plan: RenderTextPlan, fonts: Seq<(Seq<char>, Seq<char>, Seq<char>)>, dirs: Seq<Option<Seq<char>>>, key: Option<Seq<char>>) -> Seq<char> {
    let p = batch_parts(plan.text_overlays@, fonts, dirs, key, plan.output_timerange, plan.text_overlays@.len() as int);
    ass_head_text(plan.canvas_width, plan.canvas_height) + p.0 + styles_head_text() + p.1 + events_head_text() + p.2
}

/// `{job}-text` for the first side file, `{job}-text-{g}` for the others.
pub open spec fn batch_sidecar_id(job_id: Seq<char>, g: nat) -> Seq<char> {
    if g == 0 { job_id + "-text"@ } else { job_id + "-text-"@ + decimal(g) }
}

/// The side file `g`, holding the overlays whose font lies in directory
/// `key`.
pub open spec fn ass_batch_matches(
    sc: FfmpegSidecar,
    plan: RenderTextPlan,
    fonts: Seq<(Seq<char>, Seq<char>, Seq<char>)>,
    dirs: Seq<Option<Seq<char>>>,
    key: Option<Seq<char>>,
    artifact_dir: Seq<char>,
    job_id: Seq<char>,
    g: nat,
) -> bool {
    let id = batch_sidecar_id(job_id, g);
    &&& sc.sidecar_id@ == id
    &&& sc.kind == FfmpegSidecarKind::AssSubtitle
    &&& sc.segment_id is None
    &&& sc.path@ == crate::compiler::job::path_join(artifact_dir, id + ".ass"@)
    &&& sc.contents@ == batch_text(plan, fonts, dirs, key)
}

/// Whether two possible strings are the same.
fn opt_text_eq(a: &Option<String>, b: &Option<String>) -> (r: bool)
    ensures
        r == (opt_text(*a) == opt_text(*b)),
{
    match (a, b) {
        (Some(x), Some(y)) => str_eq(x.as_str(), y.as_str()),
        (None, None) => true,
        _ => false,
    }
}

/// Whether `key` is among `keys`.
fn contains_key(keys: &Vec<Option<String>>, key: &Option<String>) -> (r: bool)
    ensures
        r == keys@.map_values(|k: Option<String>| opt_text(k)).contains(opt_text(*key)),
{
    let ghost kv = keys@.map_values(|k: Option<String>| opt_text(k));
    let mut i: usize = 0;
    while i < keys.len()
        invariant
            kv == keys@.map_values(|k: Option<String>| opt_text(k)),
            i <= keys@.len(),
            forall|q: int| 0 <= q < i ==> kv[q] != opt_text(*key),
        decreases keys@.len() - i,
    {
        if opt_text_eq(&keys[i], key) {
            proof {
                assert(kv[i as int] == opt_text(*key));
            }
            return true;
        }
        i = i + 1;
    }
    false
}

/// The side files written for a plan's text: each overlay writable, and
/// one batch per font directory in order of first use.
pub open spec fn ass_sidecars_ok(
    v: Seq<FfmpegSidecar>,
    plan: RenderTextPlan,
    cap: TextRenderCapability,
    artifact_dir: Seq<char>,
    job_id: Seq<char>,
    registry: Seq<BundledFontEntry>,
) -> bool {
    let ovs = plan.text_overlays@;
    let fonts = overlay_fonts(ovs, cap, registry);
    let dirs = font_dirs(fonts);
    let keys = group_keys(dirs, ovs.len() as int);
    &&& (ovs.len() > 0 ==> cap.supports_ass_filter && cap.supports_subtitles_filter)
    &&& forall|k: int| 0 <= k < ovs.len() ==> overlay_writable(#[trigger] ovs[k], cap, registry)
    &&& v.len() == keys.len()
    &&& forall|g: int| 0 <= g < v.len() ==> ass_batch_matches(#[trigger] v[g], plan, fonts, dirs, keys[g],
        artifact_dir, job_id, g as nat)
}

/// Why a plan's text cannot be written: no ASS/subtitles filter, else the
/// first overlay that cannot be written.
pub open spec fn ass_sidecars_error(e: FfmpegCompileError, plan: RenderTextPlan, cap: TextRenderCapability, registry: Seq<BundledFontEntry>) -> bool {
    &&& plan.text_overlays@.len() > 0
    &&& {
        ||| !(cap.supports_ass_filter && cap.supports_subtitles_filter)
            && e.kind == FfmpegCompileErrorKind::MissingTextFilterSupport
            && e.message@ == "FFmpeg text rendering requires ASS/subtitles filter support"@
            && e.remediation@ == "Use an FFmpeg build with ASS and subtitles filter support enabled."@
        ||| cap.supports_ass_filter && cap.supports_subtitles_filter
            && exists|k: int| 0 <= k < plan.text_overlays@.len()
                && (forall|q: int| 0 <= q < k ==> overlay_writable(#[trigger] plan.text_overlays@[q], cap, registry))
                && !overlay_writable(plan.text_overlays@[k], cap, registry)
                && overlay_error_matches(e, plan.text_overlays@[k], cap, registry)
    }
}

/// ASS side files for the text overlays, one per font directory, in
/// order of first use; each holds a style and a dialogue per overlay, in
/// overlay order. Text needs both the ASS and the subtitles filter; each
/// overlay must use only supported resources and resolve a font, and the
/// first that does not gives the error.
pub fn generate_ass_sidecars(
    plan: &RenderTextPlan,
    context: &CompileContext,
    job_id: &str,
    registry: &Vec<BundledFontEntry>,
) -> (r: Result<Vec<FfmpegSidecar>, FfmpegCompileError>)
    ensures
        match r {
            Ok(v) => ass_sidecars_ok(v@, *plan, context.capabilities.text, context.artifact_dir@, job_id@, registry@),
            Err(e) => ass_sidecars_error(e, *plan, context.capabilities.text, registry@),
        },
{
    let mut sidecars: Vec<FfmpegSidecar> = Vec::new();
    let ghost ovs = plan.text_overlays@;
    let ghost cap0 = context.capabilities.text;
    let ghost fonts = overlay_fonts(ovs, cap0, registry@);
    let ghost dirs = font_dirs(fonts);
    if plan.text_overlays.len() == 0 {
        proof {
            assert(group_keys(dirs, 0) =~= Seq::<Option<Seq<char>>>::empty());
        }
        return Ok(sidecars);
    }
    let cap = &context.capabilities.text;
    if !cap.supports_ass_filter || !cap.supports_subtitles_filter {
        return Err(FfmpegCompileError::new(
            FfmpegCompileErrorKind::MissingTextFilterSupport,
            lit("FFmpeg text rendering requires ASS/subtitles filter support"),
            lit("Use an FFmpeg build with ASS and subtitles filter support enabled."),
        ));
    }
    // Every overlay must be writable; keep its font and font directory.
    let mut resolved: Vec<ResolvedTextFont> = Vec::new();
    let mut font_dir_of: Vec<Option<String>> = Vec::new();
    let mut i: usize = 0;
    while i < plan.text_overlays.len()
        invariant
            ovs == plan.text_overlays@,
            *cap == cap0,
            cap0 == context.capabilities.text,
            fonts == overlay_fonts(ovs, cap0, registry@),
            dirs == font_dirs(fonts),
            cap.supports_ass_filter && cap.supports_subtitles_filter,
            i <= ovs.len(),
            resolved@.len() == i,
            font_dir_of@.len() == i,
            forall|q: int| 0 <= q < i ==> overlay_writable(#[trigger] ovs[q], *cap, registry@),
            forall|q: int| 0 <= q < i ==> (#[trigger] resolved@[q]).family@ == fonts[q].0 && resolved@[q].path@ == fonts[q].1,
            forall|q: int| 0 <= q < i ==> opt_text(#[trigger] font_dir_of@[q]) == dirs[q],
        decreases ovs.len() - i,
    {
        let overlay = &plan.text_overlays[i];
        match reject_unsupported_text_resources(overlay, registry) {
            Ok(()) => {},
            Err(e) => {
                proof {
                    assert(!overlay_writable(ovs[i as int], *cap, registry@));
                    assert(overlay_error_matches(e, ovs[i as int], *cap, registry@));
                }
                return Err(e);
            },
        }
        let font = match resolve_text_font(overlay, cap, registry) {
            Ok(f) => f,
            Err(e) => {
                proof {
                    assert(!overlay_writable(ovs[i as int], *cap, registry@));
                    assert(overlay_error_matches(e, ovs[i as int], *cap, registry@));
                }
                return Err(e);
            },
        };
        let dir = crate::compiler::filters::path_parent(font.path.as_str());
        proof {
            assert(fonts[i as int] == font_resolution(ovs[i as int], cap0, registry@)->Ok_0);
        }
        resolved.push(font);
        font_dir_of.push(dir);
        i = i + 1;
    }
    let n = plan.text_overlays.len();
    // The distinct font directories, in order of first use.
    let mut keys: Vec<Option<String>> = Vec::new();
    let mut k: usize = 0;
    while k < n
        invariant
            n == ovs.len(),
            font_dir_of@.len() == n,
            forall|q: int| 0 <= q < n ==> opt_text(#[trigger] font_dir_of@[q]) == dirs[q],
            dirs.len() == n,
            k <= n,
            keys@.map_values(|x: Option<String>| opt_text(x)) == group_keys(dirs, k as int),
        decreases n - k,
    {
        let ghost before = keys@.map_values(|x: Option<String>| opt_text(x));
        if !contains_key(&keys, &font_dir_of[k]) {
            let d = match &font_dir_of[k] {
                Some(s) => Some(s.clone()),
                None => None,
            };
            keys.push(d);
            proof {
                assert(keys@.map_values(|x: Option<String>| opt_text(x)) =~= before.push(dirs[k as int]));
            }
        }
        k = k + 1;
    }
    let ghost kv = group_keys(dirs, n as int);
    // One side file per directory.
    let mut g: usize = 0;
    while g < keys.len()
        invariant
            ovs == plan.text_overlays@,
            n == ovs.len(),
            fonts.len() == n,
            dirs.len() == n,
            resolved@.len() == n,
            font_dir_of@.len() == n,
            forall|q: int| 0 <= q < n ==> (#[trigger] resolved@[q]).family@ == fonts[q].0 && resolved@[q].path@ == fonts[q].1,
            forall|q: int| 0 <= q < n ==> opt_text(#[trigger] font_dir_of@[q]) == dirs[q],
            keys@.map_values(|x: Option<String>| opt_text(x)) == kv,
            g <= keys@.len(),
            sidecars@.len() == g,
            forall|q: int| 0 <= q < g ==> ass_batch_matches(#[trigger] sidecars@[q], *plan, fonts, dirs, kv[q],
                context.artifact_dir@, job_id@, q as nat),
        decreases keys@.len() - g,
    {
        let key = &keys[g];
        let ghost kq = kv[g as int];
        proof {
            assert(opt_text(*key) == kq);
        }
        let mut comments = String::new();
        let mut styles = String::new();
        let mut dialogues = String::new();
        let mut count: u64 = 0;
        let mut m: usize = 0;
        while m < n
            invariant
                ovs == plan.text_overlays@,
                n == ovs.len(),
                fonts.len() == n,
                dirs.len() == n,
                resolved@.len() == n,
                font_dir_of@.len() == n,
                forall|q: int| 0 <= q < n ==> (#[trigger] resolved@[q]).family@ == fonts[q].0 && resolved@[q].path@ == fonts[q].1,
                forall|q: int| 0 <= q < n ==> opt_text(#[trigger] font_dir_of@[q]) == dirs[q],
                opt_text(*key) == kq,
                m <= n,
                count <= m,
                (comments@, styles@, dialogues@, count as nat) == batch_parts(ovs, fonts, dirs, kq, plan.output_timerange, m as int),
            decreases n - m,
        {
            if opt_text_eq(&font_dir_of[m], key) {
                let o = &plan.text_overlays[m].overlay;
                let c = overlay_comment(o, &resolved[m].path);
                append_string(&mut comments, &c);
                let st = overlay_style(o, &resolved[m].family, count);
                append_string(&mut styles, &st);
                let d = overlay_dialogue(&plan.output_timerange, o, count);
                append_string(&mut dialogues, &d);
                count = count + 1;
            }
            m = m + 1;
        }
        let mut contents = ass_head(plan.canvas_width, plan.canvas_height);
        append_string(&mut contents, &comments);
        append_str(&mut contents, "\n[V4+ Styles]\nFormat: Name, Fontname, Fontsize, PrimaryColour, OutlineColour, BackColour, Bold, Italic, Underline, StrikeOut, ScaleX, ScaleY, Spacing, Angle, BorderStyle, Outline, Shadow, Alignment, MarginL, MarginR, MarginV, Encoding\n");
        append_string(&mut contents, &styles);
        append_str(&mut contents, "\n[Events]\nFormat: Layer, Start, End, Style, Name, MarginL, MarginR, MarginV, Effect, Text\n");
        append_string(&mut contents, &dialogues);
        let mut sidecar_id = lit(job_id);
        if g == 0 {
            append_str(&mut sidecar_id, "-text");
        } else {
            append_str(&mut sidecar_id, "-text-");
            append_u64(&mut sidecar_id, g as u64);
        }
        let mut file_name = sidecar_id.clone();
        append_str(&mut file_name, ".ass");
        let path = context.artifact_path(file_name.as_str());
        let ghost old_sidecars = sidecars@;
        sidecars.push(FfmpegSidecar {
            sidecar_id,
            kind: FfmpegSidecarKind::AssSubtitle,
            segment_id: None,
            path,
            contents,
        });
        proof {
            assert forall|q: int| 0 <= q < g + 1 implies ass_batch_matches(#[trigger] sidecars@[q], *plan, fonts, dirs, kv[q],
                context.artifact_dir@, job_id@, q as nat) by {
                if q < g {
                    assert(sidecars@[q] == old_sidecars[q]);
                }
            }
        }
        g = g + 1;
    }
    Ok(sidecars)
}

} // verus!
