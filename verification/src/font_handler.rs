//! Fonts as a PDF describes them: metrics, style hints and web fallbacks.

use crate::fixed::Fixed;
use crate::models::count_to_fixed;
use crate::text::{
    chars_from, contains_chars, find_char, first_index, has_substring, lowercase, occurs,
    to_chars, to_lowercase,
};
use vstd::prelude::*;
use vstd::string::StrSliceExecFns;

verus! {

broadcast use vstd::string::group_string_axioms;

/// The measures of a font from its descriptor, in thousandths of an em.
#[derive(Debug, Clone, Copy, PartialEq, Eq)]
pub struct FontMetrics {
    pub ascent: Fixed,
    pub descent: Fixed,
    pub cap_height: Fixed,
    pub x_height: Option<Fixed>,
    pub bbox: [Fixed; 4],
    pub italic_angle: Fixed,
    pub stem_v: Fixed,
    pub avg_width: Fixed,
}

/// The box of a font where its descriptor gives none.
pub open spec fn default_bbox() -> Seq<Fixed> {
    seq![
        Fixed::spec_from_int(-100),
        Fixed::spec_from_int(-300),
        Fixed::spec_from_int(1100),
        Fixed::spec_from_int(900),
    ]
}

/// Whether `m` holds the measures of a font whose descriptor is not there.
pub open spec fn is_usual(m: FontMetrics) -> bool {
    &&& m.ascent == Fixed::spec_from_int(800)
    &&& m.descent == Fixed::spec_from_int(-200)
    &&& m.cap_height == Fixed::spec_from_int(700)
    &&& m.x_height == Some(Fixed::spec_from_int(500))
    &&& m.bbox@ == default_bbox()
    &&& m.italic_angle == Fixed::spec_zero()
    &&& m.stem_v == Fixed::spec_from_int(80)
    &&& m.avg_width == Fixed::spec_from_int(500)
}

impl Default for FontMetrics {
    fn default() -> (m: Self)
        ensures
            is_usual(m),
    {
        let m = FontMetrics {
            ascent: Fixed::from_int(800),
            descent: Fixed::from_int(-200),
            cap_height: Fixed::from_int(700),
            x_height: Some(Fixed::from_int(500)),
            bbox: [
                Fixed::from_int(-100),
                Fixed::from_int(-300),
                Fixed::from_int(1100),
                Fixed::from_int(900),
            ],
            italic_angle: Fixed::zero(),
            stem_v: Fixed::from_int(80),
            avg_width: Fixed::from_int(500),
        };
        assert(m.bbox@ =~= default_bbox());
        m
    }
}

/// A font of a PDF page.
#[derive(Debug, Clone)]
pub struct ExtractedFont {
    pub name: String,
    pub base_font: String,
    pub font_type: String,
    pub encoding: Option<String>,
    pub metrics: FontMetrics,
    pub is_embedded: bool,
    pub is_bold: bool,
    pub is_italic: bool,
}

/// Whether the lower-case form of a font name speaks of a bold face.
pub open spec fn says_bold(base_font: Seq<char>) -> bool {
    let lower = lowercase(base_font);
    has_substring(lower, "bold"@) || has_substring(lower, "black"@)
}

/// Whether the lower-case form of a font name speaks of a slanted face.
pub open spec fn says_slanted(base_font: Seq<char>) -> bool {
    let lower = lowercase(base_font);
    has_substring(lower, "italic"@) || has_substring(lower, "oblique"@)
}

/// Puts the parts of a font description together; subtype and base font
/// default to `Type1` and the resource name, and the style is read from the
/// base font name.
pub fn describe_font(
    name: &str,
    subtype: Option<String>,
    base_font: Option<String>,
    encoding: Option<String>,
    metrics: Option<FontMetrics>,
    is_embedded: bool,
) -> (font: ExtractedFont)
    ensures
        font.name@ == name@,
        font.font_type@ == match subtype {
            Some(t) => t@,
            None => "Type1"@,
        },
        font.base_font@ == match base_font {
            Some(b) => b@,
            None => name@,
        },
        font.encoding == encoding,
        match metrics {
            Some(m) => font.metrics == m,
            None => is_usual(font.metrics),
        },
        font.is_embedded == is_embedded,
        font.is_bold == says_bold(font.base_font@),
        font.is_italic == says_slanted(font.base_font@),
{
    let font_type = match subtype {
        Some(t) => t,
        None => "Type1".to_string(),
    };
    let base_font = match base_font {
        Some(b) => b,
        None => name.to_string(),
    };
    let metrics = match metrics {
        Some(m) => m,
        None => FontMetrics::default(),
    };
    let lower = to_chars(to_lowercase(base_font.as_str()).as_str());
    let is_bold = contains_chars(&lower, &to_chars("bold")) || contains_chars(
        &lower,
        &to_chars("black"),
    );
    let is_italic = contains_chars(&lower, &to_chars("italic")) || contains_chars(
        &lower,
        &to_chars("oblique"),
    );
    ExtractedFont {
        name: name.to_string(),
        base_font,
        font_type,
        encoding,
        metrics,
        is_embedded,
        is_bold,
        is_italic,
    }
}

/// The numbers that the descriptor of a font holds, each where it is there
/// and a number; of the font box, its entries in order, with `None` for an
/// entry that is no number.
#[derive(Debug, Clone)]
pub struct DescriptorNumbers {
    pub ascent: Option<Fixed>,
    pub descent: Option<Fixed>,
    pub cap_height: Option<Fixed>,
    pub x_height: Option<Fixed>,
    pub bbox: Option<Vec<Option<Fixed>>>,
    pub italic_angle: Option<Fixed>,
    pub stem_v: Option<Fixed>,
    pub avg_width: Option<Fixed>,
}

/// A number, or zero where there is none.
pub open spec fn number_or_zero(v: Option<Fixed>) -> Fixed {
    match v {
        Some(x) => x,
        None => Fixed::spec_zero(),
    }
}

/// The font box that a descriptor gives: the first four entries of its
/// array, zero for an entry that is missing or no number; the default box
/// where it has no array.
pub open spec fn bbox_of(entries: Option<Vec<Option<Fixed>>>) -> Seq<Fixed> {
    match entries {
        Some(list) => Seq::new(
            4,
            |i: int|
                if i < list@.len() {
                    number_or_zero(list@[i])
                } else {
                    Fixed::spec_zero()
                },
        ),
        None => default_bbox(),
    }
}

fn or_zero(v: Option<Fixed>) -> (r: Fixed)
    ensures
        r == number_or_zero(v),
{
    match v {
        Some(x) => x,
        None => Fixed::zero(),
    }
}

fn entry_or_zero(list: &Vec<Option<Fixed>>, i: usize) -> (r: Fixed)
    ensures
        r == if i < list@.len() {
            number_or_zero(list@[i as int])
        } else {
            Fixed::spec_zero()
        },
{
    if i < list.len() {
        or_zero(list[i])
    } else {
        Fixed::zero()
    }
}

/// Reads the measures of a font from the numbers of its descriptor: a
/// measure that is missing is zero, but the x-height, which is then absent.
pub fn extract_metrics(desc: &DescriptorNumbers) -> (m: FontMetrics)
    ensures
        m.ascent == number_or_zero(desc.ascent),
        m.descent == number_or_zero(desc.descent),
        m.cap_height == number_or_zero(desc.cap_height),
        m.x_height == desc.x_height,
        m.bbox@ == bbox_of(desc.bbox),
        m.italic_angle == number_or_zero(desc.italic_angle),
        m.stem_v == number_or_zero(desc.stem_v),
        m.avg_width == number_or_zero(desc.avg_width),
{
    let bbox = match &desc.bbox {
        Some(list) => [
            entry_or_zero(list, 0),
            entry_or_zero(list, 1),
            entry_or_zero(list, 2),
            entry_or_zero(list, 3),
        ],
        None => [
            Fixed::from_int(-100),
            Fixed::from_int(-300),
            Fixed::from_int(1100),
            Fixed::from_int(900),
        ],
    };
    assert(bbox@ =~= bbox_of(desc.bbox));
    FontMetrics {
        ascent: or_zero(desc.ascent),
        descent: or_zero(desc.descent),
        cap_height: or_zero(desc.cap_height),
        x_height: desc.x_height,
        bbox,
        italic_angle: or_zero(desc.italic_angle),
        stem_v: or_zero(desc.stem_v),
        avg_width: or_zero(desc.avg_width),
    }
}

/// The width of an average glyph in ems: the average width of the metrics
/// in thousandths, or a half where the metrics give none.
pub open spec fn glyph_width(metrics: FontMetrics) -> Fixed {
    if metrics.avg_width.micros > 0 {
        metrics.avg_width.spec_over(Fixed::spec_from_int(1000))
    } else {
        Fixed { micros: 500_000 }
    }
}

/// The width of a text in a font: character count × glyph width × font
/// size.
pub open spec fn metric_text_width(text: Seq<char>, metrics: FontMetrics, font_size: Fixed) -> Fixed {
    Fixed::spec_from_int(text.len() as int).spec_times(glyph_width(metrics)).spec_times(font_size)
}

/// Computes the width of a text from the metrics of its font.
pub fn calculate_text_width(text: &str, font: &ExtractedFont, font_size: Fixed) -> (w: Fixed)
    ensures
        w == metric_text_width(text@, font.metrics, font_size),
{
    let avg_char_width = if Fixed::zero().lt(font.metrics.avg_width) {
        font.metrics.avg_width.over(Fixed::from_int(1000))
    } else {
        Fixed::from_micros(500_000)
    };
    count_to_fixed(text.unicode_len()).times(avg_char_width).times(font_size)
}

/// The height of a line of text in a font: ascent plus the magnitude of the
/// descent, in ems, times the font size.
pub open spec fn metric_text_height(metrics: FontMetrics, font_size: Fixed) -> Fixed {
    metrics.ascent.spec_over(Fixed::spec_from_int(1000)).spec_plus(
        metrics.descent.spec_abs().spec_over(Fixed::spec_from_int(1000)),
    ).spec_times(font_size)
}

/// Computes the height of a line of text from the metrics of its font.
pub fn calculate_text_height(font: &ExtractedFont, font_size: Fixed) -> (h: Fixed)
    ensures
        h == metric_text_height(font.metrics, font_size),
{
    let ascent = font.metrics.ascent.over(Fixed::from_int(1000));
    let descent = font.metrics.descent.abs().over(Fixed::from_int(1000));
    ascent.plus(descent).times(font_size)
}

/// The stylesheet weight of a font: 700 for a bold one, else 400.
pub fn get_font_weight(font: &ExtractedFont) -> (w: u16)
    ensures
        w == if font.is_bold {
            700u16
        } else {
            400u16
        },
{
    if font.is_bold {
        700
    } else {
        400
    }
}

/// The stylesheet style of a font.
pub fn get_font_style(font: &ExtractedFont) -> (s: &'static str)
    ensures
        s@ == if font.is_italic {
            "italic"@
        } else {
            "normal"@
        },
{
    if font.is_italic {
        "italic"
    } else {
        "normal"
    }
}

/// The lower-case font name without its subset prefix: what follows the
/// first `+`.
pub open spec fn bare_name(base_font: Seq<char>) -> Seq<char> {
    let lower = lowercase(base_font);
    if occurs(lower, '+') {
        lower.skip(first_index(lower, '+') + 1)
    } else {
        lower
    }
}

/// The web-safe font stack for a PDF font name, by the family that its bare
/// name mentions; the families are tried in this order.
pub open spec fn web_stack(base_font: Seq<char>) -> Seq<char> {
    let name = bare_name(base_font);
    if has_substring(name, "arial"@) || has_substring(name, "helvetica"@) {
        "Arial, Helvetica, sans-serif"@
    } else if has_substring(name, "times"@) {
        "Times New Roman, Times, serif"@
    } else if has_substring(name, "courier"@) {
        "Courier New, Courier, monospace"@
    } else if has_substring(name, "georgia"@) {
        "Georgia, serif"@
    } else if has_substring(name, "verdana"@) {
        "Verdana, sans-serif"@
    } else if has_substring(name, "tahoma"@) {
        "Tahoma, sans-serif"@
    } else if has_substring(name, "trebuchet"@) {
        "Trebuchet MS, sans-serif"@
    } else if has_substring(name, "palatino"@) {
        "Palatino Linotype, Palatino, serif"@
    } else if has_substring(name, "garamond"@) {
        "Garamond, serif"@
    } else if has_substring(name, "comic"@) {
        "Comic Sans MS, cursive"@
    } else if has_substring(name, "impact"@) {
        "Impact, sans-serif"@
    } else {
        "Arial, sans-serif"@
    }
}

/// Maps a PDF font name to a web-safe font stack.
pub fn map_to_web_font(base_font: &str) -> (stack: String)
    ensures
        stack@ == web_stack(base_font@),
{
    let lower = to_chars(to_lowercase(base_font).as_str());
    let name = match find_char(&lower, '+') {
        Some(pos) => {
            assert(pos < lower.len());
            chars_from(&lower, pos + 1)
        },
        None => lower,
    };
    if contains_chars(&name, &to_chars("arial")) || contains_chars(&name, &to_chars("helvetica")) {
        "Arial, Helvetica, sans-serif".to_string()
    } else if contains_chars(&name, &to_chars("times")) {
        "Times New Roman, Times, serif".to_string()
    } else if contains_chars(&name, &to_chars("courier")) {
        "Courier New, Courier, monospace".to_string()
    } else if contains_chars(&name, &to_chars("georgia")) {
        "Georgia, serif".to_string()
    } else if contains_chars(&name, &to_chars("verdana")) {
        "Verdana, sans-serif".to_string()
    } else if contains_chars(&name, &to_chars("tahoma")) {
        "Tahoma, sans-serif".to_string()
    } else if contains_chars(&name, &to_chars("trebuchet")) {
        "Trebuchet MS, sans-serif".to_string()
    } else if contains_chars(&name, &to_chars("palatino")) {
        "Palatino Linotype, Palatino, serif".to_string()
    } else if contains_chars(&name, &to_chars("garamond")) {
        "Garamond, serif".to_string()
    } else if contains_chars(&name, &to_chars("comic")) {
        "Comic Sans MS, cursive".to_string()
    } else if contains_chars(&name, &to_chars("impact")) {
        "Impact, sans-serif".to_string()
    } else {
        "Arial, sans-serif".to_string()
    }
}

} // verus!
