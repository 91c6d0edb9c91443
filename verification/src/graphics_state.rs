//! The graphics state of a content stream, and colour and font-name helpers.

use crate::fixed::Fixed;
use crate::models::TransformMatrix;
use crate::text::{
    contains_chars, find_char, first_index, from_chars, has_substring, hex_pair, lowercase, occurs,
    push_char, push_hex_pair, to_chars, to_lowercase,
};
use vstd::prelude::*;

verus! {

broadcast use vstd::string::group_string_axioms;

/// The state that drawing operators read and change: one per stack level.
#[derive(Debug)]
pub struct GraphicsState {
    pub ctm: TransformMatrix,
    pub fill_color: [Fixed; 4],
    pub stroke_color: [Fixed; 4],
    pub line_width: Fixed,
    pub font_name: Option<String>,
    pub font_size: Fixed,
    pub text_matrix: TransformMatrix,
    pub line_matrix: TransformMatrix,
    pub char_spacing: Fixed,
    pub word_spacing: Fixed,
    pub text_rise: Fixed,
    pub leading: Fixed,
}

/// The mathematical content of a [`GraphicsState`].
pub struct StateModel {
    pub ctm: TransformMatrix,
    pub fill_color: Seq<Fixed>,
    pub stroke_color: Seq<Fixed>,
    pub line_width: Fixed,
    pub font_name: Option<Seq<char>>,
    pub font_size: Fixed,
    pub text_matrix: TransformMatrix,
    pub line_matrix: TransformMatrix,
    pub char_spacing: Fixed,
    pub word_spacing: Fixed,
    pub text_rise: Fixed,
    pub leading: Fixed,
}

/// The colour with the given channels.
pub open spec fn rgba(r: Fixed, g: Fixed, b: Fixed, a: Fixed) -> Seq<Fixed> {
    seq![r, g, b, a]
}

/// Opaque black.
pub open spec fn black() -> Seq<Fixed> {
    rgba(Fixed::spec_zero(), Fixed::spec_zero(), Fixed::spec_zero(), Fixed::spec_one())
}

/// The state in which every content stream starts.
pub open spec fn initial_state() -> StateModel {
    StateModel {
        ctm: TransformMatrix::spec_identity(),
        fill_color: black(),
        stroke_color: black(),
        line_width: Fixed::spec_one(),
        font_name: None,
        font_size: Fixed::spec_from_int(12),
        text_matrix: TransformMatrix::spec_identity(),
        line_matrix: TransformMatrix::spec_identity(),
        char_spacing: Fixed::spec_zero(),
        word_spacing: Fixed::spec_zero(),
        text_rise: Fixed::spec_zero(),
        leading: Fixed::spec_zero(),
    }
}

impl View for GraphicsState {
    type V = StateModel;

    open spec fn view(&self) -> StateModel {
        StateModel {
            ctm: self.ctm,
            fill_color: self.fill_color@,
            stroke_color: self.stroke_color@,
            line_width: self.line_width,
            font_name: match self.font_name {
                Some(name) => Some(name@),
                None => None,
            },
            font_size: self.font_size,
            text_matrix: self.text_matrix,
            line_matrix: self.line_matrix,
            char_spacing: self.char_spacing,
            word_spacing: self.word_spacing,
            text_rise: self.text_rise,
            leading: self.leading,
        }
    }
}

impl Clone for GraphicsState {
    fn clone(&self) -> (r: Self)
        ensures
            r@ == self@,
    {
        GraphicsState {
            ctm: self.ctm,
            fill_color: self.fill_color,
            stroke_color: self.stroke_color,
            line_width: self.line_width,
            font_name: match &self.font_name {
                Some(name) => Some(name.clone()),
                None => None,
            },
            font_size: self.font_size,
            text_matrix: self.text_matrix,
            line_matrix: self.line_matrix,
            char_spacing: self.char_spacing,
            word_spacing: self.word_spacing,
            text_rise: self.text_rise,
            leading: self.leading,
        }
    }
}

impl Default for GraphicsState {
    fn default() -> (r: Self)
        ensures
            r@ == initial_state(),
    {
        let r = GraphicsState {
            ctm: TransformMatrix::identity(),
            fill_color: [Fixed::zero(), Fixed::zero(), Fixed::zero(), Fixed::one()],
            stroke_color: [Fixed::zero(), Fixed::zero(), Fixed::zero(), Fixed::one()],
            line_width: Fixed::one(),
            font_name: None,
            font_size: Fixed::from_int(12),
            text_matrix: TransformMatrix::identity(),
            line_matrix: TransformMatrix::identity(),
            char_spacing: Fixed::zero(),
            word_spacing: Fixed::zero(),
            text_rise: Fixed::zero(),
            leading: Fixed::zero(),
        };
        assert(r.fill_color@ =~= black());
        assert(r.stroke_color@ =~= black());
        r
    }
}

/// The RGB channels of a CMYK colour: `(1 - c)(1 - k)`, `(1 - m)(1 - k)`,
/// `(1 - y)(1 - k)`.
pub open spec fn spec_cmyk_to_rgb(c: Fixed, m: Fixed, y: Fixed, k: Fixed) -> (Fixed, Fixed, Fixed) {
    let one = Fixed::spec_one();
    (
        one.spec_minus(c).spec_times(one.spec_minus(k)),
        one.spec_minus(m).spec_times(one.spec_minus(k)),
        one.spec_minus(y).spec_times(one.spec_minus(k)),
    )
}

/// Converts a CMYK colour to RGB.
pub fn cmyk_to_rgb(c: Fixed, m: Fixed, y: Fixed, k: Fixed) -> (rgb: (Fixed, Fixed, Fixed))
    ensures
        rgb == spec_cmyk_to_rgb(c, m, y, k),
{
    let one = Fixed::one();
    let rest = one.minus(k);
    (one.minus(c).times(rest), one.minus(m).times(rest), one.minus(y).times(rest))
}

/// The 8-bit level of a colour channel: the channel times 255, truncated, and
/// held within 0 and 255.
pub open spec fn channel_level(c: Fixed) -> u8 {
    let t = c.spec_times(Fixed::spec_from_int(255)).spec_trunc();
    if t < 0 {
        0u8
    } else if t > 255 {
        255u8
    } else {
        t as u8
    }
}

/// The `#rrggbb` form of a colour; the alpha channel is left out.
pub open spec fn hex_of(color: Seq<Fixed>) -> Seq<char> {
    seq!['#'] + hex_pair(channel_level(color[0])) + hex_pair(channel_level(color[1])) + hex_pair(
        channel_level(color[2]),
    )
}

fn level_of(c: Fixed) -> (b: u8)
    ensures
        b == channel_level(c),
{
    let t: i64 = c.times(Fixed::from_int(255)).trunc();
    if t < 0 {
        0
    } else if t > 255 {
        255
    } else {
        t as u8
    }
}

/// Renders a colour as `#rrggbb`.
pub fn rgba_to_hex(color: &[Fixed; 4]) -> (s: String)
    ensures
        s@ == hex_of(color@),
{
    let mut s = String::new();
    push_char(&mut s, '#');
    push_hex_pair(&mut s, level_of(color[0]));
    push_hex_pair(&mut s, level_of(color[1]));
    push_hex_pair(&mut s, level_of(color[2]));
    assert(s@ =~= hex_of(color@));
    s
}

/// The web font family that stands for a PDF font name: one of four common
/// families where the lower-case name mentions it, else the name without its
/// subset prefix (all that comes before the first `+`).
pub open spec fn web_family(name: Seq<char>) -> Seq<char> {
    let lower = lowercase(name);
    if has_substring(lower, "arial"@) || has_substring(lower, "helvetica"@) {
        "Arial"@
    } else if has_substring(lower, "times"@) {
        "Times New Roman"@
    } else if has_substring(lower, "courier"@) {
        "Courier New"@
    } else if has_substring(lower, "georgia"@) {
        "Georgia"@
    } else if occurs(name, '+') {
        name.subrange(first_index(name, '+') + 1, name.len() as int)
    } else {
        name
    }
}

/// Maps a PDF font name to a web font family.
pub fn normalize_font_name(pdf_name: &str) -> (family: String)
    ensures
        family@ == web_family(pdf_name@),
{
    let lower = to_chars(to_lowercase(pdf_name).as_str());
    if contains_chars(&lower, &to_chars("arial")) || contains_chars(&lower, &to_chars("helvetica")) {
        "Arial".to_string()
    } else if contains_chars(&lower, &to_chars("times")) {
        "Times New Roman".to_string()
    } else if contains_chars(&lower, &to_chars("courier")) {
        "Courier New".to_string()
    } else if contains_chars(&lower, &to_chars("georgia")) {
        "Georgia".to_string()
    } else {
        let chars = to_chars(pdf_name);
        match find_char(&chars, '+') {
            Some(pos) => {
                assert(pos < chars.len());
                from_chars(&chars, pos + 1, chars.len())
            },
            None => pdf_name.to_string(),
        }
    }
}

} // verus!
