//! Shown text: position, size and estimated extent of a text run.

use crate::fixed::Fixed;
use crate::graphics_state::{GraphicsState, StateModel};
use crate::models::TransformMatrix;
use crate::text::{contains_chars, has_substring, lowercase, to_chars, to_lowercase};
use vstd::prelude::*;
use vstd::string::StrSliceExecFns;

verus! {

broadcast use vstd::string::group_string_axioms;

/// A run of text with its box on the page: origin top-left, y growing
/// downwards.
#[derive(Debug)]
pub struct ExtractedText {
    pub text: String,
    pub x: Fixed,
    pub y: Fixed,
    pub width: Fixed,
    pub height: Fixed,
    pub font_name: String,
    pub font_size: Fixed,
    pub color: [Fixed; 4],
    pub transform: TransformMatrix,
}

/// The mathematical content of an [`ExtractedText`].
pub struct TextModel {
    pub text: Seq<char>,
    pub x: Fixed,
    pub y: Fixed,
    pub width: Fixed,
    pub height: Fixed,
    pub font_name: Seq<char>,
    pub font_size: Fixed,
    pub color: Seq<Fixed>,
    pub transform: TransformMatrix,
}

impl View for ExtractedText {
    type V = TextModel;

    open spec fn view(&self) -> TextModel {
        TextModel {
            text: self.text@,
            x: self.x,
            y: self.y,
            width: self.width,
            height: self.height,
            font_name: self.font_name@,
            font_size: self.font_size,
            color: self.color@,
            transform: self.transform,
        }
    }
}

impl Clone for ExtractedText {
    fn clone(&self) -> (r: Self)
        ensures
            r@ == self@,
    {
        ExtractedText {
            text: self.text.clone(),
            x: self.x,
            y: self.y,
            width: self.width,
            height: self.height,
            font_name: self.font_name.clone(),
            font_size: self.font_size,
            color: self.color,
            transform: self.transform,
        }
    }
}

/// Width of an average glyph of a monospaced font, in ems: 0.6.
pub open spec fn mono_factor() -> Fixed {
    Fixed { micros: 600_000 }
}

/// Width of an average glyph of a Times-like font, in ems: 0.45.
pub open spec fn times_factor() -> Fixed {
    Fixed { micros: 450_000 }
}

/// Width of an average glyph of any other font, in ems: 0.52.
pub open spec fn default_factor() -> Fixed {
    Fixed { micros: 520_000 }
}

/// The share of the font size that lies above the baseline: 0.8.
pub open spec fn ascent_ratio() -> Fixed {
    Fixed { micros: 800_000 }
}

/// The height of a line in font sizes: 1.15.
pub open spec fn line_ratio() -> Fixed {
    Fixed { micros: 1_150_000 }
}

/// The least scale that a font size is multiplied by: 0.1.
pub open spec fn least_scale() -> Fixed {
    Fixed { micros: 100_000 }
}

/// The font assumed where none was set.
pub open spec fn fallback_font() -> Seq<char> {
    "Helvetica"@
}

/// The width of an average glyph of the named font, in ems.
pub open spec fn width_factor(font_name: Seq<char>) -> Fixed {
    let lower = lowercase(font_name);
    if has_substring(lower, "courier"@) || has_substring(lower, "mono"@) {
        mono_factor()
    } else if has_substring(lower, "times"@) {
        times_factor()
    } else {
        default_factor()
    }
}

/// The estimated width of a text: character count × font size × width
/// factor of the font.
pub open spec fn text_width(text: Seq<char>, font_size: Fixed, font_name: Seq<char>) -> Fixed {
    Fixed::spec_from_int(text.len() as int).spec_times(font_size).spec_times(
        width_factor(font_name),
    )
}

/// The text record that showing `text` gives in `state` on a page of the
/// given height.
pub open spec fn text_record(text: Seq<char>, state: StateModel, page_height: Fixed) -> TextModel {
    let combined = state.ctm.spec_multiply(state.text_matrix);
    let pdf_y = combined.f.spec_plus(state.text_rise);
    let scale = combined.spec_scale_y().spec_abs().spec_max(least_scale());
    let size = state.font_size.spec_times(scale);
    let font_name = match state.font_name {
        Some(name) => name,
        None => fallback_font(),
    };
    TextModel {
        text,
        x: combined.e,
        y: page_height.spec_minus(pdf_y).spec_minus(size.spec_times(ascent_ratio())),
        width: text_width(text, size, font_name),
        height: size.spec_times(line_ratio()),
        font_name,
        font_size: size,
        color: state.fill_color,
        transform: combined,
    }
}

/// Estimates the width of a text from its length and its font.
pub fn calculate_text_width(text: &str, font_size: Fixed, font_name: &str) -> (w: Fixed)
    ensures
        w == text_width(text@, font_size, font_name@),
{
    let n: u64 = text.unicode_len() as u64;
    let count = if n > 0x7fff_ffff_ffff_ffff {
        Fixed::largest()
    } else {
        Fixed::from_int(n as i64)
    };
    let lower = to_chars(to_lowercase(font_name).as_str());
    let factor = if contains_chars(&lower, &to_chars("courier")) || contains_chars(
        &lower,
        &to_chars("mono"),
    ) {
        Fixed::from_micros(600_000)
    } else if contains_chars(&lower, &to_chars("times")) {
        Fixed::from_micros(450_000)
    } else {
        Fixed::from_micros(520_000)
    };
    count.times(font_size).times(factor)
}

/// Builds the record of a shown text from the current state: position from
/// `ctm · text_matrix`, size from its vertical scale, box from the font
/// heuristics, y flipped against the page height.
pub fn create_text(text: &str, state: &GraphicsState, page_height: Fixed) -> (record: ExtractedText)
    ensures
        record@ == text_record(text@, state@, page_height),
{
    let combined = state.ctm.multiply(&state.text_matrix);
    let pdf_x = combined.e;
    let pdf_y = combined.f.plus(state.text_rise);
    let scale = combined.scale_y().abs().max(Fixed::from_micros(100_000));
    let effective_font_size = state.font_size.times(scale);
    let font_name = match &state.font_name {
        Some(name) => name.clone(),
        None => "Helvetica".to_string(),
    };
    let width = calculate_text_width(text, effective_font_size, font_name.as_str());
    let height = effective_font_size.times(Fixed::from_micros(1_150_000));
    let ascent = effective_font_size.times(Fixed::from_micros(800_000));
    let screen_y = page_height.minus(pdf_y).minus(ascent);
    ExtractedText {
        text: text.to_string(),
        x: pdf_x,
        y: screen_y,
        width,
        height,
        font_name,
        font_size: effective_font_size,
        color: state.fill_color,
        transform: combined,
    }
}

} // verus!
