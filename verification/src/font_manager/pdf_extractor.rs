//! Fonts that come with a PDF.

use crate::font_manager::normalizer::{parse_font_name, parsed};
use crate::font_manager::{
    EmbeddedFont, FontManagerState, FontMetrics, ParsedFontName,
};
use crate::image_cache::copy_bytes;
use crate::models::opt_text;
use crate::text::{same_text, texts, to_chars};
use vstd::prelude::*;

verus! {

broadcast use vstd::string::group_string_axioms;

/// The kinds of font that a PDF can hold.
#[derive(Debug, Clone, Copy, PartialEq, Eq, Structural)]
pub enum PdfFontType {
    Type1,
    TrueType,
    Type0,
    Type3,
    CIDFontType0,
    CIDFontType2,
    OpenType,
    Unknown,
}

/// A font as a PDF describes it.
#[derive(Debug, Clone)]
pub struct ExtractedPdfFont {
    pub name: String,
    pub base_font: String,
    pub font_type: PdfFontType,
    pub encoding: Option<String>,
    pub is_embedded: bool,
    pub is_subset: bool,
    pub parsed: ParsedFontName,
    pub metrics: FontMetrics,
    pub embedded_data: Option<Vec<u8>>,
}

/// What the descriptor of a font holds: the measures that it names, whether
/// it names a font file, and the data of the first font file that can be
/// read.
#[derive(Debug, Clone)]
pub struct FontDescriptor {
    pub ascent: Option<i16>,
    pub descent: Option<i16>,
    pub cap_height: Option<i16>,
    pub x_height: Option<i16>,
    pub avg_width: Option<i16>,
    pub has_font_file: bool,
    pub font_file: Option<Vec<u8>>,
}

/// What the dictionary of a font holds: the names under `Subtype`,
/// `BaseFont` and `Encoding`, and the descriptor, each where it is there.
#[derive(Debug, Clone)]
pub struct FontEntry {
    pub subtype: Option<String>,
    pub base_font: Option<String>,
    pub encoding: Option<String>,
    pub descriptor: Option<FontDescriptor>,
}

/// The kind of font that a subtype name stands for.
pub open spec fn font_type_of(subtype: Seq<char>) -> PdfFontType {
    if subtype == "Type1"@ {
        PdfFontType::Type1
    } else if subtype == "TrueType"@ {
        PdfFontType::TrueType
    } else if subtype == "Type0"@ {
        PdfFontType::Type0
    } else if subtype == "Type3"@ {
        PdfFontType::Type3
    } else if subtype == "CIDFontType0"@ {
        PdfFontType::CIDFontType0
    } else if subtype == "CIDFontType2"@ {
        PdfFontType::CIDFontType2
    } else if subtype == "OpenType"@ {
        PdfFontType::OpenType
    } else {
        PdfFontType::Unknown
    }
}

/// Reads the kind of a font from its subtype name.
pub fn parse_font_type(subtype: &str) -> (t: PdfFontType)
    ensures
        t == font_type_of(subtype@),
{
    if same_text(subtype, "Type1") {
        PdfFontType::Type1
    } else if same_text(subtype, "TrueType") {
        PdfFontType::TrueType
    } else if same_text(subtype, "Type0") {
        PdfFontType::Type0
    } else if same_text(subtype, "Type3") {
        PdfFontType::Type3
    } else if same_text(subtype, "CIDFontType0") {
        PdfFontType::CIDFontType0
    } else if same_text(subtype, "CIDFontType2") {
        PdfFontType::CIDFontType2
    } else if same_text(subtype, "OpenType") {
        PdfFontType::OpenType
    } else {
        PdfFontType::Unknown
    }
}

/// Whether a base font name is that of a subset: six upper-case letters and
/// a plus sign, with a name behind them.
pub open spec fn is_subset_name(base_font: Seq<char>) -> bool {
    &&& base_font.len() > 7
    &&& base_font[6] == '+'
    &&& forall|i: int| 0 <= i < 6 ==> 'A' <= #[trigger] base_font[i] <= 'Z'
}

/// Tells whether a base font name is that of a subset.
pub fn has_subset_prefix(base_font: &str) -> (r: bool)
    ensures
        r == is_subset_name(base_font@),
{
    let chars = to_chars(base_font);
    if chars.len() <= 7 || chars[6] != '+' {
        return false;
    }
    let mut i: usize = 0;
    while i < 6
        invariant
            i <= 6,
            chars.len() > 7,
            chars@ == base_font@,
            forall|k: int| 0 <= k < i ==> 'A' <= #[trigger] chars@[k] <= 'Z',
        decreases 6 - i,
    {
        if chars[i] < 'A' || chars[i] > 'Z' {
            return false;
        }
        i += 1;
    }
    true
}

/// The measures that a descriptor gives: an em square of 1000 units, a line
/// gap of 90, an ascent of 800 and a descent of -200 where it names none,
/// and the other measures as it names them.
pub open spec fn descriptor_metrics(desc: FontDescriptor) -> FontMetrics {
    FontMetrics {
        units_per_em: 1000,
        ascender: match desc.ascent {
            Some(v) => v,
            None => 800,
        },
        descender: match desc.descent {
            Some(v) => v,
            None => (-200i16),
        },
        line_gap: 90,
        cap_height: desc.cap_height,
        x_height: desc.x_height,
        avg_char_width: desc.avg_width,
    }
}

/// Reads the measures of a font from its descriptor.
pub fn extract_metrics_from_descriptor(desc: &FontDescriptor) -> (m: FontMetrics)
    ensures
        m == descriptor_metrics(*desc),
{
    FontMetrics {
        units_per_em: 1000,
        ascender: match desc.ascent {
            Some(v) => v,
            None => 800,
        },
        descender: match desc.descent {
            Some(v) => v,
            None => -200,
        },
        line_gap: 90,
        cap_height: desc.cap_height,
        x_height: desc.x_height,
        avg_char_width: desc.avg_width,
    }
}

/// The measures of a font without a descriptor.
pub open spec fn usual_metrics() -> FontMetrics {
    FontMetrics {
        units_per_em: 1000,
        ascender: 800,
        descender: (-200i16),
        line_gap: 90,
        cap_height: Some(700i16),
        x_height: Some(500i16),
        avg_char_width: Some(500i16),
    }
}

/// The base font name of a font: the one in its dictionary, else the name
/// under which the page knows it.
pub open spec fn base_font_of(entry: FontEntry, name: Seq<char>) -> Seq<char> {
    match entry.base_font {
        Some(b) => b@,
        None => name,
    }
}

/// The data of an optional byte vector.
pub open spec fn opt_bytes(data: Option<Vec<u8>>) -> Option<Seq<u8>> {
    match data {
        Some(d) => Some(d@),
        None => None,
    }
}

/// Describes the font that a page knows as `name` from what its dictionary
/// holds. A font without a subtype is of unknown kind; one without a
/// descriptor has the usual measures and is not embedded; one whose
/// descriptor names a font file is embedded.
pub fn extract_font_info(entry: FontEntry, name: &str) -> (font: ExtractedPdfFont)
    ensures
        font.name@ == name@,
        font.base_font@ == base_font_of(entry, name@),
        font.font_type == match entry.subtype {
            Some(s) => font_type_of(s@),
            None => PdfFontType::Unknown,
        },
        opt_text(font.encoding) == opt_text(entry.encoding),
        font.is_subset == is_subset_name(base_font_of(entry, name@)),
        font.parsed@ == parsed(base_font_of(entry, name@)),
        match entry.descriptor {
            Some(desc) => font.metrics == descriptor_metrics(desc) && font.is_embedded == (
            desc.has_font_file || desc.font_file is Some) && opt_bytes(font.embedded_data)
                == opt_bytes(desc.font_file),
            None => font.metrics == usual_metrics() && !font.is_embedded && font.embedded_data
                is None,
        },
{
    let font_type = match &entry.subtype {
        Some(s) => parse_font_type(s.as_str()),
        None => PdfFontType::Unknown,
    };
    let base_font = match entry.base_font {
        Some(b) => b,
        None => name.to_string(),
    };
    let is_subset = has_subset_prefix(base_font.as_str());
    let parsed = parse_font_name(base_font.as_str());
    let (metrics, is_embedded, embedded_data) = match entry.descriptor {
        Some(desc) => {
            let metrics = extract_metrics_from_descriptor(&desc);
            let is_embedded = desc.has_font_file || desc.font_file.is_some();
            (metrics, is_embedded, desc.font_file)
        },
        None => (FontMetrics::default(), false, None),
    };
    ExtractedPdfFont {
        name: name.to_string(),
        base_font,
        font_type,
        encoding: entry.encoding,
        is_embedded,
        is_subset,
        parsed,
        metrics,
        embedded_data,
    }
}

/// Keeps the data of an embedded font under its name, in place of what was
/// kept under that name.
pub fn store_embedded_font(
    state: &mut FontManagerState,
    name: &str,
    data: Vec<u8>,
    metrics: FontMetrics,
) -> (r: Result<(), String>)
    ensures
        r is Ok,
        final(state).embedded_fonts@.dom() == old(state).embedded_fonts@.dom().insert(name@),
        final(state).embedded_fonts@[name@].data@ == data@,
        final(state).embedded_fonts@[name@].name@ == name@,
        final(state).embedded_fonts@[name@].metrics == metrics,
        forall|other: Seq<char>|
            other != name@ && old(state).embedded_fonts@.contains_key(other) ==> final(state)
                .embedded_fonts@[other] == old(state).embedded_fonts@[other],
        final(state).font_cache == old(state).font_cache,
        texts(final(state).embedded_names@) == if old(state).embedded_fonts@.contains_key(
            name@,
        ) {
            texts(old(state).embedded_names@)
        } else {
            texts(old(state).embedded_names@).push(name@)
        },
{
    if !state.embedded_fonts.contains_key(name) {
        let ghost before = texts(state.embedded_names@);
        state.embedded_names.push(name.to_string());
        assert(texts(state.embedded_names@) =~= before.push(name@));
    }
    state.embedded_fonts.insert(name.to_string(), EmbeddedFont { name: name.to_string(), data, metrics });
    assert(final(state).embedded_fonts@.dom() =~= old(state).embedded_fonts@.dom().insert(name@));
    Ok(())
}

/// A copy of the data of the embedded font kept under `name`, if there is
/// one.
pub fn get_embedded_font(state: &FontManagerState, name: &str) -> (r: Option<Vec<u8>>)
    ensures
        match r {
            Some(data) => state.embedded_fonts@.contains_key(name@) && data@
                == state.embedded_fonts@[name@].data@,
            None => !state.embedded_fonts@.contains_key(name@),
        },
{
    match state.embedded_fonts.get(name) {
        Some(font) => Some(copy_bytes(&font.data)),
        None => None,
    }
}

} // verus!
