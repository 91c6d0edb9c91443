//! The older font interface: plainer records of the same fonts.

use crate::fixed::Fixed;
use crate::font_manager;
use crate::font_manager::matcher::quoted;
use crate::image_cache::copy_bytes;
use crate::text::{push_char, same_text, texts};
use vstd::hash_map::StringHashMap;
use vstd::prelude::*;

verus! {

broadcast use vstd::string::group_string_axioms;

/// Where a font comes from.
#[derive(Debug, Clone, Copy, PartialEq, Eq, Structural)]
pub enum FontSource {
    System,
    Embedded,
    Google,
    Custom,
}

/// The source of the older interface that stands for one of the newer.
pub open spec fn source_of(fs: font_manager::FontSource) -> FontSource {
    match fs {
        font_manager::FontSource::System => FontSource::System,
        font_manager::FontSource::Embedded => FontSource::Embedded,
        font_manager::FontSource::Google => FontSource::Google,
        font_manager::FontSource::Custom => FontSource::Custom,
    }
}

impl FontSource {
    /// Converts a source of the newer interface.
    pub fn from_manager(fs: font_manager::FontSource) -> (s: FontSource)
        ensures
            s == source_of(fs),
    {
        match fs {
            font_manager::FontSource::System => FontSource::System,
            font_manager::FontSource::Embedded => FontSource::Embedded,
            font_manager::FontSource::Google => FontSource::Google,
            font_manager::FontSource::Custom => FontSource::Custom,
        }
    }
}

/// A font that is at hand.
#[derive(Debug, Clone)]
pub struct FontInfo {
    pub name: String,
    pub family: String,
    pub style: String,
    pub weight: u16,
    pub path: Option<String>,
    pub source: FontSource,
    pub is_variable: bool,
}

impl FontInfo {
    /// Converts a font of the newer interface: the full name becomes the
    /// name, and the style is `italic` or `normal`.
    pub fn from_manager(fm: font_manager::FontInfo) -> (f: FontInfo)
        ensures
            f.name@ == fm.full_name@,
            f.family@ == fm.family@,
            f.style@ == if fm.style.is_italic {
                "italic"@
            } else {
                "normal"@
            },
            f.weight == fm.weight,
            f.path == fm.path,
            f.source == source_of(fm.source),
            f.is_variable == fm.is_variable,
    {
        let style = if fm.style.is_italic {
            "italic".to_string()
        } else {
            "normal".to_string()
        };
        FontInfo {
            name: fm.full_name,
            family: fm.family,
            style,
            weight: fm.weight,
            path: fm.path,
            source: FontSource::from_manager(fm.source),
            is_variable: fm.is_variable,
        }
    }
}

/// A font of the Google Fonts catalogue.
#[derive(Debug, Clone)]
pub struct GoogleFont {
    pub family: String,
    pub variants: Vec<String>,
    pub subsets: Vec<String>,
    pub category: String,
}

impl GoogleFont {
    /// Converts a font of the newer interface; version and files are left
    /// out.
    pub fn from_manager(gf: font_manager::GoogleFont) -> (f: GoogleFont)
        ensures
            f.family == gf.family,
            f.variants == gf.variants,
            f.subsets == gf.subsets,
            f.category == gf.category,
    {
        GoogleFont {
            family: gf.family,
            variants: gf.variants,
            subsets: gf.subsets,
            category: gf.category,
        }
    }
}

/// All fonts that can be offered.
#[derive(Debug, Clone)]
pub struct AllFonts {
    pub system: Vec<FontInfo>,
    pub embedded: Vec<String>,
    pub google: Vec<GoogleFont>,
}

/// The font found for a font name.
#[derive(Debug, Clone)]
pub struct FontMatch {
    pub matched_font: String,
    pub source: FontSource,
    pub confidence: Fixed,
    pub css_family: String,
    pub google_url: Option<String>,
}

/// The name of the style of a weight: the name of the weight class, with
/// `Italic` after it for an italic font; a regular upright font has no style
/// name.
pub open spec fn style_name_of(weight: u16, style: Seq<char>) -> Seq<char> {
    let weight_name = weight_class(weight);
    if style == "italic"@ {
        weight_name + " Italic"@
    } else if weight_name == "Regular"@ {
        Seq::empty()
    } else {
        weight_name
    }
}

/// The name of the class of a weight, by its hundreds; weights under 100 and
/// from 900 on are `Black`.
pub open spec fn weight_class(weight: u16) -> Seq<char> {
    if 100 <= weight <= 199 {
        "Thin"@
    } else if 200 <= weight <= 299 {
        "ExtraLight"@
    } else if 300 <= weight <= 399 {
        "Light"@
    } else if 400 <= weight <= 499 {
        "Regular"@
    } else if 500 <= weight <= 599 {
        "Medium"@
    } else if 600 <= weight <= 699 {
        "SemiBold"@
    } else if 700 <= weight <= 799 {
        "Bold"@
    } else if 800 <= weight <= 899 {
        "ExtraBold"@
    } else {
        "Black"@
    }
}

/// Names the style of a weight.
pub fn style_name(weight: u16, style: &str) -> (name: String)
    ensures
        name@ == style_name_of(weight, style@),
{
    let weight_name = if 100 <= weight && weight <= 199 {
        "Thin"
    } else if 200 <= weight && weight <= 299 {
        "ExtraLight"
    } else if 300 <= weight && weight <= 399 {
        "Light"
    } else if 400 <= weight && weight <= 499 {
        "Regular"
    } else if 500 <= weight && weight <= 599 {
        "Medium"
    } else if 600 <= weight && weight <= 699 {
        "SemiBold"
    } else if 700 <= weight && weight <= 799 {
        "Bold"
    } else if 800 <= weight && weight <= 899 {
        "ExtraBold"
    } else {
        "Black"
    };
    if same_text(style, "italic") {
        let mut name = weight_name.to_string();
        name.append(" Italic");
        name
    } else if same_text(weight_name, "Regular") {
        proof {
            assert(""@ =~= Seq::<char>::empty()) by {
                reveal_strlit("");
            }
        }
        String::new()
    } else {
        weight_name.to_string()
    }
}

/// The address of the Google Fonts stylesheet for a family in the given
/// weights.
pub fn get_google_font_url(family: String, weights: Vec<String>) -> (url: String)
    ensures
        url@ == font_manager::css_url(
            family@,
            font_manager::weights_text(texts(weights@)),
        ),
{
    font_manager::get_google_font_css_url(family, weights)
}

/// The data of embedded fonts by font name.
pub struct EmbeddedFonts {
    pub fonts: StringHashMap<Vec<u8>>,
    /// The names of the fonts, in the order in which they came.
    pub names: Vec<String>,
}

impl EmbeddedFonts {
    /// No fonts.
    pub fn new() -> (e: EmbeddedFonts)
        ensures
            e.fonts@ == Map::<Seq<char>, Vec<u8>>::empty(),
            e.names@.len() == 0,
    {
        EmbeddedFonts { fonts: StringHashMap::new(), names: Vec::new() }
    }
}

/// Keeps the data of an embedded font under its name.
pub fn store_embedded_font(store: &mut EmbeddedFonts, font_name: String, font_data: Vec<u8>) -> (r:
    Result<(), String>)
    ensures
        r is Ok,
        final(store).fonts@ == old(store).fonts@.insert(font_name@, font_data),
        texts(final(store).names@) == if old(store).fonts@.contains_key(
            font_name@,
        ) {
            texts(old(store).names@)
        } else {
            texts(old(store).names@).push(font_name@)
        },
{
    if !store.fonts.contains_key(font_name.as_str()) {
        let ghost before = texts(store.names@);
        store.names.push(font_name.clone());
        assert(texts(store.names@) =~= before.push(font_name@));
    }
    store.fonts.insert(font_name, font_data);
    Ok(())
}

/// The names of the embedded fonts, in the order in which they came.
pub fn list_embedded_fonts(store: &EmbeddedFonts) -> (r: Result<Vec<String>, String>)
    ensures
        r matches Ok(names) && texts(names@) == texts(
            store.names@,
        ),
{
    Ok(font_manager::copy_texts(&store.names))
}

/// A copy of the data of the embedded font kept under a name.
pub fn get_embedded_font(store: &EmbeddedFonts, font_name: String) -> (r: Result<
    Option<Vec<u8>>,
    String,
>)
    ensures
        r matches Ok(found) && match found {
            Some(data) => store.fonts@.contains_key(font_name@) && data@
                == store.fonts@[font_name@]@,
            None => !store.fonts@.contains_key(font_name@),
        },
{
    match store.fonts.get(font_name.as_str()) {
        Some(data) => Ok(Some(copy_bytes(data))),
        None => Ok(None),
    }
}

/// The match with an embedded font: the font itself, for sure.
pub fn embedded_match(font_name: &str) -> (m: FontMatch)
    ensures
        m.matched_font@ == font_name@,
        m.source == FontSource::Embedded,
        m.confidence == Fixed::spec_one(),
        m.css_family@ == quoted(font_name@),
        m.google_url is None,
{
    let mut css = String::new();
    push_char(&mut css, '\'');
    css.append(font_name);
    push_char(&mut css, '\'');
    assert(css@ =~= quoted(font_name@));
    FontMatch {
        matched_font: font_name.to_string(),
        source: FontSource::Embedded,
        confidence: Fixed::one(),
        css_family: css,
        google_url: None,
    }
}

/// Converts a match of the newer interface; the fallback stack is left out.
pub fn match_from_manager(fm: font_manager::FontMatch) -> (m: FontMatch)
    ensures
        m.matched_font == fm.family,
        m.source == source_of(fm.source),
        m.confidence == fm.confidence,
        m.css_family == fm.css_family,
        m.google_url == fm.google_url,
{
    FontMatch {
        matched_font: fm.family,
        source: FontSource::from_manager(fm.source),
        confidence: fm.confidence,
        css_family: fm.css_family,
        google_url: fm.google_url,
    }
}

/// The weight that is looked for: 700 for a bold font, else 400.
pub fn wanted_weight(is_bold: bool) -> (w: u16)
    ensures
        w == if is_bold {
            700u16
        } else {
            400u16
        },
{
    if is_bold {
        700
    } else {
        400
    }
}

/// Finds the font to use for a font name: the embedded font of that name,
/// where one is kept; else the best match among the given fonts, at weight
/// 700 for a bold font and 400 for any other, which the font manager keeps
/// for the next time.
pub fn find_matching_font(
    store: &EmbeddedFonts,
    state: &mut font_manager::FontManagerState,
    font_name: String,
    is_bold: bool,
    is_italic: bool,
    system_fonts: &Vec<font_manager::FontInfo>,
    google_fonts: &Vec<font_manager::GoogleFont>,
) -> (m: FontMatch)
    ensures
        store.fonts@.contains_key(font_name@) ==> {
            &&& m.matched_font@ == font_name@
            &&& m.source == FontSource::Embedded
            &&& m.confidence == Fixed::spec_one()
            &&& m.css_family@ == quoted(font_name@)
            &&& m.google_url is None
            &&& final(state).font_cache@ == old(state).font_cache@
        },
        !store.fonts@.contains_key(font_name@) ==> {
            let found = if old(state).font_cache@.contains_key(font_name@) {
                old(state).font_cache@[font_name@]@
            } else {
                font_manager::matcher::best_match(
                    font_name@,
                    system_fonts@,
                    google_fonts@,
                    if is_bold {
                        700u16
                    } else {
                        400u16
                    },
                )
            };
            &&& m.matched_font@ == found.family
            &&& m.source == source_of(found.source)
            &&& m.confidence == found.confidence
            &&& m.css_family@ == found.css_family
            &&& crate::models::opt_text(m.google_url) == found.google_url
            &&& final(state).font_cache@.dom() == old(state).font_cache@.dom().insert(font_name@)
        },
{
    if store.fonts.contains_key(font_name.as_str()) {
        return embedded_match(font_name.as_str());
    }
    let found = font_manager::find_font_match(
        state,
        font_name.as_str(),
        Some(wanted_weight(is_bold)),
        Some(is_italic),
        system_fonts,
        google_fonts,
    );
    proof {
        if old(state).font_cache@.contains_key(font_name@) {
            assert(final(state).font_cache@.dom() =~= old(state).font_cache@.dom().insert(
                font_name@,
            ));
        }
    }
    match_from_manager(found)
}

} // verus!
