//! Fonts: parsing and normalizing font names, matching them against the
//! fonts that are at hand, and keeping embedded fonts.

pub mod docx_extractor;
pub mod google_fonts;
pub mod installer;
pub mod matcher;
pub mod normalizer;
pub mod pdf_extractor;
pub mod system;

use crate::fixed::Fixed;
use crate::text::{replace, replaced, texts};
use vstd::hash_map::StringHashMap;
use vstd::prelude::*;

verus! {

broadcast use vstd::string::group_string_axioms;

/// How wide the glyphs of a font are set.
#[derive(Debug, Clone, Copy, PartialEq, Eq, Structural)]
pub enum FontWidth {
    UltraCondensed,
    ExtraCondensed,
    Condensed,
    SemiCondensed,
    Normal,
    SemiExpanded,
    Expanded,
    ExtraExpanded,
    UltraExpanded,
}

impl Default for FontWidth {
    fn default() -> (w: Self)
        ensures
            w == FontWidth::Normal,
    {
        FontWidth::Normal
    }
}

/// The style of a font.
#[derive(Debug, Clone, Copy, PartialEq, Eq, Structural)]
pub struct FontStyle {
    pub is_italic: bool,
    pub is_oblique: bool,
    pub width: FontWidth,
}

impl Default for FontStyle {
    fn default() -> (s: Self)
        ensures
            s == (FontStyle { is_italic: false, is_oblique: false, width: FontWidth::Normal }),
    {
        FontStyle { is_italic: false, is_oblique: false, width: FontWidth::Normal }
    }
}

/// Where a font comes from.
#[derive(Debug, Clone, Copy, PartialEq, Eq, Structural)]
pub enum FontSource {
    System,
    Embedded,
    Google,
    Custom,
}

/// A font that is at hand.
#[derive(Debug, Clone, PartialEq)]
pub struct FontInfo {
    pub family: String,
    pub full_name: String,
    pub style: FontStyle,
    pub weight: u16,
    pub source: FontSource,
    pub path: Option<String>,
    pub is_variable: bool,
}

/// The font found for a font name.
#[derive(Debug, Clone)]
pub struct FontMatch {
    pub family: String,
    pub source: FontSource,
    /// How sure the match is, from 0 to 1.
    pub confidence: Fixed,
    pub css_family: String,
    pub google_url: Option<String>,
    pub fallback_stack: Vec<String>,
}

/// The mathematical content of a [`FontMatch`].
pub struct FontMatchModel {
    pub family: Seq<char>,
    pub source: FontSource,
    pub confidence: Fixed,
    pub css_family: Seq<char>,
    pub google_url: Option<Seq<char>>,
    pub fallback_stack: Seq<Seq<char>>,
}

impl View for FontMatch {
    type V = FontMatchModel;

    open spec fn view(&self) -> FontMatchModel {
        FontMatchModel {
            family: self.family@,
            source: self.source,
            confidence: self.confidence,
            css_family: self.css_family@,
            google_url: crate::models::opt_text(self.google_url),
            fallback_stack: texts(self.fallback_stack@),
        }
    }
}

/// A font of the Google Fonts catalogue.
#[derive(Debug, Clone)]
pub struct GoogleFont {
    pub family: String,
    pub variants: Vec<String>,
    pub subsets: Vec<String>,
    pub category: String,
    pub version: Option<String>,
    /// The file of each variant, by the name of the variant.
    pub files: Vec<(String, String)>,
}

/// What a font name says.
#[derive(Debug, Clone)]
pub struct ParsedFontName {
    pub family: String,
    pub weight: u16,
    pub is_italic: bool,
    pub is_bold: bool,
    pub width: FontWidth,
    pub original: String,
}

/// The measures of a font, in units of its em square.
#[derive(Debug, Clone, Copy, PartialEq, Eq, Structural)]
pub struct FontMetrics {
    pub units_per_em: u16,
    pub ascender: i16,
    pub descender: i16,
    pub line_gap: i16,
    pub cap_height: Option<i16>,
    pub x_height: Option<i16>,
    pub avg_char_width: Option<i16>,
}

impl Default for FontMetrics {
    fn default() -> (m: Self)
        ensures
            m == (FontMetrics {
                units_per_em: 1000,
                ascender: 800,
                descender: (-200i16),
                line_gap: 90,
                cap_height: Some(700i16),
                x_height: Some(500i16),
                avg_char_width: Some(500i16),
            }),
    {
        FontMetrics {
            units_per_em: 1000,
            ascender: 800,
            descender: -200,
            line_gap: 90,
            cap_height: Some(700),
            x_height: Some(500),
            avg_char_width: Some(500),
        }
    }
}

/// All fonts that can be offered.
#[derive(Debug, Clone)]
pub struct AllFontsResponse {
    pub system: Vec<FontInfo>,
    pub google: Vec<GoogleFont>,
    pub embedded: Vec<String>,
}

/// A font that came with a document.
#[derive(Debug, Clone)]
pub struct EmbeddedFont {
    pub name: String,
    pub data: Vec<u8>,
    pub metrics: FontMetrics,
}

/// What the font manager keeps between calls.
pub struct FontManagerState {
    pub system_fonts: Vec<FontInfo>,
    pub google_fonts: Vec<GoogleFont>,
    pub embedded_fonts: StringHashMap<EmbeddedFont>,
    /// The names of the embedded fonts, in the order in which they came.
    pub embedded_names: Vec<String>,
    pub font_cache: StringHashMap<FontMatch>,
    /// When the system fonts were last listed, in seconds on the clock of
    /// the caller.
    pub last_system_scan: Option<u64>,
    pub google_fonts_loaded: bool,
}

impl FontManagerState {
    /// The state at the start: nothing is known yet.
    pub fn new() -> (s: FontManagerState)
        ensures
            s.system_fonts@.len() == 0,
            s.google_fonts@.len() == 0,
            s.embedded_fonts@ == Map::<Seq<char>, EmbeddedFont>::empty(),
            s.embedded_names@.len() == 0,
            s.font_cache@ == Map::<Seq<char>, FontMatch>::empty(),
            s.last_system_scan is None,
            !s.google_fonts_loaded,
    {
        FontManagerState {
            system_fonts: Vec::new(),
            google_fonts: Vec::new(),
            embedded_fonts: StringHashMap::new(),
            embedded_names: Vec::new(),
            font_cache: StringHashMap::new(),
            last_system_scan: None,
            google_fonts_loaded: false,
        }
    }
}

impl Default for FontManagerState {
    fn default() -> (s: Self)
        ensures
            s.embedded_fonts@ == Map::<Seq<char>, EmbeddedFont>::empty(),
            s.font_cache@ == Map::<Seq<char>, FontMatch>::empty(),
            s.last_system_scan is None,
            !s.google_fonts_loaded,
    {
        FontManagerState::new()
    }
}

/// Forgets every cached match and when the system fonts were listed; the
/// fonts themselves stay.
pub fn clear_font_cache(state: &mut FontManagerState) -> (r: Result<(), String>)
    ensures
        r is Ok,
        final(state).font_cache@ == Map::<Seq<char>, FontMatch>::empty(),
        final(state).last_system_scan is None,
        final(state).embedded_fonts == old(state).embedded_fonts,
        final(state).embedded_names == old(state).embedded_names,
        final(state).system_fonts == old(state).system_fonts,
        final(state).google_fonts == old(state).google_fonts,
        final(state).google_fonts_loaded == old(state).google_fonts_loaded,
{
    state.font_cache.clear();
    state.last_system_scan = None;
    Ok(())
}

/// Whether the list of system fonts can be used as it is at the time `now`:
/// it was made less than 30 seconds ago and is not empty.
pub open spec fn scan_is_fresh(state: FontManagerState, now: u64) -> bool {
    match state.last_system_scan {
        Some(last) => now - last < 30 && state.system_fonts@.len() > 0,
        None => false,
    }
}

/// Tells whether the list of system fonts can be used as it is.
pub fn system_fonts_fresh(state: &FontManagerState, now: u64) -> (r: bool)
    ensures
        r == scan_is_fresh(*state, now),
{
    match state.last_system_scan {
        Some(last) => (now < last || now - last < 30) && state.system_fonts.len() > 0,
        None => false,
    }
}

/// Keeps a new list of system fonts, made at the time `now`.
pub fn remember_system_fonts(state: &mut FontManagerState, fonts: Vec<FontInfo>, now: u64)
    ensures
        final(state).system_fonts == fonts,
        final(state).last_system_scan == Some(now),
        final(state).google_fonts == old(state).google_fonts,
        final(state).embedded_fonts == old(state).embedded_fonts,
        final(state).embedded_names == old(state).embedded_names,
        final(state).font_cache == old(state).font_cache,
        final(state).google_fonts_loaded == old(state).google_fonts_loaded,
{
    state.system_fonts = fonts;
    state.last_system_scan = Some(now);
}

/// Keeps a catalogue that was fetched.
pub fn remember_google_fonts(state: &mut FontManagerState, fonts: Vec<GoogleFont>)
    ensures
        final(state).google_fonts == fonts,
        final(state).google_fonts_loaded,
        final(state).system_fonts == old(state).system_fonts,
        final(state).last_system_scan == old(state).last_system_scan,
        final(state).embedded_fonts == old(state).embedded_fonts,
        final(state).embedded_names == old(state).embedded_names,
        final(state).font_cache == old(state).font_cache,
{
    state.google_fonts = fonts;
    state.google_fonts_loaded = true;
}

/// A copy of a list of texts.
pub fn copy_texts(list: &Vec<String>) -> (out: Vec<String>)
    ensures
        texts(out@) == texts(list@),
{
    let mut out: Vec<String> = Vec::new();
    let mut i: usize = 0;
    while i < list.len()
        invariant
            i <= list.len(),
            out@.len() == i,
            forall|k: int| 0 <= k < i ==> (#[trigger] out@[k])@ == list@[k]@,
        decreases list.len() - i,
    {
        out.push(list[i].clone());
        i += 1;
    }
    assert(texts(out@) =~= texts(list@));
    out
}

/// The names of the embedded fonts, in the order in which they came.
pub fn embedded_font_names(state: &FontManagerState) -> (names: Vec<String>)
    ensures
        texts(names@) == texts(state.embedded_names@),
{
    copy_texts(&state.embedded_names)
}

/// A copy of a match.
pub fn copy_match(m: &FontMatch) -> (r: FontMatch)
    ensures
        r@ == m@,
{
    FontMatch {
        family: m.family.clone(),
        source: m.source,
        confidence: m.confidence,
        css_family: m.css_family.clone(),
        google_url: match &m.google_url {
            Some(u) => Some(u.clone()),
            None => None,
        },
        fallback_stack: copy_texts(&m.fallback_stack),
    }
}

/// The match that is kept for a font name, if there is one.
pub fn cached_match(state: &FontManagerState, font_name: &str) -> (r: Option<FontMatch>)
    ensures
        match r {
            Some(m) => state.font_cache@.contains_key(font_name@) && m@
                == state.font_cache@[font_name@]@,
            None => !state.font_cache@.contains_key(font_name@),
        },
{
    match state.font_cache.get(font_name) {
        Some(m) => Some(copy_match(m)),
        None => None,
    }
}

/// Finds the best match for a font name among the given fonts: the match
/// that is kept for the name, else the best match for weight 400 and an
/// upright face where none is asked for, which is then kept.
pub fn find_font_match(
    state: &mut FontManagerState,
    font_name: &str,
    weight: Option<u16>,
    is_italic: Option<bool>,
    system_fonts: &Vec<FontInfo>,
    google_fonts: &Vec<GoogleFont>,
) -> (m: FontMatch)
    ensures
        final(state).system_fonts == old(state).system_fonts,
        final(state).google_fonts == old(state).google_fonts,
        final(state).embedded_fonts == old(state).embedded_fonts,
        final(state).embedded_names == old(state).embedded_names,
        final(state).last_system_scan == old(state).last_system_scan,
        final(state).google_fonts_loaded == old(state).google_fonts_loaded,
        old(state).font_cache@.contains_key(font_name@) ==> m@ == old(state).font_cache@[font_name@]@
            && final(state).font_cache@ == old(state).font_cache@,
        !old(state).font_cache@.contains_key(font_name@) ==> {
            &&& m@ == matcher::best_match(
                font_name@,
                system_fonts@,
                google_fonts@,
                match weight {
                    Some(w) => w,
                    None => 400,
                },
            )
            &&& final(state).font_cache@.dom() == old(state).font_cache@.dom().insert(font_name@)
            &&& final(state).font_cache@[font_name@]@ == m@
            &&& forall|other: Seq<char>|
                other != font_name@ && old(state).font_cache@.contains_key(other) ==> final(state)
                    .font_cache@[other] == old(state).font_cache@[other]
        },
{
    match cached_match(state, font_name) {
        Some(m) => {
            return m;
        },
        None => {},
    }
    let result = matcher::find_best_match(
        font_name,
        system_fonts,
        google_fonts,
        match weight {
            Some(w) => w,
            None => 400,
        },
        match is_italic {
            Some(i) => i,
            None => false,
        },
    );
    state.font_cache.insert(font_name.to_string(), copy_match(&result));
    assert(final(state).font_cache@.dom() =~= old(state).font_cache@.dom().insert(font_name@));
    result
}

/// The catalogue to match against: the one that is kept, where one was
/// fetched before; else the one that was fetched now or, where that failed,
/// the popular fonts.
pub fn google_catalogue(kept: Vec<GoogleFont>, loaded: bool, fetched: Option<Vec<GoogleFont>>) -> (fonts:
    Vec<GoogleFont>)
    ensures
        loaded ==> fonts == kept,
        !loaded ==> match fetched {
            Some(f) => fonts == f,
            None => fonts@.len() == google_fonts::popular_count() && forall|i: int|
                0 <= i < fonts@.len() ==> google_fonts::is_popular(#[trigger] fonts@[i], i),
        },
{
    if loaded {
        kept
    } else {
        match fetched {
            Some(f) => f,
            None => google_fonts::get_popular_fonts(),
        }
    }
}

/// The weights of a stylesheet request: the given ones with `;` between
/// them, or `400` where none is given.
pub open spec fn weights_text(weights: Seq<Seq<char>>) -> Seq<char> {
    if weights.len() == 0 {
        "400"@
    } else {
        crate::text::joined_with(weights, ";"@)
    }
}

/// The address of the Google Fonts stylesheet for a family with the given
/// weights text; spaces in the family become `+`.
pub open spec fn css_url(family: Seq<char>, weights: Seq<char>) -> Seq<char> {
    "https://fonts.googleapis.com/css2?family="@ + replaced(family, " "@, "+"@) + ":wght@"@
        + weights + "&display=swap"@
}

/// Joins texts with a separator.
pub fn join_texts(parts: &Vec<String>, sep: &str) -> (out: String)
    ensures
        out@ == crate::text::joined_with(texts(parts@), sep@),
{
    let mut out = String::new();
    let mut i: usize = 0;
    while i < parts.len()
        invariant
            i <= parts.len(),
            out@ == crate::text::joined_with(texts(parts@).take(i as int), sep@),
        decreases parts.len() - i,
    {
        proof {
            let all = texts(parts@);
            assert(all.take(i + 1).drop_last() =~= all.take(i as int));
            assert(all.take(i + 1).last() == parts@[i as int]@);
            if i == 0 {
                assert(all.take(1)[0] == parts@[0]@);
            }
        }
        if i > 0 {
            out.append(sep);
        }
        out.append(parts[i].as_str());
        assert(out@ =~= crate::text::joined_with(texts(parts@).take(i + 1), sep@));
        i += 1;
    }
    assert(texts(parts@).take(parts.len() as int) =~= texts(parts@));
    out
}

/// Builds the stylesheet address from a family and a weights text.
pub fn build_css_url(family: &str, weights: &str) -> (url: String)
    ensures
        url@ == css_url(family@, weights@),
{
    proof {
        reveal_strlit(" ");
    }
    let family_encoded = replace(family, " ", "+");
    let mut url = "https://fonts.googleapis.com/css2?family=".to_string();
    url.append(family_encoded.as_str());
    url.append(":wght@");
    url.append(weights);
    url.append("&display=swap");
    assert(url@ =~= css_url(family@, weights@));
    url
}

/// The address of the Google Fonts stylesheet for a family in the given
/// weights.
pub fn get_google_font_css_url(family: String, weights: Vec<String>) -> (url: String)
    ensures
        url@ == css_url(family@, weights_text(texts(weights@))),
{
    let weights_str = if weights.len() == 0 {
        "400".to_string()
    } else {
        join_texts(&weights, ";")
    };
    build_css_url(family.as_str(), weights_str.as_str())
}

} // verus!
