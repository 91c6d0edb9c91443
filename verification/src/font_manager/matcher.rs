//! Matching font names against system fonts and the Google Fonts catalogue.

use crate::fixed::Fixed;
use crate::font_manager::normalizer::{comparable, normalize_for_comparison, parse_font_name, parsed};
use crate::font_manager::{
    build_css_url, css_url, FontInfo, FontMatch, FontMatchModel, FontSource,
    GoogleFont,
};
use crate::ocr_handler::{byte_len, edit_distance, levenshtein_distance};
use crate::text::{
    contains_chars, decimal, has_substring, lowercase, push_char, push_decimal, same_text,
    texts, to_chars, to_lowercase,
};
use vstd::prelude::*;

verus! {

broadcast use vstd::string::group_string_axioms;

/// How alike two names are, from 0 to 1: equal names are alike, an empty and
/// a non-empty name are not at all, and otherwise the edit distance is set
/// against the byte length of the longer name.
pub open spec fn name_similarity(a: Seq<char>, b: Seq<char>) -> Fixed {
    if a == b {
        Fixed::spec_one()
    } else if a.len() == 0 || b.len() == 0 {
        Fixed::spec_zero()
    } else {
        let longer = if byte_len(a) >= byte_len(b) {
            byte_len(a)
        } else {
            byte_len(b)
        };
        Fixed::spec_one().spec_minus(
            Fixed::spec_from_int(edit_distance(a, b) as int).spec_over(
                Fixed::spec_from_int(longer as int),
            ),
        )
    }
}

fn count_as_fixed(n: usize) -> (r: Fixed)
    ensures
        r == Fixed::spec_from_int(n as int),
{
    let wide: u64 = n as u64;
    if wide > 0x7fff_ffff_ffff_ffff {
        Fixed::largest()
    } else {
        Fixed::from_int(wide as i64)
    }
}

fn byte_count(s: &str) -> (n: usize)
    ensures
        n == byte_len(s@),
{
    s.as_bytes().len()
}

/// Computes how alike two names are.
pub fn calculate_similarity(a: &str, b: &str) -> (r: Fixed)
    ensures
        r == name_similarity(a@, b@),
{
    if same_text(a, b) {
        return Fixed::one();
    }
    if a.is_empty() || b.is_empty() {
        return Fixed::zero();
    }
    let distance = levenshtein_distance(a, b);
    let la = byte_count(a);
    let lb = byte_count(b);
    let max_len = if la >= lb {
        la
    } else {
        lb
    };
    Fixed::one().minus(count_as_fixed(distance).over(count_as_fixed(max_len)))
}

/// The fallback family and the generic category that a font name suggests.
pub open spec fn category_of(name: Seq<char>) -> (Seq<char>, Seq<char>) {
    let lower = lowercase(name);
    if has_substring(lower, "mono"@) || has_substring(lower, "code"@) || has_substring(
        lower,
        "console"@,
    ) || has_substring(lower, "courier"@) {
        ("Courier New"@, "monospace"@)
    } else if has_substring(lower, "serif"@) && !has_substring(lower, "sans"@) {
        ("Georgia"@, "serif"@)
    } else if has_substring(lower, "script"@) || has_substring(lower, "cursive"@)
        || has_substring(lower, "hand"@) {
        ("Georgia"@, "cursive"@)
    } else if has_substring(lower, "display"@) || has_substring(lower, "decorative"@) {
        ("Impact"@, "display"@)
    } else {
        ("Arial"@, "sans-serif"@)
    }
}

/// Guesses fallback family and generic category from a font name.
pub fn guess_font_category(name: &str) -> (r: (&'static str, &'static str))
    ensures
        r.0@ == category_of(name@).0,
        r.1@ == category_of(name@).1,
{
    let lower = to_chars(to_lowercase(name).as_str());
    if contains_chars(&lower, &to_chars("mono")) || contains_chars(&lower, &to_chars("code"))
        || contains_chars(&lower, &to_chars("console")) || contains_chars(
        &lower,
        &to_chars("courier"),
    ) {
        ("Courier New", "monospace")
    } else if contains_chars(&lower, &to_chars("serif")) && !contains_chars(
        &lower,
        &to_chars("sans"),
    ) {
        ("Georgia", "serif")
    } else if contains_chars(&lower, &to_chars("script")) || contains_chars(
        &lower,
        &to_chars("cursive"),
    ) || contains_chars(&lower, &to_chars("hand")) {
        ("Georgia", "cursive")
    } else if contains_chars(&lower, &to_chars("display")) || contains_chars(
        &lower,
        &to_chars("decorative"),
    ) {
        ("Impact", "display")
    } else {
        ("Arial", "sans-serif")
    }
}

/// The families to fall back on for a family of the given category, the
/// family itself first.
pub open spec fn fallback_stack_for(family: Seq<char>, category: Seq<char>) -> Seq<Seq<char>> {
    if category == "serif"@ {
        seq![family, "Georgia"@, "Times New Roman"@, "serif"@]
    } else if category == "monospace"@ {
        seq![family, "Consolas"@, "Courier New"@, "monospace"@]
    } else if category == "cursive"@ || category == "handwriting"@ {
        seq![family, "Georgia"@, "cursive"@]
    } else if category == "display"@ {
        seq![family, "Impact"@, "Arial Black"@, "sans-serif"@]
    } else {
        seq![family, "Helvetica"@, "Arial"@, "sans-serif"@]
    }
}

/// The families to fall back on for a family, by its guessed category.
pub open spec fn fallback_stack(family: Seq<char>) -> Seq<Seq<char>> {
    fallback_stack_for(family, category_of(family).1)
}

fn stack_of(a: &str, b: &str, c: &str) -> (v: Vec<String>)
    ensures
        texts(v@) == seq![a@, b@, c@],
{
    let mut v: Vec<String> = Vec::new();
    v.push(a.to_string());
    v.push(b.to_string());
    v.push(c.to_string());
    assert(texts(v@) =~= seq![a@, b@, c@]);
    v
}

fn stack_of_four(a: &str, b: &str, c: &str, d: &str) -> (v: Vec<String>)
    ensures
        texts(v@) == seq![a@, b@, c@, d@],
{
    let mut v: Vec<String> = Vec::new();
    v.push(a.to_string());
    v.push(b.to_string());
    v.push(c.to_string());
    v.push(d.to_string());
    assert(texts(v@) =~= seq![a@, b@, c@, d@]);
    v
}

/// Lists the families to fall back on for a family of the given category.
pub fn get_fallback_stack_with_category(family: &str, category: &str) -> (stack: Vec<String>)
    ensures
        texts(stack@) == fallback_stack_for(family@, category@),
{
    if same_text(category, "serif") {
        stack_of_four(family, "Georgia", "Times New Roman", "serif")
    } else if same_text(category, "monospace") {
        stack_of_four(family, "Consolas", "Courier New", "monospace")
    } else if same_text(category, "cursive") || same_text(category, "handwriting") {
        stack_of(family, "Georgia", "cursive")
    } else if same_text(category, "display") {
        stack_of_four(family, "Impact", "Arial Black", "sans-serif")
    } else {
        stack_of_four(family, "Helvetica", "Arial", "sans-serif")
    }
}

/// Lists the families to fall back on for a family.
pub fn get_fallback_stack(family: &str) -> (stack: Vec<String>)
    ensures
        texts(stack@) == fallback_stack(family@),
{
    let (_, category) = guess_font_category(family);
    get_fallback_stack_with_category(family, category)
}

/// The generic stylesheet font stack of a category.
pub open spec fn generic_css_stack(category: Seq<char>) -> Seq<char> {
    if category == "serif"@ {
        "Georgia, 'Times New Roman', Times, serif"@
    } else if category == "monospace"@ {
        "'Courier New', Consolas, monospace"@
    } else if category == "cursive"@ {
        "Georgia, cursive"@
    } else if category == "display"@ {
        "Impact, 'Arial Black', sans-serif"@
    } else {
        "Arial, Helvetica, sans-serif"@
    }
}

/// The generic stylesheet font stack of a category.
pub fn get_generic_css_stack(category: &str) -> (stack: &'static str)
    ensures
        stack@ == generic_css_stack(category@),
{
    if same_text(category, "serif") {
        "Georgia, 'Times New Roman', Times, serif"
    } else if same_text(category, "monospace") {
        "'Courier New', Consolas, monospace"
    } else if same_text(category, "cursive") {
        "Georgia, cursive"
    } else if same_text(category, "display") {
        "Impact, 'Arial Black', sans-serif"
    } else {
        "Arial, Helvetica, sans-serif"
    }
}

/// The address of the Google Fonts stylesheet for a family in one weight.
pub fn build_google_font_url(family: &str, weight: u16) -> (url: String)
    ensures
        url@ == css_url(family@, decimal(weight as nat)),
{
    let mut w = String::new();
    push_decimal(&mut w, weight as u64);
    assert(w@ =~= decimal(weight as nat));
    build_css_url(family, w.as_str())
}

/// A family name in single quotes, as a stylesheet names it.
pub open spec fn quoted(family: Seq<char>) -> Seq<char> {
    seq!['\''] + family + seq!['\'']
}

fn quote(family: &str) -> (q: String)
    ensures
        q@ == quoted(family@),
{
    let mut q = String::new();
    push_char(&mut q, '\'');
    q.append(family);
    push_char(&mut q, '\'');
    assert(q@ =~= quoted(family@));
    q
}

/// The match with a system font of the given family.
pub open spec fn system_match(family: Seq<char>, confidence: Fixed) -> FontMatchModel {
    FontMatchModel {
        family,
        source: FontSource::System,
        confidence,
        css_family: quoted(family),
        google_url: None,
        fallback_stack: fallback_stack(family),
    }
}

/// The match with a Google font.
pub open spec fn google_match(
    family: Seq<char>,
    category: Seq<char>,
    weight: u16,
    confidence: Fixed,
) -> FontMatchModel {
    FontMatchModel {
        family,
        source: FontSource::Google,
        confidence,
        css_family: quoted(family),
        google_url: Some(css_url(family, decimal(weight as nat))),
        fallback_stack: fallback_stack_for(family, category),
    }
}

/// The match that is given where no font is found: the fallback family of
/// the guessed category, with little confidence.
pub open spec fn fallback_match(family: Seq<char>) -> FontMatchModel {
    FontMatchModel {
        family: category_of(family).0,
        source: FontSource::System,
        confidence: Fixed { micros: 300_000 },
        css_family: generic_css_stack(category_of(family).1),
        google_url: None,
        fallback_stack: seq![category_of(family).0],
    }
}

fn make_system_match(family: &str, confidence: Fixed) -> (m: FontMatch)
    ensures
        m@ == system_match(family@, confidence),
{
    FontMatch {
        family: family.to_string(),
        source: FontSource::System,
        confidence,
        css_family: quote(family),
        google_url: None,
        fallback_stack: get_fallback_stack(family),
    }
}

fn make_google_match(font: &GoogleFont, weight: u16, confidence: Fixed) -> (m: FontMatch)
    ensures
        m@ == google_match(font.family@, font.category@, weight, confidence),
{
    FontMatch {
        family: font.family.clone(),
        source: FontSource::Google,
        confidence,
        css_family: quote(font.family.as_str()),
        google_url: Some(build_google_font_url(font.family.as_str(), weight)),
        fallback_stack: get_fallback_stack_with_category(
            font.family.as_str(),
            font.category.as_str(),
        ),
    }
}

/// Makes the match that is given where no font is found.
pub fn create_fallback_match(family: &str) -> (m: FontMatch)
    ensures
        m@ == fallback_match(family@),
{
    let (fallback, category) = guess_font_category(family);
    let mut stack: Vec<String> = Vec::new();
    stack.push(fallback.to_string());
    assert(texts(stack@) =~= seq![fallback@]);
    FontMatch {
        family: fallback.to_string(),
        source: FontSource::System,
        confidence: Fixed::from_micros(300_000),
        css_family: get_generic_css_stack(category).to_string(),
        google_url: None,
        fallback_stack: stack,
    }
}

/// The families of a list of system fonts.
pub open spec fn system_families(fonts: Seq<FontInfo>) -> Seq<Seq<char>> {
    Seq::new(fonts.len(), |i: int| fonts[i].family@)
}

/// The first position from `from` on of a family that equals `family` but
/// for the case of its letters.
pub open spec fn first_same_family(families: Seq<Seq<char>>, family: Seq<char>, from: int) -> Option<
    int,
>
    decreases families.len() - from,
{
    if from < 0 || from >= families.len() {
        None
    } else if lowercase(families[from]) == lowercase(family) {
        Some(from)
    } else {
        first_same_family(families, family, from + 1)
    }
}

/// Finds the system font of the given family, the case of letters aside.
pub fn find_exact_system_match(family: &str, fonts: &[FontInfo]) -> (r: Option<FontMatch>)
    ensures
        match first_same_family(system_families(fonts@), family@, 0) {
            Some(i) => r matches Some(m) && m@ == system_match(
                fonts@[i].family@,
                Fixed::spec_one(),
            ),
            None => r is None,
        },
{
    let family_lower = to_lowercase(family);
    let mut i: usize = 0;
    while i < fonts.len()
        invariant
            i <= fonts.len(),
            family_lower@ == lowercase(family@),
            first_same_family(system_families(fonts@), family@, 0) == first_same_family(
                system_families(fonts@),
                family@,
                i as int,
            ),
        decreases fonts.len() - i,
    {
        assert(system_families(fonts@)[i as int] == fonts@[i as int].family@);
        if to_lowercase(fonts[i].family.as_str()) == family_lower {
            return Some(make_system_match(fonts[i].family.as_str(), Fixed::one()));
        }
        i += 1;
    }
    None
}

/// The position of the family most like the query among those at least as
/// like it as the threshold asks, the first of several that are equally
/// alike; each family is compared in its comparable form.
pub open spec fn best_fuzzy(query: Seq<char>, families: Seq<Seq<char>>, threshold: Fixed) -> Option<
    int,
>
    decreases families.len(),
{
    if families.len() == 0 {
        None
    } else {
        let rest = best_fuzzy(query, families.drop_last(), threshold);
        let sim = name_similarity(query, comparable(families.last()));
        if sim.micros >= threshold.micros && (rest is None || sim.micros > name_similarity(
            query,
            comparable(families[rest.unwrap()]),
        ).micros) {
            Some(families.len() - 1)
        } else {
            rest
        }
    }
}

/// The best fuzzy position lies within the list.
pub proof fn lemma_best_fuzzy_in_range(
    query: Seq<char>,
    families: Seq<Seq<char>>,
    threshold: Fixed,
)
    ensures
        best_fuzzy(query, families, threshold) matches Some(i) ==> 0 <= i < families.len(),
    decreases families.len(),
{
    if families.len() > 0 {
        lemma_best_fuzzy_in_range(query, families.drop_last(), threshold);
    }
}

/// Finds the system font whose family is most like the query, if one is at
/// least as like it as the threshold asks; the confidence is the likeness.
pub fn find_fuzzy_system_match(query: &str, fonts: &[FontInfo], threshold: Fixed) -> (r: Option<
    FontMatch,
>)
    ensures
        match best_fuzzy(query@, system_families(fonts@), threshold) {
            Some(i) => r matches Some(m) && m@ == system_match(
                fonts@[i].family@,
                name_similarity(query@, comparable(fonts@[i].family@)),
            ),
            None => r is None,
        },
{
    let mut best: Option<(Fixed, usize)> = None;
    let mut i: usize = 0;
    let ghost families = system_families(fonts@);
    while i < fonts.len()
        invariant
            i <= fonts.len(),
            families == system_families(fonts@),
            match best {
                Some((sim, at)) => best_fuzzy(query@, families.take(i as int), threshold) == Some(
                    at as int,
                ) && at < i && sim == name_similarity(query@, comparable(families[at as int])),
                None => best_fuzzy(query@, families.take(i as int), threshold) is None,
            },
        decreases fonts.len() - i,
    {
        proof {
            assert(families.take(i + 1).drop_last() =~= families.take(i as int));
            assert(families.take(i + 1).last() == fonts@[i as int].family@);
            match best {
                Some((_, at)) => {
                    assert(families.take(i + 1)[at as int] == families[at as int]);
                },
                None => {},
            }
        }
        let font_normalized = normalize_for_comparison(fonts[i].family.as_str());
        let similarity = calculate_similarity(query, font_normalized.as_str());
        if !similarity.lt(threshold) {
            let better = match best {
                Some((sim, _)) => sim.lt(similarity),
                None => true,
            };
            if better {
                best = Some((similarity, i));
            }
        }
        i += 1;
    }
    assert(families.take(fonts.len() as int) =~= families);
    match best {
        Some((confidence, at)) => Some(make_system_match(fonts[at].family.as_str(), confidence)),
        None => None,
    }
}

/// The families of a list of Google fonts.
pub open spec fn google_families(fonts: Seq<GoogleFont>) -> Seq<Seq<char>> {
    Seq::new(fonts.len(), |i: int| fonts[i].family@)
}

/// The first position from `from` on of a family whose comparable form is
/// the query.
pub open spec fn first_comparable(families: Seq<Seq<char>>, query: Seq<char>, from: int) -> Option<
    int,
>
    decreases families.len() - from,
{
    if from < 0 || from >= families.len() {
        None
    } else if comparable(families[from]) == query {
        Some(from)
    } else {
        first_comparable(families, query, from + 1)
    }
}

/// The bound of likeness for a fuzzy match with a Google font: 0.7.
pub open spec fn google_threshold() -> Fixed {
    Fixed { micros: 700_000 }
}

/// The confidence of an exact match with a Google font: 0.95.
pub open spec fn google_exact_confidence() -> Fixed {
    Fixed { micros: 950_000 }
}

/// The factor by which a fuzzy match with a Google font counts less: 0.9.
pub open spec fn fuzzy_discount() -> Fixed {
    Fixed { micros: 900_000 }
}

/// The match with a Google font for a normalized query: the first font whose
/// comparable family is the query, with a confidence of 0.95; else the font
/// most like the query, if any is at least 0.7 alike, with nine tenths of the
/// likeness as confidence.
pub open spec fn google_choice(
    query: Seq<char>,
    fonts: Seq<GoogleFont>,
    weight: u16,
) -> Option<FontMatchModel> {
    match first_comparable(google_families(fonts), query, 0) {
        Some(i) => Some(
            google_match(fonts[i].family@, fonts[i].category@, weight, google_exact_confidence()),
        ),
        None => match best_fuzzy(query, google_families(fonts), google_threshold()) {
            Some(i) => Some(
                google_match(
                    fonts[i].family@,
                    fonts[i].category@,
                    weight,
                    name_similarity(query, comparable(fonts[i].family@)).spec_times(
                        fuzzy_discount(),
                    ),
                ),
            ),
            None => None,
        },
    }
}

/// Finds the Google font for a normalized query.
pub fn find_google_match(
    _family: &str,
    query_normalized: &str,
    fonts: &[GoogleFont],
    weight: u16,
    _is_italic: bool,
) -> (r: Option<FontMatch>)
    ensures
        match google_choice(query_normalized@, fonts@, weight) {
            Some(m) => r matches Some(found) && found@ == m,
            None => r is None,
        },
{
    let mut best: Option<(Fixed, usize)> = None;
    let mut i: usize = 0;
    let ghost families = google_families(fonts@);
    let threshold = Fixed::from_micros(700_000);
    while i < fonts.len()
        invariant
            i <= fonts.len(),
            families == google_families(fonts@),
            threshold == google_threshold(),
            first_comparable(families, query_normalized@, 0) == first_comparable(
                families,
                query_normalized@,
                i as int,
            ),
            match best {
                Some((sim, at)) => best_fuzzy(query_normalized@, families.take(i as int), threshold)
                    == Some(at as int) && at < i && sim == name_similarity(
                    query_normalized@,
                    comparable(families[at as int]),
                ),
                None => best_fuzzy(query_normalized@, families.take(i as int), threshold) is None,
            },
        decreases fonts.len() - i,
    {
        proof {
            assert(families[i as int] == fonts@[i as int].family@);
            assert(families.take(i + 1).drop_last() =~= families.take(i as int));
            assert(families.take(i + 1).last() == fonts@[i as int].family@);
            match best {
                Some((_, at)) => {
                    assert(families.take(i + 1)[at as int] == families[at as int]);
                },
                None => {},
            }
        }
        let font_normalized = normalize_for_comparison(fonts[i].family.as_str());
        if same_text(font_normalized.as_str(), query_normalized) {
            return Some(make_google_match(&fonts[i], weight, Fixed::from_micros(950_000)));
        }
        let similarity = calculate_similarity(query_normalized, font_normalized.as_str());
        if !similarity.lt(threshold) {
            let better = match best {
                Some((sim, _)) => sim.lt(similarity),
                None => true,
            };
            if better {
                best = Some((similarity, i));
            }
        }
        i += 1;
    }
    assert(families.take(fonts.len() as int) =~= families);
    match best {
        Some((confidence, at)) => Some(
            make_google_match(&fonts[at], weight, confidence.times(Fixed::from_micros(900_000))),
        ),
        None => None,
    }
}

/// The bound of likeness for a fuzzy match with a system font: 0.8.
pub open spec fn system_threshold() -> Fixed {
    Fixed { micros: 800_000 }
}

/// The best match for a font name: a system font of the parsed family, else
/// the system font most like the comparable form of the name, else a Google
/// font, else the fallback of the guessed category.
pub open spec fn best_match(
    query: Seq<char>,
    system_fonts: Seq<FontInfo>,
    google_fonts: Seq<GoogleFont>,
    weight: u16,
) -> FontMatchModel {
    let family = parsed(query).family;
    let normalized = comparable(query);
    let families = system_families(system_fonts);
    match first_same_family(families, family, 0) {
        Some(i) => system_match(system_fonts[i].family@, Fixed::spec_one()),
        None => match best_fuzzy(normalized, families, system_threshold()) {
            Some(i) => system_match(
                system_fonts[i].family@,
                name_similarity(normalized, comparable(system_fonts[i].family@)),
            ),
            None => match google_choice(normalized, google_fonts, weight) {
                Some(m) => m,
                None => fallback_match(family),
            },
        },
    }
}

/// Finds the best match for a font name.
pub fn find_best_match(
    query: &str,
    system_fonts: &[FontInfo],
    google_fonts: &[GoogleFont],
    weight: u16,
    is_italic: bool,
) -> (m: FontMatch)
    ensures
        m@ == best_match(query@, system_fonts@, google_fonts@, weight),
{
    let parsed = parse_font_name(query);
    let query_normalized = normalize_for_comparison(query);
    match find_exact_system_match(parsed.family.as_str(), system_fonts) {
        Some(m) => {
            return m;
        },
        None => {},
    }
    match find_fuzzy_system_match(
        query_normalized.as_str(),
        system_fonts,
        Fixed::from_micros(800_000),
    ) {
        Some(m) => {
            return m;
        },
        None => {},
    }
    match find_google_match(
        parsed.family.as_str(),
        query_normalized.as_str(),
        google_fonts,
        weight,
        is_italic,
    ) {
        Some(m) => {
            return m;
        },
        None => {},
    }
    create_fallback_match(parsed.family.as_str())
}

} // verus!
