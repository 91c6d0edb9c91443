//! The Google Fonts catalogue: a list of popular fonts to fall back on,
//! stylesheet parsing, and search.

use crate::fixed::Fixed;
use crate::font_manager::matcher::{calculate_similarity, name_similarity};
use crate::font_manager::normalizer::{comparable, normalize_for_comparison};
use crate::font_manager::GoogleFont;
use crate::sorting::{is_stable_order, stable_order};
use crate::text::{
    decimal, from_chars, push_decimal, strip_leading, texts, to_chars, trim_chars, trimmed,
    without_leading, without_leading_char,
};
use vstd::prelude::*;

verus! {

broadcast use vstd::string::group_string_axioms;

/// The number of popular fonts.
pub open spec fn popular_count() -> int {
    38
}

/// The `i`-th popular font: its family, its weights, and its category. The
/// weights are a set of hundreds: bit `k` stands for the weight
/// `100 · (k + 1)`.
pub open spec fn popular_font(i: int) -> (Seq<char>, u16, Seq<char>) {
    if i == 0 {
        ("Roboto"@, 349, "sans-serif"@)
    } else if i == 1 {
        ("Open Sans"@, 236, "sans-serif"@)
    } else if i == 2 {
        ("Lato"@, 333, "sans-serif"@)
    } else if i == 3 {
        ("Montserrat"@, 511, "sans-serif"@)
    } else if i == 4 {
        ("Poppins"@, 511, "sans-serif"@)
    } else if i == 5 {
        ("Inter"@, 511, "sans-serif"@)
    } else if i == 6 {
        ("Oswald"@, 126, "sans-serif"@)
    } else if i == 7 {
        ("Raleway"@, 511, "sans-serif"@)
    } else if i == 8 {
        ("Nunito"@, 494, "sans-serif"@)
    } else if i == 9 {
        ("Ubuntu"@, 92, "sans-serif"@)
    } else if i == 10 {
        ("Playfair Display"@, 504, "serif"@)
    } else if i == 11 {
        ("Merriweather"@, 332, "serif"@)
    } else if i == 12 {
        ("Lora"@, 120, "serif"@)
    } else if i == 13 {
        ("PT Serif"@, 72, "serif"@)
    } else if i == 14 {
        ("Noto Serif"@, 72, "serif"@)
    } else if i == 15 {
        ("Source Code Pro"@, 382, "monospace"@)
    } else if i == 16 {
        ("Fira Code"@, 124, "monospace"@)
    } else if i == 17 {
        ("JetBrains Mono"@, 255, "monospace"@)
    } else if i == 18 {
        ("Roboto Mono"@, 127, "monospace"@)
    } else if i == 19 {
        ("Dancing Script"@, 120, "handwriting"@)
    } else if i == 20 {
        ("Pacifico"@, 8, "handwriting"@)
    } else if i == 21 {
        ("Caveat"@, 120, "handwriting"@)
    } else if i == 22 {
        ("Bebas Neue"@, 8, "display"@)
    } else if i == 23 {
        ("Abril Fatface"@, 8, "display"@)
    } else if i == 24 {
        ("Lobster"@, 8, "display"@)
    } else if i == 25 {
        ("Quicksand"@, 124, "sans-serif"@)
    } else if i == 26 {
        ("Work Sans"@, 511, "sans-serif"@)
    } else if i == 27 {
        ("Rubik"@, 508, "sans-serif"@)
    } else if i == 28 {
        ("Noto Sans"@, 511, "sans-serif"@)
    } else if i == 29 {
        ("Barlow"@, 511, "sans-serif"@)
    } else if i == 30 {
        ("Mulish"@, 510, "sans-serif"@)
    } else if i == 31 {
        ("Libre Baskerville"@, 72, "serif"@)
    } else if i == 32 {
        ("Crimson Text"@, 104, "serif"@)
    } else if i == 33 {
        ("Source Sans Pro"@, 366, "sans-serif"@)
    } else if i == 34 {
        ("Cabin"@, 120, "sans-serif"@)
    } else if i == 35 {
        ("Arimo"@, 120, "sans-serif"@)
    } else if i == 36 {
        ("Tinos"@, 72, "serif"@)
    } else {
        ("Cousine"@, 72, "monospace"@)
    }
}

fn popular_font_at(i: usize) -> (r: (&'static str, u16, &'static str))
    requires
        i < 38,
    ensures
        r.0@ == popular_font(i as int).0,
        r.1 == popular_font(i as int).1,
        r.2@ == popular_font(i as int).2,
{
    if i == 0 {
        ("Roboto", 349, "sans-serif")
    } else if i == 1 {
        ("Open Sans", 236, "sans-serif")
    } else if i == 2 {
        ("Lato", 333, "sans-serif")
    } else if i == 3 {
        ("Montserrat", 511, "sans-serif")
    } else if i == 4 {
        ("Poppins", 511, "sans-serif")
    } else if i == 5 {
        ("Inter", 511, "sans-serif")
    } else if i == 6 {
        ("Oswald", 126, "sans-serif")
    } else if i == 7 {
        ("Raleway", 511, "sans-serif")
    } else if i == 8 {
        ("Nunito", 494, "sans-serif")
    } else if i == 9 {
        ("Ubuntu", 92, "sans-serif")
    } else if i == 10 {
        ("Playfair Display", 504, "serif")
    } else if i == 11 {
        ("Merriweather", 332, "serif")
    } else if i == 12 {
        ("Lora", 120, "serif")
    } else if i == 13 {
        ("PT Serif", 72, "serif")
    } else if i == 14 {
        ("Noto Serif", 72, "serif")
    } else if i == 15 {
        ("Source Code Pro", 382, "monospace")
    } else if i == 16 {
        ("Fira Code", 124, "monospace")
    } else if i == 17 {
        ("JetBrains Mono", 255, "monospace")
    } else if i == 18 {
        ("Roboto Mono", 127, "monospace")
    } else if i == 19 {
        ("Dancing Script", 120, "handwriting")
    } else if i == 20 {
        ("Pacifico", 8, "handwriting")
    } else if i == 21 {
        ("Caveat", 120, "handwriting")
    } else if i == 22 {
        ("Bebas Neue", 8, "display")
    } else if i == 23 {
        ("Abril Fatface", 8, "display")
    } else if i == 24 {
        ("Lobster", 8, "display")
    } else if i == 25 {
        ("Quicksand", 124, "sans-serif")
    } else if i == 26 {
        ("Work Sans", 511, "sans-serif")
    } else if i == 27 {
        ("Rubik", 508, "sans-serif")
    } else if i == 28 {
        ("Noto Sans", 511, "sans-serif")
    } else if i == 29 {
        ("Barlow", 511, "sans-serif")
    } else if i == 30 {
        ("Mulish", 510, "sans-serif")
    } else if i == 31 {
        ("Libre Baskerville", 72, "serif")
    } else if i == 32 {
        ("Crimson Text", 104, "serif")
    } else if i == 33 {
        ("Source Sans Pro", 366, "sans-serif")
    } else if i == 34 {
        ("Cabin", 120, "sans-serif")
    } else if i == 35 {
        ("Arimo", 120, "sans-serif")
    } else if i == 36 {
        ("Tinos", 72, "serif")
    } else {
        ("Cousine", 72, "monospace")
    }
}

/// Whether the set of weights `mask` holds the weight `100 · (k + 1)`.
pub open spec fn has_weight(mask: u16, k: int) -> bool {
    (mask as int / pow2(k)) % 2 == 1
}

/// Two to the power of `k`, for `k` up to 9.
pub open spec fn pow2(k: int) -> int {
    if k <= 0 {
        1
    } else if k == 1 {
        2
    } else if k == 2 {
        4
    } else if k == 3 {
        8
    } else if k == 4 {
        16
    } else if k == 5 {
        32
    } else if k == 6 {
        64
    } else if k == 7 {
        128
    } else if k == 8 {
        256
    } else {
        512
    }
}

/// The names of the weights of `mask` among the first `upto` hundreds, in
/// ascending order.
pub open spec fn variant_names(mask: u16, upto: int) -> Seq<Seq<char>>
    decreases upto,
{
    if upto <= 0 {
        Seq::empty()
    } else if has_weight(mask, upto - 1) {
        variant_names(mask, upto - 1).push(decimal((100 * upto) as nat))
    } else {
        variant_names(mask, upto - 1)
    }
}

fn power_of_two(k: usize) -> (p: u16)
    requires
        k < 9,
    ensures
        p == pow2(k as int),
{
    if k == 0 {
        1
    } else if k == 1 {
        2
    } else if k == 2 {
        4
    } else if k == 3 {
        8
    } else if k == 4 {
        16
    } else if k == 5 {
        32
    } else if k == 6 {
        64
    } else if k == 7 {
        128
    } else {
        256
    }
}

fn variants_of(mask: u16) -> (v: Vec<String>)
    ensures
        texts(v@) == variant_names(mask, 9),
{
    let mut v: Vec<String> = Vec::new();
    let mut k: usize = 0;
    assert(texts(v@) =~= variant_names(mask, 0));
    while k < 9
        invariant
            k <= 9,
            texts(v@) == variant_names(mask, k as int),
        decreases 9 - k,
    {
        if (mask / power_of_two(k)) % 2 == 1 {
            let mut name = String::new();
            push_decimal(&mut name, (100 * (k + 1)) as u64);
            assert(name@ =~= decimal((100 * (k + 1)) as nat));
            let ghost before = texts(v@);
            v.push(name);
            assert(texts(v@) =~= before.push(decimal((100 * (k + 1)) as nat)));
        }
        k += 1;
    }
    v
}

/// `font` is the `i`-th popular font: family, weights and category are those
/// of the list, the only subset is `latin`, and neither version nor files
/// are known.
pub open spec fn is_popular(font: GoogleFont, i: int) -> bool {
    &&& font.family@ == popular_font(i).0
    &&& texts(font.variants@) == variant_names(popular_font(i).1, 9)
    &&& texts(font.subsets@) == seq!["latin"@]
    &&& font.category@ == popular_font(i).2
    &&& font.version is None
    &&& font.files@.len() == 0
}

/// The popular fonts, for use where the catalogue cannot be had.
pub fn get_popular_fonts() -> (fonts: Vec<GoogleFont>)
    ensures
        fonts@.len() == popular_count(),
        forall|i: int| 0 <= i < fonts@.len() ==> is_popular(#[trigger] fonts@[i], i),
{
    let mut fonts: Vec<GoogleFont> = Vec::new();
    let mut i: usize = 0;
    while i < 38
        invariant
            i <= 38,
            fonts@.len() == i,
            forall|k: int| 0 <= k < fonts@.len() ==> is_popular(#[trigger] fonts@[k], k),
        decreases 38 - i,
    {
        let (family, mask, category) = popular_font_at(i);
        let mut subsets: Vec<String> = Vec::new();
        subsets.push("latin".to_string());
        assert(texts(subsets@) =~= seq!["latin"@]);
        fonts.push(
            GoogleFont {
                family: family.to_string(),
                variants: variants_of(mask),
                subsets,
                category: category.to_string(),
                version: None,
                files: Vec::new(),
            },
        );
        i += 1;
    }
    fonts
}

/// What `Regex::new(pattern)` and `Regex::captures(text)` of the
/// `regex-lite` crate give for the capture group of the given number in the
/// first match: nothing where the pattern does not compile, nothing matches,
/// the pattern has no such group, or the group takes no part in the match.
pub uninterp spec fn regex_group(pattern: Seq<char>, text: Seq<char>, group: usize) -> Option<
    Seq<char>,
>;

/// `regex_lite::Regex::new`, then `Regex::captures` and `Captures::get`:
/// the text of the capture group of the given number in the first match. The
/// outcome depends on the two texts and the number alone.
#[verifier::external_body]
pub(crate) fn regex_capture(pattern: &str, text: &str, group: usize) -> (r: Option<String>)
    ensures
        match r {
            Some(g) => regex_group(pattern@, text@, group) == Some(g@),
            None => regex_group(pattern@, text@, group) is None,
        },
{
    let re = regex_lite::Regex::new(pattern).ok()?;
    re.captures(text).and_then(|cap| cap.get(group)).map(|m| m.as_str().to_string())
}

/// A text without every `c` at its start and at its end.
pub open spec fn unwrapped(s: Seq<char>, c: char) -> Seq<char> {
    crate::text::without_trailing(without_leading_char(s, c), c)
}

fn unwrap_chars(v: Vec<char>, c: char) -> (r: Vec<char>)
    ensures
        r@ == unwrapped(v@, c),
{
    let mut from: usize = 0;
    assert(v@.skip(0) =~= v@);
    while from < v.len() && v[from] == c
        invariant
            from <= v.len(),
            without_leading_char(v@, c) == without_leading_char(v@.skip(from as int), c),
        decreases v.len() - from,
    {
        assert(v@.skip(from as int).skip(1) =~= v@.skip(from + 1));
        from += 1;
    }
    let mut to: usize = v.len();
    assert(v@.subrange(from as int, v.len() as int) =~= v@.skip(from as int));
    while to > from && v[to - 1] == c
        invariant
            from <= to <= v.len(),
            without_leading_char(v@, c) == v@.skip(from as int),
            crate::text::without_trailing(v@.skip(from as int), c) == crate::text::without_trailing(
                v@.subrange(from as int, to as int),
                c,
            ),
        decreases to,
    {
        assert(v@.subrange(from as int, to as int).drop_last() =~= v@.subrange(
            from as int,
            to - 1,
        ));
        to -= 1;
    }
    let mut r: Vec<char> = Vec::new();
    let mut i: usize = from;
    while i < to
        invariant
            from <= i <= to <= v.len(),
            r@ == v@.subrange(from as int, i as int),
        decreases to - i,
    {
        r.push(v[i]);
        assert(r@ =~= v@.subrange(from as int, i + 1));
        i += 1;
    }
    r
}

/// The pattern of a font file address in a stylesheet.
pub open spec fn font_url_pattern() -> Seq<char> {
    "url\\(([^)]+\\.(?:woff2?|ttf|otf))\\)"@
}

/// The address of the first font file that a stylesheet names, without the
/// quotes around it: the first capture group of the pattern.
pub open spec fn font_url_in(css: Seq<char>) -> Option<Seq<char>> {
    match regex_group(font_url_pattern(), css, 1) {
        Some(g) => Some(unwrapped(unwrapped(g, '"'), '\'')),
        None => None,
    }
}

/// Finds the address of a font file in a stylesheet.
pub fn extract_font_url_from_css(css: &str) -> (r: Option<String>)
    ensures
        match r {
            Some(url) => font_url_in(css@) == Some(url@),
            None => font_url_in(css@) is None,
        },
{
    match regex_capture("url\\(([^)]+\\.(?:woff2?|ttf|otf))\\)", css, 1) {
        Some(g) => {
            let a = unwrap_chars(to_chars(g.as_str()), '"');
            let b = unwrap_chars(a, '\'');
            let url = from_chars(&b, 0, b.len());
            assert(b@.subrange(0, b.len() as int) =~= b@);
            Some(url)
        },
        None => None,
    }
}

/// The likeness above which a font is a search hit: 0.3.
pub open spec fn hit_bound() -> Fixed {
    Fixed { micros: 300_000 }
}

/// How well the font at position `i` answers a normalized query.
pub open spec fn score(query: Seq<char>, fonts: Seq<GoogleFont>, i: int) -> Fixed {
    name_similarity(query, comparable(fonts[i].family@))
}

/// The positions of the search hits, in catalogue order.
pub open spec fn hits(query: Seq<char>, fonts: Seq<GoogleFont>, upto: int) -> Seq<usize>
    decreases upto,
{
    if upto <= 0 {
        Seq::empty()
    } else if score(query, fonts, upto - 1).micros > hit_bound().micros {
        hits(query, fonts, upto - 1).push((upto - 1) as usize)
    } else {
        hits(query, fonts, upto - 1)
    }
}

/// The sorting key of a score: its negation, so that ascending keys are
/// descending scores.
pub open spec fn score_key(s: Fixed) -> i64 {
    if s.micros == i64::MIN {
        i64::MAX
    } else {
        (-s.micros) as i64
    }
}

/// The keys of the hits.
pub open spec fn hit_keys(query: Seq<char>, fonts: Seq<GoogleFont>) -> Seq<i64> {
    let h = hits(query, fonts, fonts.len() as int);
    Seq::new(h.len(), |k: int| score_key(score(query, fonts, h[k] as int)))
}

/// `ranking` lists positions of fonts that answer the query: the hits by
/// descending score, hits of the same score in catalogue order, cut off
/// after `limit`.
pub open spec fn is_ranking(
    ranking: Seq<usize>,
    query: Seq<char>,
    fonts: Seq<GoogleFont>,
    limit: nat,
) -> bool {
    let h = hits(query, fonts, fonts.len() as int);
    exists|order: Seq<usize>|
        {
            &&& #[trigger] is_stable_order(order, hit_keys(query, fonts))
            &&& ranking.len() == if h.len() <= limit {
                h.len()
            } else {
                limit
            }
            &&& forall|k: int| 0 <= k < ranking.len() ==> #[trigger] ranking[k] == h[order[k] as int]
        }
}

/// Every hit is a position of the catalogue.
pub proof fn lemma_hits_in_range(query: Seq<char>, fonts: Seq<GoogleFont>, upto: int)
    requires
        upto <= fonts.len() <= usize::MAX,
    ensures
        forall|k: int|
            0 <= k < hits(query, fonts, upto).len() ==> (#[trigger] hits(query, fonts, upto)[k])
                < upto,
    decreases upto,
{
    if upto > 0 {
        lemma_hits_in_range(query, fonts, upto - 1);
        let before = hits(query, fonts, upto - 1);
        assert forall|k: int| 0 <= k < hits(query, fonts, upto).len() implies (#[trigger] hits(
            query,
            fonts,
            upto,
        )[k]) < upto by {
            if k < before.len() {
                assert(hits(query, fonts, upto)[k] == before[k]);
            }
        }
    }
}

/// Ranks the fonts of a catalogue against a query: the positions of the
/// fonts that answer it, best first.
pub fn rank(query: &str, fonts: &[GoogleFont], limit: usize) -> (ranking: Vec<usize>)
    ensures
        is_ranking(ranking@, comparable(query@), fonts@, limit as nat),
        forall|k: int| 0 <= k < ranking@.len() ==> (#[trigger] ranking@[k]) < fonts@.len(),
{
    let query_normalized = normalize_for_comparison(query);
    let ghost q = comparable(query@);
    let mut found: Vec<usize> = Vec::new();
    let mut keys: Vec<i64> = Vec::new();
    let mut i: usize = 0;
    while i < fonts.len()
        invariant
            i <= fonts.len(),
            query_normalized@ == q,
            found@ == hits(q, fonts@, i as int),
            keys@.len() == found@.len(),
            forall|k: int|
                0 <= k < keys@.len() ==> (#[trigger] keys@[k]) == score_key(
                    score(q, fonts@, found@[k] as int),
                ),
        decreases fonts.len() - i,
    {
        let font_normalized = normalize_for_comparison(fonts[i].family.as_str());
        let s = calculate_similarity(query_normalized.as_str(), font_normalized.as_str());
        if Fixed::from_micros(300_000).lt(s) {
            found.push(i);
            keys.push(
                if s.micros == i64::MIN {
                    i64::MAX
                } else {
                    -s.micros
                },
            );
        }
        i += 1;
    }
    proof {
        lemma_hits_in_range(q, fonts@, fonts@.len() as int);
        assert(keys@ =~= hit_keys(q, fonts@));
    }
    let order = stable_order(&keys);
    let count = if found.len() <= limit {
        found.len()
    } else {
        limit
    };
    let mut ranking: Vec<usize> = Vec::new();
    let mut k: usize = 0;
    while k < count
        invariant
            k <= count <= found@.len(),
            is_stable_order(order@, keys@),
            keys@.len() == found@.len(),
            ranking@.len() == k,
            forall|j: int| 0 <= j < k ==> (#[trigger] ranking@[j]) == found@[order@[j] as int],
        decreases count - k,
    {
        ranking.push(found[order[k]]);
        k += 1;
    }
    ranking
}

/// The body of the catalogue as the metadata service sends it: without the
/// guard `)]}'` at its start, and without white space around it.
pub open spec fn metadata_body(text: Seq<char>) -> Seq<char> {
    trimmed(without_leading(text, ")]}'"@))
}

/// Takes the guard and the white space off what the metadata service sent.
pub fn metadata_json(text: &str) -> (body: String)
    ensures
        body@ == metadata_body(text@),
{
    let rest = strip_leading(&to_chars(text), &to_chars(")]}'"));
    let body = trim_chars(&rest);
    let out = from_chars(&body, 0, body.len());
    assert(body@.subrange(0, body.len() as int) =~= body@);
    out
}

/// A font of the catalogue as the metadata service describes it: with the
/// names of its faces as variants, in the category `sans-serif` where none
/// is told, and without version and files.
pub fn catalogue_font(
    family: String,
    faces: Vec<String>,
    subsets: Vec<String>,
    category: Option<String>,
) -> (font: GoogleFont)
    ensures
        font.family == family,
        font.variants == faces,
        font.subsets == subsets,
        font.category@ == match category {
            Some(c) => c@,
            None => "sans-serif"@,
        },
        font.version is None,
        font.files@.len() == 0,
{
    GoogleFont {
        family,
        variants: faces,
        subsets,
        category: match category {
            Some(c) => c,
            None => "sans-serif".to_string(),
        },
        version: None,
        files: Vec::new(),
    }
}

} // verus!
