//! Checking extracted text against recognized text: similarity of texts,
//! word by word comparison, and the layers made of recognized lines.

use crate::fixed::Fixed;
use crate::models::{Bounds, LayerObject, LayerRole, LayerType, SourceType, TextAlign};
use crate::text::{
    blank, is_blank, lowercase, push_char, push_decimal, replace, replaced, split_whitespace,
    to_chars, to_lowercase, words,
};
use vstd::prelude::*;

verus! {

broadcast use vstd::string::group_string_axioms;

/// A word that was recognized.
#[derive(Debug, Clone)]
pub struct OcrWord {
    pub text: String,
    pub confidence: Fixed,
    pub bounds: Bounds,
}

/// What was recognized in a region.
#[derive(Debug, Clone)]
pub struct OcrResult {
    pub text: String,
    pub confidence: Fixed,
    pub bounds: Bounds,
    pub words: Vec<OcrWord>,
}

/// How text is recognized.
#[derive(Debug, Clone)]
pub struct OcrConfig {
    pub language: String,
    pub min_confidence: Fixed,
    pub preprocess: bool,
    pub deskew: bool,
    /// The page segmentation mode.
    pub psm: i32,
}

impl Default for OcrConfig {
    fn default() -> (c: Self)
        ensures
            c.language@ == "eng"@,
            c.min_confidence.micros == 500_000,
            c.preprocess,
            !c.deskew,
            c.psm == 3,
    {
        OcrConfig {
            language: "eng".to_string(),
            min_confidence: Fixed::from_micros(500_000),
            preprocess: true,
            deskew: false,
            psm: 3,
        }
    }
}

/// The settings of a recognition engine.
#[derive(Debug, Clone)]
pub struct OcrEngine {
    pub config: OcrConfig,
    pub initialized: bool,
}

impl OcrEngine {
    /// An engine with the default configuration.
    pub fn new() -> (e: OcrEngine)
        ensures
            e.config.language@ == "eng"@,
            e.config.min_confidence.micros == 500_000,
            e.config.preprocess,
            !e.config.deskew,
            e.config.psm == 3,
            !e.initialized,
    {
        OcrEngine { config: OcrConfig::default(), initialized: false }
    }

    /// An engine with the given configuration.
    pub fn with_config(config: OcrConfig) -> (e: OcrEngine)
        ensures
            e.config == config,
            !e.initialized,
    {
        OcrEngine { config, initialized: false }
    }
}

impl Default for OcrEngine {
    fn default() -> (e: Self)
        ensures
            !e.initialized,
    {
        OcrEngine::new()
    }
}

/// How one extracted word compares with the recognized word at its place.
#[derive(Debug, Clone)]
pub struct WordMatch {
    pub extracted: String,
    pub ocr: String,
    pub similarity: Fixed,
    pub is_match: bool,
}

/// How an extracted text compares with what was recognized in its place.
#[derive(Debug, Clone)]
pub struct TextVerification {
    pub extracted_text: String,
    pub ocr_text: String,
    pub ocr_confidence: Fixed,
    pub similarity: Fixed,
    pub needs_correction: bool,
    pub word_matches: Vec<WordMatch>,
}

/// The count of the layers made of recognized lines during one import.
#[derive(Debug, Clone, Copy, PartialEq, Eq, Structural)]
pub struct OcrCounter {
    pub next: usize,
}

impl OcrCounter {
    /// A counter at zero.
    pub fn new() -> (c: OcrCounter)
        ensures
            c.next == 0,
    {
        OcrCounter { next: 0 }
    }

    /// Gives the current count and counts one up; the count wraps around at
    /// the end of `usize`.
    pub fn take(&mut self) -> (n: usize)
        ensures
            n == old(self).next,
            final(self).next == if old(self).next == usize::MAX {
                0
            } else {
                (old(self).next + 1) as usize
            },
    {
        let n = self.next;
        self.next = if n == usize::MAX {
            0
        } else {
            n + 1
        };
        n
    }
}

/// Sets the counter back to zero, as at the start of each import.
pub fn reset_ocr_counter(counter: &mut OcrCounter)
    ensures
        final(counter).next == 0,
{
    counter.next = 0;
}

/// A text with the six HTML entities `&amp;`, `&lt;`, `&gt;`, `&quot;`,
/// `&#39;` and `&nbsp;` replaced, in this order, by what they stand for.
pub open spec fn html_decoded(s: Seq<char>) -> Seq<char> {
    replaced(
        replaced(
            replaced(
                replaced(replaced(replaced(s, "&amp;"@, "&"@), "&lt;"@, "<"@), "&gt;"@, ">"@),
                "&quot;"@,
                "\""@,
            ),
            "&#39;"@,
            "'"@,
        ),
        "&nbsp;"@,
        " "@,
    )
}

/// Decodes the HTML entities of a recognized word.
pub fn html_decode(s: &str) -> (out: String)
    ensures
        out@ == html_decoded(s@),
{
    proof {
        reveal_strlit("&amp;");
        reveal_strlit("&lt;");
        reveal_strlit("&gt;");
        reveal_strlit("&quot;");
        reveal_strlit("&#39;");
        reveal_strlit("&nbsp;");
    }
    let a = replace(s, "&amp;", "&");
    let b = replace(a.as_str(), "&lt;", "<");
    let c = replace(b.as_str(), "&gt;", ">");
    let d = replace(c.as_str(), "&quot;", "\"");
    let e = replace(d.as_str(), "&#39;", "'");
    replace(e.as_str(), "&nbsp;", " ")
}

/// The least of three numbers.
pub open spec fn min3(a: nat, b: nat, c: nat) -> nat {
    if a <= b && a <= c {
        a
    } else if b <= c {
        b
    } else {
        c
    }
}

/// The edit distance of two texts: the least number of characters to insert,
/// delete or replace that turns one into the other.
pub open spec fn edit_distance(a: Seq<char>, b: Seq<char>) -> nat
    decreases a.len() + b.len(),
{
    if a.len() == 0 {
        b.len()
    } else if b.len() == 0 {
        a.len()
    } else {
        min3(
            edit_distance(a.drop_last(), b) + 1,
            edit_distance(a, b.drop_last()) + 1,
            edit_distance(a.drop_last(), b.drop_last()) + if a.last() == b.last() {
                0nat
            } else {
                1nat
            },
        )
    }
}

/// The edit distance is at most the length of the longer text.
pub proof fn lemma_edit_distance_bound(a: Seq<char>, b: Seq<char>)
    ensures
        edit_distance(a, b) <= a.len() || edit_distance(a, b) <= b.len(),
    decreases a.len() + b.len(),
{
    if a.len() > 0 && b.len() > 0 {
        lemma_edit_distance_bound(a.drop_last(), b.drop_last());
    }
}

/// The edit distance of a text to itself is zero.
pub proof fn law_edit_distance_self(a: Seq<char>)
    ensures
        edit_distance(a, a) == 0,
    decreases a.len(),
{
    if a.len() > 0 {
        law_edit_distance_self(a.drop_last());
    }
}

fn least(a: usize, b: usize, c: usize) -> (r: usize)
    ensures
        r == min3(a as nat, b as nat, c as nat),
{
    if a <= b && a <= c {
        a
    } else if b <= c {
        b
    } else {
        c
    }
}

fn increased(v: usize, by: usize) -> (r: usize)
    requires
        by <= 1,
    ensures
        v + by <= usize::MAX ==> r == v + by,
        v + by > usize::MAX ==> r == usize::MAX,
{
    if by == 1 && v == usize::MAX {
        usize::MAX
    } else {
        v + by
    }
}

/// Computes the edit distance of two texts, character by character.
pub fn levenshtein_distance(s1: &str, s2: &str) -> (d: usize)
    ensures
        d == edit_distance(s1@, s2@),
{
    let a = to_chars(s1);
    let b = to_chars(s2);
    let m = a.len();
    let n = b.len();
    if m == 0 {
        return n;
    }
    if n == 0 {
        return m;
    }
    let mut row: Vec<usize> = Vec::new();
    let mut j: usize = 0;
    while j < n
        invariant
            j <= n,
            n == b.len(),
            row.len() == j,
            forall|k: int| 0 <= k < j ==> row@[k] == edit_distance(a@.take(0), b@.take(k + 1)),
        decreases n - j,
    {
        row.push(j + 1);
        j += 1;
    }
    let mut i: usize = 0;
    while i < m
        invariant
            i <= m,
            m == a.len(),
            n == b.len(),
            n > 0,
            row.len() == n,
            forall|k: int|
                0 <= k < n ==> row@[k] == edit_distance(a@.take(i as int), b@.take(k + 1)),
        decreases m - i,
    {
        let mut diag: usize = i;
        let mut left: usize = i + 1;
        let mut j: usize = 0;
        while j < n
            invariant
                j <= n,
                i < m,
                m == a.len(),
                n == b.len(),
                row.len() == n,
                diag == edit_distance(a@.take(i as int), b@.take(j as int)),
                left == edit_distance(a@.take(i + 1), b@.take(j as int)),
                forall|k: int|
                    0 <= k < j ==> row@[k] == edit_distance(a@.take(i + 1), b@.take(k + 1)),
                forall|k: int|
                    j <= k < n ==> row@[k] == edit_distance(a@.take(i as int), b@.take(k + 1)),
            decreases n - j,
        {
            let up = row[j];
            let cost: usize = if a[i] == b[j] {
                0
            } else {
                1
            };
            proof {
                let x = a@.take(i + 1);
                let y = b@.take(j + 1);
                assert(x.drop_last() =~= a@.take(i as int));
                assert(y.drop_last() =~= b@.take(j as int));
                assert(x.last() == a@[i as int]);
                assert(y.last() == b@[j as int]);
                lemma_edit_distance_bound(x, y);
            }
            let v = least(increased(up, 1), increased(left, 1), increased(diag, cost));
            row.set(j, v);
            diag = up;
            left = v;
            j += 1;
        }
        i += 1;
    }
    assert(a@.take(m as int) =~= a@);
    assert(b@.take(n as int) =~= b@);
    row[n - 1]
}

/// The number of bytes of the UTF-8 form of a text.
pub open spec fn byte_len(s: Seq<char>) -> nat {
    vstd::utf8::encode_utf8(s).len()
}

/// How alike two texts are, from 0 to 1: two empty texts are alike, an
/// empty and a non-empty text are not at all, and otherwise the edit distance
/// of the lower-case forms is set against the byte length of the longer one.
pub open spec fn similarity(s1: Seq<char>, s2: Seq<char>) -> Fixed {
    if s1.len() == 0 && s2.len() == 0 {
        Fixed::spec_one()
    } else if s1.len() == 0 || s2.len() == 0 {
        Fixed::spec_zero()
    } else {
        let l1 = lowercase(s1);
        let l2 = lowercase(s2);
        let longer = if byte_len(l1) >= byte_len(l2) {
            byte_len(l1)
        } else {
            byte_len(l2)
        };
        Fixed::spec_one().spec_minus(
            Fixed::spec_from_int(edit_distance(l1, l2) as int).spec_over(
                Fixed::spec_from_int(longer as int),
            ),
        )
    }
}

fn byte_count(s: &str) -> (n: usize)
    ensures
        n == byte_len(s@),
{
    s.as_bytes().len()
}

fn count_as_fixed(n: usize) -> (r: Fixed)
    ensures
        r == Fixed::spec_from_int(n as int),
{
    let wide: u64 = n as u64;
    if wide > 0x7fff_ffff_ffff_ffff {
        Fixed::largest()
    } else {
        Fixed::from_int(wide as i64)
    }
}

/// Computes how alike two texts are.
pub fn calculate_similarity(s1: &str, s2: &str) -> (r: Fixed)
    ensures
        r == similarity(s1@, s2@),
{
    if s1.is_empty() && s2.is_empty() {
        return Fixed::one();
    }
    if s1.is_empty() || s2.is_empty() {
        return Fixed::zero();
    }
    let s1_lower = to_lowercase(s1);
    let s2_lower = to_lowercase(s2);
    let distance = levenshtein_distance(s1_lower.as_str(), s2_lower.as_str());
    let len1 = byte_count(s1_lower.as_str());
    let len2 = byte_count(s2_lower.as_str());
    let max_len = if len1 >= len2 {
        len1
    } else {
        len2
    };
    Fixed::one().minus(count_as_fixed(distance).over(count_as_fixed(max_len)))
}

/// The bound above which two words count as the same: 0.8.
pub open spec fn match_bound() -> Fixed {
    Fixed { micros: 800_000 }
}

/// The text at position `i`, or the empty text beyond the end.
pub open spec fn word_at(list: Seq<Seq<char>>, i: int) -> Seq<char> {
    if 0 <= i < list.len() {
        list[i]
    } else {
        Seq::empty()
    }
}

/// The texts of recognized words.
pub open spec fn word_texts(ocr_words: Seq<OcrWord>) -> Seq<Seq<char>> {
    Seq::new(ocr_words.len(), |i: int| ocr_words[i].text@)
}

/// `m` compares the `i`-th extracted word with the `i`-th recognized word,
/// an empty text standing for what is missing on either side.
pub open spec fn is_word_match(
    m: WordMatch,
    extracted: Seq<Seq<char>>,
    recognized: Seq<Seq<char>>,
    i: int,
) -> bool {
    &&& m.extracted@ == word_at(extracted, i)
    &&& m.ocr@ == word_at(recognized, i)
    &&& m.similarity == similarity(word_at(extracted, i), word_at(recognized, i))
    &&& m.is_match == (m.similarity.micros > match_bound().micros)
}

/// Compares the words of an extracted text with the recognized words, place
/// by place, as far as the longer of the two goes.
pub fn compare_words(extracted: &str, ocr_words: &[OcrWord]) -> (matches: Vec<WordMatch>)
    ensures
        matches@.len() == if words(extracted@).len() >= ocr_words@.len() {
            words(extracted@).len()
        } else {
            ocr_words@.len()
        },
        forall|i: int|
            0 <= i < matches@.len() ==> is_word_match(
                #[trigger] matches@[i],
                words(extracted@),
                word_texts(ocr_words@),
                i,
            ),
{
    let extracted_words = split_whitespace(extracted);
    let max_len = if extracted_words.len() >= ocr_words.len() {
        extracted_words.len()
    } else {
        ocr_words.len()
    };
    let mut matches: Vec<WordMatch> = Vec::new();
    let mut i: usize = 0;
    while i < max_len
        invariant
            i <= max_len,
            max_len == if extracted_words@.len() >= ocr_words@.len() {
                extracted_words@.len()
            } else {
                ocr_words@.len()
            },
            extracted_words@.len() == words(extracted@).len(),
            forall|k: int|
                0 <= k < extracted_words@.len() ==> (#[trigger] extracted_words@[k])@ == words(
                    extracted@,
                )[k],
            matches@.len() == i,
            forall|k: int|
                0 <= k < i ==> is_word_match(
                    #[trigger] matches@[k],
                    words(extracted@),
                    word_texts(ocr_words@),
                    k,
                ),
        decreases max_len - i,
    {
        let ext: String = if i < extracted_words.len() {
            extracted_words[i].clone()
        } else {
            String::new()
        };
        let ocr: String = if i < ocr_words.len() {
            ocr_words[i].text.clone()
        } else {
            String::new()
        };
        let sim = calculate_similarity(ext.as_str(), ocr.as_str());
        let is_match = Fixed::from_micros(800_000).lt(sim);
        matches.push(WordMatch { extracted: ext, ocr, similarity: sim, is_match });
        i += 1;
    }
    matches
}

/// The similarity below which an extracted text is doubted: 0.8.
pub open spec fn doubt_bound() -> Fixed {
    Fixed { micros: 800_000 }
}

/// The confidence above which a recognized text is believed: 0.7.
pub open spec fn trust_bound() -> Fixed {
    Fixed { micros: 700_000 }
}

/// Sets an extracted text against what was recognized in its place: the text
/// needs correction where the two are less alike than 0.8 while the
/// recognition is more confident than 0.7.
pub fn verify_against(extracted_text: &str, ocr_result: &OcrResult) -> (v: TextVerification)
    ensures
        v.extracted_text@ == extracted_text@,
        v.ocr_text@ == ocr_result.text@,
        v.ocr_confidence == ocr_result.confidence,
        v.similarity == similarity(extracted_text@, ocr_result.text@),
        v.needs_correction == (v.similarity.micros < doubt_bound().micros
            && ocr_result.confidence.micros > trust_bound().micros),
        v.word_matches@.len() == if words(extracted_text@).len() >= ocr_result.words@.len() {
            words(extracted_text@).len()
        } else {
            ocr_result.words@.len()
        },
        forall|i: int|
            0 <= i < v.word_matches@.len() ==> is_word_match(
                #[trigger] v.word_matches@[i],
                words(extracted_text@),
                word_texts(ocr_result.words@),
                i,
            ),
{
    let sim = calculate_similarity(extracted_text, ocr_result.text.as_str());
    TextVerification {
        extracted_text: extracted_text.to_string(),
        ocr_text: ocr_result.text.clone(),
        ocr_confidence: ocr_result.confidence,
        similarity: sim,
        needs_correction: sim.lt(Fixed::from_micros(800_000)) && Fixed::from_micros(700_000).lt(
            ocr_result.confidence,
        ),
        word_matches: compare_words(extracted_text, ocr_result.words.as_slice()),
    }
}

/// The confidence above which a recognized text replaces an extracted one:
/// 0.8.
pub open spec fn replace_bound() -> Fixed {
    Fixed { micros: 800_000 }
}

/// Puts the recognized text in place of the content of a layer, where the
/// verification asks for a correction and the recognition is more confident
/// than 0.8; else the layer stays as it is.
pub fn correct_text_with_ocr(layer: &mut LayerObject, verification: &TextVerification)
    ensures
        verification.needs_correction && verification.ocr_confidence.micros > replace_bound().micros
            ==> final(layer)@ == (crate::models::LayerModel {
            content: Some(verification.ocr_text@),
            ..old(layer)@
        }),
        !(verification.needs_correction && verification.ocr_confidence.micros
            > replace_bound().micros) ==> final(layer)@ == old(layer)@,
{
    if verification.needs_correction && Fixed::from_micros(800_000).lt(
        verification.ocr_confidence,
    ) {
        layer.content = Some(verification.ocr_text.clone());
    }
}

/// The texts of the words, with one space between each two.
pub open spec fn line_text(words: Seq<OcrWord>) -> Seq<char>
    decreases words.len(),
{
    if words.len() == 0 {
        Seq::empty()
    } else if words.len() == 1 {
        words[0].text@
    } else {
        line_text(words.drop_last()) + seq![' '] + words.last().text@
    }
}

/// The box around the words: from the least left and top edge, counted down
/// from the largest number, to the largest right and bottom edge, counted up
/// from zero.
pub struct LineExtent {
    pub min_x: Fixed,
    pub min_y: Fixed,
    pub max_x: Fixed,
    pub max_y: Fixed,
    pub heights: Fixed,
}

/// The extent of a line of words and the sum of their heights.
pub open spec fn line_extent(words: Seq<OcrWord>) -> LineExtent
    decreases words.len(),
{
    if words.len() == 0 {
        LineExtent {
            min_x: Fixed::spec_largest(),
            min_y: Fixed::spec_largest(),
            max_x: Fixed::spec_zero(),
            max_y: Fixed::spec_zero(),
            heights: Fixed::spec_zero(),
        }
    } else {
        let e = line_extent(words.drop_last());
        let b = words.last().bounds;
        LineExtent {
            min_x: e.min_x.spec_min(b.x),
            min_y: e.min_y.spec_min(b.y),
            max_x: e.max_x.spec_max(b.x.spec_plus(b.width)),
            max_y: e.max_y.spec_max(b.y.spec_plus(b.height)),
            heights: e.heights.spec_plus(b.height),
        }
    }
}

/// The z-order of the layer with the running number `idx`.
pub open spec fn z_of(idx: int) -> int {
    if idx > i32::MAX {
        i32::MAX as int
    } else {
        idx
    }
}

/// The text layer that stands for a recognized line, all measures brought
/// from the scale of the image to that of the page: the box around the words,
/// and a font size from their mean height, held between 8 and 72.
pub open spec fn line_layer(
    words: Seq<OcrWord>,
    page_index: nat,
    scale: Fixed,
    idx: nat,
) -> crate::models::LayerModel {
    let e = line_extent(words);
    let mean = e.heights.spec_over(Fixed::spec_from_int(words.len() as int));
    crate::models::LayerModel {
        id: crate::content_parser::layer_id("ocr"@, page_index, idx),
        layer_type: LayerType::Text,
        bounds: Bounds {
            x: e.min_x.spec_over(scale),
            y: e.min_y.spec_over(scale),
            width: e.max_x.spec_minus(e.min_x).spec_over(scale),
            height: e.max_y.spec_minus(e.min_y).spec_over(scale),
        },
        visible: true,
        locked: false,
        z_index: z_of(idx as int),
        opacity: Fixed::spec_one(),
        content: Some(line_text(words)),
        font_family: Some("Arial"@),
        font_size: Some(
            mean.spec_over(scale).spec_max(Fixed::spec_from_int(8)).spec_min(
                Fixed::spec_from_int(72),
            ),
        ),
        font_weight: Some(400),
        font_style: None,
        color: Some("#000000"@),
        text_align: Some(TextAlign::Left),
        text_decoration: None,
        text_transform: None,
        line_height: None,
        letter_spacing: None,
        background_color: None,
        image_url: None,
        image_path: None,
        image_data: None,
        shape_type: None,
        stroke_color: None,
        stroke_width: None,
        fill_color: None,
        path_commands: None,
        path_fill_rule: None,
        transform: None,
        source_type: SourceType::Extracted,
        role: LayerRole::Content,
    }
}

fn join_line(words: &[OcrWord]) -> (text: String)
    ensures
        text@ == line_text(words@),
{
    let mut text = String::new();
    let mut i: usize = 0;
    while i < words.len()
        invariant
            i <= words.len(),
            text@ == line_text(words@.take(i as int)),
        decreases words.len() - i,
    {
        proof {
            assert(words@.take(i + 1).drop_last() =~= words@.take(i as int));
            assert(words@.take(i + 1).last() == words@[i as int]);
            if i == 0 {
                assert(words@.take(1)[0] == words@[0]);
            }
        }
        if i > 0 {
            push_char(&mut text, ' ');
        }
        text.append(words[i].text.as_str());
        assert(text@ =~= line_text(words@.take(i + 1)));
        i += 1;
    }
    assert(words@.take(words.len() as int) =~= words@);
    text
}

/// Makes the text layer of a recognized line and counts the counter up.
/// There is no layer, and the counter stays, for a line without words or
/// with blank text.
pub fn create_line_layer(
    words: &[OcrWord],
    page_index: usize,
    scale: Fixed,
    counter: &mut OcrCounter,
) -> (r: Option<LayerObject>)
    ensures
        words@.len() == 0 || blank(line_text(words@)) ==> r is None && *final(counter) == *old(
            counter,
        ),
        !(words@.len() == 0 || blank(line_text(words@))) ==> (r matches Some(layer) && layer@
            == line_layer(words@, page_index as nat, scale, old(counter).next as nat))
            && final(counter).next == if old(counter).next == usize::MAX {
            0
        } else {
            (old(counter).next + 1) as usize
        },
{
    if words.len() == 0 {
        return None;
    }
    let text = join_line(words);
    if is_blank(text.as_str()) {
        return None;
    }
    let mut min_x = Fixed::largest();
    let mut min_y = Fixed::largest();
    let mut max_x = Fixed::zero();
    let mut max_y = Fixed::zero();
    let mut heights = Fixed::zero();
    let mut i: usize = 0;
    while i < words.len()
        invariant
            i <= words.len(),
            (LineExtent { min_x, min_y, max_x, max_y, heights }) == line_extent(
                words@.take(i as int),
            ),
        decreases words.len() - i,
    {
        proof {
            assert(words@.take(i + 1).drop_last() =~= words@.take(i as int));
            assert(words@.take(i + 1).last() == words@[i as int]);
        }
        let b = words[i].bounds;
        min_x = min_x.min(b.x);
        min_y = min_y.min(b.y);
        max_x = max_x.max(b.x.plus(b.width));
        max_y = max_y.max(b.y.plus(b.height));
        heights = heights.plus(b.height);
        i += 1;
    }
    assert(words@.take(words.len() as int) =~= words@);
    let avg_height = heights.over(count_as_fixed(words.len()));
    let idx = counter.take();
    let mut id = "ocr".to_string();
    push_char(&mut id, '-');
    push_decimal(&mut id, page_index as u64);
    push_char(&mut id, '-');
    push_decimal(&mut id, idx as u64);
    assert(id@ =~= crate::content_parser::layer_id("ocr"@, page_index as nat, idx as nat));
    let z_index: i32 = if idx > 0x7fff_ffff {
        0x7fff_ffff
    } else {
        idx as i32
    };
    Some(
        LayerObject {
            id,
            layer_type: LayerType::Text,
            bounds: Bounds::new(
                min_x.over(scale),
                min_y.over(scale),
                max_x.minus(min_x).over(scale),
                max_y.minus(min_y).over(scale),
            ),
            visible: true,
            locked: false,
            z_index,
            opacity: Fixed::one(),
            content: Some(text),
            font_family: Some("Arial".to_string()),
            font_size: Some(avg_height.over(scale).max(Fixed::from_int(8)).min(Fixed::from_int(72))),
            font_weight: Some(400),
            font_style: None,
            color: Some("#000000".to_string()),
            text_align: Some(TextAlign::Left),
            text_decoration: None,
            text_transform: None,
            line_height: None,
            letter_spacing: None,
            background_color: None,
            image_url: None,
            image_path: None,
            image_data: None,
            shape_type: None,
            stroke_color: None,
            stroke_width: None,
            fill_color: None,
            path_data: None,
            transform: None,
            source_type: SourceType::Extracted,
            role: LayerRole::Content,
        },
    )
}

/// A number cut to a whole and held within the range of `u32`: what is below
/// zero is zero.
pub open spec fn cut_u32(v: Fixed) -> u32 {
    let t = v.spec_trunc();
    if t < 0 {
        0
    } else if t > u32::MAX {
        u32::MAX
    } else {
        t as u32
    }
}

fn cut_to_u32(v: Fixed) -> (r: u32)
    ensures
        r == cut_u32(v),
{
    let t = v.trunc();
    if t < 0 {
        0
    } else if t > 0xffff_ffff {
        0xffff_ffff
    } else {
        t as u32
    }
}

/// The extent of a crop along one axis: the extent asked for, at most what
/// the image has left from the start, and at least one pixel.
pub open spec fn crop_extent(asked: Fixed, start: u32, image_extent: u32) -> u32 {
    let room = if image_extent >= start {
        (image_extent - start) as u32
    } else {
        0
    };
    let fitted = if cut_u32(asked) <= room {
        cut_u32(asked)
    } else {
        room
    };
    if fitted < 1 {
        1
    } else {
        fitted
    }
}

/// The message for a region that is too small.
pub open spec fn too_small() -> Seq<char> {
    "Region too small for OCR"@
}

/// The pixels of an image that a region covers, as left, top, width and
/// height. A region under two pixels either way is refused.
pub fn crop_rect(region: &Bounds, image_width: u32, image_height: u32) -> (r: Result<
    (u32, u32, u32, u32),
    String,
>)
    ensures
        ({
            let x = cut_u32(region.x.spec_max(Fixed::spec_zero()));
            let y = cut_u32(region.y.spec_max(Fixed::spec_zero()));
            let w = crop_extent(region.width, x, image_width);
            let h = crop_extent(region.height, y, image_height);
            if w < 2 || h < 2 {
                r matches Err(msg) && msg@ == too_small()
            } else {
                r == Ok::<(u32, u32, u32, u32), String>((x, y, w, h))
            }
        }),
{
    let x = cut_to_u32(region.x.max(Fixed::zero()));
    let y = cut_to_u32(region.y.max(Fixed::zero()));
    let w = fit_extent(cut_to_u32(region.width), x, image_width);
    let h = fit_extent(cut_to_u32(region.height), y, image_height);
    if w < 2 || h < 2 {
        return Err("Region too small for OCR".to_string());
    }
    Ok((x, y, w, h))
}

fn fit_extent(asked: u32, start: u32, image_extent: u32) -> (r: u32)
    ensures
        r == ({
            let room = if image_extent >= start {
                (image_extent - start) as u32
            } else {
                0
            };
            let fitted = if asked <= room {
                asked
            } else {
                room
            };
            if fitted < 1 {
                1u32
            } else {
                fitted
            }
        }),
{
    let room = if image_extent >= start {
        image_extent - start
    } else {
        0
    };
    let fitted = if asked <= room {
        asked
    } else {
        room
    };
    if fitted < 1 {
        1
    } else {
        fitted
    }
}

/// Gray levels made black and white: white above the threshold, else black.
pub open spec fn binarized(pixels: Seq<u8>, threshold: u8) -> Seq<u8> {
    Seq::new(
        pixels.len(),
        |i: int|
            if pixels[i] > threshold {
                255u8
            } else {
                0u8
            },
    )
}

/// Makes gray levels black and white.
pub fn binarize(pixels: &mut Vec<u8>, threshold: u8)
    ensures
        final(pixels)@ == binarized(old(pixels)@, threshold),
{
    let mut i: usize = 0;
    while i < pixels.len()
        invariant
            i <= pixels.len(),
            pixels@.len() == old(pixels)@.len(),
            forall|k: int| 0 <= k < i ==> pixels@[k] == binarized(old(pixels)@, threshold)[k],
            forall|k: int| i <= k < pixels@.len() ==> pixels@[k] == old(pixels)@[k],
        decreases pixels.len() - i,
    {
        let v: u8 = if pixels[i] > threshold {
            255
        } else {
            0
        };
        pixels.set(i, v);
        i += 1;
    }
    assert(pixels@ =~= binarized(old(pixels)@, threshold));
}


/// How often each gray level occurs among the pixels; a count is held at the
/// end of 32 bits.
pub open spec fn histogram_of(pixels: Seq<u8>) -> Seq<u32>
    decreases pixels.len(),
{
    if pixels.len() == 0 {
        Seq::new(256, |i: int| 0u32)
    } else {
        let h = histogram_of(pixels.drop_last());
        let level = pixels.last() as int;
        h.update(
            level,
            if h[level] == u32::MAX {
                u32::MAX
            } else {
                (h[level] + 1) as u32
            },
        )
    }
}

/// The histogram has one count for each gray level.
pub proof fn lemma_histogram_len(pixels: Seq<u8>)
    ensures
        histogram_of(pixels).len() == 256,
    decreases pixels.len(),
{
    if pixels.len() > 0 {
        lemma_histogram_len(pixels.drop_last());
    }
}

/// Counts how often each gray level occurs.
pub fn histogram(pixels: &[u8]) -> (h: Vec<u32>)
    ensures
        h@ == histogram_of(pixels@),
        h@.len() == 256,
{
    let mut h: Vec<u32> = Vec::new();
    let mut k: usize = 0;
    while k < 256
        invariant
            k <= 256,
            h@.len() == k,
            forall|j: int| 0 <= j < k ==> h@[j] == 0u32,
        decreases 256 - k,
    {
        h.push(0);
        k += 1;
    }
    assert(h@ =~= histogram_of(pixels@.take(0)));
    let mut i: usize = 0;
    while i < pixels.len()
        invariant
            i <= pixels.len(),
            h@.len() == 256,
            h@ == histogram_of(pixels@.take(i as int)),
        decreases pixels.len() - i,
    {
        proof {
            assert(pixels@.take(i + 1).drop_last() =~= pixels@.take(i as int));
            assert(pixels@.take(i + 1).last() == pixels@[i as int]);
        }
        let level = pixels[i] as usize;
        let count = h[level];
        h.set(
            level,
            if count == 0xffff_ffff {
                0xffff_ffff
            } else {
                count + 1
            },
        );
        i += 1;
    }
    assert(pixels@.take(pixels.len() as int) =~= pixels@);
    h
}

/// The state of the grouping of recognized words into lines.
pub struct Grouping {
    /// The lines that are finished.
    pub lines: Seq<Seq<OcrWord>>,
    /// The words of the line that is being read.
    pub current: Seq<OcrWord>,
    /// The top of the word before, if there was one.
    pub last_y: Option<Fixed>,
}

/// How far apart the tops of two words are.
pub open spec fn distance(a: Fixed, b: Fixed) -> Fixed {
    a.spec_minus(b).spec_abs()
}

/// The grouping after the given words: words of too little confidence are
/// left out, and a word whose top is further from that of the word before
/// than the threshold starts a new line.
pub open spec fn grouped(words: Seq<OcrWord>, min_confidence: Fixed, threshold: Fixed) -> Grouping
    decreases words.len(),
{
    if words.len() == 0 {
        Grouping { lines: Seq::empty(), current: Seq::empty(), last_y: None }
    } else {
        let g = grouped(words.drop_last(), min_confidence, threshold);
        let word = words.last();
        if word.confidence.micros < min_confidence.micros {
            g
        } else {
            let breaks = g.last_y is Some && distance(word.bounds.y, g.last_y.unwrap()).micros
                > threshold.micros && g.current.len() > 0;
            Grouping {
                lines: if breaks {
                    g.lines.push(g.current)
                } else {
                    g.lines
                },
                current: if breaks {
                    seq![word]
                } else {
                    g.current.push(word)
                },
                last_y: Some(word.bounds.y),
            }
        }
    }
}

/// The lines of the given words: the finished lines and the one that was
/// being read at the end, unless it is empty.
pub open spec fn lines_of(words: Seq<OcrWord>, min_confidence: Fixed, threshold: Fixed) -> Seq<
    Seq<OcrWord>,
> {
    let g = grouped(words, min_confidence, threshold);
    if g.current.len() > 0 {
        g.lines.push(g.current)
    } else {
        g.lines
    }
}

/// The words of each line of a list of lines.
pub open spec fn line_views(lines: Seq<Vec<OcrWord>>) -> Seq<Seq<OcrWord>> {
    Seq::new(lines.len(), |i: int| lines[i]@)
}

fn copy_word(word: &OcrWord) -> (r: OcrWord)
    ensures
        r == *word,
{
    OcrWord { text: word.text.clone(), confidence: word.confidence, bounds: word.bounds }
}

/// The distance of the tops of two words, in pixels of an image at scale 1,
/// from which on they stand on different lines: 10.
pub open spec fn line_gap() -> Fixed {
    Fixed::spec_from_int(10)
}

/// Groups recognized words into lines, in reading order.
pub fn group_lines(words: &[OcrWord], min_confidence: Fixed, scale: Fixed) -> (lines: Vec<
    Vec<OcrWord>,
>)
    ensures
        line_views(lines@) == lines_of(words@, min_confidence, line_gap().spec_times(scale)),
{
    let line_threshold = Fixed::from_int(10).times(scale);
    let mut lines: Vec<Vec<OcrWord>> = Vec::new();
    let mut current_line: Vec<OcrWord> = Vec::new();
    let mut last_y: Option<Fixed> = None;
    let mut i: usize = 0;
    assert(line_views(lines@) =~= Seq::<Seq<OcrWord>>::empty());
    while i < words.len()
        invariant
            i <= words.len(),
            line_threshold == line_gap().spec_times(scale),
            (Grouping { lines: line_views(lines@), current: current_line@, last_y }) == grouped(
                words@.take(i as int),
                min_confidence,
                line_threshold,
            ),
        decreases words.len() - i,
    {
        proof {
            assert(words@.take(i + 1).drop_last() =~= words@.take(i as int));
            assert(words@.take(i + 1).last() == words@[i as int]);
        }
        let word = &words[i];
        if !word.confidence.lt(min_confidence) {
            let word_y = word.bounds.y;
            let breaks = match last_y {
                Some(ly) => line_threshold.lt(word_y.minus(ly).abs()) && current_line.len() > 0,
                None => false,
            };
            if breaks {
                let ghost before = line_views(lines@);
                let ghost done = current_line@;
                lines.push(current_line);
                assert(line_views(lines@) =~= before.push(done));
                current_line = Vec::new();
            }
            current_line.push(copy_word(word));
            last_y = Some(word_y);
        }
        i += 1;
    }
    assert(words@.take(words.len() as int) =~= words@);
    if current_line.len() > 0 {
        let ghost before = line_views(lines@);
        let ghost done = current_line@;
        lines.push(current_line);
        assert(line_views(lines@) =~= before.push(done));
    }
    lines
}

/// The layers of the given lines: a line without text gives none, and each
/// other takes its number from the counter.
pub open spec fn line_layers(
    lines: Seq<Seq<OcrWord>>,
    page_index: nat,
    scale: Fixed,
    start: OcrCounter,
) -> (Seq<crate::models::LayerModel>, OcrCounter)
    decreases lines.len(),
{
    if lines.len() == 0 {
        (Seq::empty(), start)
    } else {
        let st = line_layers(lines.drop_last(), page_index, scale, start);
        let line = lines.last();
        if line.len() == 0 || blank(line_text(line)) {
            st
        } else {
            (
                st.0.push(line_layer(line, page_index, scale, st.1.next as nat)),
                OcrCounter {
                    next: if st.1.next == usize::MAX {
                        0
                    } else {
                        (st.1.next + 1) as usize
                    },
                },
            )
        }
    }
}

/// Turns the recognized words of a page into text layers, one for each line.
pub fn words_to_layers(
    words: &[OcrWord],
    min_confidence: Fixed,
    page_index: usize,
    scale: Fixed,
    counter: &mut OcrCounter,
) -> (layers: Vec<LayerObject>)
    ensures
        ({
            let lines = lines_of(words@, min_confidence, line_gap().spec_times(scale));
            let made = line_layers(lines, page_index as nat, scale, *old(counter));
            crate::content_parser::views(layers@) == made.0 && *final(counter) == made.1
        }),
{
    let lines = group_lines(words, min_confidence, scale);
    let ghost all = line_views(lines@);
    let mut layers: Vec<LayerObject> = Vec::new();
    let mut i: usize = 0;
    assert(crate::content_parser::views(layers@) =~= Seq::<crate::models::LayerModel>::empty());
    while i < lines.len()
        invariant
            i <= lines.len(),
            all == line_views(lines@),
            (crate::content_parser::views(layers@), *counter) == line_layers(
                all.take(i as int),
                page_index as nat,
                scale,
                *old(counter),
            ),
        decreases lines.len() - i,
    {
        proof {
            assert(all.take(i + 1).drop_last() =~= all.take(i as int));
            assert(all.take(i + 1).last() == lines@[i as int]@);
        }
        match create_line_layer(lines[i].as_slice(), page_index, scale, counter) {
            Some(layer) => {
                let ghost before = crate::content_parser::views(layers@);
                let ghost made = layer@;
                layers.push(layer);
                assert(crate::content_parser::views(layers@) =~= before.push(made));
            },
            None => {},
        }
        i += 1;
    }
    assert(all.take(lines.len() as int) =~= all);
    layers
}

/// The bounds of a layer at the scale of a rendered page.
pub open spec fn scaled(bounds: Bounds, scale: Fixed) -> Bounds {
    Bounds {
        x: bounds.x.spec_times(scale),
        y: bounds.y.spec_times(scale),
        width: bounds.width.spec_times(scale),
        height: bounds.height.spec_times(scale),
    }
}

/// Brings bounds to the scale of a rendered page.
pub fn scale_bounds(bounds: &Bounds, scale: Fixed) -> (r: Bounds)
    ensures
        r == scaled(*bounds, scale),
{
    Bounds::new(
        bounds.x.times(scale),
        bounds.y.times(scale),
        bounds.width.times(scale),
        bounds.height.times(scale),
    )
}

} // verus!
