//! Parsing and cleaning font names.

use crate::font_manager::{FontWidth, ParsedFontName};
use crate::text::{
    chars_from, contains_chars, ends_with, find_char, first_index, from_chars, has_substring,
    has_suffix, joined_with, lowercase, occurs, push_char, replace, replaced,
    split_whitespace, to_chars, to_lowercase, trim, trimmed, without_trailing, words,
};
use vstd::prelude::*;

verus! {

broadcast use vstd::string::group_string_axioms;

/// What `Regex::new(pattern)` and `Regex::replace_all(text, replacement)` of
/// the `regex-lite` crate give: the text with every match of the pattern
/// replaced, or nothing where the pattern does not compile.
pub uninterp spec fn regex_replaced(
    pattern: Seq<char>,
    text: Seq<char>,
    replacement: Seq<char>,
) -> Option<Seq<char>>;

/// What `char::to_uppercase` gives: the upper-case form of a character,
/// which can be more than one character.
pub uninterp spec fn uppercase_of(c: char) -> Seq<char>;

/// `regex_lite::Regex::new`, then `Regex::replace_all`: nothing for a
/// pattern that does not compile, else the text after the replacement. The
/// outcome depends on the three texts alone.
#[verifier::external_body]
pub(crate) fn regex_replace_all(pattern: &str, text: &str, replacement: &str) -> (r: Option<
    String,
>)
    ensures
        match r {
            Some(out) => regex_replaced(pattern@, text@, replacement@) == Some(out@),
            None => regex_replaced(pattern@, text@, replacement@) is None,
        },
{
    match regex_lite::Regex::new(pattern) {
        Ok(re) => Some(re.replace_all(text, replacement).into_owned()),
        Err(_) => None,
    }
}

/// `char::to_uppercase`, collected: the characters of the upper-case form.
#[verifier::external_body]
pub(crate) fn to_uppercase_chars(c: char) -> (r: Vec<char>)
    ensures
        r@ == uppercase_of(c),
{
    c.to_uppercase().collect()
}

/// The text after a replacement by pattern; the text itself where the
/// pattern does not compile.
pub open spec fn rewritten(pattern: Seq<char>, text: Seq<char>, replacement: Seq<char>) -> Seq<
    char,
> {
    match regex_replaced(pattern, text, replacement) {
        Some(out) => out,
        None => text,
    }
}

fn rewrite(pattern: &str, text: &str, replacement: &str) -> (out: String)
    ensures
        out@ == rewritten(pattern@, text@, replacement@),
{
    match regex_replace_all(pattern, text, replacement) {
        Some(out) => out,
        None => text.to_string(),
    }
}

/// Whether a character is an upper-case ASCII letter.
pub open spec fn ascii_upper(c: char) -> bool {
    'A' <= c && c <= 'Z'
}

/// Whether a name starts with a subset prefix: six upper-case ASCII letters
/// and then the first `+` of the name.
pub open spec fn has_subset_prefix(name: Seq<char>) -> bool {
    &&& occurs(name, '+')
    &&& first_index(name, '+') == 6
    &&& forall|i: int| 0 <= i < 6 ==> ascii_upper(#[trigger] name[i])
}

/// A name without its subset prefix, if it has one.
pub open spec fn without_subset_prefix(name: Seq<char>) -> Seq<char> {
    if has_subset_prefix(name) {
        name.skip(7)
    } else {
        name
    }
}

/// Takes the subset prefix off a font name.
pub fn remove_subset_prefix(name: &str) -> (out: String)
    ensures
        out@ == without_subset_prefix(name@),
{
    let chars = to_chars(name);
    match find_char(&chars, '+') {
        Some(pos) => {
            if pos == 6 {
                let mut i: usize = 0;
                while i < 6
                    invariant
                        i <= 6,
                        chars.len() > 6,
                        chars@ == name@,
                        forall|k: int| 0 <= k < i ==> ascii_upper(#[trigger] chars@[k]),
                    decreases 6 - i,
                {
                    let c = chars[i];
                    if !('A' <= c && c <= 'Z') {
                        assert(!ascii_upper(name@[i as int]));
                        return name.to_string();
                    }
                    i += 1;
                }
                let rest = chars_from(&chars, 7);
                let out = from_chars(&rest, 0, rest.len());
                assert(rest@.subrange(0, rest.len() as int) =~= rest@);
                return out;
            }
            name.to_string()
        },
        None => name.to_string(),
    }
}

/// The `i`-th word that names a weight, with the weight that it names. The
/// words are tried in this order.
pub open spec fn weight_word(i: int) -> (Seq<char>, u16) {
    if i == 0 {
        ("ultrathin"@, 50)
    } else if i == 1 {
        ("hairline"@, 100)
    } else if i == 2 {
        ("thin"@, 100)
    } else if i == 3 {
        ("extralight"@, 200)
    } else if i == 4 {
        ("ultralight"@, 200)
    } else if i == 5 {
        ("light"@, 300)
    } else if i == 6 {
        ("semilight"@, 350)
    } else if i == 7 {
        ("regular"@, 400)
    } else if i == 8 {
        ("normal"@, 400)
    } else if i == 9 {
        ("book"@, 400)
    } else if i == 10 {
        ("medium"@, 500)
    } else if i == 11 {
        ("semibold"@, 600)
    } else if i == 12 {
        ("demibold"@, 600)
    } else if i == 13 {
        ("demi"@, 600)
    } else if i == 14 {
        ("bold"@, 700)
    } else if i == 15 {
        ("extrabold"@, 800)
    } else if i == 16 {
        ("ultrabold"@, 800)
    } else if i == 17 {
        ("heavy"@, 800)
    } else if i == 18 {
        ("black"@, 900)
    } else if i == 19 {
        ("extrablack"@, 950)
    } else {
        ("ultrablack"@, 950)
    }
}

/// The number of words that name a weight.
pub open spec fn weight_words() -> int {
    21
}

fn weight_word_at(i: usize) -> (r: (&'static str, u16))
    requires
        i < 21,
    ensures
        r.0@ == weight_word(i as int).0,
        r.1 == weight_word(i as int).1,
{
    if i == 0 {
        ("ultrathin", 50)
    } else if i == 1 {
        ("hairline", 100)
    } else if i == 2 {
        ("thin", 100)
    } else if i == 3 {
        ("extralight", 200)
    } else if i == 4 {
        ("ultralight", 200)
    } else if i == 5 {
        ("light", 300)
    } else if i == 6 {
        ("semilight", 350)
    } else if i == 7 {
        ("regular", 400)
    } else if i == 8 {
        ("normal", 400)
    } else if i == 9 {
        ("book", 400)
    } else if i == 10 {
        ("medium", 500)
    } else if i == 11 {
        ("semibold", 600)
    } else if i == 12 {
        ("demibold", 600)
    } else if i == 13 {
        ("demi", 600)
    } else if i == 14 {
        ("bold", 700)
    } else if i == 15 {
        ("extrabold", 800)
    } else if i == 16 {
        ("ultrabold", 800)
    } else if i == 17 {
        ("heavy", 800)
    } else if i == 18 {
        ("black", 900)
    } else if i == 19 {
        ("extrablack", 950)
    } else {
        ("ultrablack", 950)
    }
}

/// The `i`-th word that names a width, with the width that it names. The
/// words are tried in this order.
pub open spec fn width_word(i: int) -> (Seq<char>, FontWidth) {
    if i == 0 {
        ("ultracondensed"@, FontWidth::UltraCondensed)
    } else if i == 1 {
        ("extracondensed"@, FontWidth::ExtraCondensed)
    } else if i == 2 {
        ("semicondensed"@, FontWidth::SemiCondensed)
    } else if i == 3 {
        ("condensed"@, FontWidth::Condensed)
    } else if i == 4 {
        ("narrow"@, FontWidth::Condensed)
    } else if i == 5 {
        ("compressed"@, FontWidth::Condensed)
    } else if i == 6 {
        ("semiexpanded"@, FontWidth::SemiExpanded)
    } else if i == 7 {
        ("extraexpanded"@, FontWidth::ExtraExpanded)
    } else if i == 8 {
        ("ultraexpanded"@, FontWidth::UltraExpanded)
    } else if i == 9 {
        ("expanded"@, FontWidth::Expanded)
    } else {
        ("wide"@, FontWidth::Expanded)
    }
}

/// The number of words that name a width.
pub open spec fn width_words() -> int {
    11
}

fn width_word_at(i: usize) -> (r: (&'static str, FontWidth))
    requires
        i < 11,
    ensures
        r.0@ == width_word(i as int).0,
        r.1 == width_word(i as int).1,
{
    if i == 0 {
        ("ultracondensed", FontWidth::UltraCondensed)
    } else if i == 1 {
        ("extracondensed", FontWidth::ExtraCondensed)
    } else if i == 2 {
        ("semicondensed", FontWidth::SemiCondensed)
    } else if i == 3 {
        ("condensed", FontWidth::Condensed)
    } else if i == 4 {
        ("narrow", FontWidth::Condensed)
    } else if i == 5 {
        ("compressed", FontWidth::Condensed)
    } else if i == 6 {
        ("semiexpanded", FontWidth::SemiExpanded)
    } else if i == 7 {
        ("extraexpanded", FontWidth::ExtraExpanded)
    } else if i == 8 {
        ("ultraexpanded", FontWidth::UltraExpanded)
    } else if i == 9 {
        ("expanded", FontWidth::Expanded)
    } else {
        ("wide", FontWidth::Expanded)
    }
}

/// The pattern that matches a word in any case, with a hyphen or an
/// underscore on either side if there is one.
pub open spec fn word_pattern(word: Seq<char>) -> Seq<char> {
    "(?i)[-_]?"@ + word + "[-_]?"@
}

fn make_word_pattern(word: &str) -> (p: String)
    ensures
        p@ == word_pattern(word@),
{
    let mut p = "(?i)[-_]?".to_string();
    p.append(word);
    p.append("[-_]?");
    p
}

/// The first weight word from position `from` on that the lower-case name
/// holds, if there is one.
pub open spec fn first_weight_word(lower: Seq<char>, from: int) -> Option<int>
    decreases weight_words() - from,
{
    if from < 0 || from >= weight_words() {
        None
    } else if has_substring(lower, weight_word(from).0) {
        Some(from)
    } else {
        first_weight_word(lower, from + 1)
    }
}

/// The first width word from position `from` on that the lower-case name
/// holds, if there is one.
pub open spec fn first_width_word(lower: Seq<char>, from: int) -> Option<int>
    decreases width_words() - from,
{
    if from < 0 || from >= width_words() {
        None
    } else if has_substring(lower, width_word(from).0) {
        Some(from)
    } else {
        first_width_word(lower, from + 1)
    }
}

/// What a name says of the weight: the name without the first weight word
/// that its lower-case form holds, the weight that the word names, and
/// whether that is bold (700 or more). A name without such a word is of
/// weight 400.
pub open spec fn weight_parts(name: Seq<char>) -> (Seq<char>, u16, bool) {
    match first_weight_word(lowercase(name), 0) {
        Some(i) => (
            trimmed(rewritten(word_pattern(weight_word(i).0), name, Seq::empty())),
            weight_word(i).1,
            weight_word(i).1 >= 700,
        ),
        None => (trimmed(name), 400, false),
    }
}

/// Takes the weight out of a font name.
pub fn extract_weight(name: &str) -> (r: (String, u16, bool))
    ensures
        r.0@ == weight_parts(name@).0,
        r.1 == weight_parts(name@).1,
        r.2 == weight_parts(name@).2,
{
    let lower = to_chars(to_lowercase(name).as_str());
    let mut i: usize = 0;
    while i < 21
        invariant
            i <= 21,
            lower@ == lowercase(name@),
            first_weight_word(lower@, 0) == first_weight_word(lower@, i as int),
        decreases 21 - i,
    {
        let (pattern, w) = weight_word_at(i);
        if contains_chars(&lower, &to_chars(pattern)) {
            let cleaned = rewrite(make_word_pattern(pattern).as_str(), name, "");
            proof {
                assert(""@ =~= Seq::<char>::empty()) by {
                    reveal_strlit("");
                }
            }
            return (trim(cleaned.as_str()), w, w >= 700);
        }
        i += 1;
    }
    (trim(name), 400, false)
}

/// The pattern that matches a word for a slanted style.
pub open spec fn italic_pattern() -> Seq<char> {
    "(?i)[-_]?(italic|oblique|ital)[-_]?"@
}

/// Whether the lower-case form of a name speaks of a slanted style.
pub open spec fn says_italic(name: Seq<char>) -> bool {
    let lower = lowercase(name);
    has_substring(lower, "italic"@) || has_substring(lower, "oblique"@) || has_substring(
        lower,
        "ital"@,
    )
}

/// What a name says of the slant: the name without the words for a slanted
/// style, and whether there was one.
pub open spec fn italic_parts(name: Seq<char>) -> (Seq<char>, bool) {
    if says_italic(name) {
        (trimmed(rewritten(italic_pattern(), name, Seq::empty())), true)
    } else {
        (name, false)
    }
}

/// Takes the slant out of a font name.
pub fn extract_italic(name: &str) -> (r: (String, bool))
    ensures
        r.0@ == italic_parts(name@).0,
        r.1 == italic_parts(name@).1,
{
    let lower = to_chars(to_lowercase(name).as_str());
    let is_italic = contains_chars(&lower, &to_chars("italic")) || contains_chars(
        &lower,
        &to_chars("oblique"),
    ) || contains_chars(&lower, &to_chars("ital"));
    if is_italic {
        proof {
            assert(""@ =~= Seq::<char>::empty()) by {
                reveal_strlit("");
            }
        }
        let cleaned = rewrite("(?i)[-_]?(italic|oblique|ital)[-_]?", name, "");
        (trim(cleaned.as_str()), true)
    } else {
        (name.to_string(), false)
    }
}

/// What a name says of the width: the name without the first width word that
/// its lower-case form holds, and the width that the word names. A name
/// without such a word is of normal width and stays as it is.
pub open spec fn width_parts(name: Seq<char>) -> (Seq<char>, FontWidth) {
    match first_width_word(lowercase(name), 0) {
        Some(i) => (
            trimmed(rewritten(word_pattern(width_word(i).0), name, Seq::empty())),
            width_word(i).1,
        ),
        None => (name, FontWidth::Normal),
    }
}

/// Takes the width out of a font name.
pub fn extract_width(name: &str) -> (r: (String, FontWidth))
    ensures
        r.0@ == width_parts(name@).0,
        r.1 == width_parts(name@).1,
{
    let lower = to_chars(to_lowercase(name).as_str());
    let mut i: usize = 0;
    while i < 11
        invariant
            i <= 11,
            lower@ == lowercase(name@),
            first_width_word(lower@, 0) == first_width_word(lower@, i as int),
        decreases 11 - i,
    {
        let (pattern, width) = width_word_at(i);
        if contains_chars(&lower, &to_chars(pattern)) {
            proof {
                assert(""@ =~= Seq::<char>::empty()) by {
                    reveal_strlit("");
                }
            }
            let cleaned = rewrite(make_word_pattern(pattern).as_str(), name, "");
            return (trim(cleaned.as_str()), width);
        }
        i += 1;
    }
    (name.to_string(), FontWidth::Normal)
}

/// The `i`-th suffix that foundries add to a family name.
pub open spec fn foundry_suffix(i: int) -> Seq<char> {
    if i == 0 {
        "MT"@
    } else if i == 1 {
        "PS"@
    } else if i == 2 {
        "Std"@
    } else if i == 3 {
        "Pro"@
    } else if i == 4 {
        "LT"@
    } else if i == 5 {
        "EF"@
    } else if i == 6 {
        "ITC"@
    } else if i == 7 {
        "BT"@
    } else {
        "Com"@
    }
}

fn foundry_suffix_at(i: usize) -> (r: &'static str)
    requires
        i < 9,
    ensures
        r@ == foundry_suffix(i as int),
{
    if i == 0 {
        "MT"
    } else if i == 1 {
        "PS"
    } else if i == 2 {
        "Std"
    } else if i == 3 {
        "Pro"
    } else if i == 4 {
        "LT"
    } else if i == 5 {
        "EF"
    } else if i == 6 {
        "ITC"
    } else if i == 7 {
        "BT"
    } else {
        "Com"
    }
}

/// A name after one suffix was tried: where the name ends with it, the
/// suffix and the hyphens before it are cut off.
pub open spec fn without_suffix(name: Seq<char>, suffix: Seq<char>) -> Seq<char> {
    if has_suffix(name, suffix) {
        without_trailing(name.take(name.len() - suffix.len()), '-')
    } else {
        name
    }
}

/// A name after the first `count` foundry suffixes were tried, in order.
pub open spec fn without_suffixes(name: Seq<char>, count: int) -> Seq<char>
    decreases count,
{
    if count <= 0 {
        name
    } else {
        without_suffix(without_suffixes(name, count - 1), foundry_suffix(count - 1))
    }
}

/// A text with every hyphen and underscore turned into a space.
pub open spec fn spaced(s: Seq<char>) -> Seq<char> {
    replaced(replaced(s, "-"@, " "@), "_"@, " "@)
}

/// A word with its first character in upper case.
pub open spec fn capitalized(word: Seq<char>) -> Seq<char> {
    if word.len() == 0 {
        word
    } else {
        uppercase_of(word[0]) + word.skip(1)
    }
}

/// The words of a text, each capitalized, with one space between each two.
pub open spec fn title_case(s: Seq<char>) -> Seq<char> {
    joined_with(Seq::new(words(s).len(), |i: int| capitalized(words(s)[i])), " "@)
}

/// The pattern of a version number at the end of a name.
pub open spec fn version_pattern() -> Seq<char> {
    "[-_]?v?\\d+(\\.\\d+)*$"@
}

/// The pattern of a run of white space.
pub open spec fn space_pattern() -> Seq<char> {
    "\\s+"@
}

/// A family name made clean: foundry suffixes and a version number at the
/// end are cut off, hyphens and underscores become spaces, runs of white
/// space become one space, and each word is capitalized.
pub open spec fn cleaned_family(name: Seq<char>) -> Seq<char> {
    let a = without_suffixes(name, 9);
    let b = rewritten(version_pattern(), a, Seq::empty());
    let c = spaced(b);
    let d = trimmed(rewritten(space_pattern(), c, " "@));
    title_case(d)
}

fn cut_suffix(name: Vec<char>, suffix: &str) -> (out: Vec<char>)
    ensures
        out@ == without_suffix(name@, suffix@),
{
    let suf = to_chars(suffix);
    if ends_with(&name, &suf) {
        let mut end: usize = name.len() - suf.len();
        let ghost cut = name@.take(end as int);
        while end > 0 && name[end - 1] == '-'
            invariant
                end <= name.len() - suf.len(),
                suf.len() <= name.len(),
                cut == name@.take((name.len() - suf.len()) as int),
                without_trailing(cut, '-') == without_trailing(name@.take(end as int), '-'),
            decreases end,
        {
            assert(name@.take(end as int).drop_last() =~= name@.take(end - 1));
            end -= 1;
        }
        let mut out: Vec<char> = Vec::new();
        let mut i: usize = 0;
        while i < end
            invariant
                i <= end <= name.len(),
                out@ == name@.take(i as int),
            decreases end - i,
        {
            out.push(name[i]);
            assert(out@ =~= name@.take(i + 1));
            i += 1;
        }
        out
    } else {
        name
    }
}

fn capitalize(word: &str) -> (out: String)
    ensures
        out@ == capitalized(word@),
{
    let chars = to_chars(word);
    if chars.len() == 0 {
        return String::new();
    }
    let upper = to_uppercase_chars(chars[0]);
    let mut out = String::new();
    let mut i: usize = 0;
    while i < upper.len()
        invariant
            i <= upper.len(),
            out@ == upper@.take(i as int),
        decreases upper.len() - i,
    {
        push_char(&mut out, upper[i]);
        assert(out@ =~= upper@.take(i + 1));
        i += 1;
    }
    assert(upper@.take(upper.len() as int) =~= upper@);
    let mut k: usize = 1;
    while k < chars.len()
        invariant
            1 <= k <= chars.len(),
            out@ == upper@ + chars@.subrange(1, k as int),
        decreases chars.len() - k,
    {
        push_char(&mut out, chars[k]);
        assert(out@ =~= upper@ + chars@.subrange(1, k + 1));
        k += 1;
    }
    assert(chars@.subrange(1, chars.len() as int) =~= chars@.skip(1));
    out
}

fn to_title_case(s: &str) -> (out: String)
    ensures
        out@ == title_case(s@),
{
    let parts = split_whitespace(s);
    let ghost target = Seq::new(words(s@).len(), |i: int| capitalized(words(s@)[i]));
    let mut out = String::new();
    let mut i: usize = 0;
    while i < parts.len()
        invariant
            i <= parts.len(),
            parts@.len() == words(s@).len(),
            forall|k: int| 0 <= k < parts@.len() ==> (#[trigger] parts@[k])@ == words(s@)[k],
            target == Seq::new(words(s@).len(), |i: int| capitalized(words(s@)[i])),
            out@ == joined_with(target.take(i as int), " "@),
        decreases parts.len() - i,
    {
        proof {
            assert(target.take(i + 1).drop_last() =~= target.take(i as int));
            assert(target.take(i + 1).last() == capitalized(parts@[i as int]@));
            if i == 0 {
                assert(target.take(1)[0] == capitalized(parts@[0]@));
            }
        }
        if i > 0 {
            out.append(" ");
        }
        out.append(capitalize(parts[i].as_str()).as_str());
        assert(out@ =~= joined_with(target.take(i + 1), " "@));
        i += 1;
    }
    assert(target.take(parts.len() as int) =~= target);
    out
}

/// Makes a family name clean.
pub fn clean_family_name(name: &str) -> (out: String)
    ensures
        out@ == cleaned_family(name@),
{
    let mut cleaned = to_chars(name);
    let mut i: usize = 0;
    while i < 9
        invariant
            i <= 9,
            cleaned@ == without_suffixes(name@, i as int),
        decreases 9 - i,
    {
        cleaned = cut_suffix(cleaned, foundry_suffix_at(i));
        i += 1;
    }
    let a = from_chars(&cleaned, 0, cleaned.len());
    proof {
        assert(cleaned@.subrange(0, cleaned.len() as int) =~= cleaned@);
        assert(""@ =~= Seq::<char>::empty()) by {
            reveal_strlit("");
        }
        reveal_strlit("-");
        reveal_strlit("_");
    }
    let b = rewrite("[-_]?v?\\d+(\\.\\d+)*$", a.as_str(), "");
    let c1 = replace(b.as_str(), "-", " ");
    let c = replace(c1.as_str(), "_", " ");
    let d = trim(rewrite("\\s+", c.as_str(), " ").as_str());
    to_title_case(d.as_str())
}

/// What a font name says: its clean family, and weight, slant and width as
/// far as the name speaks of them.
pub struct ParsedModel {
    pub family: Seq<char>,
    pub weight: u16,
    pub is_italic: bool,
    pub is_bold: bool,
    pub width: FontWidth,
    pub original: Seq<char>,
}

/// What a raw font name says: the subset prefix is dropped, then weight,
/// slant and width are taken out in this order, each from what the step
/// before left, and the rest is cleaned.
pub open spec fn parsed(raw: Seq<char>) -> ParsedModel {
    let name = without_subset_prefix(raw);
    let w = weight_parts(name);
    let i = italic_parts(w.0);
    let d = width_parts(i.0);
    ParsedModel {
        family: cleaned_family(d.0),
        weight: w.1,
        is_italic: i.1,
        is_bold: w.2,
        width: d.1,
        original: raw,
    }
}

impl View for ParsedFontName {
    type V = ParsedModel;

    open spec fn view(&self) -> ParsedModel {
        ParsedModel {
            family: self.family@,
            weight: self.weight,
            is_italic: self.is_italic,
            is_bold: self.is_bold,
            width: self.width,
            original: self.original@,
        }
    }
}

/// Parses a raw font name.
pub fn parse_font_name(raw: &str) -> (p: ParsedFontName)
    ensures
        p@ == parsed(raw@),
{
    let original = raw.to_string();
    let name = remove_subset_prefix(raw);
    let (family, weight, is_bold) = extract_weight(name.as_str());
    let (family, is_italic) = extract_italic(family.as_str());
    let (family, width) = extract_width(family.as_str());
    let family = clean_family_name(family.as_str());
    ParsedFontName { family, weight, is_italic, is_bold, width, original }
}

/// The form of a font name by which names are compared: the clean family in
/// lower case without spaces.
pub open spec fn comparable(name: Seq<char>) -> Seq<char> {
    replaced(lowercase(parsed(name).family), " "@, Seq::empty())
}

/// Brings a font name to the form by which names are compared.
pub fn normalize_for_comparison(name: &str) -> (out: String)
    ensures
        out@ == comparable(name@),
{
    let parsed = parse_font_name(name);
    proof {
        reveal_strlit(" ");
        assert(""@ =~= Seq::<char>::empty()) by {
            reveal_strlit("");
        }
    }
    replace(to_lowercase(parsed.family.as_str()).as_str(), " ", "")
}

/// The name that stands for a normalized name, where there is an alias:
/// there is none.
pub fn get_canonical_alias(_normalized: &str) -> (r: Option<&'static str>)
    ensures
        r is None,
{
    None
}

/// The canonical name of a font: its clean family.
pub fn get_canonical_name(name: &str) -> (out: String)
    ensures
        out@ == parsed(name@).family,
{
    let normalized = normalize_for_comparison(name);
    match get_canonical_alias(normalized.as_str()) {
        Some(alias) => alias.to_string(),
        None => parse_font_name(name).family,
    }
}

} // verus!
