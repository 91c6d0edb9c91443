//! Reading the words out of hOCR, the HTML that a recognition engine writes:
//! one word per line that is marked `ocrx_word`, with its box, its
//! confidence and its text.

use crate::content_parser::views;
use crate::fixed::{clamp, Fixed};
use crate::models::Bounds;
use crate::ocr_handler::{html_decode, html_decoded, OcrWord};
use crate::models::{LayerObject, LayerType};
use crate::text::{
    blank, chars_from, contains_chars, find_char, find_chars, first_index, first_occurrence,
    from_chars, has_substring, is_blank, is_numeric, numeric, occurs, occurs_at,
    split_whitespace, to_chars, trim, trimmed, words,
};
use vstd::prelude::*;

verus! {

broadcast use vstd::string::group_string_axioms;

/// Whether a character is one of the ten digits.
pub open spec fn is_digit(c: char) -> bool {
    '0' <= c <= '9'
}

/// Whether a text holds digits only.
pub open spec fn all_digits(s: Seq<char>) -> bool {
    forall|i: int| 0 <= i < s.len() ==> is_digit(#[trigger] s[i])
}

/// The number that a text of digits writes.
pub open spec fn digits_value(s: Seq<char>) -> nat
    decreases s.len(),
{
    if s.len() == 0 {
        0
    } else {
        (digits_value(s.drop_last()) * 10 + (s.last() as u32 - '0' as u32)) as nat
    }
}

/// Ten to the power of `n`, for the six decimal places.
pub open spec fn place(n: int) -> nat {
    if n <= 0 {
        1
    } else if n == 1 {
        10
    } else if n == 2 {
        100
    } else if n == 3 {
        1_000
    } else if n == 4 {
        10_000
    } else if n == 5 {
        100_000
    } else {
        1_000_000
    }
}

/// The millionths that the digits behind a decimal point write: the first
/// six count, the rest is cut off.
pub open spec fn fraction_micros(digits: Seq<char>) -> nat {
    if digits.len() >= 6 {
        digits_value(digits.take(6))
    } else {
        digits_value(digits) * place(6 - digits.len())
    }
}

/// The number that a text writes in decimal notation: an optional sign,
/// digits, and an optional point with digits behind it, with at least one
/// digit in all. The number is cut off after six decimal places and held in
/// range. Any other text writes no number.
pub open spec fn number_of(token: Seq<char>) -> Option<Fixed> {
    let signed = token.len() > 0 && (token[0] == '-' || token[0] == '+');
    let negative = token.len() > 0 && token[0] == '-';
    let body = if signed {
        token.skip(1)
    } else {
        token
    };
    let point = if occurs(body, '.') {
        first_index(body, '.')
    } else {
        body.len() as int
    };
    let whole = body.take(point);
    let fraction = if point < body.len() {
        body.skip(point + 1)
    } else {
        Seq::empty()
    };
    if all_digits(whole) && all_digits(fraction) && whole.len() + fraction.len() > 0 {
        let size = digits_value(whole) * 1_000_000 + fraction_micros(fraction);
        Some(
            Fixed {
                micros: clamp(
                    if negative {
                        -size
                    } else {
                        size as int
                    },
                ) as i64,
            },
        )
    } else {
        None
    }
}

/// A number held below a cap that lies beyond every number in range.
pub open spec fn capped(v: nat) -> nat {
    if v >= 10_000_000_000_000 {
        10_000_000_000_000
    } else {
        v
    }
}

/// Reads the digits `v[from..to]`: their number, held below the cap, or
/// nothing where one of them is no digit.
fn read_digits(v: &Vec<char>, from: usize, to: usize) -> (r: Option<u64>)
    requires
        from <= to <= v.len(),
    ensures
        match r {
            Some(x) => all_digits(v@.subrange(from as int, to as int)) && x == capped(
                digits_value(v@.subrange(from as int, to as int)),
            ),
            None => !all_digits(v@.subrange(from as int, to as int)),
        },
{
    let mut acc: u64 = 0;
    let mut i: usize = from;
    assert(v@.subrange(from as int, from as int) =~= Seq::<char>::empty());
    while i < to
        invariant
            from <= i <= to <= v.len(),
            all_digits(v@.subrange(from as int, i as int)),
            acc == capped(digits_value(v@.subrange(from as int, i as int))),
        decreases to - i,
    {
        let c = v[i];
        if c < '0' || c > '9' {
            assert(v@.subrange(from as int, to as int)[i - from] == c);
            return None;
        }
        let d: u64 = (c as u32 - '0' as u32) as u64;
        proof {
            let next = v@.subrange(from as int, i + 1);
            assert(next.drop_last() =~= v@.subrange(from as int, i as int));
            assert(next.last() == c);
            assert forall|k: int| 0 <= k < next.len() implies is_digit(#[trigger] next[k]) by {
                if k < i - from {
                    assert(next[k] == v@.subrange(from as int, i as int)[k]);
                }
            }
        }
        let wide: u64 = acc * 10 + d;
        acc = if wide >= 10_000_000_000_000 {
            10_000_000_000_000
        } else {
            wide
        };
        i += 1;
    }
    Some(acc)
}

/// Ten to the power of `n`, for the six decimal places.
fn power_of_ten(n: usize) -> (r: u64)
    requires
        n <= 6,
    ensures
        r == place(n as int),
{
    if n == 0 {
        1
    } else if n == 1 {
        10
    } else if n == 2 {
        100
    } else if n == 3 {
        1_000
    } else if n == 4 {
        10_000
    } else if n == 5 {
        100_000
    } else {
        1_000_000
    }
}

/// A text of at most six digits writes a number below the power of ten of
/// its length.
proof fn lemma_digits_bound(s: Seq<char>)
    requires
        all_digits(s),
        s.len() <= 6,
    ensures
        digits_value(s) < place(s.len() as int),
    decreases s.len(),
{
    if s.len() > 0 {
        assert(all_digits(s.drop_last())) by {
            assert forall|k: int| 0 <= k < s.drop_last().len() implies is_digit(
                #[trigger] s.drop_last()[k],
            ) by {
                assert(s.drop_last()[k] == s[k]);
            }
        }
        lemma_digits_bound(s.drop_last());
        assert(is_digit(s[s.len() - 1]));
    }
}

/// A number of `kept` digits, moved up to six places, stays below a million.
proof fn lemma_fraction_bound(v: nat, kept: int)
    requires
        0 <= kept <= 6,
        v < place(kept),
    ensures
        v * place(6 - kept) < 1_000_000,
{
    if kept == 0 {
    } else if kept == 1 {
    } else if kept == 2 {
    } else if kept == 3 {
    } else if kept == 4 {
    } else if kept == 5 {
    } else {
    }
}

/// Reads the digits `v[from..]` as the places behind a decimal point: the
/// millionths that they write, or nothing where one of them is no digit.
fn read_fraction(v: &Vec<char>, from: usize) -> (r: Option<u64>)
    requires
        from <= v.len(),
    ensures
        match r {
            Some(x) => all_digits(v@.skip(from as int)) && x == fraction_micros(
                v@.skip(from as int),
            ) && x < 1_000_000,
            None => !all_digits(v@.skip(from as int)),
        },
{
    let n = v.len();
    let ghost text = v@.skip(from as int);
    assert(v@.subrange(from as int, n as int) =~= text);
    match read_digits(v, from, n) {
        Some(_) => {},
        None => {
            return None;
        },
    }
    let kept: usize = if n - from >= 6 {
        6
    } else {
        n - from
    };
    proof {
        let head = v@.subrange(from as int, from + kept);
        assert(head =~= text.take(kept as int));
        assert(all_digits(head)) by {
            assert forall|k: int| 0 <= k < head.len() implies is_digit(#[trigger] head[k]) by {
                assert(head[k] == text[k]);
            }
        }
        lemma_digits_bound(head);
        lemma_fraction_bound(digits_value(head), kept as int);
        if kept < 6 {
            assert(text.take(kept as int) =~= text);
        }
    }
    match read_digits(v, from, from + kept) {
        Some(head_value) => {
            let scale = power_of_ten(6 - kept);
            Some(head_value * scale)
        },
        None => None,
    }
}

/// The number of the given sign and size in millionths, held in range.
fn signed_number(negative: bool, whole: u64, fraction: u64) -> (r: Fixed)
    requires
        whole <= 10_000_000_000_000,
        fraction < 1_000_000,
    ensures
        r.micros == clamp(
            if negative {
                -(whole * 1_000_000 + fraction)
            } else {
                whole * 1_000_000 + fraction
            },
        ),
{
    let size: u64 = whole * 1_000_000 + fraction;
    let micros: i64 = if negative {
        if size > 0x7fff_ffff_ffff_ffff {
            i64::MIN
        } else {
            -(size as i64)
        }
    } else {
        if size > 0x7fff_ffff_ffff_ffff {
            i64::MAX
        } else {
            size as i64
        }
    };
    Fixed::from_micros(micros)
}

/// Reads the number that a text writes in decimal notation.
pub fn parse_number(token: &Vec<char>) -> (r: Option<Fixed>)
    ensures
        r == number_of(token@),
{
    let signed = token.len() > 0 && (token[0] == '-' || token[0] == '+');
    let negative = token.len() > 0 && token[0] == '-';
    let body = if signed {
        chars_from(token, 1)
    } else {
        chars_from(token, 0)
    };
    assert(token@.skip(0) =~= token@);
    let n = body.len();
    let point = match find_char(&body, '.') {
        Some(p) => p,
        None => n,
    };
    let frac_from: usize = if point < n {
        point + 1
    } else {
        n
    };
    proof {
        assert(body@.subrange(0, point as int) =~= body@.take(point as int));
        if point >= n {
            assert(body@.skip(n as int) =~= Seq::<char>::empty());
        }
    }
    let whole = match read_digits(&body, 0, point) {
        Some(w) => w,
        None => {
            return None;
        },
    };
    let fraction = match read_fraction(&body, frac_from) {
        Some(f) => f,
        None => {
            return None;
        },
    };
    if point + (n - frac_from) == 0 {
        return None;
    }
    let r = signed_number(negative, whole, fraction);
    proof {
        let size = digits_value(body@.take(point as int)) * 1_000_000 + fraction;
        if digits_value(body@.take(point as int)) >= 10_000_000_000_000 {
            assert(size > i64::MAX);
            assert(whole * 1_000_000 + fraction > i64::MAX);
        }
    }
    Some(r)
}

/// The numbers among the given texts, in order; a text that writes no
/// number is left out.
pub open spec fn numbers_in(tokens: Seq<Seq<char>>) -> Seq<Fixed>
    decreases tokens.len(),
{
    if tokens.len() == 0 {
        Seq::empty()
    } else {
        let before = numbers_in(tokens.drop_last());
        match number_of(tokens.last()) {
            Some(v) => before.push(v),
            None => before,
        }
    }
}

/// Where the box of a line ends, counted from its start: at the first
/// semicolon or, where there is none, at the first apostrophe.
pub open spec fn box_end(rest: Seq<char>) -> Option<int> {
    if occurs(rest, ';') {
        Some(first_index(rest, ';'))
    } else if occurs(rest, '\'') {
        Some(first_index(rest, '\''))
    } else {
        None
    }
}

/// The numbers of the box of a line: those that stand, parted by white
/// space, between the first `bbox ` and the end of the box.
pub open spec fn box_numbers(line: Seq<char>) -> Option<Seq<Fixed>> {
    if has_substring(line, "bbox "@) {
        let rest = line.skip(first_occurrence(line, "bbox "@) + 5);
        match box_end(rest) {
            Some(end) => Some(numbers_in(words(rest.take(end)))),
            None => None,
        }
    } else {
        None
    }
}

/// How many characters at the start of a text are numeric.
pub open spec fn numeric_run(s: Seq<char>) -> nat
    decreases s.len(),
{
    if s.len() == 0 || !numeric(s[0]) {
        0
    } else {
        1 + numeric_run(s.skip(1))
    }
}

/// The confidence that a line tells: the number that follows the first
/// `x_wconf `, taken as hundredths; a half where the line has no such
/// entry or where no run of plain digits follows it.
pub open spec fn confidence_of(line: Seq<char>) -> Fixed {
    if has_substring(line, "x_wconf "@) {
        let rest = line.skip(first_occurrence(line, "x_wconf "@) + 8);
        let run = rest.take(numeric_run(rest) as int);
        if run.len() > 0 && all_digits(run) {
            Fixed::spec_from_int(digits_value(run) as int).spec_over(Fixed::spec_from_int(100))
        } else {
            Fixed { micros: 500_000 }
        }
    } else {
        Fixed { micros: 500_000 }
    }
}

/// The text of the word of a line: what stands between the first `>` and
/// the first `</` at or after it.
pub open spec fn word_text(line: Seq<char>) -> Option<Seq<char>> {
    if occurs(line, '>') {
        let open = first_index(line, '>');
        let rest = line.skip(open);
        if has_substring(rest, "</"@) {
            Some(line.subrange(open + 1, open + first_occurrence(rest, "</"@)))
        } else {
            None
        }
    } else {
        None
    }
}

/// The mathematical content of an [`OcrWord`].
pub struct WordModel {
    pub text: Seq<char>,
    pub confidence: Fixed,
    pub bounds: Bounds,
}

impl View for OcrWord {
    type V = WordModel;

    open spec fn view(&self) -> WordModel {
        WordModel { text: self.text@, confidence: self.confidence, bounds: self.bounds }
    }
}

/// The word that a line holds: the line is marked `ocrx_word`, its box has
/// at least four numbers, of which the first four are the left, top, right
/// and bottom edge, and its text is not blank. The entities of the text are
/// decoded.
pub open spec fn word_of_line(line: Seq<char>) -> Option<WordModel> {
    if !has_substring(line, "ocrx_word"@) {
        None
    } else {
        match (box_numbers(line), word_text(line)) {
            (Some(c), Some(text)) => if c.len() >= 4 && !blank(text) {
                Some(
                    WordModel {
                        text: html_decoded(text),
                        confidence: confidence_of(line),
                        bounds: Bounds {
                            x: c[0],
                            y: c[1],
                            width: c[2].spec_minus(c[0]),
                            height: c[3].spec_minus(c[1]),
                        },
                    },
                )
            } else {
                None
            },
            _ => None,
        }
    }
}

fn read_numbers(text: &str) -> (out: Vec<Fixed>)
    ensures
        out@ == numbers_in(words(text@)),
{
    let tokens = split_whitespace(text);
    let ghost all = words(text@);
    let mut out: Vec<Fixed> = Vec::new();
    let mut i: usize = 0;
    assert(all.take(0) =~= Seq::<Seq<char>>::empty());
    while i < tokens.len()
        invariant
            i <= tokens.len(),
            tokens@.len() == all.len(),
            forall|k: int| 0 <= k < tokens@.len() ==> (#[trigger] tokens@[k])@ == all[k],
            out@ == numbers_in(all.take(i as int)),
        decreases tokens.len() - i,
    {
        proof {
            assert(all.take(i + 1).drop_last() =~= all.take(i as int));
            assert(all.take(i + 1).last() == tokens@[i as int]@);
        }
        match parse_number(&to_chars(tokens[i].as_str())) {
            Some(v) => {
                out.push(v);
            },
            None => {},
        }
        i += 1;
    }
    assert(all.take(tokens.len() as int) =~= all);
    out
}

fn find_box_end(rest: &Vec<char>) -> (r: Option<usize>)
    ensures
        match r {
            Some(e) => box_end(rest@) == Some(e as int) && e < rest.len(),
            None => box_end(rest@) is None,
        },
{
    match find_char(rest, ';') {
        Some(e) => Some(e),
        None => find_char(rest, '\''),
    }
}

fn read_box(line: &Vec<char>) -> (r: Option<Vec<Fixed>>)
    ensures
        match r {
            Some(c) => box_numbers(line@) == Some(c@),
            None => box_numbers(line@) is None,
        },
{
    let key = to_chars("bbox ");
    proof {
        reveal_strlit("bbox ");
    }
    let start = match find_chars(line, &key) {
        Some(s) => s,
        None => {
            return None;
        },
    };
    assert(key@.len() == 5);
    assert(occurs_at(line@, key@, start as int));
    assert(start + 5 <= line.len());
    let rest = chars_from(line, start + 5);
    let end = match find_box_end(&rest) {
        Some(e) => e,
        None => {
            return None;
        },
    };
    let inside = from_chars(&rest, 0, end);
    assert(rest@.subrange(0, end as int) =~= rest@.take(end as int));
    Some(read_numbers(inside.as_str()))
}

fn count_numeric(rest: &Vec<char>) -> (n: usize)
    ensures
        n == numeric_run(rest@),
        n <= rest.len(),
{
    let mut i: usize = 0;
    assert(rest@.skip(0) =~= rest@);
    while i < rest.len() && is_numeric(rest[i])
        invariant
            i <= rest.len(),
            numeric_run(rest@) == i + numeric_run(rest@.skip(i as int)),
        decreases rest.len() - i,
    {
        proof {
            assert(rest@.skip(i as int)[0] == rest@[i as int]);
            assert(rest@.skip(i as int).skip(1) =~= rest@.skip(i + 1));
        }
        i += 1;
    }
    proof {
        if i < rest.len() {
            assert(rest@.skip(i as int)[0] == rest@[i as int]);
        }
    }
    i
}

fn read_confidence(line: &Vec<char>) -> (c: Fixed)
    ensures
        c == confidence_of(line@),
{
    let key = to_chars("x_wconf ");
    proof {
        reveal_strlit("x_wconf ");
    }
    let start = match find_chars(line, &key) {
        Some(s) => s,
        None => {
            return Fixed::from_micros(500_000);
        },
    };
    assert(key@.len() == 8);
    assert(occurs_at(line@, key@, start as int));
    assert(start + 8 <= line.len());
    let rest = chars_from(line, start + 8);
    let run = count_numeric(&rest);
    assert(rest@.subrange(0, run as int) =~= rest@.take(run as int));
    if run == 0 {
        return Fixed::from_micros(500_000);
    }
    match read_digits(&rest, 0, run) {
        Some(v) => {
            assert(Fixed::spec_from_int(v as int) == Fixed::spec_from_int(
                digits_value(rest@.take(run as int)) as int,
            ));
            Fixed::from_int(v as i64).over(Fixed::from_int(100))
        },
        None => Fixed::from_micros(500_000),
    }
}

fn read_text(line: &Vec<char>) -> (r: Option<String>)
    ensures
        match r {
            Some(t) => word_text(line@) == Some(t@),
            None => word_text(line@) is None,
        },
{
    let open = match find_char(line, '>') {
        Some(o) => o,
        None => {
            return None;
        },
    };
    let rest = chars_from(line, open);
    let key = to_chars("</");
    proof {
        reveal_strlit("</");
    }
    let close = match find_chars(&rest, &key) {
        Some(c) => c,
        None => {
            return None;
        },
    };
    proof {
        assert(key@.len() == 2);
        assert(occurs_at(rest@, key@, close as int));
        if close == 0 {
            assert(rest@.subrange(0, 2)[0] == rest@[0]);
            assert(rest@[0] == line@[open as int]);
        }
    }
    assert(open < line.len());
    assert(close + 2 <= rest.len());
    assert(rest.len() == line.len() - open);
    Some(from_chars(line, open + 1, open + close))
}

/// Reads the word of a line, if it holds one.
pub fn parse_line(line: &Vec<char>) -> (r: Option<OcrWord>)
    ensures
        match r {
            Some(w) => word_of_line(line@) == Some(w@),
            None => word_of_line(line@) is None,
        },
{
    let mark = to_chars("ocrx_word");
    if !contains_chars(line, &mark) {
        return None;
    }
    let coords = match read_box(line) {
        Some(c) => c,
        None => {
            return None;
        },
    };
    if coords.len() < 4 {
        return None;
    }
    let confidence = read_confidence(line);
    let text = match read_text(line) {
        Some(t) => t,
        None => {
            return None;
        },
    };
    if is_blank(text.as_str()) {
        return None;
    }
    Some(
        OcrWord {
            text: html_decode(text.as_str()),
            confidence,
            bounds: Bounds::new(
                coords[0],
                coords[1],
                coords[2].minus(coords[0]),
                coords[3].minus(coords[1]),
            ),
        },
    )
}

/// Where the line that starts at `from` ends: at the first line feed at or
/// after `from`, or at the end of the text.
pub open spec fn line_end(s: Seq<char>, from: int) -> int
    decreases s.len() - from,
{
    if from < 0 || from >= s.len() {
        s.len() as int
    } else if s[from] == '\n' {
        from
    } else {
        line_end(s, from + 1)
    }
}

/// A line ends at or after its start, within the text.
pub proof fn lemma_line_end_bounds(s: Seq<char>, from: int)
    requires
        0 <= from <= s.len(),
    ensures
        from <= line_end(s, from) <= s.len(),
    decreases s.len() - from,
{
    if from < s.len() && s[from] != '\n' {
        lemma_line_end_bounds(s, from + 1);
    }
}

/// The line that starts at `from`, without its line ending: the line feed
/// and a carriage return before it.
pub open spec fn line_at(s: Seq<char>, from: int) -> Seq<char> {
    let end = line_end(s, from);
    if end < s.len() && from < end && s[end - 1] == '\r' {
        s.subrange(from, end - 1)
    } else {
        s.subrange(from, end)
    }
}

/// The words of the lines of a text from position `from` on.
pub open spec fn words_from(s: Seq<char>, from: int) -> Seq<WordModel>
    decreases s.len() - from,
{
    if from < 0 || from >= s.len() {
        Seq::empty()
    } else {
        let end = line_end(s, from);
        let next = if end < s.len() {
            end + 1
        } else {
            end
        };
        if !(from < next <= s.len()) {
            Seq::empty()
        } else {
            match word_of_line(line_at(s, from)) {
                Some(w) => seq![w] + words_from(s, next),
                None => words_from(s, next),
            }
        }
    }
}

/// The words that a text of hOCR holds, line by line.
pub open spec fn hocr_words(hocr: Seq<char>) -> Seq<WordModel> {
    words_from(hocr, 0)
}

fn find_line_end(s: &Vec<char>, from: usize) -> (end: usize)
    requires
        from <= s.len(),
    ensures
        end == line_end(s@, from as int),
        from <= end <= s.len(),
{
    let mut i: usize = from;
    while i < s.len() && s[i] != '\n'
        invariant
            from <= i <= s.len(),
            line_end(s@, from as int) == line_end(s@, i as int),
        decreases s.len() - i,
    {
        i += 1;
    }
    i
}

fn take_line(s: &Vec<char>, from: usize, end: usize) -> (line: Vec<char>)
    requires
        from <= end <= s.len(),
        end == line_end(s@, from as int),
    ensures
        line@ == line_at(s@, from as int),
{
    let to: usize = if end < s.len() && from < end && s[end - 1] == '\r' {
        end - 1
    } else {
        end
    };
    let mut line: Vec<char> = Vec::new();
    let mut i: usize = from;
    while i < to
        invariant
            from <= i <= to <= s.len(),
            line@ == s@.subrange(from as int, i as int),
        decreases to - i,
    {
        line.push(s[i]);
        assert(line@ =~= s@.subrange(from as int, i + 1));
        i += 1;
    }
    line
}

/// Reads the words out of hOCR: line by line, each line that is marked as a
/// word and holds a box and a text gives one word.
pub fn parse_hocr_words(hocr: &str) -> (out: Vec<OcrWord>)
    ensures
        views(out@) == hocr_words(hocr@),
{
    let s = to_chars(hocr);
    let mut out: Vec<OcrWord> = Vec::new();
    let mut pos: usize = 0;
    assert(views(out@) =~= Seq::<WordModel>::empty());
    while pos < s.len()
        invariant
            pos <= s.len(),
            s@ == hocr@,
            hocr_words(hocr@) == views(out@) + words_from(s@, pos as int),
        decreases s.len() - pos,
    {
        let end = find_line_end(&s, pos);
        let line = take_line(&s, pos, end);
        let ghost before = views(out@);
        match parse_line(&line) {
            Some(w) => {
                let ghost made = w@;
                out.push(w);
                assert(views(out@) =~= before.push(made));
                let ghost next = if end < s.len() {
                    end + 1
                } else {
                    end as int
                };
                assert(views(out@) + words_from(s@, next) =~= before + (seq![made] + words_from(
                    s@,
                    next,
                )));
            },
            None => {},
        }
        pos = if end < s.len() {
            end + 1
        } else {
            end
        };
    }
    assert(views(out@) + words_from(s@, pos as int) =~= views(out@));
    out
}

/// What a recognition engine has found in an image: the text without the
/// white space around it, the mean confidence, which the engine tells in
/// hundredths, or a half where it tells none, and the words of its hOCR,
/// where it gave any.
pub fn recognition_outcome(text: &str, mean_confidence: Option<i32>, hocr: Option<String>) -> (r: (
    String,
    Fixed,
    Vec<OcrWord>,
))
    ensures
        r.0@ == trimmed(text@),
        r.1 == match mean_confidence {
            Some(c) => Fixed::spec_from_int(c as int).spec_over(Fixed::spec_from_int(100)),
            None => Fixed { micros: 500_000 },
        },
        views(r.2@) == match hocr {
            Some(h) => hocr_words(h@),
            None => Seq::empty(),
        },
{
    let confidence = match mean_confidence {
        Some(c) => Fixed::from_int(c as i64).over(Fixed::from_int(100)),
        None => Fixed::from_micros(500_000),
    };
    let words = match hocr {
        Some(h) => parse_hocr_words(h.as_str()),
        None => {
            let none: Vec<OcrWord> = Vec::new();
            assert(views(none@) =~= Seq::<WordModel>::empty());
            none
        },
    };
    (trim(text), confidence, words)
}

/// The text of a layer that is to be checked against recognized text: the
/// content of a text layer, empty where it has none. Any other layer is
/// refused.
pub fn text_to_verify(layer: &LayerObject) -> (r: Result<String, String>)
    ensures
        match r {
            Ok(text) => layer.layer_type == LayerType::Text && text@ == match layer.content {
                Some(c) => c@,
                None => Seq::<char>::empty(),
            },
            Err(msg) => layer.layer_type != LayerType::Text && msg@ == "Layer is not a text layer"@,
        },
{
    match layer.layer_type {
        LayerType::Text => match &layer.content {
            Some(c) => Ok(c.clone()),
            None => Ok(String::new()),
        },
        _ => Err("Layer is not a text layer".to_string()),
    }
}

} // verus!
