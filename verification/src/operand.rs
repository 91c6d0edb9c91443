//! Operands of content-stream operators, and how numbers and text are read
//! from them.

use crate::fixed::Fixed;
use crate::models::TransformMatrix;
use vstd::prelude::*;
use vstd::utf8::{decode_utf8, valid_utf8};

verus! {

broadcast use vstd::string::group_string_axioms;

/// One operand of an operator.
#[derive(Debug)]
pub enum Operand {
    /// An integer object.
    Integer(i64),
    /// A real object.
    Real(Fixed),
    /// A string object, as its raw bytes.
    Text(Vec<u8>),
    /// A name object, as its raw bytes.
    Name(Vec<u8>),
    /// An array object.
    Array(Vec<Operand>),
    /// Any other object.
    Other,
}

/// One operator with its operands, in stream order.
#[derive(Debug)]
pub struct Operation {
    pub operator: String,
    pub operands: Vec<Operand>,
}

/// What `String::from_utf16` makes of a sequence of UTF-16 code units: the
/// decoded text, or nothing where the units are not valid UTF-16.
pub uninterp spec fn utf16_decoded(units: Seq<u16>) -> Option<Seq<char>>;

/// What `String::from_utf8_lossy` makes of a byte sequence: the decoded text
/// with U+FFFD in place of each invalid part.
pub uninterp spec fn lossy_decoded(bytes: Seq<u8>) -> Seq<char>;

/// `std::str::from_utf8`: succeeds exactly on valid UTF-8 and then gives the
/// text that the bytes encode.
#[verifier::external_body]
pub(crate) fn utf8_text(bytes: &[u8]) -> (r: Option<String>)
    ensures
        r is Some <==> valid_utf8(bytes@),
        r matches Some(s) ==> s@ == decode_utf8(bytes@),
{
    match std::str::from_utf8(bytes) {
        Ok(s) => Some(s.to_string()),
        Err(_) => None,
    }
}

/// `String::from_utf16`: the decoded text, or nothing for invalid UTF-16; the
/// outcome depends on the code units alone.
#[verifier::external_body]
pub(crate) fn utf16_text(units: &[u16]) -> (r: Option<String>)
    ensures
        match r {
            Some(s) => utf16_decoded(units@) == Some(s@),
            None => utf16_decoded(units@) is None,
        },
{
    match String::from_utf16(units) {
        Ok(s) => Some(s),
        Err(_) => None,
    }
}

/// `String::from_utf8_lossy`: never fails; on valid UTF-8 it is the plain
/// decoding.
#[verifier::external_body]
pub(crate) fn lossy_text(bytes: &[u8]) -> (r: String)
    ensures
        r@ == lossy_decoded(bytes@),
        valid_utf8(bytes@) ==> r@ == decode_utf8(bytes@),
{
    String::from_utf8_lossy(bytes).into_owned()
}

/// The big-endian 16-bit units that a byte sequence of even length holds.
pub open spec fn be_units(bytes: Seq<u8>) -> Seq<u16> {
    Seq::new(bytes.len() / 2, |i: int| (bytes[2 * i] as u16 * 256 + bytes[2 * i + 1] as u16) as u16)
}

/// The text of UTF-16BE bytes: nothing for an odd number of bytes or invalid
/// UTF-16.
pub open spec fn utf16be_decoded(bytes: Seq<u8>) -> Option<Seq<char>> {
    if bytes.len() % 2 != 0 {
        None
    } else {
        utf16_decoded(be_units(bytes))
    }
}

/// Whether a byte sequence starts with the UTF-16BE byte-order mark.
pub open spec fn has_utf16be_mark(bytes: Seq<u8>) -> bool {
    bytes.len() >= 2 && bytes[0] == 0xFE && bytes[1] == 0xFF
}

/// The text of a string object: UTF-8 where the bytes are valid UTF-8;
/// else UTF-16BE where they start with the byte-order mark and what follows
/// it is valid UTF-16BE; else UTF-8 with replacement characters. Every
/// string object has a text.
pub open spec fn decoded(bytes: Seq<u8>) -> Option<Seq<char>> {
    if valid_utf8(bytes) {
        Some(decode_utf8(bytes))
    } else if has_utf16be_mark(bytes) && utf16be_decoded(bytes.skip(2)) is Some {
        utf16be_decoded(bytes.skip(2))
    } else {
        Some(lossy_decoded(bytes))
    }
}

/// The number that an operand stands for, if it is a number.
pub open spec fn number_of(o: Operand) -> Option<Fixed> {
    match o {
        Operand::Integer(i) => Some(Fixed::spec_from_int(i as int)),
        Operand::Real(r) => Some(r),
        _ => None,
    }
}

/// The number at position `idx`, if there is an operand there and it is a
/// number.
pub open spec fn number_at(ops: Seq<Operand>, idx: int) -> Option<Fixed> {
    if 0 <= idx < ops.len() {
        number_of(ops[idx])
    } else {
        None
    }
}

/// The number at position `idx`, or zero.
pub open spec fn number_or_zero(ops: Seq<Operand>, idx: int) -> Fixed {
    match number_at(ops, idx) {
        Some(v) => v,
        None => Fixed::spec_zero(),
    }
}

/// The matrix that the first six operands give, zero standing for each that
/// is missing or no number.
pub open spec fn matrix_of(ops: Seq<Operand>) -> TransformMatrix {
    TransformMatrix {
        a: number_or_zero(ops, 0),
        b: number_or_zero(ops, 1),
        c: number_or_zero(ops, 2),
        d: number_or_zero(ops, 3),
        e: number_or_zero(ops, 4),
        f: number_or_zero(ops, 5),
    }
}

/// The text that an operand stands for: a string is decoded, a name is read
/// as UTF-8 with replacement characters, anything else is no text.
pub open spec fn text_of(o: Operand) -> Option<Seq<char>> {
    match o {
        Operand::Text(bytes) => decoded(bytes@),
        Operand::Name(bytes) => Some(lossy_decoded(bytes@)),
        _ => None,
    }
}

/// The text at position `idx`, if there is an operand there and it is text.
pub open spec fn text_at(ops: Seq<Operand>, idx: int) -> Option<Seq<char>> {
    if 0 <= idx < ops.len() {
        text_of(ops[idx])
    } else {
        None
    }
}

/// The threshold in thousandths of an em below which an adjustment counts as
/// a word gap: -100.
pub open spec fn gap_threshold() -> Fixed {
    Fixed::spec_from_int(-100)
}

/// What one element of a `TJ` array adds to the text: a string its decoded
/// text, a number below the gap threshold one space, anything else nothing.
pub open spec fn piece_of(o: Operand) -> Seq<char> {
    match o {
        Operand::Text(bytes) => match decoded(bytes@) {
            Some(s) => s,
            None => Seq::empty(),
        },
        Operand::Integer(_) | Operand::Real(_) => if number_of(o).unwrap().micros
            < gap_threshold().micros {
            seq![' ']
        } else {
            Seq::empty()
        },
        _ => Seq::empty(),
    }
}

/// The text of a `TJ` array: the pieces of its elements, in order.
pub open spec fn joined(items: Seq<Operand>) -> Seq<char>
    decreases items.len(),
{
    if items.len() == 0 {
        Seq::empty()
    } else {
        joined(items.drop_last()) + piece_of(items.last())
    }
}

/// Reads the number at `idx`, if there is one.
pub fn get_float_opt(ops: &[Operand], idx: usize) -> (r: Option<Fixed>)
    ensures
        r == number_at(ops@, idx as int),
{
    if idx < ops.len() {
        match &ops[idx] {
            Operand::Integer(i) => Some(Fixed::from_int(*i)),
            Operand::Real(f) => Some(*f),
            _ => None,
        }
    } else {
        None
    }
}

/// Reads the number at `idx`; zero where there is none.
pub fn get_float(ops: &[Operand], idx: usize) -> (r: Fixed)
    ensures
        r == number_or_zero(ops@, idx as int),
{
    match get_float_opt(ops, idx) {
        Some(v) => v,
        None => Fixed::zero(),
    }
}

/// Reads a matrix from the first six operands.
pub fn parse_matrix(ops: &[Operand]) -> (m: TransformMatrix)
    ensures
        m == matrix_of(ops@),
{
    TransformMatrix {
        a: get_float(ops, 0),
        b: get_float(ops, 1),
        c: get_float(ops, 2),
        d: get_float(ops, 3),
        e: get_float(ops, 4),
        f: get_float(ops, 5),
    }
}

/// Decodes UTF-16BE bytes.
pub fn decode_utf16be(bytes: &[u8]) -> (r: Option<String>)
    ensures
        match r {
            Some(s) => utf16be_decoded(bytes@) == Some(s@),
            None => utf16be_decoded(bytes@) is None,
        },
{
    if bytes.len() % 2 != 0 {
        return None;
    }
    let n: usize = bytes.len() / 2;
    let mut units: Vec<u16> = Vec::new();
    let mut i: usize = 0;
    while i < n
        invariant
            i <= n,
            n == bytes.len() / 2,
            bytes.len() % 2 == 0,
            units@ == be_units(bytes@).take(i as int),
        decreases n - i,
    {
        let hi: u16 = bytes[2 * i] as u16;
        let lo: u16 = bytes[2 * i + 1] as u16;
        units.push(hi * 256 + lo);
        assert(units@ =~= be_units(bytes@).take(i + 1));
        i += 1;
    }
    assert(units@ =~= be_units(bytes@));
    utf16_text(units.as_slice())
}

/// Decodes the bytes of a string object; it never fails.
pub fn decode_bytes(bytes: &[u8]) -> (r: Option<String>)
    ensures
        r matches Some(s) && decoded(bytes@) == Some(s@),
{
    match utf8_text(bytes) {
        Some(s) => Some(s),
        None => {
            if bytes.len() >= 2 && bytes[0] == 0xFE && bytes[1] == 0xFF {
                let rest = vstd::slice::slice_subrange(bytes, 2, bytes.len());
                assert(rest@ =~= bytes@.skip(2));
                match decode_utf16be(rest) {
                    Some(s) => Some(s),
                    None => Some(lossy_text(bytes)),
                }
            } else {
                Some(lossy_text(bytes))
            }
        },
    }
}

/// Reads the text of one operand: a string object and a name always have
/// one, anything else has none.
pub fn extract_text_from_object(obj: &Operand) -> (r: Option<String>)
    ensures
        match r {
            Some(s) => text_of(*obj) == Some(s@),
            None => text_of(*obj) is None,
        },
        (*obj is Text || *obj is Name) <==> r is Some,
{
    match obj {
        Operand::Text(bytes) => decode_bytes(bytes.as_slice()),
        Operand::Name(bytes) => Some(lossy_text(bytes.as_slice())),
        _ => None,
    }
}

/// Reads the text at `idx`, if there is one.
pub fn extract_string(ops: &[Operand], idx: usize) -> (r: Option<String>)
    ensures
        match r {
            Some(s) => text_at(ops@, idx as int) == Some(s@),
            None => text_at(ops@, idx as int) is None,
        },
{
    if idx < ops.len() {
        extract_text_from_object(&ops[idx])
    } else {
        None
    }
}

/// Joins the elements of a `TJ` array into one text.
pub fn join_array(items: &[Operand]) -> (r: String)
    ensures
        r@ == joined(items@),
{
    let mut combined = String::new();
    let mut i: usize = 0;
    while i < items.len()
        invariant
            i <= items.len(),
            combined@ == joined(items@.take(i as int)),
        decreases items.len() - i,
    {
        proof {
            assert(items@.take(i + 1).drop_last() =~= items@.take(i as int));
        }
        match &items[i] {
            Operand::Text(bytes) => {
                match decode_bytes(bytes.as_slice()) {
                    Some(s) => {
                        combined.append(s.as_str());
                    },
                    None => {},
                }
            },
            Operand::Integer(_) | Operand::Real(_) => {
                match get_float_opt(items, i) {
                    Some(adj) => {
                        if adj.lt(Fixed::from_int(-100)) {
                            crate::text::push_char(&mut combined, ' ');
                        }
                    },
                    None => {},
                }
            },
            _ => {},
        }
        assert(combined@ =~= joined(items@.take(i + 1)));
        i += 1;
    }
    assert(items@.take(items.len() as int) =~= items@);
    combined
}

} // verus!
