//! Installing font files: telling their format and naming the file.

use crate::text::{push_char, to_chars};
use vstd::prelude::*;

verus! {

broadcast use vstd::string::group_string_axioms;

/// The outcome of an installation.
#[derive(Debug, Clone)]
pub struct InstallResult {
    pub success: bool,
    pub family: String,
    pub path: String,
    pub message: String,
}

/// The file extension for font data, told from its first four bytes:
/// `OTTO` is OpenType, `wOFF` and `wOF2` are the web formats, and everything
/// else, data under four bytes included, counts as TrueType.
pub open spec fn font_extension(data: Seq<u8>) -> Seq<char> {
    if data.len() < 4 {
        "ttf"@
    } else if data[0] == 0x4F && data[1] == 0x54 && data[2] == 0x54 && data[3] == 0x4F {
        "otf"@
    } else if data[0] == 0x77 && data[1] == 0x4F && data[2] == 0x46 && data[3] == 0x46 {
        "woff"@
    } else if data[0] == 0x77 && data[1] == 0x4F && data[2] == 0x46 && data[3] == 0x32 {
        "woff2"@
    } else {
        "ttf"@
    }
}

/// Tells the format of font data.
pub fn detect_font_format(data: &[u8]) -> (ext: &'static str)
    ensures
        ext@ == font_extension(data@),
{
    if data.len() < 4 {
        return "ttf";
    }
    if data[0] == 0x4F && data[1] == 0x54 && data[2] == 0x54 && data[3] == 0x4F {
        "otf"
    } else if data[0] == 0x77 && data[1] == 0x4F && data[2] == 0x46 && data[3] == 0x46 {
        "woff"
    } else if data[0] == 0x77 && data[1] == 0x4F && data[2] == 0x46 && data[3] == 0x32 {
        "woff2"
    } else {
        "ttf"
    }
}

/// Whether `char::is_alphanumeric` holds of a character: whether Unicode
/// counts it as a letter or a number.
pub uninterp spec fn alphanumeric(c: char) -> bool;

/// `char::is_alphanumeric`: the answer depends on the character alone.
#[verifier::external_body]
pub(crate) fn is_alphanumeric(c: char) -> (r: bool)
    ensures
        r == alphanumeric(c),
{
    c.is_alphanumeric()
}

/// A character of a file name: letters, numbers, `-` and `_` stay, anything
/// else becomes `_`.
pub open spec fn safe_char(c: char) -> char {
    if alphanumeric(c) || c == '-' || c == '_' {
        c
    } else {
        '_'
    }
}

/// A name made safe for a file name, character by character.
pub open spec fn safe_name(name: Seq<char>) -> Seq<char> {
    Seq::new(name.len(), |i: int| safe_char(name[i]))
}

/// Makes a font family name safe for a file name.
pub fn sanitize_filename(name: &str) -> (out: String)
    ensures
        out@ == safe_name(name@),
{
    let chars = to_chars(name);
    let mut out = String::new();
    let mut i: usize = 0;
    while i < chars.len()
        invariant
            i <= chars.len(),
            chars@ == name@,
            out@ == safe_name(name@).take(i as int),
        decreases chars.len() - i,
    {
        let c = chars[i];
        let kept = if is_alphanumeric(c) || c == '-' || c == '_' {
            c
        } else {
            '_'
        };
        push_char(&mut out, kept);
        assert(out@ =~= safe_name(name@).take(i + 1));
        i += 1;
    }
    assert(safe_name(name@).take(chars.len() as int) =~= safe_name(name@));
    out
}

/// The file name under which the data of a font family is installed: the
/// safe form of the family, a dot, and the extension of the format.
pub fn font_file_name(family: &str, data: &[u8]) -> (name: String)
    ensures
        name@ == safe_name(family@) + seq!['.'] + font_extension(data@),
{
    let mut name = sanitize_filename(family);
    push_char(&mut name, '.');
    name.append(detect_font_format(data));
    name
}

/// The report of a font that was installed at `path`.
pub fn installed_result(family: &str, path: &str) -> (r: InstallResult)
    ensures
        r.success,
        r.family@ == family@,
        r.path@ == path@,
        r.message@ == "Font '"@ + family@ + "' installed successfully"@,
{
    let mut message = "Font '".to_string();
    message.append(family);
    message.append("' installed successfully");
    InstallResult { success: true, family: family.to_string(), path: path.to_string(), message }
}

/// The family under which a font file is installed: the one that the file
/// names, else the stem of the file name, else `Unknown`.
pub fn family_for(named: Option<String>, stem: Option<String>) -> (family: String)
    ensures
        family@ == match (named, stem) {
            (Some(n), _) => n@,
            (None, Some(s)) => s@,
            (None, None) => "Unknown"@,
        },
{
    match named {
        Some(n) => n,
        None => match stem {
            Some(s) => s,
            None => "Unknown".to_string(),
        },
    }
}

/// The `i`-th extension under which a font may have been installed.
pub open spec fn installed_extension(i: int) -> Seq<char> {
    if i == 0 {
        "ttf"@
    } else if i == 1 {
        "otf"@
    } else if i == 2 {
        "woff"@
    } else {
        "woff2"@
    }
}

fn extension_at(i: usize) -> (ext: &'static str)
    requires
        i < 4,
    ensures
        ext@ == installed_extension(i as int),
{
    if i == 0 {
        "ttf"
    } else if i == 1 {
        "otf"
    } else if i == 2 {
        "woff"
    } else {
        "woff2"
    }
}

/// The file names under which a font family may have been installed: its
/// safe form with each of the four extensions, in the order `ttf`, `otf`,
/// `woff`, `woff2`.
pub fn installed_file_names(family: &str) -> (names: Vec<String>)
    ensures
        names@.len() == 4,
        forall|i: int|
            0 <= i < 4 ==> (#[trigger] names@[i])@ == safe_name(family@) + seq!['.']
                + installed_extension(i),
{
    let mut names: Vec<String> = Vec::new();
    let mut i: usize = 0;
    while i < 4
        invariant
            i <= 4,
            names@.len() == i,
            forall|k: int|
                0 <= k < i ==> (#[trigger] names@[k])@ == safe_name(family@) + seq!['.']
                    + installed_extension(k),
        decreases 4 - i,
    {
        let mut name = sanitize_filename(family);
        push_char(&mut name, '.');
        name.append(extension_at(i));
        names.push(name);
        i += 1;
    }
    names
}

/// The records of the name table of font data, as the `ttf-parser` crate
/// reads them: for each record its name identifier, and its text where the
/// record is in a Unicode encoding that can be decoded. Nothing where the
/// data is no font.
pub uninterp spec fn name_records(data: Seq<u8>) -> Option<Seq<(u16, Option<Seq<char>>)>>;

/// A list of name records as plain values.
pub open spec fn record_views(list: Seq<(u16, Option<String>)>) -> Seq<(u16, Option<Seq<char>>)> {
    Seq::new(list.len(), |i: int| (list[i].0, crate::models::opt_text(list[i].1)))
}

/// `Face::parse` for the first face of the data, then `Face::names` and, for
/// each record that the iteration gives, its `name_id` and `Name::to_string`.
/// The outcome depends on the bytes alone.
#[verifier::external_body]
pub(crate) fn read_name_records(data: &[u8]) -> (r: Option<Vec<(u16, Option<String>)>>)
    ensures
        match r {
            Some(list) => name_records(data@) == Some(record_views(list@)),
            None => name_records(data@) is None,
        },
{
    let face = ttf_parser::Face::parse(data, 0).ok()?;
    Some(face.names().into_iter().map(|n| (n.name_id, n.to_string())).collect())
}

/// The identifier of the name records that hold the family of a font.
pub open spec fn family_id() -> u16 {
    1
}

/// The text of the first record from position `from` on that holds a family
/// name with a text.
pub open spec fn family_from(records: Seq<(u16, Option<Seq<char>>)>, from: int) -> Option<Seq<char>>
    decreases records.len() - from,
{
    if from < 0 || from >= records.len() {
        None
    } else if records[from].0 == family_id() && records[from].1 is Some {
        records[from].1
    } else {
        family_from(records, from + 1)
    }
}

/// The family that font data names: the text of its first name record for
/// the family that has a text; nothing where the data is no font or names
/// no family.
pub open spec fn family_of(data: Seq<u8>) -> Option<Seq<char>> {
    match name_records(data) {
        Some(records) => family_from(records, 0),
        None => None,
    }
}

/// The family among name records: the text of the first record for the
/// family that has one.
pub fn first_family(records: &Vec<(u16, Option<String>)>) -> (r: Option<String>)
    ensures
        crate::models::opt_text(r) == family_from(record_views(records@), 0),
{
    let ghost all = record_views(records@);
    let mut i: usize = 0;
    while i < records.len()
        invariant
            i <= records.len(),
            all == record_views(records@),
            family_from(all, 0) == family_from(all, i as int),
        decreases records.len() - i,
    {
        assert(all[i as int] == (records@[i as int].0, crate::models::opt_text(records@[i as int].1)));
        if records[i].0 == 1 {
            match &records[i].1 {
                Some(text) => {
                    return Some(text.clone());
                },
                None => {},
            }
        }
        i += 1;
    }
    None
}

/// Reads the family out of font data.
pub fn extract_family_from_font(data: &[u8]) -> (r: Option<String>)
    ensures
        crate::models::opt_text(r) == family_of(data@),
{
    match read_name_records(data) {
        Some(records) => first_family(&records),
        None => None,
    }
}

} // verus!
