//! The fonts of the system, as a list for the font picker.

use crate::font_manager::{FontInfo, FontSource, FontStyle, FontWidth};
use crate::sorting::{is_stable_text_order, stable_text_order};
use crate::text::{lowercase, same_text, texts, to_chars, to_lowercase};
use vstd::prelude::*;

verus! {

broadcast use vstd::string::group_string_axioms;

/// What the system tells of a face.
#[derive(Debug, Clone)]
pub struct FaceProps {
    pub full_name: String,
    pub weight: u16,
    pub is_italic: bool,
    pub is_oblique: bool,
}

/// A family that the system names, with the first of its faces that can be
/// loaded, where there is one.
#[derive(Debug, Clone)]
pub struct SystemFamily {
    pub family: String,
    pub face: Option<FaceProps>,
}

/// What is listed of a font.
pub struct ListedFont {
    pub family: Seq<char>,
    pub full_name: Seq<char>,
    pub weight: u16,
    pub is_italic: bool,
    pub is_oblique: bool,
}

/// What a font of the system lists; nothing for a font that is not of the
/// system, has a path, is variable or is not of normal width.
pub open spec fn listed(font: FontInfo) -> Option<ListedFont> {
    if font.source == FontSource::System && font.path is None && !font.is_variable
        && font.style.width == FontWidth::Normal {
        Some(
            ListedFont {
                family: font.family@,
                full_name: font.full_name@,
                weight: font.weight,
                is_italic: font.style.is_italic,
                is_oblique: font.style.is_oblique,
            },
        )
    } else {
        None
    }
}

/// Whether one of the given families has the name `name`.
pub open spec fn names(families: Seq<SystemFamily>, name: Seq<char>) -> bool {
    exists|j: int| 0 <= j < families.len() && (#[trigger] families[j]).family@ == name
}

/// The fonts of the given families in the order of the families: a family
/// that was named before is left out, and so is one without a face.
pub open spec fn first_faces(families: Seq<SystemFamily>) -> Seq<ListedFont>
    decreases families.len(),
{
    if families.len() == 0 {
        Seq::empty()
    } else {
        let before = first_faces(families.drop_last());
        let last = families.last();
        match last.face {
            Some(face) if !names(families.drop_last(), last.family@) => before.push(
                ListedFont {
                    family: last.family@,
                    full_name: face.full_name@,
                    weight: face.weight,
                    is_italic: face.is_italic,
                    is_oblique: face.is_oblique,
                },
            ),
            _ => before,
        }
    }
}

/// The lower-case forms of the families of the given fonts.
pub open spec fn family_keys(fonts: Seq<ListedFont>) -> Seq<Seq<char>> {
    Seq::new(fonts.len(), |i: int| lowercase(fonts[i].family))
}

/// Whether `fonts` lists the given families: one font of the system for
/// each family that has a face, in the order of the lower-case forms of the
/// families; families with the same lower-case form keep their order.
pub open spec fn is_listing(fonts: Seq<FontInfo>, families: Seq<SystemFamily>) -> bool {
    let found = first_faces(families);
    exists|order: Seq<usize>|
        {
            &&& #[trigger] is_stable_text_order(order, family_keys(found))
            &&& fonts.len() == found.len()
            &&& forall|k: int|
                0 <= k < fonts.len() ==> listed(#[trigger] fonts[k]) == Some(
                    found[order[k] as int],
                )
        }
}

fn is_named(seen: &Vec<String>, name: &str) -> (r: bool)
    ensures
        r == texts(seen@).contains(name@),
{
    let mut i: usize = 0;
    while i < seen.len()
        invariant
            i <= seen.len(),
            forall|k: int| 0 <= k < i ==> texts(seen@)[k] != name@,
        decreases seen.len() - i,
    {
        assert(texts(seen@)[i as int] == seen@[i as int]@);
        if same_text(seen[i].as_str(), name) {
            return true;
        }
        i += 1;
    }
    false
}

fn system_font(family: &str, face: &FaceProps) -> (font: FontInfo)
    ensures
        listed(font) == Some(
            ListedFont {
                family: family@,
                full_name: face.full_name@,
                weight: face.weight,
                is_italic: face.is_italic,
                is_oblique: face.is_oblique,
            },
        ),
{
    FontInfo {
        family: family.to_string(),
        full_name: face.full_name.clone(),
        style: FontStyle {
            is_italic: face.is_italic,
            is_oblique: face.is_oblique,
            width: FontWidth::Normal,
        },
        weight: face.weight,
        source: FontSource::System,
        path: None,
        is_variable: false,
    }
}

fn copy_font(font: &FontInfo) -> (r: FontInfo)
    requires
        listed(*font) is Some,
    ensures
        listed(r) == listed(*font),
{
    FontInfo {
        family: font.family.clone(),
        full_name: font.full_name.clone(),
        style: font.style,
        weight: font.weight,
        source: font.source,
        path: None,
        is_variable: font.is_variable,
    }
}

/// Lists the fonts of the system: the first face of each family, the
/// families in the order of their lower-case names.
pub fn enumerate_fonts(families: &Vec<SystemFamily>) -> (fonts: Vec<FontInfo>)
    ensures
        is_listing(fonts@, families@),
{
    let mut found: Vec<FontInfo> = Vec::new();
    let mut keys: Vec<Vec<char>> = Vec::new();
    let mut seen: Vec<String> = Vec::new();
    let mut i: usize = 0;
    while i < families.len()
        invariant
            i <= families.len(),
            seen@.len() == i,
            forall|k: int| 0 <= k < i ==> (#[trigger] seen@[k])@ == families@[k].family@,
            found@.len() == first_faces(families@.take(i as int)).len(),
            keys@.len() == found@.len(),
            forall|k: int|
                0 <= k < found@.len() ==> listed(#[trigger] found@[k]) == Some(
                    first_faces(families@.take(i as int))[k],
                ),
            forall|k: int|
                0 <= k < keys@.len() ==> (#[trigger] keys@[k])@ == lowercase(
                    first_faces(families@.take(i as int))[k].family,
                ),
        decreases families.len() - i,
    {
        let entry = &families[i];
        let known = is_named(&seen, entry.family.as_str());
        proof {
            let prefix = families@.take(i as int);
            assert(families@.take(i + 1).drop_last() =~= prefix);
            assert(families@.take(i + 1).last() == families@[i as int]);
            if known {
                let k = choose|k: int| 0 <= k < seen@.len() && texts(seen@)[k] == entry.family@;
                assert(prefix[k].family@ == entry.family@);
            }
            if names(prefix, entry.family@) {
                let j = choose|j: int|
                    0 <= j < prefix.len() && (#[trigger] prefix[j]).family@ == entry.family@;
                assert(texts(seen@)[j] == entry.family@);
            }
            assert(known == names(prefix, entry.family@));
        }
        if !known {
            match &entry.face {
                Some(face) => {
                    found.push(system_font(entry.family.as_str(), face));
                    keys.push(to_chars(to_lowercase(entry.family.as_str()).as_str()));
                },
                None => {},
            }
        }
        seen.push(entry.family.clone());
        i += 1;
    }
    assert(families@.take(families.len() as int) =~= families@);
    let ghost listing = first_faces(families@);
    let order = stable_text_order(&keys);
    assert(crate::sorting::key_texts(keys@) =~= family_keys(listing));
    let mut fonts: Vec<FontInfo> = Vec::new();
    let mut k: usize = 0;
    while k < order.len()
        invariant
            k <= order@.len(),
            order@.len() == found@.len(),
            found@.len() == listing.len(),
            forall|j: int| 0 <= j < order@.len() ==> (#[trigger] order@[j]) < found@.len(),
            forall|j: int| 0 <= j < found@.len() ==> listed(#[trigger] found@[j]) == Some(listing[j]),
            fonts@.len() == k,
            forall|j: int|
                0 <= j < k ==> listed(#[trigger] fonts@[j]) == Some(listing[order@[j] as int]),
        decreases order.len() - k,
    {
        fonts.push(copy_font(&found[order[k]]));
        k += 1;
    }
    fonts
}

} // verus!
