//! DOCX import: the paragraphs of the main document part, laid out on pages.

use crate::content_parser::{layer_id, views};
use crate::fixed::Fixed;
use crate::text::{blank, is_blank, occurs, push_char, push_decimal, texts, to_chars};
use crate::wasm::models::{Bounds, DocumentData, LayerModel, LayerObject, PageData, PageModel};
use vstd::prelude::*;

verus! {

broadcast use vstd::string::group_string_axioms;

/// An archive that was opened for reading: the `ZipArchive` of the `zip`
/// crate over a copy of the bytes. Its bounds by traits of the standard
/// library keep the type itself from being declared.
#[verifier::external_body]
pub struct ZipReader {
    inner: zip::ZipArchive<std::io::Cursor<Vec<u8>>>,
}

/// The text of the error with which the `zip` crate refuses to open bytes
/// as an archive; nothing where it opens them.
pub uninterp spec fn archive_fault(data: Seq<u8>) -> Option<Seq<char>>;

/// The bytes that an archive was opened on.
pub uninterp spec fn zip_source(zip: ZipReader) -> Seq<u8>;

/// What looking up the entry `name` in the archive `data` and reading it as
/// text gives with the `zip` crate: `Err` with the message of the error where
/// the archive gives no such entry; else `Ok` with what reading the entry to
/// its end gives, the text or the message of the error of the read.
pub uninterp spec fn zip_entry(data: Seq<u8>, name: Seq<char>) -> Result<
    Result<Seq<char>, Seq<char>>,
    Seq<char>,
>;

/// `ZipArchive::new` on a copy of the bytes: the archive, or the text of the
/// error of the crate as it is. The outcome depends on the bytes alone.
#[verifier::external_body]
pub(crate) fn zip_open(data: &[u8]) -> (r: Result<ZipReader, String>)
    ensures
        match r {
            Ok(zip) => archive_fault(data@) is None && zip_source(zip) == data@,
            Err(msg) => archive_fault(data@) == Some(msg@),
        },
{
    match zip::ZipArchive::new(std::io::Cursor::new(data.to_vec())) {
        Ok(inner) => Ok(ZipReader { inner }),
        Err(e) => Err(e.to_string()),
    }
}

/// `ZipArchive::by_name`, and the entry that it gives read to its end as
/// text with `Read::read_to_string`: the message of the error where
/// `by_name` gives no entry; else the text, or the message of the error of
/// the read. The entry borrows the archive, so it is read where it is
/// given. The outcome depends on the bytes of the archive and the name
/// alone, and the archive stays what it was.
#[verifier::external_body]
pub(crate) fn zip_read(zip: &mut ZipReader, name: &str) -> (r: Result<
    Result<String, String>,
    String,
>)
    ensures
        zip_source(*final(zip)) == zip_source(*old(zip)),
        match r {
            Ok(Ok(text)) => zip_entry(zip_source(*old(zip)), name@) == Ok::<
                Result<Seq<char>, Seq<char>>,
                Seq<char>,
            >(Ok(text@)),
            Ok(Err(msg)) => zip_entry(zip_source(*old(zip)), name@) == Ok::<
                Result<Seq<char>, Seq<char>>,
                Seq<char>,
            >(Err(msg@)),
            Err(msg) => zip_entry(zip_source(*old(zip)), name@) == Err::<
                Result<Seq<char>, Seq<char>>,
                Seq<char>,
            >(msg@),
        },
{
    let mut content = String::new();
    match zip.inner.by_name(name) {
        Ok(mut file) => match std::io::Read::read_to_string(&mut file, &mut content) {
            Ok(_) => Ok(Ok(content)),
            Err(e) => Ok(Err(e.to_string())),
        },
        Err(e) => Err(e.to_string()),
    }
}

/// The position of the first `>` at or after `from`, or the length of the
/// text where there is none.
pub open spec fn tag_end(xml: Seq<char>, from: int) -> int
    decreases xml.len() - from,
{
    if from < 0 || from >= xml.len() {
        xml.len() as int
    } else if xml[from] == '>' {
        from
    } else {
        tag_end(xml, from + 1)
    }
}

/// The state of the scan over the XML text.
pub struct ScanState {
    /// The paragraphs that are finished.
    pub paragraphs: Seq<Seq<char>>,
    /// The text of the paragraph that is being read.
    pub current: Seq<char>,
    /// Whether the scan is inside a text element.
    pub in_text: bool,
}

/// Whether a tag opens a text element: it begins with `w:t` and holds no
/// slash.
pub open spec fn opens_text(tag: Seq<char>) -> bool {
    tag.len() >= 3 && tag.subrange(0, 3) == "w:t"@ && !occurs(tag, '/')
}

/// The state after a tag: a text element opens or closes, and the end of a
/// paragraph finishes the current text, unless it is empty.
pub open spec fn after_tag(st: ScanState, tag: Seq<char>) -> ScanState {
    if opens_text(tag) {
        ScanState { in_text: true, ..st }
    } else if tag == "/w:t"@ {
        ScanState { in_text: false, ..st }
    } else if tag == "/w:p"@ {
        if st.current.len() > 0 {
            ScanState {
                paragraphs: st.paragraphs.push(st.current),
                current: Seq::empty(),
                ..st
            }
        } else {
            st
        }
    } else {
        st
    }
}

/// The state after the scan from position `i` to the end: a `<` starts a tag
/// that runs to the next `>` or to the end of the text, and any other
/// character is text where the scan is inside a text element.
pub open spec fn scanned(xml: Seq<char>, i: int, st: ScanState) -> ScanState
    decreases xml.len() - i,
{
    if i < 0 || i >= xml.len() {
        st
    } else if xml[i] == '<' {
        let end = tag_end(xml, i + 1);
        let next = if end < xml.len() {
            end + 1
        } else {
            end
        };
        if i < next <= xml.len() && i + 1 <= end {
            scanned(xml, next, after_tag(st, xml.subrange(i + 1, end)))
        } else {
            st
        }
    } else if st.in_text {
        scanned(xml, i + 1, ScanState { current: st.current.push(xml[i]), ..st })
    } else {
        scanned(xml, i + 1, st)
    }
}

/// The end of a tag lies at or after its start and within the text.
pub proof fn lemma_tag_end_bounds(xml: Seq<char>, from: int)
    requires
        0 <= from <= xml.len(),
    ensures
        from <= tag_end(xml, from) <= xml.len(),
    decreases xml.len() - from,
{
    if from < xml.len() && xml[from] != '>' {
        lemma_tag_end_bounds(xml, from + 1);
    }
}

/// The texts of the paragraphs of a document part: what stands in `w:t`
/// elements, cut at each `/w:p`; text after the last such tag is a paragraph
/// of its own, and empty paragraphs are left out.
pub open spec fn paragraphs_of(xml: Seq<char>) -> Seq<Seq<char>> {
    let st = scanned(
        xml,
        0,
        ScanState { paragraphs: Seq::empty(), current: Seq::empty(), in_text: false },
    );
    if st.current.len() > 0 {
        st.paragraphs.push(st.current)
    } else {
        st.paragraphs
    }
}

fn is_text_open(tag: &Vec<char>) -> (r: bool)
    ensures
        r == opens_text(tag@),
{
    proof {
        reveal_strlit("w:t");
    }
    if tag.len() < 3 {
        return false;
    }
    if !(tag[0] == 'w' && tag[1] == ':' && tag[2] == 't') {
        assert(tag@.subrange(0, 3)[0] == tag@[0]);
        assert(tag@.subrange(0, 3)[1] == tag@[1]);
        assert(tag@.subrange(0, 3)[2] == tag@[2]);
        return false;
    }
    assert(tag@.subrange(0, 3) =~= "w:t"@);
    crate::text::find_char(tag, '/').is_none()
}

fn is_tag(tag: &Vec<char>, name: &str) -> (r: bool)
    ensures
        r == (tag@ == name@),
{
    let n = to_chars(name);
    if tag.len() != n.len() {
        return false;
    }
    let mut i: usize = 0;
    while i < tag.len()
        invariant
            i <= tag.len(),
            tag.len() == n.len(),
            n@ == name@,
            forall|k: int| 0 <= k < i ==> tag@[k] == n@[k],
        decreases tag.len() - i,
    {
        if tag[i] != n[i] {
            return false;
        }
        i += 1;
    }
    assert(tag@ =~= n@);
    true
}

/// Reads the texts of the paragraphs out of a document part.
pub fn extract_paragraphs(xml: &str) -> (out: Vec<String>)
    ensures
        texts(out@) == paragraphs_of(xml@),
{
    let chars = to_chars(xml);
    let mut paragraphs: Vec<String> = Vec::new();
    let mut current_text = String::new();
    let mut in_text = false;
    let mut i: usize = 0;
    let ghost start = ScanState { paragraphs: Seq::empty(), current: Seq::empty(), in_text: false };
    assert(texts(paragraphs@) =~= Seq::<Seq<char>>::empty());
    while i < chars.len()
        invariant
            i <= chars.len(),
            chars@ == xml@,
            scanned(xml@, 0, start) == scanned(
                xml@,
                i as int,
                ScanState { paragraphs: texts(paragraphs@), current: current_text@, in_text },
            ),
        decreases chars.len() - i,
    {
        let c = chars[i];
        if c == '<' {
            let mut tag: Vec<char> = Vec::new();
            let mut j: usize = i + 1;
            while j < chars.len() && chars[j] != '>'
                invariant
                    i < j <= chars.len(),
                    tag_end(chars@, i + 1) == tag_end(chars@, j as int),
                    tag@ == chars@.subrange(i + 1, j as int),
                decreases chars.len() - j,
            {
                tag.push(chars[j]);
                assert(tag@ =~= chars@.subrange(i + 1, j + 1));
                j += 1;
            }
            proof {
                lemma_tag_end_bounds(chars@, i + 1);
            }
            if is_text_open(&tag) {
                in_text = true;
            } else if is_tag(&tag, "/w:t") {
                in_text = false;
            } else if is_tag(&tag, "/w:p") {
                if !current_text.as_str().is_empty() {
                    let ghost before = texts(paragraphs@);
                    let ghost text = current_text@;
                    paragraphs.push(current_text);
                    current_text = String::new();
                    assert(texts(paragraphs@) =~= before.push(text));
                }
            }
            i = if j < chars.len() {
                j + 1
            } else {
                j
            };
        } else {
            if in_text {
                push_char(&mut current_text, c);
            }
            i += 1;
        }
    }
    if !current_text.as_str().is_empty() {
        let ghost before = texts(paragraphs@);
        let ghost text = current_text@;
        paragraphs.push(current_text);
        assert(texts(paragraphs@) =~= before.push(text));
    }
    paragraphs
}

/// An empty page of letter size.
pub open spec fn empty_page(index: nat) -> PageModel {
    PageModel {
        page_index: index,
        width: Fixed::spec_from_int(612),
        height: Fixed::spec_from_int(792),
        dpi: Some(72u32),
        layers: Seq::empty(),
        metadata: None,
    }
}

/// Makes an empty page of letter size.
pub fn create_page(index: usize) -> (p: PageData)
    ensures
        p@ == empty_page(index as nat),
{
    let p = PageData {
        page_index: index,
        width: Fixed::from_int(612),
        height: Fixed::from_int(792),
        dpi: Some(72),
        layers: Vec::new(),
        metadata: None,
    };
    assert(p@.layers =~= Seq::<LayerModel>::empty());
    p
}

/// The state of the layout while paragraphs are placed.
pub struct LayoutState {
    /// The pages that are full.
    pub pages: Seq<PageModel>,
    /// The page that is being filled.
    pub current: PageModel,
    /// The number of layers made so far.
    pub layer_counter: nat,
    /// Where the next paragraph goes on the page.
    pub y_offset: Fixed,
}

/// The z-order of the layer with the running number `n`.
pub open spec fn z_of(n: nat) -> int {
    if n > i32::MAX {
        i32::MAX as int
    } else {
        n as int
    }
}

/// The text layer of a paragraph at the height `y` of page `page_index`.
pub open spec fn paragraph_layer(
    text: Seq<char>,
    page_index: nat,
    counter: nat,
    y: Fixed,
) -> LayerModel {
    LayerModel {
        id: layer_id("text"@, page_index, counter),
        layer_type: "text"@,
        bounds: Bounds {
            x: Fixed::spec_from_int(50),
            y,
            width: Fixed::spec_from_int(500),
            height: Fixed::spec_from_int(20),
        },
        visible: true,
        locked: false,
        z_index: z_of(counter),
        opacity: Fixed::spec_one(),
        content: Some(text),
        font_family: Some("Arial"@),
        font_size: Some(Fixed::spec_from_int(12)),
        font_weight: Some(400),
        color: Some("#000000"@),
        text_align: Some("left"@),
        image_url: None,
        image_path: None,
        image_data: None,
        shape_type: None,
        stroke_color: None,
        stroke_width: None,
        fill_color: None,
        source_type: "extracted"@,
        role: "content"@,
    }
}

/// The layout at the start: one empty page, the first paragraph at 50.
pub open spec fn layout_start() -> LayoutState {
    LayoutState {
        pages: Seq::empty(),
        current: empty_page(0),
        layer_counter: 0,
        y_offset: Fixed::spec_from_int(50),
    }
}

/// The layout after one more paragraph: a blank paragraph moves on by 20;
/// any other goes on a new page where the offset has passed 700, becomes a
/// layer at the offset, and moves on by 25.
pub open spec fn placed(st: LayoutState, text: Seq<char>) -> LayoutState {
    if blank(text) {
        LayoutState { y_offset: st.y_offset.spec_plus(Fixed::spec_from_int(20)), ..st }
    } else {
        let broke = st.y_offset.micros > Fixed::spec_from_int(700).micros;
        let pages = if broke {
            st.pages.push(st.current)
        } else {
            st.pages
        };
        let page = if broke {
            empty_page(pages.len())
        } else {
            st.current
        };
        let y = if broke {
            Fixed::spec_from_int(50)
        } else {
            st.y_offset
        };
        LayoutState {
            pages,
            current: PageModel {
                layers: page.layers.push(
                    paragraph_layer(text, page.page_index, st.layer_counter, y),
                ),
                ..page
            },
            layer_counter: st.layer_counter + 1,
            y_offset: y.spec_plus(Fixed::spec_from_int(25)),
        }
    }
}

/// The layout after all the given paragraphs.
pub open spec fn laid_out(paragraphs: Seq<Seq<char>>) -> LayoutState
    decreases paragraphs.len(),
{
    if paragraphs.len() == 0 {
        layout_start()
    } else {
        placed(laid_out(paragraphs.drop_last()), paragraphs.last())
    }
}

/// The pages that the paragraphs fill: the full pages and the one that was
/// being filled at the end.
pub open spec fn pages_of(paragraphs: Seq<Seq<char>>) -> Seq<PageModel> {
    let st = laid_out(paragraphs);
    st.pages.push(st.current)
}

fn make_paragraph_layer(text: String, page_index: usize, counter: usize, y: Fixed) -> (layer:
    LayerObject)
    ensures
        layer@ == paragraph_layer(text@, page_index as nat, counter as nat, y),
{
    let mut id = "text".to_string();
    push_char(&mut id, '-');
    push_decimal(&mut id, page_index as u64);
    push_char(&mut id, '-');
    push_decimal(&mut id, counter as u64);
    assert(id@ =~= layer_id("text"@, page_index as nat, counter as nat));
    LayerObject {
        id,
        layer_type: "text".to_string(),
        bounds: Bounds {
            x: Fixed::from_int(50),
            y,
            width: Fixed::from_int(500),
            height: Fixed::from_int(20),
        },
        visible: true,
        locked: false,
        z_index: if counter > 0x7fff_ffff {
            0x7fff_ffff
        } else {
            counter as i32
        },
        opacity: Fixed::one(),
        content: Some(text),
        font_family: Some("Arial".to_string()),
        font_size: Some(Fixed::from_int(12)),
        font_weight: Some(400),
        color: Some("#000000".to_string()),
        text_align: Some("left".to_string()),
        image_url: None,
        image_path: None,
        image_data: None,
        shape_type: None,
        stroke_color: None,
        stroke_width: None,
        fill_color: None,
        source_type: "extracted".to_string(),
        role: "content".to_string(),
    }
}

/// Lays paragraphs out on pages of letter size.
pub fn layout_paragraphs(paragraphs: Vec<String>) -> (pages: Vec<PageData>)
    ensures
        views(pages@) == pages_of(texts(paragraphs@)),
{
    let mut pages: Vec<PageData> = Vec::new();
    let mut current_page = create_page(0);
    let mut layer_counter: usize = 0;
    let mut y_offset = Fixed::from_int(50);
    let ghost all = texts(paragraphs@);
    let mut i: usize = 0;
    assert(views(pages@) =~= Seq::<PageModel>::empty());
    while i < paragraphs.len()
        invariant
            i <= paragraphs.len(),
            all == texts(paragraphs@),
            layer_counter <= i,
            pages@.len() <= i,
            (LayoutState {
                pages: views(pages@),
                current: current_page@,
                layer_counter: layer_counter as nat,
                y_offset,
            }) == laid_out(all.take(i as int)),
        decreases paragraphs.len() - i,
    {
        proof {
            assert(all.take(i + 1).drop_last() =~= all.take(i as int));
            assert(all.take(i + 1).last() == paragraphs@[i as int]@);
        }
        let text = paragraphs[i].clone();
        if is_blank(text.as_str()) {
            y_offset = y_offset.plus(Fixed::from_int(20));
        } else {
            if Fixed::from_int(700).lt(y_offset) {
                let ghost before = views(pages@);
                let ghost full = current_page@;
                pages.push(current_page);
                assert(views(pages@) =~= before.push(full));
                current_page = create_page(pages.len());
                y_offset = Fixed::from_int(50);
            }
            let layer = make_paragraph_layer(
                text,
                current_page.page_index,
                layer_counter,
                y_offset,
            );
            let ghost layers_before = views(current_page.layers@);
            let ghost made = layer@;
            current_page.layers.push(layer);
            assert(views(current_page.layers@) =~= layers_before.push(made));
            layer_counter += 1;
            y_offset = y_offset.plus(Fixed::from_int(25));
        }
        i += 1;
    }
    assert(all.take(paragraphs.len() as int) =~= all);
    let ghost before = views(pages@);
    let ghost last = current_page@;
    pages.push(current_page);
    assert(views(pages@) =~= before.push(last));
    pages
}

/// The name of the main document part.
pub open spec fn document_part() -> Seq<char> {
    "word/document.xml"@
}

/// What reading the main document part of a file gives: for bytes that are
/// no archive the error `Invalid DOCX: ` with the reason; nothing where the
/// archive gives no such part, whatever the reason; else the text of the
/// part, or the error of reading it.
pub open spec fn document_text(data: Seq<u8>) -> Result<Option<Seq<char>>, Seq<char>> {
    match archive_fault(data) {
        Some(fault) => Err("Invalid DOCX: "@ + fault),
        None => match zip_entry(data, document_part()) {
            Err(_) => Ok(None),
            Ok(Ok(text)) => Ok(Some(text)),
            Ok(Err(msg)) => Err(msg),
        },
    }
}

/// Reads the main document part of a file.
pub fn read_document_part(data: &[u8]) -> (r: Result<Option<String>, String>)
    ensures
        match r {
            Ok(Some(text)) => document_text(data@) == Ok::<Option<Seq<char>>, Seq<char>>(
                Some(text@),
            ),
            Ok(None) => document_text(data@) == Ok::<Option<Seq<char>>, Seq<char>>(None),
            Err(msg) => document_text(data@) == Err::<Option<Seq<char>>, Seq<char>>(msg@),
        },
{
    match zip_open(data) {
        Ok(zip) => {
            let mut zip = zip;
            match zip_read(&mut zip, "word/document.xml") {
                Err(_) => Ok(None),
                Ok(Ok(text)) => Ok(Some(text)),
                Ok(Err(msg)) => Err(msg),
            }
        },
        Err(fault) => {
            let mut msg = "Invalid DOCX: ".to_string();
            msg.append(fault.as_str());
            Err(msg)
        },
    }
}

/// Reads a DOCX file: the paragraphs of its main document part, laid out on
/// pages of letter size. A file without that part gives one empty page; a
/// file that is no ZIP archive, or whose main part is no text, is an error.
pub fn parse_docx(data: &[u8]) -> (r: Result<DocumentData, String>)
    ensures
        match document_text(data@) {
            Ok(Some(xml)) => r matches Ok(doc) && views(doc.pages@) == pages_of(paragraphs_of(xml))
                && doc.page_width == Fixed::spec_from_int(612) && doc.page_height
                == Fixed::spec_from_int(792),
            Ok(None) => r matches Ok(doc) && views(doc.pages@) == seq![empty_page(0)]
                && doc.page_width == Fixed::spec_from_int(612) && doc.page_height
                == Fixed::spec_from_int(792),
            Err(msg) => r matches Err(e) && e@ == msg,
        },
{
    let paragraphs = match read_document_part(data) {
        Ok(Some(content)) => extract_paragraphs(content.as_str()),
        Ok(None) => Vec::new(),
        Err(e) => {
            return Err(e);
        },
    };
    proof {
        if paragraphs@.len() == 0 {
            assert(texts(paragraphs@) =~= Seq::<Seq<char>>::empty());
            assert(pages_of(Seq::<Seq<char>>::empty()) =~= seq![empty_page(0)]);
        }
    }
    let pages = layout_paragraphs(paragraphs);
    Ok(DocumentData { page_width: Fixed::from_int(612), page_height: Fixed::from_int(792), pages })
}

} // verus!
