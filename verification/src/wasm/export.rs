//! DOCX export in memory: the parts of the package and their archive.

use crate::text::{replace, replaced, same_text};
use crate::fixed::Fixed;
use crate::models::opt_text;
use crate::wasm::models::{
    BookProjectData, DocumentData, DocumentMetadata, ExportResult, LayerModel, PageData,
    PageModel, ProjectSettings,
};
use vstd::prelude::*;

verus! {

broadcast use vstd::string::group_string_axioms;

/// A text with the four characters `&`, `<`, `>` and `"` replaced, in this
/// order, by their XML entities.
pub open spec fn xml_escaped(s: Seq<char>) -> Seq<char> {
    replaced(
        replaced(replaced(replaced(s, "&"@, "&amp;"@), "<"@, "&lt;"@), ">"@, "&gt;"@),
        "\""@,
        "&quot;"@,
    )
}

/// Escapes a text for XML.
pub fn escape_xml(s: &str) -> (out: String)
    ensures
        out@ == xml_escaped(s@),
{
    proof {
        reveal_strlit("&");
        reveal_strlit("<");
        reveal_strlit(">");
        reveal_strlit("\"");
    }
    let a = replace(s, "&", "&amp;");
    let b = replace(a.as_str(), "<", "&lt;");
    let c = replace(b.as_str(), ">", "&gt;");
    replace(c.as_str(), "\"", "&quot;")
}

/// The paragraph element of a text.
pub open spec fn paragraph_xml(content: Seq<char>) -> Seq<char> {
    "<w:p><w:r><w:t>"@ + xml_escaped(content) + "</w:t></w:r></w:p>"@
}

/// The paragraph element that breaks the page.
pub open spec fn page_break_xml() -> Seq<char> {
    "<w:p><w:r><w:br w:type=\"page\"/></w:r></w:p>"@
}

/// What a layer adds to the body: a text layer with content its paragraph,
/// any other layer nothing.
pub open spec fn layer_xml(layer: LayerModel) -> Seq<char> {
    if layer.layer_type == "text"@ && layer.content is Some {
        paragraph_xml(layer.content.unwrap())
    } else {
        Seq::empty()
    }
}

/// What the given layers add to the body, in order.
pub open spec fn layers_xml(layers: Seq<LayerModel>) -> Seq<char>
    decreases layers.len(),
{
    if layers.len() == 0 {
        Seq::empty()
    } else {
        layers_xml(layers.drop_last()) + layer_xml(layers.last())
    }
}

/// The body of the given pages: the paragraphs of each page, and a page
/// break after each.
pub open spec fn body_xml(pages: Seq<PageModel>) -> Seq<char>
    decreases pages.len(),
{
    if pages.len() == 0 {
        Seq::empty()
    } else {
        body_xml(pages.drop_last()) + layers_xml(pages.last().layers) + page_break_xml()
    }
}

/// What stands before the body in the main document part.
pub open spec fn document_head() -> Seq<char> {
    "<?xml version=\"1.0\" encoding=\"UTF-8\" standalone=\"yes\"?>\n<w:document xmlns:w=\"http://schemas.openxmlformats.org/wordprocessingml/2006/main\">\n<w:body>"@
}

/// What stands after the body in the main document part.
pub open spec fn document_tail() -> Seq<char> {
    "</w:body>\n</w:document>"@
}

/// The main document part of the given pages.
pub open spec fn document_xml(pages: Seq<PageModel>) -> Seq<char> {
    document_head() + body_xml(pages) + document_tail()
}

/// Writes the main document part of the given pages.
pub fn generate_document_xml(pages: &[PageData]) -> (xml: String)
    ensures
        xml@ == document_xml(crate::content_parser::views(pages@)),
{
    let ghost all = crate::content_parser::views(pages@);
    let mut body = String::new();
    let mut i: usize = 0;
    while i < pages.len()
        invariant
            i <= pages.len(),
            all == crate::content_parser::views(pages@),
            body@ == body_xml(all.take(i as int)),
        decreases pages.len() - i,
    {
        proof {
            assert(all.take(i + 1).drop_last() =~= all.take(i as int));
            assert(all.take(i + 1).last() == pages@[i as int]@);
        }
        let page = &pages[i];
        let ghost layers = crate::content_parser::views(page.layers@);
        let ghost before = body@;
        let mut k: usize = 0;
        while k < page.layers.len()
            invariant
                k <= page.layers.len(),
                layers == crate::content_parser::views(page.layers@),
                body@ == before + layers_xml(layers.take(k as int)),
            decreases page.layers.len() - k,
        {
            proof {
                assert(layers.take(k + 1).drop_last() =~= layers.take(k as int));
                assert(layers.take(k + 1).last() == page.layers@[k as int]@);
            }
            let layer = &page.layers[k];
            if same_text(layer.layer_type.as_str(), "text") {
                match &layer.content {
                    Some(content) => {
                        body.append("<w:p><w:r><w:t>");
                        body.append(escape_xml(content.as_str()).as_str());
                        body.append("</w:t></w:r></w:p>");
                    },
                    None => {},
                }
            }
            assert(body@ =~= before + layers_xml(layers.take(k + 1)));
            k += 1;
        }
        assert(layers.take(page.layers.len() as int) =~= layers);
        body.append("<w:p><w:r><w:br w:type=\"page\"/></w:r></w:p>");
        assert(body@ =~= body_xml(all.take(i + 1)));
        i += 1;
    }
    assert(all.take(pages.len() as int) =~= all);
    let mut xml =
        "<?xml version=\"1.0\" encoding=\"UTF-8\" standalone=\"yes\"?>\n<w:document xmlns:w=\"http://schemas.openxmlformats.org/wordprocessingml/2006/main\">\n<w:body>".to_string();
    xml.append(body.as_str());
    xml.append("</w:body>\n</w:document>");
    xml
}

/// The content types part.
pub open spec fn content_types() -> Seq<char> {
    "<?xml version=\"1.0\" encoding=\"UTF-8\" standalone=\"yes\"?>\n<Types xmlns=\"http://schemas.openxmlformats.org/package/2006/content-types\">\n<Default Extension=\"rels\" ContentType=\"application/vnd.openxmlformats-package.relationships+xml\"/>\n<Default Extension=\"xml\" ContentType=\"application/xml\"/>\n<Override PartName=\"/word/document.xml\" ContentType=\"application/vnd.openxmlformats-officedocument.wordprocessingml.document.main+xml\"/>\n<Override PartName=\"/word/styles.xml\" ContentType=\"application/vnd.openxmlformats-officedocument.wordprocessingml.styles+xml\"/>\n</Types>"@
}

/// The relationships of the package.
pub open spec fn package_rels() -> Seq<char> {
    "<?xml version=\"1.0\" encoding=\"UTF-8\" standalone=\"yes\"?>\n<Relationships xmlns=\"http://schemas.openxmlformats.org/package/2006/relationships\">\n<Relationship Id=\"rId1\" Type=\"http://schemas.openxmlformats.org/officeDocument/2006/relationships/officeDocument\" Target=\"word/document.xml\"/>\n</Relationships>"@
}

/// The relationships of the main document part.
pub open spec fn document_rels() -> Seq<char> {
    "<?xml version=\"1.0\" encoding=\"UTF-8\" standalone=\"yes\"?>\n<Relationships xmlns=\"http://schemas.openxmlformats.org/package/2006/relationships\">\n<Relationship Id=\"rId1\" Type=\"http://schemas.openxmlformats.org/officeDocument/2006/relationships/styles\" Target=\"styles.xml\"/>\n</Relationships>"@
}

/// The styles part.
pub open spec fn styles() -> Seq<char> {
    "<?xml version=\"1.0\" encoding=\"UTF-8\" standalone=\"yes\"?>\n<w:styles xmlns:w=\"http://schemas.openxmlformats.org/wordprocessingml/2006/main\">\n<w:docDefaults><w:rPrDefault><w:rPr><w:sz w:val=\"24\"/></w:rPr></w:rPrDefault></w:docDefaults>\n</w:styles>"@
}

/// One part of a package: its name and its text.
#[derive(Debug, Clone)]
pub struct PackagePart {
    pub name: String,
    pub content: String,
}

/// The parts of the DOCX package of the given pages, as name and text, in
/// the order in which they are written.
pub open spec fn package_parts(pages: Seq<PageModel>) -> Seq<(Seq<char>, Seq<char>)> {
    seq![
        ("[Content_Types].xml"@, content_types()),
        ("_rels/.rels"@, package_rels()),
        ("word/_rels/document.xml.rels"@, document_rels()),
        ("word/document.xml"@, document_xml(pages)),
        ("word/styles.xml"@, styles()),
    ]
}

/// The names and texts of a list of parts.
pub open spec fn part_views(parts: Seq<PackagePart>) -> Seq<(Seq<char>, Seq<char>)> {
    Seq::new(parts.len(), |i: int| (parts[i].name@, parts[i].content@))
}

fn part(name: &str, content: String) -> (p: PackagePart)
    ensures
        p.name@ == name@,
        p.content@ == content@,
{
    PackagePart { name: name.to_string(), content }
}

/// Makes the parts of the DOCX package of the given pages.
pub fn docx_parts(pages: &[PageData]) -> (parts: Vec<PackagePart>)
    ensures
        part_views(parts@) == package_parts(crate::content_parser::views(pages@)),
{
    let mut parts: Vec<PackagePart> = Vec::new();
    parts.push(
        part(
            "[Content_Types].xml",
            "<?xml version=\"1.0\" encoding=\"UTF-8\" standalone=\"yes\"?>\n<Types xmlns=\"http://schemas.openxmlformats.org/package/2006/content-types\">\n<Default Extension=\"rels\" ContentType=\"application/vnd.openxmlformats-package.relationships+xml\"/>\n<Default Extension=\"xml\" ContentType=\"application/xml\"/>\n<Override PartName=\"/word/document.xml\" ContentType=\"application/vnd.openxmlformats-officedocument.wordprocessingml.document.main+xml\"/>\n<Override PartName=\"/word/styles.xml\" ContentType=\"application/vnd.openxmlformats-officedocument.wordprocessingml.styles+xml\"/>\n</Types>".to_string(),
        ),
    );
    parts.push(
        part(
            "_rels/.rels",
            "<?xml version=\"1.0\" encoding=\"UTF-8\" standalone=\"yes\"?>\n<Relationships xmlns=\"http://schemas.openxmlformats.org/package/2006/relationships\">\n<Relationship Id=\"rId1\" Type=\"http://schemas.openxmlformats.org/officeDocument/2006/relationships/officeDocument\" Target=\"word/document.xml\"/>\n</Relationships>".to_string(),
        ),
    );
    parts.push(
        part(
            "word/_rels/document.xml.rels",
            "<?xml version=\"1.0\" encoding=\"UTF-8\" standalone=\"yes\"?>\n<Relationships xmlns=\"http://schemas.openxmlformats.org/package/2006/relationships\">\n<Relationship Id=\"rId1\" Type=\"http://schemas.openxmlformats.org/officeDocument/2006/relationships/styles\" Target=\"styles.xml\"/>\n</Relationships>".to_string(),
        ),
    );
    parts.push(part("word/document.xml", generate_document_xml(pages)));
    parts.push(
        part(
            "word/styles.xml",
            "<?xml version=\"1.0\" encoding=\"UTF-8\" standalone=\"yes\"?>\n<w:styles xmlns:w=\"http://schemas.openxmlformats.org/wordprocessingml/2006/main\">\n<w:docDefaults><w:rPrDefault><w:rPr><w:sz w:val=\"24\"/></w:rPr></w:rPrDefault></w:docDefaults>\n</w:styles>".to_string(),
        ),
    );
    assert(part_views(parts@) =~= package_parts(crate::content_parser::views(pages@)));
    parts
}

/// An archive in the making: the `ZipWriter` of the `zip` crate over a buffer
/// in memory. Its bounds by traits of the standard library keep the type
/// itself from being declared.
#[verifier::external_body]
pub struct ZipBuilder {
    inner: zip::ZipWriter<std::io::Cursor<Vec<u8>>>,
}

/// The entries of an archive in the making: those that were started, each
/// as its name and the text written to it so far, in the order in which they
/// were started. What is written goes to the entry that was started last.
pub uninterp spec fn zip_contents(zip: ZipBuilder) -> Seq<(Seq<char>, Seq<char>)>;

/// The message with which `ZipWriter::finish` fails on an archive of the
/// given entries, or nothing where it succeeds.
pub uninterp spec fn zip_finish_fault(contents: Seq<(Seq<char>, Seq<char>)>) -> Option<Seq<char>>;

/// `ZipWriter::new` on an empty buffer in memory: an archive in the making
/// that has no entries yet. The buffer grows with what is written, so that
/// no limit is set to the archive but that of memory.
#[verifier::external_body]
pub(crate) fn zip_new() -> (zip: ZipBuilder)
    ensures
        zip_contents(zip) == Seq::<(Seq<char>, Seq<char>)>::empty(),
{
    ZipBuilder { inner: zip::ZipWriter::new(std::io::Cursor::new(Vec::new())) }
}

/// `ZipWriter::finish`: the bytes of the archive, or the message of the
/// error; which of the two is a matter of the entries alone. Nothing is
/// promised of the bytes: an archive records when it was written.
#[verifier::external_body]
pub(crate) fn zip_finish(zip: ZipBuilder) -> (r: Result<Vec<u8>, String>)
    ensures
        match r {
            Ok(_) => zip_finish_fault(zip_contents(zip)) is None,
            Err(msg) => zip_finish_fault(zip_contents(zip)) == Some(msg@),
        },
{
    zip.inner.finish().map(|cursor| cursor.into_inner()).map_err(|e| e.to_string())
}

/// Packs parts into an archive, in order; the first error ends the work, and
/// its message is what comes back.
pub fn write_zip(parts: &Vec<PackagePart>) -> (r: Result<Vec<u8>, String>)
    ensures
        match r {
            Ok(_) => zip_fault(part_views(parts@)) is None,
            Err(msg) => zip_fault(part_views(parts@)) == Some(msg@),
        },
{
    match pack_parts(parts) {
        Ok(zip) => zip_finish(zip),
        Err(e) => Err(e),
    }
}

/// Packs the given pages as a DOCX file: the archive of `docx_parts`.
pub fn export_docx(pages: &[PageData]) -> (r: Result<Vec<u8>, String>)
    ensures
        match r {
            Ok(_) => zip_fault(package_parts(crate::content_parser::views(pages@))) is None,
            Err(msg) => zip_fault(package_parts(crate::content_parser::views(pages@))) == Some(
                msg@,
            ),
        },
{
    let parts = docx_parts(pages);
    write_zip(&parts)
}

/// The message with which `ZipWriter::start_file` with the default options
/// refuses a name in an archive of the given entries, or nothing where it
/// starts the entry.
pub uninterp spec fn zip_start_fault(contents: Seq<(Seq<char>, Seq<char>)>, name: Seq<char>) -> Option<
    Seq<char>,
>;

/// The message with which `write_all` fails to write a text to the entry
/// that was started last in an archive of the given entries, of which there
/// is at least one, or nothing where it writes the text.
pub uninterp spec fn zip_write_fault(contents: Seq<(Seq<char>, Seq<char>)>, text: Seq<char>) -> Option<
    Seq<char>,
>;

/// `contents` with `text` added to its last entry.
pub open spec fn written(contents: Seq<(Seq<char>, Seq<char>)>, text: Seq<char>) -> Seq<
    (Seq<char>, Seq<char>),
> {
    contents.drop_last().push((contents.last().0, contents.last().1 + text))
}

/// The message of the first fault that is met when the parts are started
/// and written one after the other, or nothing where all are packed.
pub open spec fn packing_fault(parts: Seq<(Seq<char>, Seq<char>)>) -> Option<Seq<char>>
    decreases parts.len(),
{
    if parts.len() == 0 {
        None
    } else {
        let head = parts.drop_last();
        if packing_fault(head) is Some {
            packing_fault(head)
        } else if zip_start_fault(head, parts.last().0) is Some {
            zip_start_fault(head, parts.last().0)
        } else {
            zip_write_fault(head.push((parts.last().0, Seq::empty())), parts.last().1)
        }
    }
}

/// The message with which the making of an archive of the parts fails: the
/// first fault of packing them, else that of finishing; nothing where the
/// archive is made.
pub open spec fn zip_fault(parts: Seq<(Seq<char>, Seq<char>)>) -> Option<Seq<char>> {
    if packing_fault(parts) is Some {
        packing_fault(parts)
    } else {
        zip_finish_fault(parts)
    }
}

/// `ZipWriter::start_file` with the default options: where it succeeds the
/// archive has one more entry, of that name and still empty; else the
/// message of the error, and nothing is known of the archive. Which of the
/// two is a matter of the entries and the name alone.
#[verifier::external_body]
pub(crate) fn zip_start(zip: &mut ZipBuilder, name: &str) -> (r: Result<(), String>)
    ensures
        match r {
            Ok(_) => zip_start_fault(zip_contents(*old(zip)), name@) is None && zip_contents(
                *final(zip),
            ) == zip_contents(*old(zip)).push((name@, Seq::<char>::empty())),
            Err(msg) => zip_start_fault(zip_contents(*old(zip)), name@) == Some(msg@),
        },
{
    zip.inner.start_file(name, zip::write::SimpleFileOptions::default()).map_err(
        |e| e.to_string(),
    )
}

/// `Write::write_all` on the `ZipWriter` of an archive in which an entry was
/// started: where it succeeds the text stands at the end of the entry that
/// was started last; else the message of the error, and nothing is known of
/// the archive. Which of the two is a matter of the entries and the text
/// alone. An archive without an entry is left out: an empty text is
/// written to it with success, and no entry holds it.
#[verifier::external_body]
pub(crate) fn zip_write(zip: &mut ZipBuilder, text: &str) -> (r: Result<(), String>)
    requires
        zip_contents(*old(zip)).len() >= 1,
    ensures
        match r {
            Ok(_) => zip_write_fault(zip_contents(*old(zip)), text@) is None && zip_contents(
                *final(zip),
            ) == written(zip_contents(*old(zip)), text@),
            Err(msg) => zip_write_fault(zip_contents(*old(zip)), text@) == Some(msg@),
        },
{
    std::io::Write::write_all(&mut zip.inner, text.as_bytes()).map_err(|e| e.to_string())
}

/// Packing a prefix of the parts fails with the fault of packing them all.
proof fn lemma_fault_stays(parts: Seq<(Seq<char>, Seq<char>)>, n: int)
    requires
        0 <= n <= parts.len(),
        packing_fault(parts.take(n)) is Some,
    ensures
        packing_fault(parts) == packing_fault(parts.take(n)),
    decreases parts.len() - n,
{
    if n < parts.len() {
        assert(parts.take(n + 1).drop_last() =~= parts.take(n));
        lemma_fault_stays(parts, n + 1);
    } else {
        assert(parts.take(n) =~= parts);
    }
}

/// Starts an archive and writes the parts into it, in order; the first error
/// ends the work, and its message is what comes back. An archive that comes
/// back holds the parts, all of them and nothing else.
pub fn pack_parts(parts: &Vec<PackagePart>) -> (r: Result<ZipBuilder, String>)
    ensures
        match r {
            Ok(zip) => packing_fault(part_views(parts@)) is None && zip_contents(zip) == part_views(
                parts@,
            ),
            Err(msg) => packing_fault(part_views(parts@)) == Some(msg@),
        },
{
    let mut zip = zip_new();
    let mut i: usize = 0;
    let ghost all = part_views(parts@);
    assert(all.take(0) =~= Seq::<(Seq<char>, Seq<char>)>::empty());
    while i < parts.len()
        invariant
            i <= parts.len(),
            all == part_views(parts@),
            zip_contents(zip) == all.take(i as int),
            packing_fault(all.take(i as int)) is None,
        decreases parts.len() - i,
    {
        proof {
            assert(all.take(i + 1).drop_last() =~= all.take(i as int));
            assert(all.take(i + 1).last() == (parts@[i as int].name@, parts@[i as int].content@));
        }
        match zip_start(&mut zip, parts[i].name.as_str()) {
            Ok(_) => {},
            Err(e) => {
                proof {
                    lemma_fault_stays(all, i + 1);
                }
                return Err(e);
            },
        }
        match zip_write(&mut zip, parts[i].content.as_str()) {
            Ok(_) => {},
            Err(e) => {
                proof {
                    lemma_fault_stays(all, i + 1);
                }
                return Err(e);
            },
        }
        proof {
            let started = all.take(i as int).push((parts@[i as int].name@, Seq::<char>::empty()));
            assert(started.drop_last() =~= all.take(i as int));
            assert(Seq::<char>::empty() + parts@[i as int].content@ =~= parts@[i as int].content@);
            assert(written(started, parts@[i as int].content@) =~= all.take(i + 1));
        }
        i += 1;
    }
    assert(all.take(parts.len() as int) =~= all);
    Ok(zip)
}

/// Whether bytes can be made in the named format.
pub open spec fn is_supported(format: Seq<char>) -> bool {
    format == "bookproj"@ || format == "docx"@
}

/// The message for a format that is not supported.
pub open spec fn unsupported_message(format: Seq<char>) -> Seq<char> {
    "Unsupported format: "@ + format
}

/// The message for a finished export.
pub open spec fn exported_message(format: Seq<char>) -> Seq<char> {
    "Exported to "@ + format + " successfully"@
}

/// Tells whether bytes can be made in the named format.
pub fn check_format(format: &str) -> (r: Result<(), String>)
    ensures
        is_supported(format@) ==> r is Ok,
        !is_supported(format@) ==> (r matches Err(msg) && msg@ == unsupported_message(format@)),
{
    if same_text(format, "bookproj") || same_text(format, "docx") {
        Ok(())
    } else {
        let mut msg = "Unsupported format: ".to_string();
        msg.append(format);
        Err(msg)
    }
}

/// The report of an export in the named format: the bytes with a message of
/// success, or the message of the failure.
pub fn export_result(format: &str, outcome: Result<Vec<u8>, String>) -> (r: ExportResult)
    ensures
        match outcome {
            Ok(data) => r.success && r.message@ == exported_message(format@) && r.data == Some(
                data,
            ),
            Err(e) => !r.success && r.message@ == e@ && r.data is None,
        },
{
    match outcome {
        Ok(data) => {
            let mut message = "Exported to ".to_string();
            message.append(format);
            message.append(" successfully");
            ExportResult { success: true, message, data: Some(data) }
        },
        Err(e) => ExportResult { success: false, message: e, data: None },
    }
}

/// Puts the pages and the metadata of a document into a project: the
/// document takes the size of its first page, or letter size where it has no
/// page, and the settings are the usual ones.
pub fn build_project(pages: Vec<PageData>, metadata: DocumentMetadata) -> (p: BookProjectData)
    ensures
        p.format@ == "bookproj"@,
        p.version@ == "1.0.0"@,
        p.metadata == metadata,
        p.document.pages == pages,
        p.document.page_width == if pages@.len() > 0 {
            pages@[0].width
        } else {
            Fixed::spec_from_int(612)
        },
        p.document.page_height == if pages@.len() > 0 {
            pages@[0].height
        } else {
            Fixed::spec_from_int(792)
        },
        opt_text(p.settings.default_font) == Some("Arial"@),
        p.settings.default_font_size == Some(Fixed::spec_from_int(12)),
        opt_text(p.settings.export_quality) == Some("standard"@),
{
    let page_width = if pages.len() > 0 {
        pages[0].width
    } else {
        Fixed::from_int(612)
    };
    let page_height = if pages.len() > 0 {
        pages[0].height
    } else {
        Fixed::from_int(792)
    };
    BookProjectData {
        format: "bookproj".to_string(),
        version: "1.0.0".to_string(),
        metadata,
        document: DocumentData { page_width, page_height, pages },
        settings: ProjectSettings::default(),
    }
}

} // verus!
