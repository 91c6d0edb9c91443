use rook_core::fixed::Fixed;
use rook_core::image_cache::{cache_image, clear_cache, get_cached_image, ImageCache};
use rook_core::wasm::docx_parser::{create_page, extract_paragraphs, layout_paragraphs, parse_docx};
use rook_core::wasm::export::{
    check_format, docx_parts, escape_xml, export_docx, export_result, generate_document_xml,
    write_zip,
};
use rook_core::wasm::models::{
    create_document_from_pages, update_layer, Bounds, LayerObject, LayerUpdates, PageData,
};
use std::io::Read;

fn fx(v: f64) -> Fixed {
    Fixed::from_micros((v * 1_000_000.0).round() as i64)
}

fn layer(kind: &str, content: Option<&str>) -> LayerObject {
    LayerObject {
        id: "l".to_string(),
        layer_type: kind.to_string(),
        bounds: Bounds { x: fx(1.0), y: fx(2.0), width: fx(3.0), height: fx(4.0) },
        visible: true,
        locked: false,
        z_index: 0,
        opacity: fx(1.0),
        content: content.map(|c| c.to_string()),
        font_family: None,
        font_size: None,
        font_weight: None,
        color: None,
        text_align: None,
        image_url: None,
        image_path: None,
        image_data: None,
        shape_type: None,
        stroke_color: None,
        stroke_width: None,
        fill_color: None,
        source_type: "manual".to_string(),
        role: "content".to_string(),
    }
}

fn page_with(layers: Vec<LayerObject>) -> PageData {
    let mut page = create_page(0);
    page.layers = layers;
    page
}

fn entry(archive: &[u8], name: &str) -> String {
    let mut zip = zip::ZipArchive::new(std::io::Cursor::new(archive)).unwrap();
    let mut file = zip.by_name(name).unwrap();
    let mut text = String::new();
    file.read_to_string(&mut text).unwrap();
    text
}

#[test]
fn paragraphs_are_read_from_markup() {
    let xml = "<w:body><w:p><w:r><w:t>Hello</w:t></w:r><w:r><w:t xml:space=\"preserve\"> there</w:t></w:r></w:p>\
               <w:p></w:p><w:p><w:r><w:tab/><w:t>Second</w:t>skipped</w:r></w:p><w:p><w:r><w:t>open";
    assert_eq!(extract_paragraphs(xml), vec!["Hello there", "Second", "open"]);
    assert!(extract_paragraphs("").is_empty());
    assert!(extract_paragraphs("no tags at all").is_empty());
    assert_eq!(extract_paragraphs("<w:t>a</w:p>b</w:t>c"), vec!["a", "b"]);
    assert_eq!(extract_paragraphs("<w:tbl>x</w:p>"), vec!["x"]);
    assert_eq!(extract_paragraphs("<w:t/>x</w:p>"), Vec::<String>::new());
    assert_eq!(extract_paragraphs("<w:t>a<b"), vec!["a"]);
    assert_eq!(extract_paragraphs("<w:t>é>ü</w:t></w:p>"), vec!["é>ü"]);
}

#[test]
fn paragraphs_fill_pages() {
    let pages = layout_paragraphs(vec!["one".to_string(), "  ".to_string(), "two".to_string()]);
    assert_eq!(pages.len(), 1);
    let page = &pages[0];
    assert_eq!(page.page_index, 0);
    assert_eq!(page.width, fx(612.0));
    assert_eq!(page.height, fx(792.0));
    assert_eq!(page.dpi, Some(72));
    assert!(page.metadata.is_none());
    assert_eq!(page.layers.len(), 2);
    assert_eq!(page.layers[0].id, "text-0-0");
    assert_eq!(page.layers[0].bounds, Bounds { x: fx(50.0), y: fx(50.0), width: fx(500.0), height: fx(20.0) });
    assert_eq!(page.layers[0].content.as_deref(), Some("one"));
    assert_eq!(page.layers[0].layer_type, "text");
    assert_eq!(page.layers[0].font_family.as_deref(), Some("Arial"));
    assert_eq!(page.layers[0].font_size, Some(fx(12.0)));
    assert_eq!(page.layers[0].font_weight, Some(400));
    assert_eq!(page.layers[0].color.as_deref(), Some("#000000"));
    assert_eq!(page.layers[0].text_align.as_deref(), Some("left"));
    assert_eq!(page.layers[0].source_type, "extracted");
    assert_eq!(page.layers[0].role, "content");
    assert_eq!(page.layers[1].id, "text-0-1");
    assert_eq!(page.layers[1].z_index, 1);
    assert_eq!(page.layers[1].bounds.y, fx(95.0));
    let none = layout_paragraphs(vec![]);
    assert_eq!(none.len(), 1);
    assert!(none[0].layers.is_empty());
}

#[test]
fn a_full_page_is_followed_by_another() {
    let many: Vec<String> = (0..30).map(|i| format!("p{}", i)).collect();
    let pages = layout_paragraphs(many);
    assert_eq!(pages.len(), 2);
    assert_eq!(pages[0].layers.len(), 27);
    assert_eq!(pages[0].layers[26].bounds.y, fx(700.0));
    assert_eq!(pages[1].page_index, 1);
    assert_eq!(pages[1].layers.len(), 3);
    assert_eq!(pages[1].layers[0].id, "text-1-27");
    assert_eq!(pages[1].layers[0].bounds.y, fx(50.0));
    assert_eq!(pages[1].layers[0].z_index, 27);
    assert_eq!(pages[1].layers[2].bounds.y, fx(100.0));
}

#[test]
fn markup_is_escaped() {
    assert_eq!(escape_xml("a & b"), "a &amp; b");
    assert_eq!(escape_xml("<\"x\">"), "&lt;&quot;x&quot;&gt;");
    assert_eq!(escape_xml("&amp;"), "&amp;amp;");
    assert_eq!(escape_xml("it's"), "it's");
    assert_eq!(escape_xml(""), "");
}

#[test]
fn the_document_part_holds_the_text_layers() {
    let pages = vec![
        page_with(vec![
            layer("text", Some("A<B")),
            layer("image", Some("not text")),
            layer("text", None),
        ]),
        page_with(vec![]),
    ];
    let xml = generate_document_xml(&pages);
    assert_eq!(
        xml,
        "<?xml version=\"1.0\" encoding=\"UTF-8\" standalone=\"yes\"?>\n\
         <w:document xmlns:w=\"http://schemas.openxmlformats.org/wordprocessingml/2006/main\">\n\
         <w:body><w:p><w:r><w:t>A&lt;B</w:t></w:r></w:p>\
         <w:p><w:r><w:br w:type=\"page\"/></w:r></w:p>\
         <w:p><w:r><w:br w:type=\"page\"/></w:r></w:p></w:body>\n\
         </w:document>"
    );
    let parts = docx_parts(&pages);
    let names: Vec<&str> = parts.iter().map(|p| p.name.as_str()).collect();
    assert_eq!(
        names,
        vec![
            "[Content_Types].xml",
            "_rels/.rels",
            "word/_rels/document.xml.rels",
            "word/document.xml",
            "word/styles.xml"
        ]
    );
    assert_eq!(parts[3].content, xml);
    assert!(parts[0].content.starts_with("<?xml version=\"1.0\" encoding=\"UTF-8\" standalone=\"yes\"?>\n<Types xmlns="));
    assert!(parts[0].content.ends_with("styles+xml\"/>\n</Types>"));
    assert!(parts[1].content.contains("Target=\"word/document.xml\"/>"));
    assert!(parts[2].content.contains("Target=\"styles.xml\"/>"));
    assert!(parts[4].content.contains("<w:sz w:val=\"24\"/>"));
}

#[test]
fn an_exported_document_is_read_back() {
    let pages = vec![page_with(vec![layer("text", Some("first & only")), layer("text", Some("second"))])];
    let bytes = export_docx(&pages).unwrap();
    assert_eq!(&bytes[0..2], b"PK");
    assert_eq!(entry(&bytes, "word/document.xml"), generate_document_xml(&pages));
    assert!(entry(&bytes, "[Content_Types].xml").contains("ContentType=\"application/xml\""));
    assert!(entry(&bytes, "word/styles.xml").contains("w:docDefaults"));
    let doc = parse_docx(&bytes).unwrap();
    assert_eq!(doc.page_width, fx(612.0));
    assert_eq!(doc.page_height, fx(792.0));
    assert_eq!(doc.pages.len(), 1);
    let texts: Vec<&str> =
        doc.pages[0].layers.iter().map(|l| l.content.as_deref().unwrap()).collect();
    assert_eq!(texts, vec!["first &amp; only", "second"]);
}

#[test]
fn archives_without_a_document_give_an_empty_page() {
    let bytes = write_zip(&vec![]).unwrap();
    let doc = parse_docx(&bytes).unwrap();
    assert_eq!(doc.pages.len(), 1);
    assert!(doc.pages[0].layers.is_empty());
    match parse_docx(b"this is no archive") {
        Err(msg) => assert!(msg.starts_with("Invalid DOCX: ")),
        Ok(_) => panic!("expected an error"),
    }
    match parse_docx(&[]) {
        Err(msg) => assert!(msg.starts_with("Invalid DOCX: ")),
        Ok(_) => panic!("expected an error"),
    }
}

#[test]
fn export_reports() {
    assert!(check_format("bookproj").is_ok());
    assert!(check_format("docx").is_ok());
    assert_eq!(check_format("pdf"), Err("Unsupported format: pdf".to_string()));
    assert_eq!(check_format("DOCX"), Err("Unsupported format: DOCX".to_string()));
    let good = export_result("docx", Ok(vec![1, 2, 3]));
    assert!(good.success);
    assert_eq!(good.message, "Exported to docx successfully");
    assert_eq!(good.data, Some(vec![1, 2, 3]));
    let bad = export_result("docx", Err("broken".to_string()));
    assert!(!bad.success);
    assert_eq!(bad.message, "broken");
    assert_eq!(bad.data, None);
}

#[test]
fn layers_take_the_changes_that_are_present() {
    let before = layer("text", Some("old"));
    let same = update_layer(
        before.clone(),
        LayerUpdates {
            bounds: None,
            visible: None,
            locked: None,
            z_index: None,
            opacity: None,
            content: None,
        },
    );
    assert_eq!(same.bounds, before.bounds);
    assert_eq!(same.content, before.content);
    assert_eq!(same.z_index, 0);
    let changed = update_layer(
        before,
        LayerUpdates {
            bounds: Some(Bounds { x: fx(9.0), y: fx(8.0), width: fx(7.0), height: fx(6.0) }),
            visible: Some(false),
            locked: Some(true),
            z_index: Some(-4),
            opacity: Some(fx(2.5)),
            content: Some("new".to_string()),
        },
    );
    assert_eq!(changed.bounds.x, fx(9.0));
    assert!(!changed.visible);
    assert!(changed.locked);
    assert_eq!(changed.z_index, -4);
    assert_eq!(changed.opacity, fx(2.5));
    assert_eq!(changed.content.as_deref(), Some("new"));
    assert_eq!(changed.id, "l");
    assert_eq!(changed.source_type, "manual");
}

#[test]
fn documents_are_made_from_pages() {
    let response = create_document_from_pages(vec![create_page(0), create_page(1)], fx(100.0), fx(200.0));
    assert!(response.success);
    assert_eq!(response.message, "Document created");
    let doc = response.data.unwrap();
    assert_eq!(doc.page_width, fx(100.0));
    assert_eq!(doc.page_height, fx(200.0));
    assert_eq!(doc.pages.len(), 2);
}

#[test]
fn images_are_kept_by_name() {
    let mut cache = ImageCache::new();
    assert_eq!(get_cached_image(&cache, "a"), None);
    cache_image(&mut cache, "a", vec![1, 2]);
    cache_image(&mut cache, "b", vec![3]);
    cache_image(&mut cache, "a", vec![4, 5, 6]);
    assert_eq!(get_cached_image(&cache, "a"), Some(vec![4, 5, 6]));
    assert_eq!(get_cached_image(&cache, "b"), Some(vec![3]));
    clear_cache(&mut cache);
    assert_eq!(get_cached_image(&cache, "a"), None);
    assert_eq!(get_cached_image(&cache, "b"), None);
}

#[test]
fn parts_are_packed_in_order() {
    let part = |name: &str, content: &str| rook_core::wasm::export::PackagePart {
        name: name.to_string(),
        content: content.to_string(),
    };
    let parts = vec![part("b.txt", "second letter"), part("a/a.txt", ""), part("c", "<c/>")];
    assert!(rook_core::wasm::export::pack_parts(&parts).is_ok());
    let bytes = write_zip(&parts).unwrap();
    assert_eq!(entry(&bytes, "b.txt"), "second letter");
    assert_eq!(entry(&bytes, "a/a.txt"), "");
    assert_eq!(entry(&bytes, "c"), "<c/>");
    let archive = zip::ZipArchive::new(std::io::Cursor::new(&bytes[..])).unwrap();
    assert_eq!(archive.len(), 3);
    assert!(rook_core::wasm::export::pack_parts(&vec![]).is_ok());
}

#[test]
fn a_name_cannot_be_packed_twice() {
    let part = |name: &str, content: &str| rook_core::wasm::export::PackagePart {
        name: name.to_string(),
        content: content.to_string(),
    };
    let parts = vec![part("a.txt", "one"), part("b.txt", "two"), part("a.txt", "three")];
    let message = write_zip(&parts).unwrap_err();
    assert!(message.starts_with("invalid Zip archive: Duplicate filename"), "{message}");
    match rook_core::wasm::export::pack_parts(&parts) {
        Err(packing) => assert_eq!(packing, message),
        Ok(_) => panic!("expected an error"),
    }
    let bytes = write_zip(&parts[..2].to_vec()).unwrap();
    assert_eq!(entry(&bytes, "a.txt"), "one");
    assert_eq!(entry(&bytes, "b.txt"), "two");
}
