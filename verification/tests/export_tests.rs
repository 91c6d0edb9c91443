use rook_core::export_handler::{
    bookproj_result, build_project, default_image_quality, docx_result, draw_layer, draw_page,
    failure_result, in_range, page_paragraphs, parse_format, parse_hex_color, pdf_result,
    render_order, resolve_page_range, saved_result, DrawCommand, ExportError, ExportFormat,
};
use rook_core::fixed::Fixed;
use rook_core::models::{
    Bounds, DocumentMetadata, LayerObject, LayerType, PageData, ProjectSettings,
};

fn fx(v: f64) -> Fixed {
    Fixed::from_micros((v * 1_000_000.0).round() as i64)
}

fn text_layer(id: &str, z: i32, content: &str) -> LayerObject {
    let mut layer = LayerObject::plain(id.to_string(), LayerType::Text);
    layer.z_index = z;
    layer.content = Some(content.to_string());
    layer.bounds = Bounds::new(fx(10.0), fx(20.0), fx(100.0), fx(30.0));
    layer
}

fn page(layers: Vec<LayerObject>) -> PageData {
    PageData {
        page_index: 0,
        width: fx(612.0),
        height: fx(792.0),
        dpi: Some(72),
        layers,
        metadata: None,
    }
}

#[test]
fn test_export_error_display() {
    let err = ExportError::NoPages;
    assert_eq!(err.to_string(), "No pages to export");

    let err = ExportError::UnsupportedFormat("xyz".to_string());
    assert_eq!(err.to_string(), "Unsupported export format: xyz");
}

#[test]
fn test_export_error_to_string() {
    let err = ExportError::InvalidPageRange("0-100".to_string());
    let s: String = err.into();
    assert!(s.contains("Invalid page range"));
}

#[test]
fn every_error_has_its_message() {
    let detail = || "d".to_string();
    assert_eq!(ExportError::InvalidPageRange(detail()).to_string(), "Invalid page range: d");
    assert_eq!(
        ExportError::FileCreation(detail()).to_string(),
        "Failed to create output file: d"
    );
    assert_eq!(ExportError::PdfGeneration(detail()).to_string(), "PDF generation failed: d");
    assert_eq!(ExportError::DocxGeneration(detail()).to_string(), "DOCX generation failed: d");
    assert_eq!(
        ExportError::Serialization(detail()).to_string(),
        "JSON serialization failed: d"
    );
    let failed = failure_result(&ExportError::NoPages);
    assert!(!failed.success);
    assert_eq!(failed.message, "No pages to export");
    assert_eq!(failed.output_path, None);
}

#[test]
fn formats_are_read_in_any_case() {
    assert_eq!(parse_format("pdf").ok(), Some(ExportFormat::Pdf));
    assert_eq!(parse_format("DOCX").ok(), Some(ExportFormat::Docx));
    assert_eq!(parse_format("BookProj").ok(), Some(ExportFormat::BookProj));
    match parse_format("Xyz") {
        Err(ExportError::UnsupportedFormat(what)) => assert_eq!(what, "Xyz"),
        _ => panic!("expected an unsupported format"),
    }
    assert_eq!(default_image_quality(), 100);
}

#[test]
fn page_ranges_are_checked() {
    assert_eq!(resolve_page_range(None, 3).ok(), Some((0, 2)));
    assert_eq!(resolve_page_range(Some((1, 1)), 3).ok(), Some((1, 1)));
    match resolve_page_range(Some((2, 1)), 3) {
        Err(ExportError::InvalidPageRange(why)) => {
            assert_eq!(why, "Range 2-1 is invalid for 3 pages")
        }
        _ => panic!("expected an invalid range"),
    }
    match resolve_page_range(Some((0, 3)), 3) {
        Err(ExportError::InvalidPageRange(why)) => {
            assert_eq!(why, "Range 0-3 is invalid for 3 pages")
        }
        _ => panic!("expected an invalid range"),
    }
    match resolve_page_range(None, 0) {
        Err(ExportError::InvalidPageRange(why)) => {
            assert_eq!(why, "Range 0-0 is invalid for 0 pages")
        }
        _ => panic!("expected an invalid range"),
    }
    assert!(in_range(1, (1, 2)));
    assert!(in_range(2, (1, 2)));
    assert!(!in_range(0, (1, 2)));
    assert!(!in_range(3, (1, 2)));
}

#[test]
fn colours_are_read_from_hex() {
    assert_eq!(parse_hex_color("#000000"), Some((0, 0, 0)));
    assert_eq!(parse_hex_color("#FFffFf"), Some((255, 255, 255)));
    assert_eq!(parse_hex_color("1a2B3c"), Some((26, 43, 60)));
    assert_eq!(parse_hex_color("###102030"), Some((16, 32, 48)));
    assert_eq!(parse_hex_color("#+1+2+f"), Some((1, 2, 15)));
    assert_eq!(parse_hex_color("#12345"), None);
    assert_eq!(parse_hex_color("#1234567"), None);
    assert_eq!(parse_hex_color("#12345g"), None);
    assert_eq!(parse_hex_color("#-12345"), None);
    assert_eq!(parse_hex_color("#1+2345"), None);
    assert_eq!(parse_hex_color("#ééé"), None);
    assert_eq!(parse_hex_color("#12345é"), None);
    assert_eq!(parse_hex_color(""), None);
}

#[test]
fn layers_are_drawn_from_the_bottom_up() {
    let mut hidden = text_layer("h", 0, "hidden");
    hidden.visible = false;
    let mut shape = LayerObject::plain("s".to_string(), LayerType::Shape);
    shape.z_index = 1;
    shape.bounds = Bounds::new(fx(100.0), fx(200.0), fx(50.0), fx(25.0));
    shape.fill_color = Some("#ff0000".to_string());
    shape.stroke_color = Some("bad".to_string());
    let mut bold = text_layer("b", 5, "bold");
    bold.font_weight = Some(700);
    bold.font_size = Some(fx(20.0));
    bold.color = Some("#0000ff".to_string());
    let image = LayerObject::plain("i".to_string(), LayerType::Image);
    let p = page(vec![bold, hidden, text_layer("t", 1, "plain"), shape, image]);
    assert_eq!(render_order(&p.layers), vec![4, 2, 3, 0]);
    let commands = draw_page(&p);
    assert_eq!(commands.len(), 3);
    match &commands[0] {
        DrawCommand::Text { content, font_size, x, y, bold, color } => {
            assert_eq!(content, "plain");
            assert_eq!(*font_size, fx(12.0));
            assert_eq!(*x, fx(3.52778));
            assert_eq!(*y, fx(268.11128));
            assert!(!bold);
            assert_eq!(*color, None);
        }
        _ => panic!("expected text"),
    }
    match &commands[1] {
        DrawCommand::Rectangle { x, y, width, height, fill, stroke, stroke_width } => {
            assert_eq!(*x, fx(35.2778));
            assert_eq!(*y, fx(200.025126));
            assert_eq!(*width, fx(17.6389));
            assert_eq!(*height, fx(8.81945));
            assert_eq!(*fill, Some((255, 0, 0)));
            assert_eq!(*stroke, None);
            assert_eq!(*stroke_width, fx(1.0));
        }
        _ => panic!("expected a rectangle"),
    }
    match &commands[2] {
        DrawCommand::Text { content, bold, color, font_size, .. } => {
            assert_eq!(content, "bold");
            assert!(bold);
            assert_eq!(*color, Some((0, 0, 255)));
            assert_eq!(*font_size, fx(20.0));
        }
        _ => panic!("expected text"),
    }
    assert_eq!(page_paragraphs(&p), vec!["plain", "bold"]);
    let mut empty = LayerObject::plain("e".to_string(), LayerType::Text);
    empty.content = None;
    assert!(draw_layer(&empty, fx(792.0)).is_none());
    assert!(draw_layer(&LayerObject::plain("v".to_string(), LayerType::Vector), fx(1.0)).is_none());
}

#[test]
fn reports_of_finished_exports() {
    let r = pdf_result(3, "/tmp/a.pdf");
    assert!(r.success);
    assert_eq!(r.message, "Exported 3 pages to PDF");
    assert_eq!(r.output_path.as_deref(), Some("/tmp/a.pdf"));
    assert_eq!(docx_result("b.docx").message, "Exported to DOCX: b.docx");
    assert_eq!(bookproj_result("c").message, "Project saved to: c");
    assert_eq!(saved_result("d").message, "Project saved: d");
}

#[test]
fn projects_take_the_size_of_the_first_page() {
    let metadata = DocumentMetadata::created_at("2024-01-01T00:00:00Z".to_string());
    let mut first = page(vec![]);
    first.width = fx(100.0);
    first.height = fx(200.0);
    let project = build_project(vec![first, page(vec![])], metadata.clone());
    assert_eq!(project.format, "bookproj");
    assert_eq!(project.version, "1.0.0");
    assert_eq!(project.document.page_width, fx(100.0));
    assert_eq!(project.document.page_height, fx(200.0));
    assert_eq!(project.document.pages.len(), 2);
    assert_eq!(project.metadata, metadata);
    assert_eq!(project.settings, ProjectSettings::default());
    let empty = build_project(vec![], metadata);
    assert_eq!(empty.document.page_width, fx(612.0));
    assert_eq!(empty.document.page_height, fx(792.0));
}
