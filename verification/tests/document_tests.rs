use rook_core::document_parser::{
    assemble_page, calculate_font_metrics, extract_image_layers, extract_text_layers,
    failure_response, generate_layer_id, import_kind, not_found_response, parse_docx,
    parse_docx_paragraph, parse_docx_table, pdf_response, reset_layer_counter, sort_layers,
    unsupported_response, BodyElement, DocxCell, DocxParagraph, DocxRow, DocxRun, DocxTable,
    ImageObjectInfo, ImportKind, LayerCounter, TextObjectInfo,
};
use rook_core::fixed::Fixed;
use rook_core::font_manager::docx_extractor::{DocxFontInfo, ParagraphInfo, TableCellInfo};
use rook_core::models::{Bounds, LayerObject, LayerType, ShapeType, TextAlign};

fn fx(v: f64) -> Fixed {
    Fixed::from_micros((v * 1_000_000.0).round() as i64)
}

fn text_info(text: &str, font: &str, size: f64) -> TextObjectInfo {
    TextObjectInfo {
        text: text.to_string(),
        left: fx(10.0),
        right: fx(110.0),
        top: fx(700.0),
        bottom: fx(688.0),
        font_name: font.to_string(),
        font_size: fx(size),
        color: None,
    }
}

fn font(resolved: &str, size: Option<f64>) -> DocxFontInfo {
    DocxFontInfo {
        ascii: None,
        east_asia: None,
        h_ansi: None,
        cs: None,
        theme_font: None,
        resolved: resolved.to_string(),
        size: size.map(fx),
        is_bold: false,
        is_italic: false,
        color: None,
        underline: false,
        strike: false,
    }
}

fn run(text: &str, resolved: &str, size: Option<f64>) -> DocxRun {
    DocxRun { text: text.to_string(), font: font(resolved, size) }
}

fn cell(texts: &[&str], span: u32, rows: u32) -> DocxCell {
    DocxCell {
        props: TableCellInfo { width: None, row_span: rows, col_span: span, vertical_align: None },
        paragraphs: texts
            .iter()
            .map(|t| DocxParagraph {
                props: ParagraphInfo::default(),
                runs: vec![run(t, "Georgia", Some(10.0))],
            })
            .collect(),
    }
}

#[test]
fn layer_ids_and_file_types() {
    assert_eq!(generate_layer_id("text", 3, 14), "text-3-14");
    assert_eq!(generate_layer_id("image", 0, 0), "image-0-0");
    assert_eq!(import_kind("pdf"), Some(ImportKind::Pdf));
    assert_eq!(import_kind("PDF"), Some(ImportKind::Pdf));
    assert_eq!(import_kind("DocX"), Some(ImportKind::Docx));
    assert_eq!(import_kind("txt"), None);
    assert_eq!(import_kind(""), None);
    let mut counter = LayerCounter::new();
    assert_eq!(counter.take(), 0);
    assert_eq!(counter.take(), 1);
    reset_layer_counter(&mut counter);
    assert_eq!(counter.take(), 0);
}

#[test]
fn import_answers() {
    let missing = not_found_response("/a/b.pdf");
    assert!(!missing.success);
    assert_eq!(missing.message, "File not found: /a/b.pdf");
    assert!(missing.data.is_none());
    assert_eq!(unsupported_response("txt").message, "Unsupported file type: txt");
    assert_eq!(failure_response("Failed to load PDF: ", "broken").message, "Failed to load PDF: broken");
    let done = pdf_response(vec![], fx(612.0), fx(792.0));
    assert!(done.success);
    assert_eq!(done.message, "Successfully imported 0 pages");
    let doc = done.data.unwrap();
    assert_eq!(doc.page_width, fx(612.0));
    assert_eq!(doc.page_height, fx(792.0));
    let page = assemble_page(0, fx(300.0), fx(400.0), vec![]);
    let one = pdf_response(vec![page], fx(300.0), fx(400.0));
    assert_eq!(one.message, "Successfully imported 1 pages");
    let doc = one.data.unwrap();
    assert_eq!(doc.page_width, fx(300.0));
    assert_eq!(doc.page_height, fx(400.0));
    assert_eq!(doc.pages.len(), 1);
}

#[test]
fn metrics_follow_the_font_size() {
    let m = calculate_font_metrics(fx(10.0));
    assert_eq!(m.ascent, fx(8.0));
    assert_eq!(m.descent, fx(2.0));
    assert_eq!(m.line_height, fx(12.0));
    assert_eq!(m.avg_char_width, fx(5.0));
}

#[test]
fn text_objects_become_layers() {
    let mut coloured = text_info("World", "ABCDEF+Arial-BoldItalicMT", 20.0);
    coloured.color = Some((255, 0, 10));
    coloured.right = fx(10.5);
    coloured.bottom = fx(700.0);
    let infos = vec![
        text_info("Hello", "ABCDEF+Arial-BoldItalicMT", 10.0),
        text_info("   ", "Times", 12.0),
        coloured,
        text_info("x", "Times", 30.0),
    ];
    let mut counter = LayerCounter::new();
    counter.take();
    let layers = extract_text_layers(&infos, 2, fx(792.0), &mut counter);
    assert_eq!(layers.len(), 3);
    assert_eq!(counter.take(), 4);
    let first = &layers[0];
    assert_eq!(first.id, "text-2-0");
    assert_eq!(first.layer_type, LayerType::Text);
    assert_eq!(first.bounds, Bounds::new(fx(10.0), fx(94.0), fx(100.0), fx(12.0)));
    assert_eq!(first.z_index, 1);
    assert_eq!(first.content.as_deref(), Some("Hello"));
    assert_eq!(first.font_family.as_deref(), Some("Arial"));
    assert_eq!(first.font_size, Some(fx(10.0)));
    assert_eq!(first.font_weight, Some(700));
    assert_eq!(first.font_style.as_deref(), Some("italic"));
    assert_eq!(first.color.as_deref(), Some("#000000"));
    assert_eq!(first.text_align, Some(TextAlign::Left));
    let second = &layers[1];
    assert_eq!(second.id, "text-2-1");
    assert_eq!(second.z_index, 2);
    assert_eq!(second.color.as_deref(), Some("#ff000a"));
    assert_eq!(second.font_size, Some(fx(20.0)));
    assert_eq!(second.bounds, Bounds::new(fx(10.0), fx(94.0), fx(1.0), fx(1.0)));
    let third = &layers[2];
    assert_eq!(third.id, "text-2-2");
    assert_eq!(third.bounds.y, fx(98.0));
    assert_eq!(third.font_family.as_deref(), Some("Times"));
    assert_eq!(third.font_weight, Some(400));
    assert_eq!(third.font_style, None);
}

#[test]
fn image_objects_become_layers() {
    let infos = vec![
        ImageObjectInfo {
            left: fx(0.0),
            right: fx(72.0),
            top: fx(792.0),
            bottom: fx(720.0),
            img_width: 300,
            img_height: 150,
            color_space: "RGB".to_string(),
        },
        ImageObjectInfo {
            left: fx(0.0),
            right: fx(72.0),
            top: fx(100.0),
            bottom: fx(50.0),
            img_width: 3,
            img_height: 100,
            color_space: "Gray".to_string(),
        },
        ImageObjectInfo {
            left: fx(5.0),
            right: fx(5.0),
            top: fx(100.0),
            bottom: fx(101.0),
            img_width: 4,
            img_height: 4,
            color_space: "RGBA".to_string(),
        },
    ];
    let mut counter = LayerCounter::new();
    let layers = extract_image_layers(&infos, 1, fx(792.0), &mut counter);
    assert_eq!(layers.len(), 2);
    assert_eq!(counter.take(), 2);
    let first = &layers[0];
    assert_eq!(first.id, "image-1-0");
    assert_eq!(first.layer_type, LayerType::Image);
    assert_eq!(first.bounds, Bounds::new(fx(0.0), fx(0.0), fx(72.0), fx(72.0)));
    assert_eq!(first.z_index, 0);
    assert_eq!(first.image_url.as_deref(), Some("image://image-1-0"));
    let data = first.image_data.as_ref().unwrap();
    assert_eq!((data.width, data.height), (300, 150));
    assert_eq!(data.color_space, "RGB");
    assert_eq!(data.dpi, 225);
    let second = &layers[1];
    assert_eq!(second.id, "image-1-1");
    assert_eq!(second.z_index, 1);
    assert_eq!(second.bounds, Bounds::new(fx(5.0), fx(692.0), fx(1.0), fx(1.0)));
    assert_eq!(second.image_data.as_ref().unwrap().dpi, 72);
}

#[test]
fn layers_are_sorted_by_z_order() {
    let make = |id: &str, z: i32| {
        let mut l = LayerObject::plain(id.to_string(), LayerType::Text);
        l.z_index = z;
        l
    };
    let sorted = sort_layers(vec![make("a", 3), make("b", 1), make("c", 3), make("d", -2), make("e", 1)]);
    let ids: Vec<&str> = sorted.iter().map(|l| l.id.as_str()).collect();
    assert_eq!(ids, vec!["d", "b", "e", "a", "c"]);
    assert!(sort_layers(vec![]).is_empty());
    let page = assemble_page(4, fx(100.0), fx(200.0), vec![make("x", 2), make("y", 1)]);
    assert_eq!(page.page_index, 4);
    assert_eq!(page.dpi, Some(72));
    assert_eq!(page.layers[0].id, "y");
    let meta = page.metadata.unwrap();
    assert_eq!(meta.original_page_index, Some(4));
    assert_eq!(meta.rotation, None);
    assert_eq!(meta.media_box, Some([fx(0.0), fx(0.0), fx(100.0), fx(200.0)]));
}

#[test]
fn paragraphs_are_laid_out_run_by_run() {
    let mut props = ParagraphInfo::default();
    props.indent_left = Some(fx(10.0));
    props.alignment = Some("center".to_string());
    props.is_bold = true;
    let mut underlined = run("mono", "DejaVu Sans Mono", Some(20.0));
    underlined.font.underline = true;
    underlined.font.strike = true;
    let para = DocxParagraph {
        props,
        runs: vec![run("abcd", "Arial", None), run("", "Arial", Some(50.0)), underlined],
    };
    let mut y = fx(72.0);
    let mut counter = LayerCounter::new();
    let layers = parse_docx_paragraph(&para, "Calibri", fx(72.0), &mut y, fx(468.0), &mut counter);
    assert_eq!(layers.len(), 2);
    assert_eq!(layers[0].id, "text-0-0");
    assert_eq!(layers[0].bounds, Bounds::new(fx(82.0), fx(72.0), fx(22.0), fx(12.65)));
    assert_eq!(layers[0].font_family.as_deref(), Some("Calibri"));
    assert_eq!(layers[0].font_size, Some(fx(11.0)));
    assert_eq!(layers[0].font_weight, Some(700));
    assert_eq!(layers[0].font_style, None);
    assert_eq!(layers[0].color.as_deref(), Some("#000000"));
    assert_eq!(layers[0].text_align, Some(TextAlign::Center));
    assert_eq!(layers[0].text_decoration, None);
    assert_eq!(layers[0].line_height, None);
    assert_eq!(layers[0].z_index, 0);
    assert_eq!(layers[1].id, "text-0-1");
    assert_eq!(layers[1].bounds, Bounds::new(fx(104.0), fx(72.0), fx(48.0), fx(23.0)));
    assert_eq!(layers[1].font_family.as_deref(), Some("DejaVu Sans Mono"));
    assert_eq!(layers[1].text_decoration.as_deref(), Some("underline"));
    assert_eq!(y, fx(99.0));
    assert_eq!(counter.take(), 2);
}

#[test]
fn empty_paragraphs_only_move_on() {
    let mut y = fx(100.0);
    let mut counter = LayerCounter::new();
    let empty = DocxParagraph { props: ParagraphInfo::default(), runs: vec![run("", "Arial", None)] };
    assert!(parse_docx_paragraph(&empty, "Calibri", fx(72.0), &mut y, fx(468.0), &mut counter).is_empty());
    assert_eq!(y, fx(106.0));
    let mut props = ParagraphInfo::default();
    props.spacing_after = Some(fx(10.0));
    props.line_spacing = Some(fx(2.0));
    let spaced = DocxParagraph { props: props.clone(), runs: vec![] };
    assert!(parse_docx_paragraph(&spaced, "Calibri", fx(72.0), &mut y, fx(468.0), &mut counter).is_empty());
    assert_eq!(y, fx(116.0));
    assert_eq!(counter.take(), 0);
    let wide = DocxParagraph { props, runs: vec![run(&"w".repeat(200), "Arial", Some(10.0))] };
    let mut counter = LayerCounter::new();
    let layers = parse_docx_paragraph(&wide, "Calibri", fx(72.0), &mut y, fx(468.0), &mut counter);
    assert_eq!(layers[0].bounds.width, fx(468.0));
    assert_eq!(layers[0].bounds.height, fx(20.0));
    assert_eq!(layers[0].line_height, Some(fx(2.0)));
    assert_eq!(y, fx(146.0));
}

#[test]
fn tables_are_laid_out_cell_by_cell() {
    let table = DocxTable {
        grid: vec![fx(100.0), fx(150.0)],
        width: Some(fx(250.0)),
        rows: vec![
            DocxRow { cells: vec![cell(&["a", " ", "b"], 1, 1), cell(&["c"], 1, 1)] },
            DocxRow { cells: vec![cell(&["merged"], 1, 0), cell(&["wide"], 2, 1), cell(&["out"], 1, 1)] },
        ],
    };
    let mut y = fx(72.0);
    let mut counter = LayerCounter::new();
    let layers = parse_docx_table(&table, "Calibri", fx(72.0), &mut y, fx(468.0), &mut counter);
    assert_eq!(layers.len(), 6);
    let border = &layers[0];
    assert_eq!(border.id, "table-border-0-5");
    assert_eq!(border.layer_type, LayerType::Shape);
    assert_eq!(border.shape_type, Some(ShapeType::Rectangle));
    assert_eq!(border.bounds, Bounds::new(fx(72.0), fx(72.0), fx(250.0), fx(54.0)));
    assert_eq!(border.stroke_color.as_deref(), Some("#000000"));
    assert_eq!(border.stroke_width, Some(fx(1.0)));
    assert_eq!(border.z_index, 0);
    let a = &layers[1];
    assert_eq!(a.id, "text-0-0");
    assert_eq!(a.content.as_deref(), Some("a"));
    assert_eq!(a.bounds, Bounds::new(fx(76.0), fx(74.0), fx(92.0), fx(12.0)));
    assert_eq!(a.font_family.as_deref(), Some("Georgia"));
    assert_eq!(a.z_index, 0);
    let b = &layers[2];
    assert_eq!(b.content.as_deref(), Some("b"));
    assert_eq!(b.bounds.y, fx(88.0));
    let c = &layers[3];
    assert_eq!(c.content.as_deref(), Some("c"));
    assert_eq!(c.bounds, Bounds::new(fx(176.0), fx(74.0), fx(142.0), fx(12.0)));
    let wide = &layers[4];
    assert_eq!(wide.content.as_deref(), Some("wide"));
    assert_eq!(wide.bounds, Bounds::new(fx(76.0), fx(108.0), fx(242.0), fx(12.0)));
    let out = &layers[5];
    assert_eq!(out.content.as_deref(), Some("out"));
    assert_eq!(out.bounds, Bounds::new(fx(326.0), fx(108.0), fx(117.0), fx(12.0)));
    assert_eq!(out.z_index, 4);
    assert_eq!(y, fx(134.0));
    assert_eq!(counter.take(), 6);
}

#[test]
fn a_table_without_rows_has_no_border() {
    let table = DocxTable { grid: vec![], width: None, rows: vec![] };
    let mut y = fx(72.0);
    let mut counter = LayerCounter::new();
    assert!(parse_docx_table(&table, "Calibri", fx(72.0), &mut y, fx(468.0), &mut counter).is_empty());
    assert_eq!(y, fx(80.0));
    assert_eq!(counter.take(), 0);
}

#[test]
fn a_body_fills_one_page() {
    let para = DocxParagraph {
        props: ParagraphInfo::default(),
        runs: vec![run("Title", "Arial", Some(20.0))],
    };
    let table = DocxTable {
        grid: vec![fx(100.0)],
        width: None,
        rows: vec![DocxRow { cells: vec![cell(&["x"], 1, 1)] }],
    };
    let body = vec![
        BodyElement::Paragraph(para.clone()),
        BodyElement::Other,
        BodyElement::Table(table),
        BodyElement::Paragraph(para),
    ];
    let response = parse_docx(&body, "Calibri");
    assert!(response.success);
    assert_eq!(response.message, "Successfully imported DOCX with 4 layers");
    let doc = response.data.unwrap();
    assert_eq!(doc.page_width, fx(612.0));
    assert_eq!(doc.page_height, fx(792.0));
    assert_eq!(doc.pages.len(), 1);
    let layers = &doc.pages[0].layers;
    assert_eq!(layers.len(), 4);
    assert_eq!(layers[0].bounds, Bounds::new(fx(72.0), fx(72.0), fx(50.0), fx(23.0)));
    assert_eq!(layers[0].font_family.as_deref(), Some("Calibri"));
    assert_eq!(layers[1].id, "table-border-0-2");
    assert_eq!(layers[1].bounds, Bounds::new(fx(72.0), fx(99.0), fx(468.0), fx(20.0)));
    assert_eq!(layers[2].id, "text-0-1");
    assert_eq!(layers[2].bounds, Bounds::new(fx(76.0), fx(101.0), fx(92.0), fx(12.0)));
    assert_eq!(layers[3].id, "text-0-3");
    assert_eq!(layers[3].bounds.y, fx(127.0));
    let empty = parse_docx(&vec![], "Calibri");
    assert_eq!(empty.message, "Successfully imported DOCX with 0 layers");
    assert!(empty.data.unwrap().pages[0].layers.is_empty());
}
