use rook_core::document_parser::{
    build_page, BodyElement, DocxCell, DocxParagraph, DocxRow, DocxRun, DocxTable,
    ImageObjectInfo, LayerCounter, TextObjectInfo,
};
use rook_core::export_handler::{docx_paragraphs, pdf_plan, DrawCommand, ExportError};
use rook_core::fixed::Fixed;
use rook_core::font_handler::{extract_metrics, DescriptorNumbers};
use rook_core::font_manager::docx_extractor::{
    extract_cell_props, extract_document_fonts, extract_paragraph_props, extract_run_font,
    extract_table_grid, extract_table_props, DocxFontInfo, Justification, ParagraphInfo,
    ParagraphProps, RunFonts, RunProps, TableCellInfo, TableJustification, VerticalAlign,
};
use rook_core::font_manager::google_fonts::{catalogue_font, metadata_json};
use rook_core::font_manager::installer::{family_for, installed_file_names, installed_result};
use rook_core::font_manager::matcher::create_fallback_match;
use rook_core::font_manager::pdf_extractor::{
    extract_font_info, extract_metrics_from_descriptor, has_subset_prefix, FontDescriptor,
    FontEntry, PdfFontType,
};
use rook_core::font_manager::{
    cached_match, clear_font_cache, copy_match, copy_texts, find_font_match, google_catalogue,
    remember_google_fonts, remember_system_fonts, system_fonts_fresh, FontInfo, FontManagerState,
    FontMetrics, FontSource, FontStyle, FontWidth, GoogleFont,
};
use rook_core::image_handler::{
    get_image, get_image_info, get_image_thumbnail, handle_image_protocol, ImageHandler,
};
use rook_core::models::{LayerObject, LayerType, PageData};
use rook_core::text::{find_chars, starts_with_at, strip_leading};

fn fx(v: f64) -> Fixed {
    Fixed::from_micros((v * 1_000_000.0).round() as i64)
}

fn chars(s: &str) -> Vec<char> {
    s.chars().collect()
}

fn text_layer(id: &str, z: i32, content: &str) -> LayerObject {
    let mut layer = LayerObject::plain(id.to_string(), LayerType::Text);
    layer.z_index = z;
    layer.content = Some(content.to_string());
    layer
}

fn page(width: f64, layers: Vec<LayerObject>) -> PageData {
    PageData {
        page_index: 0,
        width: fx(width),
        height: fx(100.0),
        dpi: Some(72),
        layers,
        metadata: None,
    }
}

fn run(text: &str, family: &str) -> DocxRun {
    DocxRun {
        text: text.to_string(),
        font: DocxFontInfo {
            ascii: None,
            east_asia: None,
            h_ansi: None,
            cs: None,
            theme_font: None,
            resolved: family.to_string(),
            size: None,
            is_bold: false,
            is_italic: false,
            color: None,
            underline: false,
            strike: false,
        },
    }
}

fn paragraph(families: &[&str]) -> DocxParagraph {
    DocxParagraph {
        props: ParagraphInfo::default(),
        runs: families.iter().map(|f| run("x", f)).collect(),
    }
}

#[test]
fn pdf_pages_are_planned_for_the_range() {
    let pages = vec![
        page(100.0, vec![text_layer("a", 0, "first")]),
        page(200.0, vec![text_layer("b", 2, "above"), text_layer("c", 1, "below")]),
        page(300.0, vec![]),
    ];
    let all = pdf_plan(&pages, None).unwrap();
    assert_eq!(all.len(), 3);
    assert_eq!(all[0].width, fx(35.2778));
    assert_eq!(all[0].height, fx(35.2778));
    assert_eq!(all[1].width, fx(70.5556));
    assert_eq!(all[1].commands.len(), 2);
    match &all[1].commands[0] {
        DrawCommand::Text { content, .. } => assert_eq!(content, "below"),
        _ => panic!("expected text"),
    }
    assert!(all[2].commands.is_empty());
    let one = pdf_plan(&pages, Some((1, 1))).unwrap();
    assert_eq!(one.len(), 1);
    assert_eq!(one[0].width, fx(70.5556));
    match pdf_plan(&pages, Some((1, 3))) {
        Err(ExportError::InvalidPageRange(why)) => {
            assert_eq!(why, "Range 1-3 is invalid for 3 pages")
        }
        _ => panic!("expected an invalid range"),
    }
    assert!(matches!(pdf_plan(&vec![], None), Err(ExportError::InvalidPageRange(_))));
}

#[test]
fn docx_paragraphs_follow_the_range() {
    let mut hidden = text_layer("h", 0, "hidden");
    hidden.visible = false;
    let pages = vec![
        page(100.0, vec![text_layer("a", 0, "first"), hidden]),
        page(200.0, vec![text_layer("b", 2, "above"), text_layer("c", 1, "below")]),
        page(300.0, vec![LayerObject::plain("s".to_string(), LayerType::Shape)]),
    ];
    assert_eq!(
        docx_paragraphs(&pages, None),
        vec![vec!["first".to_string()], vec!["below".to_string(), "above".to_string()], vec![]]
    );
    assert_eq!(docx_paragraphs(&pages, Some((1, 100))).len(), 2);
    assert_eq!(docx_paragraphs(&pages, Some((2, 1))).len(), 0);
    assert_eq!(docx_paragraphs(&pages, Some((3, 5))).len(), 0);
    assert_eq!(docx_paragraphs(&pages, Some((0, 0))), vec![vec!["first".to_string()]]);
    assert_eq!(docx_paragraphs(&pages, Some((0, usize::MAX))).len(), 3);
    assert!(docx_paragraphs(&vec![], None).is_empty());
}

#[test]
fn pages_are_built_from_their_sources() {
    let texts = vec![TextObjectInfo {
        text: "fallback".to_string(),
        left: fx(1.0),
        right: fx(2.0),
        top: fx(10.0),
        bottom: fx(5.0),
        font_name: "Arial".to_string(),
        font_size: fx(10.0),
        color: None,
    }];
    let images = vec![ImageObjectInfo {
        left: fx(0.0),
        right: fx(72.0),
        top: fx(72.0),
        bottom: fx(0.0),
        img_width: 72,
        img_height: 72,
        color_space: "RGB".to_string(),
    }];
    let mut counter = LayerCounter::new();
    let content = vec![text_layer("text-0-0", 5, "parsed"), text_layer("vector-0-0", 0, "v")];
    let with_content =
        build_page(3, fx(612.0), fx(792.0), Some(content), &texts, &images, &mut counter);
    assert_eq!(with_content.page_index, 3);
    assert_eq!(with_content.dpi, Some(72));
    let ids: Vec<&str> = with_content.layers.iter().map(|l| l.id.as_str()).collect();
    assert_eq!(ids, vec!["vector-0-0", "image-3-0", "text-0-0"]);
    assert_eq!(counter.take(), 1);
    let mut counter = LayerCounter::new();
    let without = build_page(0, fx(612.0), fx(792.0), None, &texts, &images, &mut counter);
    let ids: Vec<&str> = without.layers.iter().map(|l| l.id.as_str()).collect();
    assert_eq!(ids, vec!["text-0-0", "image-0-0"]);
    assert_eq!(without.layers[0].content.as_deref(), Some("fallback"));
    assert_eq!(without.layers[1].z_index, 1);
    assert_eq!(counter.take(), 2);
    let meta = without.metadata.unwrap();
    assert_eq!(meta.media_box, Some([fx(0.0), fx(0.0), fx(612.0), fx(792.0)]));
}

#[test]
fn fonts_of_a_pdf_are_described() {
    assert!(has_subset_prefix("ABCDEF+Arial"));
    assert!(!has_subset_prefix("ABCDEF+"));
    assert!(!has_subset_prefix("ABCDEf+Arial"));
    assert!(!has_subset_prefix("ABCDE+Arial"));
    assert!(!has_subset_prefix("ABCDEFG+Arial"));
    assert!(!has_subset_prefix("ABCDEÉ+Arial"));
    assert!(!has_subset_prefix(""));
    let bare = extract_font_info(
        FontEntry { subtype: None, base_font: None, encoding: None, descriptor: None },
        "F1",
    );
    assert_eq!(bare.name, "F1");
    assert_eq!(bare.base_font, "F1");
    assert_eq!(bare.font_type, PdfFontType::Unknown);
    assert_eq!(bare.encoding, None);
    assert!(!bare.is_embedded && !bare.is_subset);
    assert_eq!(bare.metrics, FontMetrics::default());
    assert_eq!(bare.embedded_data, None);
    assert_eq!(bare.parsed.family, "F");
    assert_eq!(bare.parsed.original, "F1");
    let full = extract_font_info(
        FontEntry {
            subtype: Some("TrueType".to_string()),
            base_font: Some("ABCDEF+Lato-BoldItalic".to_string()),
            encoding: Some("WinAnsiEncoding".to_string()),
            descriptor: Some(FontDescriptor {
                ascent: Some(900),
                descent: None,
                cap_height: None,
                x_height: Some(480),
                avg_width: None,
                has_font_file: false,
                font_file: Some(vec![1, 2, 3]),
            }),
        },
        "F2",
    );
    assert_eq!(full.name, "F2");
    assert_eq!(full.base_font, "ABCDEF+Lato-BoldItalic");
    assert_eq!(full.font_type, PdfFontType::TrueType);
    assert_eq!(full.encoding.as_deref(), Some("WinAnsiEncoding"));
    assert!(full.is_embedded && full.is_subset);
    assert_eq!(full.parsed.family, "Lato");
    assert_eq!(full.parsed.weight, 700);
    assert!(full.parsed.is_italic);
    assert_eq!(full.parsed.width, FontWidth::Normal);
    assert_eq!(
        full.metrics,
        FontMetrics {
            units_per_em: 1000,
            ascender: 900,
            descender: -200,
            line_gap: 90,
            cap_height: None,
            x_height: Some(480),
            avg_char_width: None,
        }
    );
    assert_eq!(full.embedded_data, Some(vec![1, 2, 3]));
    let named = FontDescriptor {
        ascent: None,
        descent: Some(-150),
        cap_height: Some(1),
        x_height: None,
        avg_width: Some(2),
        has_font_file: true,
        font_file: None,
    };
    let m = extract_metrics_from_descriptor(&named);
    assert_eq!((m.ascender, m.descender, m.cap_height, m.avg_char_width), (800, -150, Some(1), Some(2)));
    let unread = extract_font_info(
        FontEntry { subtype: None, base_font: None, encoding: None, descriptor: Some(named) },
        "F3",
    );
    assert!(unread.is_embedded);
    assert_eq!(unread.embedded_data, None);
}

#[test]
fn descriptor_numbers_become_metrics() {
    let none = extract_metrics(&DescriptorNumbers {
        ascent: None,
        descent: None,
        cap_height: None,
        x_height: None,
        bbox: None,
        italic_angle: None,
        stem_v: None,
        avg_width: None,
    });
    assert_eq!(none.ascent, fx(0.0));
    assert_eq!(none.x_height, None);
    assert_eq!(none.bbox, [fx(-100.0), fx(-300.0), fx(1100.0), fx(900.0)]);
    let some = extract_metrics(&DescriptorNumbers {
        ascent: Some(fx(905.0)),
        descent: Some(fx(-212.0)),
        cap_height: Some(fx(716.0)),
        x_height: Some(fx(519.0)),
        bbox: Some(vec![Some(fx(-1.0)), None, Some(fx(3.0))]),
        italic_angle: Some(fx(-12.5)),
        stem_v: Some(fx(80.0)),
        avg_width: Some(fx(441.0)),
    });
    assert_eq!(some.ascent, fx(905.0));
    assert_eq!(some.descent, fx(-212.0));
    assert_eq!(some.cap_height, fx(716.0));
    assert_eq!(some.x_height, Some(fx(519.0)));
    assert_eq!(some.bbox, [fx(-1.0), fx(0.0), fx(3.0), fx(0.0)]);
    assert_eq!(some.italic_angle, fx(-12.5));
    assert_eq!(some.stem_v, fx(80.0));
    assert_eq!(some.avg_width, fx(441.0));
    let long = extract_metrics(&DescriptorNumbers {
        ascent: None,
        descent: None,
        cap_height: None,
        x_height: None,
        bbox: Some(vec![Some(fx(1.0)), Some(fx(2.0)), Some(fx(3.0)), Some(fx(4.0)), Some(fx(5.0))]),
        italic_angle: None,
        stem_v: None,
        avg_width: None,
    });
    assert_eq!(long.bbox, [fx(1.0), fx(2.0), fx(3.0), fx(4.0)]);
}

#[test]
fn run_properties_become_fonts() {
    let none = extract_run_font(&None);
    assert_eq!(none.resolved, "Arial");
    assert_eq!(none.size, None);
    assert!(!none.is_bold && !none.is_italic && !none.underline && !none.strike);
    let props = RunProps {
        fonts: Some(RunFonts {
            ascii: None,
            east_asia: Some("MS Mincho".to_string()),
            h_ansi: Some("Cambria".to_string()),
        }),
        half_points: Some(23),
        bold: true,
        italics: false,
        underline: true,
        strike: false,
        color: Some("FF0000".to_string()),
    };
    let font = extract_run_font(&Some(props.clone()));
    assert_eq!(font.ascii, None);
    assert_eq!(font.east_asia.as_deref(), Some("MS Mincho"));
    assert_eq!(font.h_ansi.as_deref(), Some("Cambria"));
    assert_eq!(font.cs, None);
    assert_eq!(font.theme_font, None);
    assert_eq!(font.resolved, "Cambria");
    assert_eq!(font.size, Some(fx(11.5)));
    assert!(font.is_bold && !font.is_italic && font.underline && !font.strike);
    assert_eq!(font.color.as_deref(), Some("#FF0000"));
    let mut ascii = props.clone();
    ascii.fonts = Some(RunFonts {
        ascii: Some("Lato".to_string()),
        east_asia: None,
        h_ansi: Some("Cambria".to_string()),
    });
    assert_eq!(extract_run_font(&Some(ascii)).resolved, "Lato");
    let mut east = props.clone();
    east.fonts =
        Some(RunFonts { ascii: None, east_asia: Some("MS Mincho".to_string()), h_ansi: None });
    assert_eq!(extract_run_font(&Some(east)).resolved, "MS Mincho");
    let mut empty = props;
    empty.fonts = Some(RunFonts { ascii: None, east_asia: None, h_ansi: None });
    empty.half_points = None;
    empty.color = None;
    let plain = extract_run_font(&Some(empty));
    assert_eq!(plain.resolved, "Arial");
    assert_eq!(plain.size, None);
    assert_eq!(plain.color, None);
}

#[test]
fn paragraph_and_table_properties() {
    let none = extract_paragraph_props(&None);
    assert!(none.alignment.is_none() && none.indent_left.is_none() && none.line_spacing.is_none());
    let props = ParagraphProps {
        justification: Some(Justification::Both),
        indent_left: Some(720),
        indent_right: None,
        indent_first_line: Some(-360),
        spacing_before: Some(0),
        spacing_after: Some(210),
        spacing_line: Some(276),
    };
    let info = extract_paragraph_props(&Some(props));
    assert_eq!(info.alignment.as_deref(), Some("justify"));
    assert_eq!(info.indent_left, Some(fx(36.0)));
    assert_eq!(info.indent_right, None);
    assert_eq!(info.indent_first_line, Some(fx(-18.0)));
    assert_eq!(info.spacing_before, Some(fx(0.0)));
    assert_eq!(info.spacing_after, Some(fx(10.5)));
    assert_eq!(info.line_spacing, Some(fx(1.15)));
    assert_eq!(info.font_family, None);
    assert!(!info.is_bold);
    for (j, name) in [
        (Justification::Left, "left"),
        (Justification::Center, "center"),
        (Justification::Right, "right"),
        (Justification::Other, "left"),
    ] {
        let p = ParagraphProps { justification: Some(j), ..props };
        assert_eq!(extract_paragraph_props(&Some(p)).alignment.as_deref(), Some(name));
    }
    let cell = extract_cell_props(Some(2880), VerticalAlign::Center);
    assert_eq!(cell.width, Some(fx(144.0)));
    assert_eq!((cell.row_span, cell.col_span), (1, 1));
    assert_eq!(cell.vertical_align.as_deref(), Some("middle"));
    assert_eq!(extract_cell_props(None, VerticalAlign::Top).vertical_align.as_deref(), Some("top"));
    assert_eq!(
        extract_cell_props(None, VerticalAlign::Bottom).vertical_align.as_deref(),
        Some("bottom")
    );
    assert_eq!(extract_cell_props(None, VerticalAlign::Other).vertical_align.as_deref(), Some("top"));
    assert_eq!(extract_cell_props(None, VerticalAlign::Top).width, None);
    assert_eq!(extract_table_grid(&vec![2000, 1, -20]), vec![fx(100.0), fx(0.05), fx(-1.0)]);
    assert!(extract_table_grid(&vec![]).is_empty());
    assert_eq!(
        extract_table_props(Some(9000), Some(TableJustification::Center)),
        (Some(fx(450.0)), Some("center".to_string()))
    );
    assert_eq!(extract_table_props(None, None), (None, None));
    assert_eq!(extract_table_props(None, Some(TableJustification::Other)).1.as_deref(), Some("left"));
    assert_eq!(extract_table_props(None, Some(TableJustification::Right)).1.as_deref(), Some("right"));
    assert_eq!(extract_table_props(None, Some(TableJustification::Left)).1.as_deref(), Some("left"));
}

#[test]
fn fonts_of_a_document_are_listed_once() {
    let cell = |families: &[&str]| DocxCell {
        props: TableCellInfo { width: None, row_span: 1, col_span: 1, vertical_align: None },
        paragraphs: vec![paragraph(families), paragraph(&["Inter"])],
    };
    let body = vec![
        BodyElement::Paragraph(paragraph(&["Lato", "", "Arial", "Lato"])),
        BodyElement::Other,
        BodyElement::Table(DocxTable {
            grid: vec![],
            width: None,
            rows: vec![
                DocxRow { cells: vec![cell(&["Arial", "Georgia"]), cell(&[])] },
                DocxRow { cells: vec![] },
                DocxRow { cells: vec![cell(&["lato"])] },
            ],
        }),
        BodyElement::Paragraph(paragraph(&["Zapfino", "Georgia"])),
    ];
    assert_eq!(
        extract_document_fonts(&body),
        vec!["Lato", "Arial", "Georgia", "Inter", "lato", "Zapfino"]
    );
    assert!(extract_document_fonts(&vec![]).is_empty());
}

#[test]
fn the_image_protocol_answers() {
    let mut handler = ImageHandler::new();
    handler.cache_image("pic", vec![1, 2, 3]);
    handler.cache_image("other", vec![4]);
    let found = handle_image_protocol(&mut handler, "///pic");
    assert_eq!(found.status, 200);
    assert_eq!(found.content_type.as_deref(), Some("image/png"));
    assert_eq!(found.allow_origin.as_deref(), Some("*"));
    assert_eq!(found.body, vec![1, 2, 3]);
    let missing = handle_image_protocol(&mut handler, "/pic/");
    assert_eq!(missing.status, 404);
    assert_eq!(missing.content_type, None);
    assert_eq!(missing.allow_origin, None);
    assert!(missing.body.is_empty());
    assert_eq!(handle_image_protocol(&mut handler, "other").body, vec![4]);
    assert_eq!(handle_image_protocol(&mut handler, "/").status, 404);
    assert_eq!(get_image(&mut handler, "pic"), vec![1, 2, 3]);
    assert!(get_image(&mut handler, "none").is_empty());
    assert!(get_image_thumbnail(&mut handler, "pic").is_empty());
    assert!(get_image_thumbnail(&mut handler, "none").is_empty());
    assert_eq!(
        get_image_info(&handler, "pic"),
        Some((0, 0, "application/octet-stream".to_string()))
    );
    assert_eq!(get_image_info(&handler, "none"), None);
    let mut png = vec![0x89, 0x50, 0x4E, 0x47, 0x0D, 0x0A, 0x1A, 0x0A, 0, 0, 0, 13];
    png.extend_from_slice(b"IHDR");
    png.extend_from_slice(&[0, 0, 0, 9, 0, 0, 0, 8]);
    handler.cache_image("png", png);
    assert_eq!(get_image_info(&handler, "png"), Some((9, 8, "image/png".to_string())));
}

#[test]
fn the_font_manager_remembers() {
    let mut state = FontManagerState::new();
    assert!(!system_fonts_fresh(&state, 100));
    remember_system_fonts(&mut state, vec![], 100);
    assert!(!system_fonts_fresh(&state, 101));
    let arial = FontInfo {
        family: "Arial".to_string(),
        full_name: "Arial".to_string(),
        style: FontStyle::default(),
        weight: 400,
        source: FontSource::System,
        path: None,
        is_variable: false,
    };
    remember_system_fonts(&mut state, vec![arial.clone()], 100);
    assert!(system_fonts_fresh(&state, 100));
    assert!(system_fonts_fresh(&state, 129));
    assert!(!system_fonts_fresh(&state, 130));
    assert!(system_fonts_fresh(&state, 99));
    assert!(cached_match(&state, "arial").is_none());
    let first = find_font_match(&mut state, "arial", None, None, &vec![arial.clone()], &vec![]);
    assert_eq!(first.family, "Arial");
    assert_eq!(first.confidence, fx(1.0));
    let kept = cached_match(&state, "arial").unwrap();
    assert_eq!(kept.family, "Arial");
    assert_eq!(kept.fallback_stack, first.fallback_stack);
    let again = find_font_match(&mut state, "arial", Some(700), Some(true), &vec![], &vec![]);
    assert_eq!(again.family, "Arial");
    assert_eq!(again.source, FontSource::System);
    let other = find_font_match(&mut state, "Courier Mono", Some(700), None, &vec![], &vec![]);
    assert_eq!(other.family, "Courier New");
    assert!(cached_match(&state, "Courier Mono").is_some());
    clear_font_cache(&mut state).unwrap();
    assert!(cached_match(&state, "arial").is_none());
    assert!(!system_fonts_fresh(&state, 100));
    assert_eq!(state.system_fonts.len(), 1);
    let m = create_fallback_match("x");
    let copy = copy_match(&m);
    assert_eq!(copy.family, m.family);
    assert_eq!(copy.css_family, m.css_family);
    assert_eq!(copy.google_url, m.google_url);
    assert_eq!(copy.fallback_stack, m.fallback_stack);
    assert_eq!(copy_texts(&vec!["a".to_string(), "".to_string()]), vec!["a", ""]);
}

#[test]
fn the_catalogue_comes_from_the_best_source() {
    let lora = catalogue_font(
        "Lora".to_string(),
        vec!["400".to_string(), "400i".to_string()],
        vec!["latin".to_string()],
        None,
    );
    assert_eq!(lora.family, "Lora");
    assert_eq!(lora.variants, vec!["400", "400i"]);
    assert_eq!(lora.category, "sans-serif");
    assert_eq!(lora.version, None);
    assert!(lora.files.is_empty());
    let serif = catalogue_font("Lora".to_string(), vec![], vec![], Some("serif".to_string()));
    assert_eq!(serif.category, "serif");
    let kept: Vec<GoogleFont> = vec![lora.clone()];
    assert_eq!(google_catalogue(kept.clone(), true, None).len(), 1);
    assert_eq!(google_catalogue(kept.clone(), true, Some(vec![])).len(), 1);
    assert_eq!(google_catalogue(kept.clone(), false, Some(vec![serif.clone(), lora])).len(), 2);
    let popular = google_catalogue(kept, false, None);
    assert_eq!(popular.len(), 38);
    assert_eq!(popular[1].family, "Open Sans");
    let mut state = FontManagerState::new();
    assert!(!state.google_fonts_loaded);
    remember_google_fonts(&mut state, vec![serif]);
    assert!(state.google_fonts_loaded);
    assert_eq!(state.google_fonts.len(), 1);
    assert_eq!(metadata_json(")]}'\n{\"a\": 1}\n"), "{\"a\": 1}");
    assert_eq!(metadata_json(")]}')]}' x "), "x");
    assert_eq!(metadata_json(" )]}'x"), ")]}'x");
    assert_eq!(metadata_json("{}"), "{}");
    assert_eq!(metadata_json(""), "");
}

#[test]
fn installed_fonts_are_named_and_reported() {
    let done = installed_result("Open Sans", "/home/u/.local/share/fonts/Open_Sans.ttf");
    assert!(done.success);
    assert_eq!(done.family, "Open Sans");
    assert_eq!(done.path, "/home/u/.local/share/fonts/Open_Sans.ttf");
    assert_eq!(done.message, "Font 'Open Sans' installed successfully");
    assert_eq!(family_for(Some("Lato".to_string()), Some("file".to_string())), "Lato");
    assert_eq!(family_for(None, Some("file".to_string())), "file");
    assert_eq!(family_for(None, None), "Unknown");
    assert_eq!(
        installed_file_names("Open Sans"),
        vec!["Open_Sans.ttf", "Open_Sans.otf", "Open_Sans.woff", "Open_Sans.woff2"]
    );
}

#[test]
fn prefixes_and_first_places() {
    assert_eq!(find_chars(&chars("a bbox bbox "), &chars("bbox ")), Some(2));
    assert_eq!(find_chars(&chars("bbox"), &chars("bbox ")), None);
    assert_eq!(find_chars(&chars("abc"), &chars("")), Some(0));
    assert_eq!(find_chars(&chars(""), &chars("")), Some(0));
    assert_eq!(find_chars(&chars("aab"), &chars("ab")), Some(1));
    assert_eq!(find_chars(&chars("xyz"), &chars("z")), Some(2));
    assert!(starts_with_at(&chars("hello"), 2, &chars("llo")));
    assert!(!starts_with_at(&chars("hello"), 3, &chars("llo")));
    assert!(starts_with_at(&chars("hello"), 5, &chars("")));
    assert_eq!(strip_leading(&chars("ababc"), &chars("ab")), chars("c"));
    assert_eq!(strip_leading(&chars("abab"), &chars("ab")), chars(""));
    assert_eq!(strip_leading(&chars("xab"), &chars("ab")), chars("xab"));
    assert_eq!(strip_leading(&chars("abc"), &chars("")), chars("abc"));
}

#[test]
fn image_layers_are_named_before_they_are_made() {
    let info = |w: u32, h: u32| ImageObjectInfo {
        left: fx(0.0),
        right: fx(10.0),
        top: fx(10.0),
        bottom: fx(0.0),
        img_width: w,
        img_height: h,
        color_space: "RGB".to_string(),
    };
    let infos = vec![info(4, 4), info(3, 100), info(100, 3), info(5, 9), info(0, 0), info(4, 5)];
    let ids = rook_core::document_parser::image_layer_ids(&infos, 7);
    assert_eq!(
        ids,
        vec![
            Some("image-7-0".to_string()),
            None,
            None,
            Some("image-7-1".to_string()),
            None,
            Some("image-7-2".to_string()),
        ]
    );
    let mut counter = LayerCounter::new();
    let layers = rook_core::document_parser::extract_image_layers(&infos, 7, fx(100.0), &mut counter);
    let made: Vec<String> = layers.iter().map(|l| l.id.clone()).collect();
    let named: Vec<String> = ids.into_iter().flatten().collect();
    assert_eq!(made, named);
    assert!(rook_core::document_parser::image_layer_ids(&vec![], 0).is_empty());
}

#[test]
fn browser_projects_take_the_size_of_the_first_page() {
    let mut first = rook_core::wasm::docx_parser::create_page(0);
    first.width = fx(300.0);
    first.height = fx(400.0);
    let metadata = rook_core::wasm::models::DocumentMetadata::default();
    let project = rook_core::wasm::export::build_project(
        vec![first, rook_core::wasm::docx_parser::create_page(1)],
        metadata,
    );
    assert_eq!(project.format, "bookproj");
    assert_eq!(project.version, "1.0.0");
    assert_eq!(project.document.page_width, fx(300.0));
    assert_eq!(project.document.page_height, fx(400.0));
    assert_eq!(project.document.pages.len(), 2);
    assert_eq!(project.settings.default_font.as_deref(), Some("Arial"));
    assert_eq!(project.settings.default_font_size, Some(fx(12.0)));
    assert_eq!(project.settings.export_quality.as_deref(), Some("standard"));
    let empty = rook_core::wasm::export::build_project(vec![], Default::default());
    assert_eq!(empty.document.page_width, fx(612.0));
    assert_eq!(empty.document.page_height, fx(792.0));
}
