use rook_core::document_parser::{determine_color_space, ColorKind};
use rook_core::fixed::Fixed;
use rook_core::font_manager::installer::{extract_family_from_font, first_family};
use rook_core::font_manager::pdf_extractor::{get_embedded_font, store_embedded_font};
use rook_core::font_manager::{
    embedded_font_names, FontInfo, FontManagerState, FontSource, FontStyle,
};
use rook_core::font_service;
use rook_core::hocr::{recognition_outcome, text_to_verify};
use rook_core::image_handler::{
    cache_image_pixels, encode_image_optimized, get_image_info, ImageHandler,
};
use rook_core::models::{LayerObject, LayerType};
use rook_core::pdf_analyzer::{analyze_page, PageObject};

fn fx(v: f64) -> Fixed {
    Fixed::from_micros((v * 1_000_000.0).round() as i64)
}

fn utf16(text: &str) -> Vec<u8> {
    text.encode_utf16().flat_map(|u| u.to_be_bytes()).collect()
}

fn font_with_names(records: &[(u16, u16, u16, &[u8])]) -> Vec<u8> {
    let mut head = vec![0u8; 54];
    head[18..20].copy_from_slice(&1000u16.to_be_bytes());
    let mut hhea = vec![0u8; 36];
    hhea[34..36].copy_from_slice(&1u16.to_be_bytes());
    let maxp = vec![0, 0, 0x50, 0, 0, 1];
    let mut name = Vec::new();
    name.extend_from_slice(&0u16.to_be_bytes());
    name.extend_from_slice(&(records.len() as u16).to_be_bytes());
    name.extend_from_slice(&((6 + 12 * records.len()) as u16).to_be_bytes());
    let mut storage = Vec::new();
    for (platform, encoding, name_id, text) in records {
        name.extend_from_slice(&platform.to_be_bytes());
        name.extend_from_slice(&encoding.to_be_bytes());
        name.extend_from_slice(&0x409u16.to_be_bytes());
        name.extend_from_slice(&name_id.to_be_bytes());
        name.extend_from_slice(&(text.len() as u16).to_be_bytes());
        name.extend_from_slice(&(storage.len() as u16).to_be_bytes());
        storage.extend_from_slice(text);
    }
    name.extend_from_slice(&storage);
    let tables: [(&[u8; 4], Vec<u8>); 4] =
        [(b"head", head), (b"hhea", hhea), (b"maxp", maxp), (b"name", name)];
    let mut font = vec![0, 1, 0, 0, 0, 4, 0, 0, 0, 0, 0, 0];
    let mut offset = 12 + 16 * tables.len();
    for (tag, data) in &tables {
        font.extend_from_slice(&tag[..]);
        font.extend_from_slice(&0u32.to_be_bytes());
        font.extend_from_slice(&(offset as u32).to_be_bytes());
        font.extend_from_slice(&(data.len() as u32).to_be_bytes());
        offset += data.len();
    }
    for (_, data) in &tables {
        font.extend_from_slice(data);
    }
    font
}

#[test]
fn the_family_is_read_from_the_name_table() {
    let full = utf16("Test Sans Bold");
    let family = utf16("Test Sans");
    let other = utf16("Other");
    let font = font_with_names(&[
        (1, 0, 1, b"Mac Name"),
        (3, 1, 4, &full),
        (3, 1, 1, &family),
        (0, 3, 1, &other),
    ]);
    assert_eq!(extract_family_from_font(&font), Some("Test Sans".to_string()));
    let nameless = font_with_names(&[(3, 1, 4, &full), (1, 0, 1, b"Mac Name")]);
    assert_eq!(extract_family_from_font(&nameless), None);
    let empty = font_with_names(&[]);
    assert_eq!(extract_family_from_font(&empty), None);
    assert_eq!(extract_family_from_font(b"no font at all"), None);
    assert_eq!(extract_family_from_font(&[]), None);
    assert_eq!(extract_family_from_font(&font[..40]), None);
}

#[test]
fn the_first_family_record_with_a_text_counts() {
    let records = vec![
        (4u16, Some("Full".to_string())),
        (1, None),
        (1, Some("First".to_string())),
        (1, Some("Second".to_string())),
    ];
    assert_eq!(first_family(&records), Some("First".to_string()));
    assert_eq!(first_family(&vec![(1, None), (2, Some("x".to_string()))]), None);
    assert_eq!(first_family(&vec![]), None);
    assert_eq!(first_family(&vec![(1, Some(String::new()))]), Some(String::new()));
}

#[test]
fn pixels_are_encoded_as_png() {
    let rgba: Vec<u8> = vec![255, 0, 0, 255, 0, 255, 0, 255, 0, 0, 255, 255, 9, 8, 7, 6];
    let png = encode_image_optimized(&rgba, 2, 2).unwrap();
    assert_eq!(&png[0..8], &[0x89, b'P', b'N', b'G', 0x0D, 0x0A, 0x1A, 0x0A]);
    assert_ne!(png, rgba);
    let decoded = image::load_from_memory(&png).unwrap().to_rgba8();
    assert_eq!((decoded.width(), decoded.height()), (2, 2));
    assert_eq!(decoded.as_raw(), &rgba);
    assert_eq!(encode_image_optimized(&rgba, 2, 2), Some(png.clone()));
    let wide = encode_image_optimized(&rgba, 4, 1).unwrap();
    assert_eq!(image::load_from_memory(&wide).unwrap().width(), 4);
    assert_eq!(encode_image_optimized(&rgba, 2, 3), None);
    assert_eq!(encode_image_optimized(&rgba, 1, 1), None);
    assert_eq!(encode_image_optimized(&rgba[..15], 2, 2), None);
    assert_eq!(encode_image_optimized(&[], 0, 7), None);
    assert_eq!(encode_image_optimized(&rgba, u32::MAX, u32::MAX), None);
    let mut handler = ImageHandler::new();
    assert!(cache_image_pixels(&mut handler, "image-0-0", &rgba, 2, 2));
    assert_eq!(get_image_info(&handler, "image-0-0"), Some((2, 2, "image/png".to_string())));
    assert_eq!(handler.total_cache_size(), png.len());
    assert!(!cache_image_pixels(&mut handler, "image-0-1", &rgba, 3, 3));
    assert!(!handler.has_image("image-0-1"));
    assert_eq!(handler.cache_count(), 1);
}

#[test]
fn colour_spaces_are_named() {
    assert_eq!(determine_color_space(ColorKind::L8), "Grayscale");
    assert_eq!(determine_color_space(ColorKind::L16), "Grayscale");
    assert_eq!(determine_color_space(ColorKind::La8), "GrayscaleAlpha");
    assert_eq!(determine_color_space(ColorKind::La16), "GrayscaleAlpha");
    assert_eq!(determine_color_space(ColorKind::Rgb8), "RGB");
    assert_eq!(determine_color_space(ColorKind::Rgb16), "RGB");
    assert_eq!(determine_color_space(ColorKind::Rgba8), "RGBA");
    assert_eq!(determine_color_space(ColorKind::Rgba16), "RGBA");
    assert_eq!(determine_color_space(ColorKind::Other), "Unknown");
}

#[test]
fn the_objects_of_a_page_are_counted() {
    let objects = vec![
        PageObject::Text { chars: 5, extent: Some((fx(100.0), fx(10.0))) },
        PageObject::Path,
        PageObject::Image { extent: Some((fx(200.0), fx(100.0))) },
        PageObject::Text { chars: 7, extent: None },
        PageObject::Other,
        PageObject::Image { extent: None },
        PageObject::Path,
        PageObject::Path,
    ];
    let stats = analyze_page(fx(200.0), fx(400.0), &objects, 3);
    assert_eq!(stats.page_index, 3);
    assert_eq!(stats.text_objects, 2);
    assert_eq!(stats.image_objects, 2);
    assert_eq!(stats.path_objects, 3);
    assert_eq!(stats.text_char_count, 12);
    assert_eq!(stats.image_coverage, fx(0.25));
    assert_eq!(stats.text_coverage, fx(0.0125));
    let full = analyze_page(
        fx(10.0),
        fx(10.0),
        &vec![
            PageObject::Image { extent: Some((fx(10.0), fx(10.0))) },
            PageObject::Image { extent: Some((fx(10.0), fx(10.0))) },
            PageObject::Text { chars: usize::MAX, extent: None },
            PageObject::Text { chars: 3, extent: None },
        ],
        0,
    );
    assert_eq!(full.image_coverage, fx(1.0));
    assert_eq!(full.text_char_count, usize::MAX);
    let empty = analyze_page(fx(612.0), fx(792.0), &vec![], 9);
    assert_eq!((empty.text_objects, empty.image_objects, empty.path_objects), (0, 0, 0));
    assert_eq!(empty.image_coverage, fx(0.0));
    assert_eq!(empty.page_index, 9);
}

#[test]
fn what_an_engine_reads_is_taken_in() {
    let (text, confidence, words) = recognition_outcome(
        "  Hello world \n",
        Some(87),
        Some("<span class='ocrx_word' title='bbox 1 2 3 4; x_wconf 90'>Hello</span>".to_string()),
    );
    assert_eq!(text, "Hello world");
    assert_eq!(confidence, fx(0.87));
    assert_eq!(words.len(), 1);
    assert_eq!(words[0].text, "Hello");
    let (text, confidence, words) = recognition_outcome("", None, None);
    assert_eq!(text, "");
    assert_eq!(confidence, fx(0.5));
    assert!(words.is_empty());
    assert_eq!(recognition_outcome("x", Some(-5), None).1, fx(-0.05));
    assert_eq!(recognition_outcome("x", Some(0), Some(String::new())).1, fx(0.0));
    let mut layer = LayerObject::plain("t".to_string(), LayerType::Text);
    assert_eq!(text_to_verify(&layer), Ok(String::new()));
    layer.content = Some("abc".to_string());
    assert_eq!(text_to_verify(&layer), Ok("abc".to_string()));
    for kind in [LayerType::Image, LayerType::Vector, LayerType::Shape] {
        let mut other = LayerObject::plain("o".to_string(), kind);
        other.content = Some("abc".to_string());
        assert_eq!(text_to_verify(&other), Err("Layer is not a text layer".to_string()));
    }
}

#[test]
fn embedded_fonts_come_first() {
    let arial = FontInfo {
        family: "Arial".to_string(),
        full_name: "Arial".to_string(),
        style: FontStyle::default(),
        weight: 400,
        source: FontSource::System,
        path: None,
        is_variable: false,
    };
    let mut store = font_service::EmbeddedFonts::new();
    let mut state = FontManagerState::new();
    font_service::store_embedded_font(&mut store, "Arial".to_string(), vec![1]).unwrap();
    font_service::store_embedded_font(&mut store, "Zed".to_string(), vec![2]).unwrap();
    font_service::store_embedded_font(&mut store, "Arial".to_string(), vec![3]).unwrap();
    assert_eq!(font_service::list_embedded_fonts(&store), Ok(vec!["Arial".to_string(), "Zed".to_string()]));
    assert_eq!(font_service::get_embedded_font(&store, "Arial".to_string()), Ok(Some(vec![3])));
    let embedded = font_service::find_matching_font(
        &store,
        &mut state,
        "Arial".to_string(),
        true,
        false,
        &vec![arial.clone()],
        &vec![],
    );
    assert_eq!(embedded.matched_font, "Arial");
    assert_eq!(embedded.source, font_service::FontSource::Embedded);
    assert_eq!(embedded.confidence, fx(1.0));
    assert_eq!(embedded.css_family, "'Arial'");
    assert_eq!(embedded.google_url, None);
    let found = font_service::find_matching_font(
        &store,
        &mut state,
        "arial".to_string(),
        false,
        true,
        &vec![arial],
        &vec![],
    );
    assert_eq!(found.matched_font, "Arial");
    assert_eq!(found.source, font_service::FontSource::System);
    let again = font_service::find_matching_font(
        &store,
        &mut state,
        "arial".to_string(),
        true,
        true,
        &vec![],
        &vec![],
    );
    assert_eq!(again.matched_font, "Arial");
    let fallback = font_service::find_matching_font(
        &store,
        &mut state,
        "Nothing Like It".to_string(),
        true,
        false,
        &vec![],
        &vec![],
    );
    assert_eq!(fallback.source, font_service::FontSource::System);
    assert_eq!(fallback.confidence, fx(0.3));
    assert_eq!(embedded_font_names(&state), Vec::<String>::new());
    store_embedded_font(&mut state, "b", vec![1], Default::default()).unwrap();
    store_embedded_font(&mut state, "a", vec![2], Default::default()).unwrap();
    store_embedded_font(&mut state, "b", vec![3], Default::default()).unwrap();
    assert_eq!(embedded_font_names(&state), vec!["b".to_string(), "a".to_string()]);
    assert_eq!(get_embedded_font(&state, "b"), Some(vec![3]));
}
