use rook_core::fixed::Fixed;
use rook_core::font_handler::{
    calculate_text_height, calculate_text_width, describe_font, get_font_style, get_font_weight,
    map_to_web_font, FontMetrics,
};
use rook_core::font_manager::docx_extractor::{
    get_default_font, merge_font_info, DocxFontInfo, ParagraphInfo,
};
use rook_core::font_manager::google_fonts::{extract_font_url_from_css, get_popular_fonts, rank};
use rook_core::font_manager::installer::{detect_font_format, font_file_name, sanitize_filename};
use rook_core::font_manager::matcher::{
    build_google_font_url, calculate_similarity, create_fallback_match, find_best_match,
    find_exact_system_match, find_fuzzy_system_match, find_google_match, get_fallback_stack,
    get_fallback_stack_with_category, get_generic_css_stack, guess_font_category,
};
use rook_core::font_manager::normalizer::{
    clean_family_name, extract_italic, extract_weight, extract_width, get_canonical_name,
    normalize_for_comparison, parse_font_name, remove_subset_prefix,
};
use rook_core::font_manager::pdf_extractor::{
    get_embedded_font, parse_font_type, store_embedded_font, PdfFontType,
};
use rook_core::font_manager::{
    clear_font_cache, get_google_font_css_url, FontInfo, FontManagerState, FontSource, FontStyle,
    FontWidth, GoogleFont,
};
use rook_core::font_service;

fn fx(v: f64) -> Fixed {
    Fixed::from_micros((v * 1_000_000.0).round() as i64)
}

fn system(family: &str) -> FontInfo {
    FontInfo {
        family: family.to_string(),
        full_name: format!("{} Regular", family),
        style: FontStyle::default(),
        weight: 400,
        source: FontSource::System,
        path: None,
        is_variable: false,
    }
}

fn google(family: &str, category: &str) -> GoogleFont {
    GoogleFont {
        family: family.to_string(),
        variants: vec!["400".to_string()],
        subsets: vec!["latin".to_string()],
        category: category.to_string(),
        version: None,
        files: vec![],
    }
}

#[test]
fn web_stacks_for_pdf_fonts() {
    assert_eq!(map_to_web_font("ABCDEF+Arial-BoldMT"), "Arial, Helvetica, sans-serif");
    assert_eq!(map_to_web_font("Helvetica"), "Arial, Helvetica, sans-serif");
    assert_eq!(map_to_web_font("TimesNewRoman"), "Times New Roman, Times, serif");
    assert_eq!(map_to_web_font("Courier"), "Courier New, Courier, monospace");
    assert_eq!(map_to_web_font("Georgia"), "Georgia, serif");
    assert_eq!(map_to_web_font("VERDANA"), "Verdana, sans-serif");
    assert_eq!(map_to_web_font("Tahoma"), "Tahoma, sans-serif");
    assert_eq!(map_to_web_font("TrebuchetMS"), "Trebuchet MS, sans-serif");
    assert_eq!(map_to_web_font("Palatino"), "Palatino Linotype, Palatino, serif");
    assert_eq!(map_to_web_font("Garamond"), "Garamond, serif");
    assert_eq!(map_to_web_font("ComicSans"), "Comic Sans MS, cursive");
    assert_eq!(map_to_web_font("Impact"), "Impact, sans-serif");
    assert_eq!(map_to_web_font("Calibri"), "Arial, sans-serif");
    assert_eq!(map_to_web_font("Arial+Calibri"), "Arial, sans-serif");
    assert_eq!(map_to_web_font(""), "Arial, sans-serif");
}

#[test]
fn fonts_are_described_and_measured() {
    let font = describe_font("F1", None, Some("Foo-BoldOblique".to_string()), None, None, true);
    assert_eq!(font.font_type, "Type1");
    assert_eq!(font.base_font, "Foo-BoldOblique");
    assert!(font.is_bold && font.is_italic && font.is_embedded);
    assert_eq!(font.metrics, FontMetrics::default());
    assert_eq!(get_font_weight(&font), 700);
    assert_eq!(get_font_style(&font), "italic");
    assert_eq!(calculate_text_width("abcd", &font, fx(10.0)), fx(20.0));
    assert_eq!(calculate_text_height(&font, fx(10.0)), fx(10.0));
    let plain = describe_font("F2", Some("TrueType".to_string()), None, None, None, false);
    assert_eq!(plain.base_font, "F2");
    assert_eq!(plain.font_type, "TrueType");
    assert!(!plain.is_bold && !plain.is_italic);
    assert_eq!(get_font_weight(&plain), 400);
    assert_eq!(get_font_style(&plain), "normal");
    let mut narrow = plain.clone();
    narrow.metrics.avg_width = fx(0.0);
    assert_eq!(calculate_text_width("ab", &narrow, fx(10.0)), fx(10.0));
    let black = describe_font("F3", None, Some("Arial-Black".to_string()), None, None, false);
    assert!(black.is_bold);
}

#[test]
fn subset_prefixes_are_dropped() {
    assert_eq!(remove_subset_prefix("ABCDEF+Arial"), "Arial");
    assert_eq!(remove_subset_prefix("ABCDE+Arial"), "ABCDE+Arial");
    assert_eq!(remove_subset_prefix("abcdef+Arial"), "abcdef+Arial");
    assert_eq!(remove_subset_prefix("ABCDEFG+Arial"), "ABCDEFG+Arial");
    assert_eq!(remove_subset_prefix("ABCDEF+"), "");
    assert_eq!(remove_subset_prefix("ABCDEF+A+B"), "A+B");
    assert_eq!(remove_subset_prefix("Arial"), "Arial");
}

#[test]
fn weight_slant_and_width_are_taken_out() {
    assert_eq!(extract_weight("Arial-Bold"), ("Arial".to_string(), 700, true));
    assert_eq!(extract_weight("Roboto_Light"), ("Roboto".to_string(), 300, false));
    assert_eq!(extract_weight("Inter ExtraBold"), ("Inter Extra".to_string(), 700, true));
    assert_eq!(extract_weight(" Arial "), ("Arial".to_string(), 400, false));
    assert_eq!(extract_weight("Lato-Black"), ("Lato".to_string(), 900, true));
    assert_eq!(extract_weight("Foo-SemiLight"), ("Foo-Semi".to_string(), 300, false));
    assert_eq!(extract_italic("Arial-Italic"), ("Arial".to_string(), true));
    assert_eq!(extract_italic("Arial Oblique x"), ("Arial  x".to_string(), true));
    assert_eq!(extract_italic(" Arial "), (" Arial ".to_string(), false));
    assert_eq!(extract_width("Arial-Condensed"), ("Arial".to_string(), FontWidth::Condensed));
    assert_eq!(
        extract_width("Foo UltraCondensed"),
        ("Foo".to_string(), FontWidth::UltraCondensed)
    );
    assert_eq!(extract_width("Arial Narrow"), ("Arial".to_string(), FontWidth::Condensed));
    assert_eq!(extract_width("Arial"), ("Arial".to_string(), FontWidth::Normal));
}

#[test]
fn family_names_are_cleaned() {
    assert_eq!(clean_family_name("ArialMT"), "Arial");
    assert_eq!(clean_family_name("TimesNewRomanPS-MT"), "TimesNewRoman");
    assert_eq!(clean_family_name("source_sans-pro"), "Source Sans Pro");
    assert_eq!(clean_family_name("Roboto-v2.1"), "Roboto");
    assert_eq!(clean_family_name("open   sans"), "Open Sans");
    assert_eq!(clean_family_name("Minion-Pro"), "Minion");
    assert_eq!(clean_family_name(""), "");
}

#[test]
fn font_names_are_parsed() {
    let p = parse_font_name("ABCDEF+Arial-BoldItalicMT");
    assert_eq!(p.family, "Arial");
    assert_eq!(p.weight, 700);
    assert!(p.is_bold);
    assert!(p.is_italic);
    assert_eq!(p.width, FontWidth::Normal);
    assert_eq!(p.original, "ABCDEF+Arial-BoldItalicMT");
    let q = parse_font_name("Roboto Condensed Light");
    assert_eq!(q.family, "Roboto");
    assert_eq!(q.weight, 300);
    assert!(!q.is_bold && !q.is_italic);
    assert_eq!(q.width, FontWidth::Condensed);
    assert_eq!(normalize_for_comparison("Open Sans Bold"), "opensans");
    assert_eq!(normalize_for_comparison("open_sans"), "opensans");
    assert_eq!(get_canonical_name("ABCDEF+open-sans"), "Open Sans");
}

#[test]
fn names_are_compared() {
    assert_eq!(calculate_similarity("roboto", "roboto"), fx(1.0));
    assert_eq!(calculate_similarity("", ""), fx(1.0));
    assert_eq!(calculate_similarity("roboto", ""), fx(0.0));
    assert_eq!(calculate_similarity("roboto", "robota"), Fixed::from_micros(833_334));
    assert_eq!(calculate_similarity("abcd", "wxyz"), fx(0.0));
    assert_eq!(calculate_similarity("Hello", "hello"), fx(0.8));
}

#[test]
fn categories_and_stacks() {
    assert_eq!(guess_font_category("Fira Code"), ("Courier New", "monospace"));
    assert_eq!(guess_font_category("Noto Serif"), ("Georgia", "serif"));
    assert_eq!(guess_font_category("Noto Sans Serif"), ("Arial", "sans-serif"));
    assert_eq!(guess_font_category("Brush Script"), ("Georgia", "cursive"));
    assert_eq!(guess_font_category("Playfair Display"), ("Impact", "display"));
    assert_eq!(guess_font_category("Lato"), ("Arial", "sans-serif"));
    assert_eq!(
        get_fallback_stack("Fira Code"),
        vec!["Fira Code", "Consolas", "Courier New", "monospace"]
    );
    assert_eq!(
        get_fallback_stack_with_category("X", "serif"),
        vec!["X", "Georgia", "Times New Roman", "serif"]
    );
    assert_eq!(get_fallback_stack_with_category("X", "handwriting"), vec!["X", "Georgia", "cursive"]);
    assert_eq!(get_fallback_stack_with_category("X", "cursive"), vec!["X", "Georgia", "cursive"]);
    assert_eq!(
        get_fallback_stack_with_category("X", "display"),
        vec!["X", "Impact", "Arial Black", "sans-serif"]
    );
    assert_eq!(
        get_fallback_stack_with_category("X", "other"),
        vec!["X", "Helvetica", "Arial", "sans-serif"]
    );
    assert_eq!(get_generic_css_stack("serif"), "Georgia, 'Times New Roman', Times, serif");
    assert_eq!(get_generic_css_stack("monospace"), "'Courier New', Consolas, monospace");
    assert_eq!(get_generic_css_stack("cursive"), "Georgia, cursive");
    assert_eq!(get_generic_css_stack("display"), "Impact, 'Arial Black', sans-serif");
    assert_eq!(get_generic_css_stack("handwriting"), "Arial, Helvetica, sans-serif");
}

#[test]
fn stylesheet_addresses() {
    assert_eq!(
        build_google_font_url("Open Sans", 700),
        "https://fonts.googleapis.com/css2?family=Open+Sans:wght@700&display=swap"
    );
    assert_eq!(
        get_google_font_css_url("Open Sans".to_string(), vec![]),
        "https://fonts.googleapis.com/css2?family=Open+Sans:wght@400&display=swap"
    );
    assert_eq!(
        get_google_font_css_url(
            "PT Serif Caption".to_string(),
            vec!["400".to_string(), "700".to_string()]
        ),
        "https://fonts.googleapis.com/css2?family=PT+Serif+Caption:wght@400;700&display=swap"
    );
    assert_eq!(
        font_service::get_google_font_url("Lato".to_string(), vec!["300".to_string()]),
        "https://fonts.googleapis.com/css2?family=Lato:wght@300&display=swap"
    );
}

#[test]
fn matches_are_found_in_order() {
    let systems = vec![system("Arial"), system("Open Sans"), system("Robota")];
    let catalogue = vec![google("Roboto", "sans-serif"), google("Lora", "serif")];
    let exact = find_best_match("open sans bold", &systems, &catalogue, 700, false);
    assert_eq!(exact.family, "Open Sans");
    assert_eq!(exact.source, FontSource::System);
    assert_eq!(exact.confidence, fx(1.0));
    assert_eq!(exact.css_family, "'Open Sans'");
    assert_eq!(exact.google_url, None);
    assert_eq!(exact.fallback_stack, vec!["Open Sans", "Helvetica", "Arial", "sans-serif"]);
    let fuzzy = find_best_match("Roboto", &systems, &catalogue, 400, false);
    assert_eq!(fuzzy.family, "Robota");
    assert_eq!(fuzzy.confidence, Fixed::from_micros(833_334));
    let from_google = find_best_match("Lora", &systems, &catalogue, 500, false);
    assert_eq!(from_google.family, "Lora");
    assert_eq!(from_google.source, FontSource::Google);
    assert_eq!(from_google.confidence, fx(0.95));
    assert_eq!(
        from_google.google_url.as_deref(),
        Some("https://fonts.googleapis.com/css2?family=Lora:wght@500&display=swap")
    );
    assert_eq!(from_google.fallback_stack, vec!["Lora", "Georgia", "Times New Roman", "serif"]);
    let none = find_best_match("Zapfino Script", &systems, &catalogue, 400, false);
    assert_eq!(none.family, "Georgia");
    assert_eq!(none.confidence, fx(0.3));
    assert_eq!(none.css_family, "Georgia, cursive");
    assert_eq!(none.fallback_stack, vec!["Georgia"]);
    assert!(find_exact_system_match("ARIAL", &systems).is_some());
    assert!(find_exact_system_match("Ariel", &systems).is_none());
    assert!(find_fuzzy_system_match("ariel", &systems, fx(0.8)).is_some());
    assert!(find_fuzzy_system_match("ariel", &systems, fx(0.81)).is_none());
    let near = find_google_match("", "lorax", &catalogue, 400, false).unwrap();
    assert_eq!(near.family, "Lora");
    assert_eq!(near.confidence, fx(0.72));
    assert!(find_google_match("", "zzz", &catalogue, 400, false).is_none());
    assert_eq!(create_fallback_match("Mono").family, "Courier New");
}

#[test]
fn first_of_equally_good_matches_wins() {
    let systems = vec![system("Abcx"), system("Abcy")];
    let m = find_fuzzy_system_match("abcz", &systems, fx(0.5)).unwrap();
    assert_eq!(m.family, "Abcx");
    assert_eq!(m.confidence, fx(0.75));
}

#[test]
fn popular_fonts_are_listed() {
    let fonts = get_popular_fonts();
    assert_eq!(fonts.len(), 38);
    assert_eq!(fonts[0].family, "Roboto");
    assert_eq!(fonts[0].variants, vec!["100", "300", "400", "500", "700", "900"]);
    assert_eq!(fonts[0].category, "sans-serif");
    assert_eq!(fonts[0].subsets, vec!["latin"]);
    assert_eq!(fonts[0].version, None);
    assert!(fonts[0].files.is_empty());
    assert_eq!(fonts[20].family, "Pacifico");
    assert_eq!(fonts[20].variants, vec!["400"]);
    assert_eq!(fonts[20].category, "handwriting");
    assert_eq!(fonts[37].family, "Cousine");
    assert_eq!(fonts[37].variants, vec!["400", "700"]);
    assert_eq!(fonts[37].category, "monospace");
    assert_eq!(
        fonts[17].variants,
        vec!["100", "200", "300", "400", "500", "600", "700", "800"]
    );
    let order = rank("robot", &fonts, 3);
    assert_eq!(order.len(), 3);
    assert_eq!(fonts[order[0]].family, "Roboto");
    assert_eq!(fonts[order[1]].family, "Roboto Mono");
    assert!(rank("robot", &fonts, 0).is_empty());
    assert!(rank("", &fonts, 5).is_empty());
}

#[test]
fn font_addresses_in_stylesheets() {
    let css = "@font-face { src: url(https://x.test/a.woff2) format('woff2'); }";
    assert_eq!(extract_font_url_from_css(css).as_deref(), Some("https://x.test/a.woff2"));
    let quoted = "src: url(\"'https://x.test/b.ttf'\");";
    assert_eq!(extract_font_url_from_css(quoted), None);
    let single = "src: url('https://x.test/b.ttf);";
    assert_eq!(extract_font_url_from_css(single).as_deref(), Some("https://x.test/b.ttf"));
    assert_eq!(extract_font_url_from_css("src: url(a.png)"), None);
    assert_eq!(extract_font_url_from_css(""), None);
}

#[test]
fn font_files_are_named() {
    assert_eq!(detect_font_format(&[0, 1, 0, 0, 9]), "ttf");
    assert_eq!(detect_font_format(b"OTTO"), "otf");
    assert_eq!(detect_font_format(b"true"), "ttf");
    assert_eq!(detect_font_format(b"wOFF"), "woff");
    assert_eq!(detect_font_format(b"wOF2"), "woff2");
    assert_eq!(detect_font_format(b"wOF"), "ttf");
    assert_eq!(detect_font_format(b"abcd"), "ttf");
    assert_eq!(sanitize_filename("Open Sans/Bold_1-x"), "Open_Sans_Bold_1-x");
    assert_eq!(sanitize_filename("Füße 2"), "Füße_2");
    assert_eq!(sanitize_filename(""), "");
    assert_eq!(font_file_name("Open Sans", b"wOF2...."), "Open_Sans.woff2");
}

#[test]
fn font_types_and_embedded_fonts() {
    assert_eq!(parse_font_type("Type1"), PdfFontType::Type1);
    assert_eq!(parse_font_type("TrueType"), PdfFontType::TrueType);
    assert_eq!(parse_font_type("Type0"), PdfFontType::Type0);
    assert_eq!(parse_font_type("Type3"), PdfFontType::Type3);
    assert_eq!(parse_font_type("CIDFontType0"), PdfFontType::CIDFontType0);
    assert_eq!(parse_font_type("CIDFontType2"), PdfFontType::CIDFontType2);
    assert_eq!(parse_font_type("OpenType"), PdfFontType::OpenType);
    assert_eq!(parse_font_type("type1"), PdfFontType::Unknown);
    let mut state = FontManagerState::new();
    assert_eq!(get_embedded_font(&state, "a"), None);
    store_embedded_font(&mut state, "a", vec![1, 2], Default::default()).unwrap();
    store_embedded_font(&mut state, "a", vec![3], Default::default()).unwrap();
    store_embedded_font(&mut state, "b", vec![4], Default::default()).unwrap();
    assert_eq!(get_embedded_font(&state, "a"), Some(vec![3]));
    assert_eq!(get_embedded_font(&state, "b"), Some(vec![4]));
    assert!(clear_font_cache(&mut state).is_ok());
    assert_eq!(get_embedded_font(&state, "a"), Some(vec![3]));
    let mut store = font_service::EmbeddedFonts::new();
    font_service::store_embedded_font(&mut store, "x".to_string(), vec![7]).unwrap();
    assert_eq!(font_service::get_embedded_font(&store, "x".to_string()), Ok(Some(vec![7])));
    assert_eq!(font_service::get_embedded_font(&store, "y".to_string()), Ok(None));
}

#[test]
fn older_font_records() {
    let mut info = system("Lato");
    info.style.is_italic = true;
    info.source = FontSource::Google;
    let old = font_service::FontInfo::from_manager(info);
    assert_eq!(old.name, "Lato Regular");
    assert_eq!(old.family, "Lato");
    assert_eq!(old.style, "italic");
    assert_eq!(old.source, font_service::FontSource::Google);
    assert_eq!(font_service::FontInfo::from_manager(system("A")).style, "normal");
    let g = font_service::GoogleFont::from_manager(google("Lora", "serif"));
    assert_eq!(g.family, "Lora");
    assert_eq!(g.category, "serif");
    assert_eq!(font_service::style_name(400, "normal"), "");
    assert_eq!(font_service::style_name(400, "italic"), "Regular Italic");
    assert_eq!(font_service::style_name(700, "normal"), "Bold");
    assert_eq!(font_service::style_name(150, "italic"), "Thin Italic");
    assert_eq!(font_service::style_name(250, ""), "ExtraLight");
    assert_eq!(font_service::style_name(350, ""), "Light");
    assert_eq!(font_service::style_name(550, ""), "Medium");
    assert_eq!(font_service::style_name(650, ""), "SemiBold");
    assert_eq!(font_service::style_name(850, ""), "ExtraBold");
    assert_eq!(font_service::style_name(900, ""), "Black");
    assert_eq!(font_service::style_name(50, ""), "Black");
    let m = font_service::embedded_match("My Font");
    assert_eq!(m.css_family, "'My Font'");
    assert_eq!(m.confidence, fx(1.0));
    assert_eq!(m.source, font_service::FontSource::Embedded);
    assert_eq!(font_service::wanted_weight(true), 700);
    assert_eq!(font_service::wanted_weight(false), 400);
    let converted = font_service::match_from_manager(create_fallback_match("x"));
    assert_eq!(converted.matched_font, "Arial");
    assert_eq!(converted.source, font_service::FontSource::System);
}

#[test]
fn run_fonts_take_from_their_paragraph() {
    let run = DocxFontInfo {
        ascii: Some("A".to_string()),
        east_asia: None,
        h_ansi: None,
        cs: None,
        theme_font: None,
        resolved: "Arial".to_string(),
        size: None,
        is_bold: false,
        is_italic: true,
        color: None,
        underline: true,
        strike: false,
    };
    let mut para = ParagraphInfo::default();
    para.font_family = Some("Lato".to_string());
    para.font_size = Some(fx(14.0));
    para.is_bold = true;
    para.color = Some("#111111".to_string());
    let merged = merge_font_info(&run, &para, "Calibri");
    assert_eq!(merged.resolved, "Lato");
    assert_eq!(merged.size, Some(fx(14.0)));
    assert!(merged.is_bold && merged.is_italic && merged.underline && !merged.strike);
    assert_eq!(merged.color.as_deref(), Some("#111111"));
    assert_eq!(merged.ascii.as_deref(), Some("A"));
    let bare = merge_font_info(&run, &ParagraphInfo::default(), "Calibri");
    assert_eq!(bare.resolved, "Calibri");
    assert_eq!(bare.size, None);
    let mut own = run.clone();
    own.resolved = "Georgia".to_string();
    own.size = Some(fx(9.0));
    own.color = Some("#222222".to_string());
    let kept = merge_font_info(&own, &para, "Calibri");
    assert_eq!(kept.resolved, "Georgia");
    assert_eq!(kept.size, Some(fx(9.0)));
    assert_eq!(kept.color.as_deref(), Some("#222222"));
    assert_eq!(get_default_font(), "Calibri");
}

#[test]
fn system_fonts_are_listed_by_family() {
    use_system_listing();
}

fn use_system_listing() {
    let face = |name: &str, weight: u16, italic: bool| {
        Some(rook_core::font_manager::system::FaceProps {
            full_name: name.to_string(),
            weight,
            is_italic: italic,
            is_oblique: false,
        })
    };
    let family = |name: &str, face| rook_core::font_manager::system::SystemFamily {
        family: name.to_string(),
        face,
    };
    let families = vec![
        family("verdana", face("Verdana Regular", 400, false)),
        family("Arial", face("Arial Bold", 700, false)),
        family("Zapfino", None),
        family("arial", face("arial lower", 300, true)),
        family("Arial", face("Arial Again", 100, false)),
        family("Zapfino", face("Zapfino Late", 400, false)),
        family("ARIAL", face("ARIAL UPPER", 900, false)),
        family("Courier", face("Courier", 400, false)),
        family("Arial Black", face("Arial Black", 900, false)),
        family("Ar", face("Ar", 400, false)),
    ];
    let fonts = rook_core::font_manager::system::enumerate_fonts(&families);
    let names: Vec<&str> = fonts.iter().map(|f| f.full_name.as_str()).collect();
    assert_eq!(
        names,
        vec![
            "Ar",
            "Arial Bold",
            "arial lower",
            "ARIAL UPPER",
            "Arial Black",
            "Courier",
            "Verdana Regular"
        ]
    );
    assert_eq!(fonts[1].family, "Arial");
    assert_eq!(fonts[1].weight, 700);
    assert_eq!(fonts[2].weight, 300);
    assert!(fonts[2].style.is_italic);
    assert!(!fonts[2].style.is_oblique);
    assert_eq!(fonts[2].style.width, FontWidth::Normal);
    assert_eq!(fonts[0].source, FontSource::System);
    assert_eq!(fonts[0].path, None);
    assert!(!fonts[0].is_variable);
    assert!(rook_core::font_manager::system::enumerate_fonts(&vec![]).is_empty());
}

#[test]
fn texts_are_ordered_like_strings() {
    let before = |a: &str, b: &str| {
        rook_core::sorting::text_before(&a.chars().collect(), &b.chars().collect())
    };
    for (a, b) in [
        ("", "a"),
        ("a", "b"),
        ("a", "aa"),
        ("Z", "a"),
        ("abc", "abd"),
        ("ab", "b"),
        ("z", "é"),
        ("é", "😀"),
        ("\u{ffff}", "\u{10000}"),
    ] {
        assert!(before(a, b), "{a} before {b}");
        assert!(!before(b, a), "{b} not before {a}");
        assert!(a < b);
    }
    assert!(!before("", ""));
    assert!(!before("same", "same"));
    let keys: Vec<Vec<char>> =
        ["b", "a", "", "b", "ab", "a"].iter().map(|s| s.chars().collect()).collect();
    assert_eq!(rook_core::sorting::stable_text_order(&keys), vec![2, 1, 5, 4, 0, 3]);
    assert!(rook_core::sorting::stable_text_order(&vec![]).is_empty());
}
