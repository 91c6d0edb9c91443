use rook_core::fixed::Fixed;
use rook_core::ocr_handler::OcrCounter;
use rook_core::pdf_analyzer::{
    classify_content, determine_recommendation, page_stats, summarize, PageContentStats,
    PdfContentType, ReconstructionRecommendation,
};
use rook_core::pdf_reconstructor::{
    accept_region, needs_ocr_reconstruction, ocr_results_to_layers, render_size,
    resolve_options, OcrOptions, OcrTextResult,
};
use rook_core::models::Bounds;

fn fx(v: f64) -> Fixed {
    Fixed::from_micros((v * 1_000_000.0).round() as i64)
}

#[test]
fn test_classify_image_only() {
    let (content_type, _) = classify_content(2, 5, 0, 10, fx(0.85), fx(0.01));
    assert_eq!(content_type, PdfContentType::ImageOnly);
}

#[test]
fn test_classify_text_based() {
    let (content_type, _) = classify_content(100, 2, 10, 5000, fx(0.05), fx(0.6));
    assert_eq!(content_type, PdfContentType::TextBased);
}

#[test]
fn test_classify_mixed() {
    let (content_type, _) = classify_content(50, 10, 20, 500, fx(0.3), fx(0.4));
    assert_eq!(content_type, PdfContentType::Mixed);
}

#[test]
fn test_recommendation_ocr() {
    let rec = determine_recommendation(&PdfContentType::ImageOnly, fx(0.9));
    assert_eq!(rec, ReconstructionRecommendation::OcrRequired);
}

#[test]
fn classification_rules_in_order() {
    assert_eq!(
        classify_content(2, 5, 0, 10, fx(0.85), fx(0.0)),
        (PdfContentType::ImageOnly, fx(0.95))
    );
    assert_eq!(
        classify_content(2, 5, 0, 10, fx(0.7), fx(0.0)),
        (PdfContentType::TextBased, fx(0.7))
    );
    assert_eq!(
        classify_content(100, 2, 10, 5000, fx(0.05), fx(0.0)),
        (PdfContentType::TextBased, fx(0.9))
    );
    assert_eq!(
        classify_content(4, 2, 51, 101, fx(0.05), fx(0.0)),
        (PdfContentType::VectorHeavy, fx(0.85))
    );
    assert_eq!(
        classify_content(0, 0, 51, 0, fx(0.0), fx(0.0)),
        (PdfContentType::VectorHeavy, fx(0.85))
    );
    assert_eq!(
        classify_content(0, 0, 50, 0, fx(0.0), fx(0.0)),
        (PdfContentType::Empty, fx(0.5))
    );
    assert_eq!(
        classify_content(50, 10, 20, 500, fx(0.3), fx(0.0)),
        (PdfContentType::Mixed, fx(0.8))
    );
    assert_eq!(
        classify_content(1, 0, 0, 0, fx(0.0), fx(0.0)),
        (PdfContentType::TextBased, fx(0.7))
    );
    assert_eq!(
        classify_content(usize::MAX, usize::MAX, usize::MAX, 101, fx(0.0), fx(0.0)),
        (PdfContentType::TextBased, fx(0.7))
    );
}

#[test]
fn recommendations() {
    assert_eq!(
        determine_recommendation(&PdfContentType::Mixed, fx(0.51)),
        ReconstructionRecommendation::OcrVerification
    );
    assert_eq!(
        determine_recommendation(&PdfContentType::Mixed, fx(0.5)),
        ReconstructionRecommendation::Nothing
    );
    assert_eq!(
        determine_recommendation(&PdfContentType::VectorHeavy, fx(0.0)),
        ReconstructionRecommendation::VectorConversion
    );
    assert_eq!(
        determine_recommendation(&PdfContentType::TextBased, fx(1.0)),
        ReconstructionRecommendation::Nothing
    );
    assert_eq!(
        determine_recommendation(&PdfContentType::Empty, fx(1.0)),
        ReconstructionRecommendation::Nothing
    );
}

#[test]
fn pages_are_summed_up() {
    let empty = summarize(vec![]);
    assert_eq!(empty.content_type, PdfContentType::Empty);
    assert_eq!(empty.confidence, fx(1.0));
    assert_eq!(empty.total_pages, 0);
    let a = page_stats(0, 1, 2, 3, 40, fx(50.0), fx(10.0), fx(100.0));
    assert_eq!(
        a,
        PageContentStats {
            page_index: 0,
            text_objects: 1,
            image_objects: 2,
            path_objects: 3,
            text_char_count: 40,
            image_coverage: fx(0.5),
            text_coverage: fx(0.1),
        }
    );
    let b = page_stats(1, 0, 1, 0, 0, fx(500.0), fx(0.0), fx(100.0));
    assert_eq!(b.image_coverage, fx(1.0));
    let analysis = summarize(vec![a, b]);
    assert_eq!(analysis.total_pages, 2);
    assert_eq!(analysis.total_text_objects, 1);
    assert_eq!(analysis.total_image_objects, 3);
    assert_eq!(analysis.total_path_objects, 3);
    assert_eq!(analysis.total_char_count, 40);
    assert_eq!(analysis.avg_image_coverage, fx(0.75));
    assert_eq!(analysis.avg_text_coverage, fx(0.05));
    assert_eq!(analysis.content_type, PdfContentType::ImageOnly);
    assert_eq!(analysis.recommendation, ReconstructionRecommendation::OcrRequired);
    assert!(needs_ocr_reconstruction(&analysis));
    assert!(!needs_ocr_reconstruction(&empty));
}

#[test]
fn reconstruction_options_and_sizes() {
    assert_eq!(resolve_options(&None), (150, fx(0.5)));
    let defaults = OcrOptions::default();
    assert_eq!(defaults.language.as_deref(), Some("eng"));
    assert_eq!(resolve_options(&Some(defaults)), (150, fx(0.5)));
    let custom = OcrOptions { language: None, render_dpi: Some(300), min_confidence: None };
    assert_eq!(resolve_options(&Some(custom)), (300, fx(0.5)));
    assert_eq!(render_size(fx(612.0), fx(792.0), 144), (1224, 1584));
    assert_eq!(render_size(fx(612.0), fx(792.0), 150), (1274, 1649));
}

#[test]
fn recognized_text_becomes_layers() {
    let bounds = Bounds::new(fx(10.0), fx(20.0), fx(30.0), fx(40.0));
    assert!(accept_region(" ".to_string(), bounds, fx(0.9), fx(0.5)).is_empty());
    assert!(accept_region("a".to_string(), bounds, fx(0.4), fx(0.5)).is_empty());
    let kept = accept_region("a".to_string(), bounds, fx(0.5), fx(0.5));
    assert_eq!(kept.len(), 1);
    let summary = rook_core::pdf_reconstructor::summarize(3, &kept, fx(0.5));
    assert_eq!(summary.message, "Reconstructed 3 pages, added 1 text layers");
    assert_eq!(summary.confidence, fx(0.5));
    assert_eq!(summary.pages_processed, 3);
    let none = rook_core::pdf_reconstructor::summarize(0, &vec![], fx(0.5));
    assert_eq!(none.confidence, fx(0.0));
    assert_eq!(none.message, "Reconstructed 0 pages, added 0 text layers");
    let mut counter = OcrCounter::new();
    counter.take();
    let results = vec![
        OcrTextResult { text: "x".to_string(), bounds, confidence: fx(0.9) },
        OcrTextResult { text: "y".to_string(), bounds, confidence: fx(0.8) },
    ];
    let layers = ocr_results_to_layers(results, 2, fx(792.0), fx(2.0), &mut counter);
    assert_eq!(layers.len(), 2);
    assert_eq!(layers[0].id, "ocr-2-0");
    assert_eq!(layers[1].id, "ocr-2-1");
    assert_eq!(layers[0].z_index, 1);
    assert_eq!(layers[1].z_index, 2);
    assert_eq!(layers[0].bounds, Bounds::new(fx(5.0), fx(10.0), fx(15.0), fx(20.0)));
    assert_eq!(layers[1].content.as_deref(), Some("y"));
    assert_eq!(layers[0].font_size, Some(fx(12.0)));
    assert_eq!(counter.next, 3);
}
