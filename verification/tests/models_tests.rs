use rook_core::fixed::{isqrt, Fixed};
use rook_core::models::{
    Bounds, LayerObject, LayerRole, LayerType, SourceType, TextAlign, TransformMatrix,
};

fn fx(v: f64) -> Fixed {
    Fixed::from_micros((v * 1_000_000.0).round() as i64)
}

fn fl(x: Fixed) -> f64 {
    x.micros as f64 / 1_000_000.0
}

#[test]
fn test_transform_matrix_identity() {
    let m = TransformMatrix::identity();
    let (x, y) = m.transform_point(fx(10.0), fx(20.0));
    assert!((fl(x) - 10.0).abs() < 0.001);
    assert!((fl(y) - 20.0).abs() < 0.001);
}

#[test]
fn test_transform_matrix_translate() {
    let m = TransformMatrix::translate(fx(5.0), fx(10.0));
    let (x, y) = m.transform_point(fx(10.0), fx(20.0));
    assert!((fl(x) - 15.0).abs() < 0.001);
    assert!((fl(y) - 30.0).abs() < 0.001);
}

#[test]
fn test_transform_matrix_scale() {
    let m = TransformMatrix::scale(fx(2.0), fx(3.0));
    let (x, y) = m.transform_point(fx(10.0), fx(20.0));
    assert!((fl(x) - 20.0).abs() < 0.001);
    assert!((fl(y) - 60.0).abs() < 0.001);
}

#[test]
fn test_transform_matrix_multiply() {
    let t = TransformMatrix::translate(fx(10.0), fx(20.0));
    let s = TransformMatrix::scale(fx(2.0), fx(2.0));
    let combined = t.multiply(&s);
    let (x, y) = combined.transform_point(fx(5.0), fx(5.0));
    assert!((fl(x) - 30.0).abs() < 0.001);
    assert!((fl(y) - 50.0).abs() < 0.001);
}

#[test]
fn test_bounds_creation() {
    let bounds = Bounds::new(fx(10.0), fx(20.0), fx(100.0), fx(50.0));
    assert_eq!(bounds.x, fx(10.0));
    assert_eq!(bounds.y, fx(20.0));
    assert_eq!(bounds.width, fx(100.0));
    assert_eq!(bounds.height, fx(50.0));
}

#[test]
fn test_bounds_clamp_positive() {
    let bounds = Bounds::new(fx(10.0), fx(20.0), fx(-5.0), fx(0.0));
    let clamped = bounds.clamp_positive();
    assert_eq!(clamped.width, fx(1.0));
    assert_eq!(clamped.height, fx(1.0));
}

#[test]
fn test_layer_type_display() {
    assert_eq!(LayerType::Text.to_string(), "text");
    assert_eq!(LayerType::Image.to_string(), "image");
    assert_eq!(LayerType::Vector.to_string(), "vector");
    assert_eq!(LayerType::Shape.to_string(), "shape");
}

#[test]
fn test_source_type_display() {
    assert_eq!(SourceType::Extracted.to_string(), "extracted");
    assert_eq!(SourceType::Manual.to_string(), "manual");
    assert_eq!(SourceType::Imported.to_string(), "imported");
}

#[test]
fn test_layer_role_display() {
    assert_eq!(LayerRole::Background.to_string(), "background");
    assert_eq!(LayerRole::Content.to_string(), "content");
    assert_eq!(LayerRole::Header.to_string(), "header");
    assert_eq!(LayerRole::Footer.to_string(), "footer");
    assert_eq!(LayerRole::Annotation.to_string(), "annotation");
}

#[test]
fn identity_is_neutral_on_both_sides() {
    let m = TransformMatrix {
        a: fx(0.5),
        b: fx(-1.25),
        c: fx(3.0),
        d: fx(0.000001),
        e: fx(-120.5),
        f: fx(77.7),
    };
    let id = TransformMatrix::identity();
    assert_eq!(id.multiply(&m), m);
    assert_eq!(m.multiply(&id), m);
    let big = TransformMatrix {
        a: Fixed::from_micros(i64::MAX),
        b: Fixed::from_micros(i64::MIN),
        c: fx(0.0),
        d: fx(1.0),
        e: Fixed::from_micros(i64::MIN),
        f: Fixed::from_micros(i64::MAX),
    };
    assert_eq!(id.multiply(&big), big);
    assert_eq!(big.multiply(&id), big);
}

#[test]
fn composition_order_matters() {
    let skew = TransformMatrix {
        a: fx(1.0),
        b: fx(1.0),
        c: fx(0.0),
        d: fx(1.0),
        e: fx(0.0),
        f: fx(0.0),
    };
    let shift = TransformMatrix::translate(fx(10.0), fx(0.0));
    let one = skew.multiply(&shift);
    let other = shift.multiply(&skew);
    assert_eq!(one.e, fx(10.0));
    assert_eq!(one.f, fx(0.0));
    assert_eq!(other.e, fx(10.0));
    assert_eq!(other.f, fx(10.0));
    assert_ne!(one, other);
}

#[test]
fn scale_factors_are_lengths_of_columns() {
    let m = TransformMatrix {
        a: fx(3.0),
        b: fx(0.0),
        c: fx(4.0),
        d: fx(-2.0),
        e: fx(9.0),
        f: fx(9.0),
    };
    assert_eq!(m.scale_x(), fx(5.0));
    assert_eq!(m.scale_y(), fx(2.0));
    assert_eq!(TransformMatrix::identity().scale_x(), fx(1.0));
}

#[test]
fn fixed_arithmetic_exact_values() {
    assert_eq!(fx(1.5).plus(fx(2.25)), fx(3.75));
    assert_eq!(fx(1.5).minus(fx(2.25)), fx(-0.75));
    assert_eq!(fx(1.5).times(fx(-2.0)), fx(-3.0));
    assert_eq!(fx(0.000001).times(fx(0.5)), fx(0.0));
    assert_eq!(fx(-0.000001).times(fx(0.5)), fx(0.0));
    assert_eq!(fx(1.0).over(fx(4.0)), fx(0.25));
    assert_eq!(fx(-1.0).over(fx(3.0)), Fixed::from_micros(-333_333));
    assert_eq!(fx(1.0).over(fx(0.0)), Fixed::largest());
    assert_eq!(fx(-1.0).over(fx(0.0)), Fixed::smallest());
    assert_eq!(fx(0.0).over(fx(0.0)), fx(0.0));
    assert_eq!(fx(-2.5).abs(), fx(2.5));
    assert_eq!(fx(-2.5).negated(), fx(2.5));
    assert_eq!(fx(-2.5).trunc(), -2);
    assert_eq!(fx(2.999999).trunc(), 2);
    assert_eq!(Fixed::from_int(12), fx(12.0));
    assert_eq!(fx(3.0).hypot(fx(4.0)), fx(5.0));
    assert_eq!(fx(2.0).hypot(fx(0.0)), fx(2.0));
    assert_eq!(fx(1.0).hypot(fx(1.0)), Fixed::from_micros(1_414_213));
}

#[test]
fn fixed_arithmetic_saturates() {
    let top = Fixed::largest();
    let bottom = Fixed::smallest();
    assert_eq!(top.plus(fx(1.0)), top);
    assert_eq!(bottom.minus(fx(1.0)), bottom);
    assert_eq!(bottom.negated(), top);
    assert_eq!(bottom.abs(), top);
    assert_eq!(top.times(fx(2.0)), top);
    assert_eq!(top.times(fx(-2.0)), bottom);
    assert_eq!(Fixed::from_int(i64::MAX), top);
    assert_eq!(Fixed::from_int(i64::MIN), bottom);
    assert_eq!(top.hypot(top), top);
    assert!(fx(1.0).lt(fx(1.000001)));
    assert!(!fx(1.0).lt(fx(1.0)));
    assert_eq!(fx(1.0).max(fx(2.0)), fx(2.0));
    assert_eq!(fx(1.0).min(fx(2.0)), fx(1.0));
}

#[test]
fn integer_square_root_edges() {
    assert_eq!(isqrt(0), 0);
    assert_eq!(isqrt(1), 1);
    assert_eq!(isqrt(3), 1);
    assert_eq!(isqrt(4), 2);
    assert_eq!(isqrt(99), 9);
    assert_eq!(isqrt(u128::MAX), u64::MAX);
    assert_eq!(isqrt((u64::MAX as u128) * (u64::MAX as u128) - 1), u64::MAX - 1);
}

#[test]
fn test_iso8601_now_format() {
    let timestamp = rook_core::models::iso8601_now();
    assert!(timestamp.len() == 20);
    assert!(timestamp.ends_with('Z'));
    assert!(timestamp.contains('T'));
    let year: i32 = timestamp[0..4].parse().unwrap();
    assert!(year >= 2024);
}

#[test]
fn days_become_dates() {
    assert_eq!(rook_core::models::days_to_ymd(0), (1970, 1, 1));
    assert_eq!(rook_core::models::days_to_ymd(-1), (1969, 12, 31));
    assert_eq!(rook_core::models::days_to_ymd(59), (1970, 3, 1));
    assert_eq!(rook_core::models::days_to_ymd(11016), (2000, 2, 29));
    assert_eq!(rook_core::models::days_to_ymd(11017), (2000, 3, 1));
    assert_eq!(rook_core::models::days_to_ymd(19782), (2024, 2, 29));
    assert_eq!(rook_core::models::days_to_ymd(19723), (2024, 1, 1));
    assert_eq!(rook_core::models::days_to_ymd(47540), (2100, 2, 28));
    assert_eq!(rook_core::models::days_to_ymd(47541), (2100, 3, 1));
    assert_eq!(rook_core::models::days_to_ymd(-719_468), (0, 3, 1));
    assert_eq!(rook_core::models::days_to_ymd(2_932_896), (9999, 12, 31));
    assert_eq!(rook_core::models::days_to_ymd(-719_469), (0, 2, 29));
    assert_eq!(rook_core::models::days_to_ymd(-719_834), (-1, 3, 1));
    assert_eq!(rook_core::models::days_to_ymd(-1_000_000), (-768, 2, 4));
    assert_eq!(rook_core::models::days_to_ymd(-25_567), (1900, 1, 1));
    assert_eq!(rook_core::models::days_to_ymd(-141_427), (1582, 10, 15));
}

#[test]
fn timestamps_are_written_in_full() {
    assert_eq!(rook_core::models::format_iso8601(0), "1970-01-01T00:00:00Z");
    assert_eq!(rook_core::models::format_iso8601(1_700_000_000), "2023-11-14T22:13:20Z");
    assert_eq!(rook_core::models::format_iso8601(951_782_399), "2000-02-28T23:59:59Z");
    assert_eq!(rook_core::models::format_iso8601(951_782_400), "2000-02-29T00:00:00Z");
    assert_eq!(rook_core::models::format_iso8601(253_402_300_800), "10000-01-01T00:00:00Z");
    assert!(rook_core::models::format_iso8601(u64::MAX).ends_with("T07:00:15Z"));
}

#[test]
fn defaults_of_the_document_model() {
    assert_eq!(TextAlign::default(), TextAlign::Left);
    assert_eq!(TransformMatrix::default(), TransformMatrix::identity());
    let settings = rook_core::models::ProjectSettings::default();
    assert_eq!(settings.default_font.as_deref(), Some("Arial"));
    assert_eq!(settings.default_font_size, Some(fx(12.0)));
    assert_eq!(settings.export_quality.as_deref(), Some("standard"));
    let metadata = rook_core::models::DocumentMetadata::default();
    assert_eq!(metadata.title, "");
    assert_eq!(metadata.created, metadata.modified);
    assert_eq!(metadata.created.len(), 20);
    assert_eq!(metadata.description, None);
    let project = rook_core::models::BookProjectData::default();
    assert_eq!(project.format, "bookproj");
    assert_eq!(project.version, "1.0.0");
    assert_eq!(project.document.page_width, fx(612.0));
    assert_eq!(project.document.page_height, fx(792.0));
    assert!(project.document.pages.is_empty());
    let updates = rook_core::models::LayerUpdates::default();
    assert!(updates.bounds.is_none() && updates.role.is_none() && updates.content.is_none());
    let plain = LayerObject::plain("p".to_string(), LayerType::Shape);
    assert_eq!(plain.id, "p");
    assert!(plain.visible && !plain.locked);
    assert_eq!(plain.opacity, fx(1.0));
    assert_eq!(plain.source_type, SourceType::Extracted);
    assert_eq!(plain.role, LayerRole::Content);
}
