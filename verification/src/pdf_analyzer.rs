//! Classifying a PDF by what its pages hold: text, images or vector paths.

use crate::fixed::Fixed;
use vstd::prelude::*;

verus! {

/// What kind of content a PDF has.
#[derive(Debug, Clone, Copy, PartialEq, Eq, Structural)]
pub enum PdfContentType {
    /// A scan: images only, no text to extract.
    ImageOnly,
    /// Mostly text, with images at most on the side.
    TextBased,
    /// Text and images, both of weight.
    Mixed,
    /// Mostly vector graphics.
    VectorHeavy,
    /// Nothing that can be read.
    Empty,
}

/// What should be done to make a PDF editable.
#[derive(Debug, Clone, Copy, PartialEq, Eq, Structural)]
pub enum ReconstructionRecommendation {
    /// Nothing: the text can be extracted.
    Nothing,
    /// Recognize the text of the page images.
    OcrRequired,
    /// Check the extracted text against recognized text.
    OcrVerification,
    /// Convert the vector graphics.
    VectorConversion,
}

/// The counts of one page.
#[derive(Debug, Clone, Copy, PartialEq, Eq, Structural)]
pub struct PageContentStats {
    pub page_index: usize,
    pub text_objects: usize,
    pub image_objects: usize,
    pub path_objects: usize,
    pub text_char_count: usize,
    /// The share of the page that images cover, from 0 to 1.
    pub image_coverage: Fixed,
    /// The share of the page that text covers, from 0 to 1.
    pub text_coverage: Fixed,
}

/// The analysis of a whole PDF.
#[derive(Debug, Clone)]
pub struct PdfAnalysis {
    pub content_type: PdfContentType,
    pub total_pages: usize,
    pub total_text_objects: usize,
    pub total_image_objects: usize,
    pub total_path_objects: usize,
    pub total_char_count: usize,
    pub avg_image_coverage: Fixed,
    pub avg_text_coverage: Fixed,
    pub page_stats: Vec<PageContentStats>,
    /// How sure the classification is, from 0 to 1.
    pub confidence: Fixed,
    pub recommendation: ReconstructionRecommendation,
}

/// The number `hundredths / 100`.
pub open spec fn percent(hundredths: int) -> Fixed {
    Fixed { micros: (hundredths * 10_000) as i64 }
}

/// The kind of content that the counts of a PDF speak for, and how sure that
/// is. The rules are tried in this order: image-only for an image coverage
/// above 0.7 with under 50 characters in under 5 text objects; text-based for
/// over 100 characters, an image coverage under 0.2 and more than twice as
/// many text objects as images; vector-heavy for over 50 paths that are more
/// than twice all text and image objects; mixed for over 50 characters with
/// an image and an image coverage above 0.1; text-based for any text at all;
/// else empty.
pub open spec fn classified(
    text_objects: int,
    image_objects: int,
    path_objects: int,
    char_count: int,
    avg_image_coverage: Fixed,
) -> (PdfContentType, Fixed) {
    if avg_image_coverage.micros > percent(70).micros && char_count < 50 && text_objects < 5 {
        (PdfContentType::ImageOnly, percent(95))
    } else if char_count > 100 && avg_image_coverage.micros < percent(20).micros && text_objects
        > image_objects * 2 {
        (PdfContentType::TextBased, percent(90))
    } else if path_objects > (text_objects + image_objects) * 2 && path_objects > 50 {
        (PdfContentType::VectorHeavy, percent(85))
    } else if char_count > 50 && image_objects > 0 && avg_image_coverage.micros > percent(
        10,
    ).micros {
        (PdfContentType::Mixed, percent(80))
    } else if char_count > 0 || text_objects > 0 {
        (PdfContentType::TextBased, percent(70))
    } else {
        (PdfContentType::Empty, percent(50))
    }
}

/// Classifies a PDF by its counts.
pub fn classify_content(
    text_objects: usize,
    image_objects: usize,
    path_objects: usize,
    char_count: usize,
    avg_image_coverage: Fixed,
    _avg_text_coverage: Fixed,
) -> (r: (PdfContentType, Fixed))
    ensures
        r == classified(
            text_objects as int,
            image_objects as int,
            path_objects as int,
            char_count as int,
            avg_image_coverage,
        ),
{
    if Fixed::from_micros(700_000).lt(avg_image_coverage) && char_count < 50 && text_objects < 5 {
        return (PdfContentType::ImageOnly, Fixed::from_micros(950_000));
    }
    if char_count > 100 && avg_image_coverage.lt(Fixed::from_micros(200_000)) && (
    text_objects as u128) > (image_objects as u128) * 2 {
        return (PdfContentType::TextBased, Fixed::from_micros(900_000));
    }
    if (path_objects as u128) > ((text_objects as u128) + (image_objects as u128)) * 2
        && path_objects > 50 {
        return (PdfContentType::VectorHeavy, Fixed::from_micros(850_000));
    }
    if char_count > 50 && image_objects > 0 && Fixed::from_micros(100_000).lt(avg_image_coverage) {
        return (PdfContentType::Mixed, Fixed::from_micros(800_000));
    }
    if char_count > 0 || text_objects > 0 {
        return (PdfContentType::TextBased, Fixed::from_micros(700_000));
    }
    (PdfContentType::Empty, Fixed::from_micros(500_000))
}

/// What is recommended for a kind of content: recognition for scans,
/// verification for mixed content with an image coverage above 0.5,
/// conversion for vector graphics, and nothing else.
pub open spec fn recommended(
    content_type: PdfContentType,
    avg_image_coverage: Fixed,
) -> ReconstructionRecommendation {
    match content_type {
        PdfContentType::ImageOnly => ReconstructionRecommendation::OcrRequired,
        PdfContentType::Mixed => if avg_image_coverage.micros > percent(50).micros {
            ReconstructionRecommendation::OcrVerification
        } else {
            ReconstructionRecommendation::Nothing
        },
        PdfContentType::VectorHeavy => ReconstructionRecommendation::VectorConversion,
        _ => ReconstructionRecommendation::Nothing,
    }
}

/// Recommends what to do with a PDF of the given kind.
pub fn determine_recommendation(content_type: &PdfContentType, avg_image_coverage: Fixed) -> (r:
    ReconstructionRecommendation)
    ensures
        r == recommended(*content_type, avg_image_coverage),
{
    match content_type {
        PdfContentType::ImageOnly => ReconstructionRecommendation::OcrRequired,
        PdfContentType::Mixed => {
            if Fixed::from_micros(500_000).lt(avg_image_coverage) {
                ReconstructionRecommendation::OcrVerification
            } else {
                ReconstructionRecommendation::Nothing
            }
        },
        PdfContentType::VectorHeavy => ReconstructionRecommendation::VectorConversion,
        _ => ReconstructionRecommendation::Nothing,
    }
}

/// The share of a page that an area covers, at most one.
pub open spec fn coverage(area: Fixed, page_area: Fixed) -> Fixed {
    area.spec_over(page_area).spec_min(Fixed::spec_one())
}

/// The counts of one page, with the covered areas set against the area of
/// the page.
pub fn page_stats(
    page_index: usize,
    text_objects: usize,
    image_objects: usize,
    path_objects: usize,
    text_char_count: usize,
    image_area: Fixed,
    text_area: Fixed,
    page_area: Fixed,
) -> (stats: PageContentStats)
    ensures
        stats == (PageContentStats {
            page_index,
            text_objects,
            image_objects,
            path_objects,
            text_char_count,
            image_coverage: coverage(image_area, page_area),
            text_coverage: coverage(text_area, page_area),
        }),
{
    PageContentStats {
        page_index,
        text_objects,
        image_objects,
        path_objects,
        text_char_count,
        image_coverage: image_area.over(page_area).min(Fixed::one()),
        text_coverage: text_area.over(page_area).min(Fixed::one()),
    }
}

/// An object of a PDF page, as far as the analysis looks at it: for a text
/// its number of characters, for a text and an image the width and the
/// height of its box, where it has one.
#[derive(Debug, Clone, Copy, PartialEq, Eq)]
pub enum PageObject {
    Text { chars: usize, extent: Option<(Fixed, Fixed)> },
    Image { extent: Option<(Fixed, Fixed)> },
    Path,
    Other,
}

/// The area of a box, zero where there is none.
pub open spec fn area_of(extent: Option<(Fixed, Fixed)>) -> Fixed {
    match extent {
        Some((w, h)) => w.spec_times(h),
        None => Fixed::spec_zero(),
    }
}

/// What the objects of a page add up to.
pub struct ObjectSums {
    pub text_objects: nat,
    pub image_objects: nat,
    pub path_objects: nat,
    pub text_chars: nat,
    pub image_area: Fixed,
    pub text_area: Fixed,
}

/// The sums over the given objects; the number of characters is held at the
/// end of `usize`.
pub open spec fn object_sums(objects: Seq<PageObject>) -> ObjectSums
    decreases objects.len(),
{
    if objects.len() == 0 {
        ObjectSums {
            text_objects: 0,
            image_objects: 0,
            path_objects: 0,
            text_chars: 0,
            image_area: Fixed::spec_zero(),
            text_area: Fixed::spec_zero(),
        }
    } else {
        let s = object_sums(objects.drop_last());
        match objects.last() {
            PageObject::Text { chars, extent } => ObjectSums {
                text_objects: s.text_objects + 1,
                text_chars: capped(s.text_chars + chars),
                text_area: s.text_area.spec_plus(area_of(extent)),
                ..s
            },
            PageObject::Image { extent } => ObjectSums {
                image_objects: s.image_objects + 1,
                image_area: s.image_area.spec_plus(area_of(extent)),
                ..s
            },
            PageObject::Path => ObjectSums { path_objects: s.path_objects + 1, ..s },
            PageObject::Other => s,
        }
    }
}

/// No kind of object is counted more often than there are objects.
pub proof fn lemma_object_sums_bounds(objects: Seq<PageObject>)
    ensures
        object_sums(objects).text_objects <= objects.len(),
        object_sums(objects).image_objects <= objects.len(),
        object_sums(objects).path_objects <= objects.len(),
        object_sums(objects).text_chars <= usize::MAX,
    decreases objects.len(),
{
    if objects.len() > 0 {
        lemma_object_sums_bounds(objects.drop_last());
    }
}

fn area(extent: Option<(Fixed, Fixed)>) -> (a: Fixed)
    ensures
        a == area_of(extent),
{
    match extent {
        Some((w, h)) => w.times(h),
        None => Fixed::zero(),
    }
}

/// Counts what a page holds: its texts, images and paths, the characters of
/// its texts, and the shares of the page that its images and its texts
/// cover.
pub fn analyze_page(page_width: Fixed, page_height: Fixed, objects: &Vec<PageObject>, page_index: usize) -> (
    stats: PageContentStats)
    ensures
        ({
            let s = object_sums(objects@);
            let page_area = page_width.spec_times(page_height);
            &&& stats.page_index == page_index
            &&& stats.text_objects == s.text_objects
            &&& stats.image_objects == s.image_objects
            &&& stats.path_objects == s.path_objects
            &&& stats.text_char_count == s.text_chars
            &&& stats.image_coverage == coverage(s.image_area, page_area)
            &&& stats.text_coverage == coverage(s.text_area, page_area)
        }),
{
    let mut text_objects: usize = 0;
    let mut image_objects: usize = 0;
    let mut path_objects: usize = 0;
    let mut text_char_count: usize = 0;
    let mut image_area = Fixed::zero();
    let mut text_area = Fixed::zero();
    let mut i: usize = 0;
    while i < objects.len()
        invariant
            i <= objects.len(),
            (ObjectSums {
                text_objects: text_objects as nat,
                image_objects: image_objects as nat,
                path_objects: path_objects as nat,
                text_chars: text_char_count as nat,
                image_area,
                text_area,
            }) == object_sums(objects@.take(i as int)),
        decreases objects.len() - i,
    {
        proof {
            assert(objects@.take(i + 1).drop_last() =~= objects@.take(i as int));
            assert(objects@.take(i + 1).last() == objects@[i as int]);
            lemma_object_sums_bounds(objects@.take(i as int));
        }
        match objects[i] {
            PageObject::Text { chars, extent } => {
                text_objects += 1;
                text_char_count = capped_sum(text_char_count, chars);
                text_area = text_area.plus(area(extent));
            },
            PageObject::Image { extent } => {
                image_objects += 1;
                image_area = image_area.plus(area(extent));
            },
            PageObject::Path => {
                path_objects += 1;
            },
            PageObject::Other => {},
        }
        i += 1;
    }
    assert(objects@.take(objects.len() as int) =~= objects@);
    page_stats(
        page_index,
        text_objects,
        image_objects,
        path_objects,
        text_char_count,
        image_area,
        text_area,
        page_width.times(page_height),
    )
}

/// The sums over the pages of a PDF; the counts are held at the end of
/// `usize`.
pub struct Totals {
    pub text_objects: nat,
    pub image_objects: nat,
    pub path_objects: nat,
    pub char_count: nat,
    pub image_coverage: Fixed,
    pub text_coverage: Fixed,
}

/// A count held at the end of `usize`.
pub open spec fn capped(n: int) -> nat {
    if n > usize::MAX {
        usize::MAX as nat
    } else if n < 0 {
        0
    } else {
        n as nat
    }
}

/// The sums over the given pages.
pub open spec fn totals(pages: Seq<PageContentStats>) -> Totals
    decreases pages.len(),
{
    if pages.len() == 0 {
        Totals {
            text_objects: 0,
            image_objects: 0,
            path_objects: 0,
            char_count: 0,
            image_coverage: Fixed::spec_zero(),
            text_coverage: Fixed::spec_zero(),
        }
    } else {
        let t = totals(pages.drop_last());
        let p = pages.last();
        Totals {
            text_objects: capped(t.text_objects + p.text_objects),
            image_objects: capped(t.image_objects + p.image_objects),
            path_objects: capped(t.path_objects + p.path_objects),
            char_count: capped(t.char_count + p.text_char_count),
            image_coverage: t.image_coverage.spec_plus(p.image_coverage),
            text_coverage: t.text_coverage.spec_plus(p.text_coverage),
        }
    }
}

fn capped_sum(a: usize, b: usize) -> (r: usize)
    ensures
        r == capped(a + b),
{
    if b > usize::MAX - a {
        usize::MAX
    } else {
        a + b
    }
}

fn page_count(n: usize) -> (r: Fixed)
    ensures
        r == Fixed::spec_from_int(n as int),
{
    let wide: u64 = n as u64;
    if wide > 0x7fff_ffff_ffff_ffff {
        Fixed::largest()
    } else {
        Fixed::from_int(wide as i64)
    }
}

/// The analysis that the counts of the pages give: a PDF without pages is
/// empty for sure; else the counts are summed, the coverages averaged, and
/// the sums classified.
pub fn summarize(page_stats: Vec<PageContentStats>) -> (a: PdfAnalysis)
    ensures
        a.page_stats@ == page_stats@,
        a.total_pages == page_stats@.len(),
        page_stats@.len() == 0 ==> {
            &&& a.content_type == PdfContentType::Empty
            &&& a.confidence == Fixed::spec_one()
            &&& a.recommendation == ReconstructionRecommendation::Nothing
            &&& a.total_text_objects == 0 && a.total_image_objects == 0 && a.total_path_objects
                == 0 && a.total_char_count == 0
            &&& a.avg_image_coverage == Fixed::spec_zero()
            &&& a.avg_text_coverage == Fixed::spec_zero()
        },
        page_stats@.len() > 0 ==> {
            let t = totals(page_stats@);
            let n = Fixed::spec_from_int(page_stats@.len() as int);
            &&& a.total_text_objects == t.text_objects
            &&& a.total_image_objects == t.image_objects
            &&& a.total_path_objects == t.path_objects
            &&& a.total_char_count == t.char_count
            &&& a.avg_image_coverage == t.image_coverage.spec_over(n)
            &&& a.avg_text_coverage == t.text_coverage.spec_over(n)
            &&& (a.content_type, a.confidence) == classified(
                t.text_objects as int,
                t.image_objects as int,
                t.path_objects as int,
                t.char_count as int,
                a.avg_image_coverage,
            )
            &&& a.recommendation == recommended(a.content_type, a.avg_image_coverage)
        },
{
    let total_pages = page_stats.len();
    if total_pages == 0 {
        return PdfAnalysis {
            content_type: PdfContentType::Empty,
            total_pages: 0,
            total_text_objects: 0,
            total_image_objects: 0,
            total_path_objects: 0,
            total_char_count: 0,
            avg_image_coverage: Fixed::zero(),
            avg_text_coverage: Fixed::zero(),
            page_stats,
            confidence: Fixed::one(),
            recommendation: ReconstructionRecommendation::Nothing,
        };
    }
    let mut total_text: usize = 0;
    let mut total_images: usize = 0;
    let mut total_paths: usize = 0;
    let mut total_chars: usize = 0;
    let mut total_image_coverage = Fixed::zero();
    let mut total_text_coverage = Fixed::zero();
    let mut i: usize = 0;
    while i < total_pages
        invariant
            i <= total_pages,
            total_pages == page_stats.len(),
            (Totals {
                text_objects: total_text as nat,
                image_objects: total_images as nat,
                path_objects: total_paths as nat,
                char_count: total_chars as nat,
                image_coverage: total_image_coverage,
                text_coverage: total_text_coverage,
            }) == totals(page_stats@.take(i as int)),
        decreases total_pages - i,
    {
        proof {
            assert(page_stats@.take(i + 1).drop_last() =~= page_stats@.take(i as int));
            assert(page_stats@.take(i + 1).last() == page_stats@[i as int]);
        }
        let stats = page_stats[i];
        total_text = capped_sum(total_text, stats.text_objects);
        total_images = capped_sum(total_images, stats.image_objects);
        total_paths = capped_sum(total_paths, stats.path_objects);
        total_chars = capped_sum(total_chars, stats.text_char_count);
        total_image_coverage = total_image_coverage.plus(stats.image_coverage);
        total_text_coverage = total_text_coverage.plus(stats.text_coverage);
        i += 1;
    }
    assert(page_stats@.take(total_pages as int) =~= page_stats@);
    let n = page_count(total_pages);
    let avg_image_coverage = total_image_coverage.over(n);
    let avg_text_coverage = total_text_coverage.over(n);
    let (content_type, confidence) = classify_content(
        total_text,
        total_images,
        total_paths,
        total_chars,
        avg_image_coverage,
        avg_text_coverage,
    );
    let recommendation = determine_recommendation(&content_type, avg_image_coverage);
    PdfAnalysis {
        content_type,
        total_pages,
        total_text_objects: total_text,
        total_image_objects: total_images,
        total_path_objects: total_paths,
        total_char_count: total_chars,
        avg_image_coverage,
        avg_text_coverage,
        page_stats,
        confidence,
        recommendation,
    }
}

} // verus!
