//! Rebuilding the text of scanned PDFs from recognized text.

use crate::content_parser::layer_id;
use crate::fixed::Fixed;
use crate::models::{
    count_to_fixed, plain_layer, z_index_of, z_of, Bounds, LayerModel, LayerObject, LayerType,
    TextAlign,
};
use crate::ocr_handler::OcrCounter;
use crate::pdf_analyzer::{PdfAnalysis, ReconstructionRecommendation};
use crate::text::{blank, decimal, is_blank, push_char, push_decimal};
use vstd::prelude::*;

verus! {

broadcast use vstd::string::group_string_axioms;

/// The outcome of a reconstruction.
#[derive(Debug, Clone)]
pub struct ReconstructionResult {
    pub success: bool,
    pub message: String,
    pub pages_processed: usize,
    pub text_layers_added: usize,
    pub confidence: Fixed,
}

/// How the pages are recognized.
#[derive(Debug, Clone)]
pub struct OcrOptions {
    /// The language of the text.
    pub language: Option<String>,
    /// The resolution at which pages are rendered.
    pub render_dpi: Option<u32>,
    /// The least confidence of a result that counts, from 0 to 1.
    pub min_confidence: Option<Fixed>,
}

impl Default for OcrOptions {
    fn default() -> (o: Self)
        ensures
            crate::models::opt_text(o.language) == Some("eng"@),
            o.render_dpi == Some(150u32),
            o.min_confidence == Some(Fixed { micros: 500_000 }),
    {
        OcrOptions {
            language: Some("eng".to_string()),
            render_dpi: Some(150),
            min_confidence: Some(Fixed::from_micros(500_000)),
        }
    }
}

/// The resolution at which pages are rendered where none is asked for.
pub open spec fn default_dpi() -> u32 {
    150
}

/// The resolution and the least confidence that the options ask for.
pub fn resolve_options(options: &Option<OcrOptions>) -> (r: (u32, Fixed))
    ensures
        r.0 == match options {
            Some(o) => match o.render_dpi {
                Some(d) => d,
                None => default_dpi(),
            },
            None => default_dpi(),
        },
        r.1 == match options {
            Some(o) => match o.min_confidence {
                Some(c) => c,
                None => Fixed { micros: 500_000 },
            },
            None => Fixed { micros: 500_000 },
        },
{
    match options {
        Some(o) => (
            match o.render_dpi {
                Some(d) => d,
                None => 150,
            },
            match o.min_confidence {
                Some(c) => c,
                None => Fixed::from_micros(500_000),
            },
        ),
        None => (150, Fixed::from_micros(500_000)),
    }
}

/// The size in pixels of a page rendered at a resolution: each extent in
/// points times `dpi / 72`, cut to whole pixels and held within 32 bits.
pub open spec fn render_extent(points: Fixed, dpi: u32) -> int {
    let scale = Fixed::spec_from_int(dpi as int).spec_over(Fixed::spec_from_int(72));
    let t = points.spec_times(scale).spec_trunc();
    if t > i32::MAX {
        i32::MAX as int
    } else if t < i32::MIN {
        i32::MIN as int
    } else {
        t
    }
}

/// The size in pixels at which a page is rendered.
pub fn render_size(page_width: Fixed, page_height: Fixed, dpi: u32) -> (r: (i32, i32))
    ensures
        r.0 == render_extent(page_width, dpi),
        r.1 == render_extent(page_height, dpi),
{
    let scale = Fixed::from_int(dpi as i64).over(Fixed::from_int(72));
    (to_pixels(page_width.times(scale)), to_pixels(page_height.times(scale)))
}

fn to_pixels(v: Fixed) -> (p: i32)
    ensures
        p == if v.spec_trunc() > i32::MAX {
            i32::MAX as int
        } else if v.spec_trunc() < i32::MIN {
            i32::MIN as int
        } else {
            v.spec_trunc()
        },
{
    let t = v.trunc();
    if t > 0x7fff_ffff {
        0x7fff_ffff
    } else if t < -0x8000_0000 {
        -0x8000_0000
    } else {
        t as i32
    }
}

/// A text that was recognized in a region.
#[derive(Debug, Clone)]
pub struct OcrTextResult {
    pub text: String,
    pub bounds: Bounds,
    pub confidence: Fixed,
}

/// Whether a recognized text counts: it is at least as confident as asked
/// and not blank.
pub open spec fn counts(text: Seq<char>, confidence: Fixed, min_confidence: Fixed) -> bool {
    confidence.micros >= min_confidence.micros && !blank(text)
}

/// Keeps the recognized text of a region where it counts.
pub fn accept_region(text: String, bounds: Bounds, confidence: Fixed, min_confidence: Fixed) -> (r:
    Vec<OcrTextResult>)
    ensures
        counts(text@, confidence, min_confidence) ==> r@.len() == 1 && r@[0].text@ == text@
            && r@[0].bounds == bounds && r@[0].confidence == confidence,
        !counts(text@, confidence, min_confidence) ==> r@.len() == 0,
{
    let mut results: Vec<OcrTextResult> = Vec::new();
    if !confidence.lt(min_confidence) && !is_blank(text.as_str()) {
        results.push(OcrTextResult { text, bounds, confidence });
    }
    results
}

/// The count and the sum of the confidences of the results that are at
/// least as confident as asked.
pub open spec fn tally(results: Seq<OcrTextResult>, min_confidence: Fixed) -> (nat, Fixed)
    decreases results.len(),
{
    if results.len() == 0 {
        (0, Fixed::spec_zero())
    } else {
        let t = tally(results.drop_last(), min_confidence);
        if results.last().confidence.micros >= min_confidence.micros {
            (t.0 + 1, t.1.spec_plus(results.last().confidence))
        } else {
            t
        }
    }
}

/// The mean confidence of a tally; zero for an empty one.
pub open spec fn mean_confidence(t: (nat, Fixed)) -> Fixed {
    if t.0 > 0 {
        t.1.spec_over(Fixed::spec_from_int(t.0 as int))
    } else {
        Fixed::spec_zero()
    }
}

/// The message of a finished reconstruction.
pub open spec fn done_message(pages: nat, layers: nat) -> Seq<char> {
    "Reconstructed "@ + decimal(pages) + " pages, added "@ + decimal(layers) + " text layers"@
}

/// Sums up a reconstruction: the results of all pages that are at least as
/// confident as asked are counted and their confidence averaged.
pub fn summarize(total_pages: usize, results: &Vec<OcrTextResult>, min_confidence: Fixed) -> (r:
    ReconstructionResult)
    ensures
        r.success,
        r.pages_processed == total_pages,
        r.text_layers_added == tally(results@, min_confidence).0,
        r.confidence == mean_confidence(tally(results@, min_confidence)),
        r.message@ == done_message(total_pages as nat, r.text_layers_added as nat),
{
    let mut added: usize = 0;
    let mut total = Fixed::zero();
    let mut i: usize = 0;
    while i < results.len()
        invariant
            i <= results.len(),
            added <= i,
            (added as nat, total) == tally(results@.take(i as int), min_confidence),
        decreases results.len() - i,
    {
        proof {
            assert(results@.take(i + 1).drop_last() =~= results@.take(i as int));
            assert(results@.take(i + 1).last() == results@[i as int]);
        }
        if !results[i].confidence.lt(min_confidence) {
            added += 1;
            total = total.plus(results[i].confidence);
        }
        i += 1;
    }
    assert(results@.take(results.len() as int) =~= results@);
    let confidence = if added > 0 {
        total.over(count_to_fixed(added))
    } else {
        Fixed::zero()
    };
    let mut message = "Reconstructed ".to_string();
    push_decimal(&mut message, total_pages as u64);
    message.append(" pages, added ");
    push_decimal(&mut message, added as u64);
    message.append(" text layers");
    assert(message@ =~= done_message(total_pages as nat, added as nat));
    ReconstructionResult {
        success: true,
        message,
        pages_processed: total_pages,
        text_layers_added: added,
        confidence,
    }
}

/// The text layer of the `idx`-th recognized text of a page, brought from
/// the scale of the image to that of the page.
pub open spec fn result_layer(
    result: OcrTextResult,
    page_index: nat,
    idx: nat,
    scale: Fixed,
    number: nat,
) -> LayerModel {
    LayerModel {
        bounds: Bounds {
            x: result.bounds.x.spec_over(scale),
            y: result.bounds.y.spec_over(scale),
            width: result.bounds.width.spec_over(scale),
            height: result.bounds.height.spec_over(scale),
        },
        z_index: z_of(number as int),
        content: Some(result.text@),
        font_family: Some("Arial"@),
        font_size: Some(Fixed::spec_from_int(12)),
        font_weight: Some(400),
        color: Some("#000000"@),
        text_align: Some(TextAlign::Left),
        ..plain_layer(layer_id("ocr"@, page_index, idx), LayerType::Text)
    }
}

/// The counter after `n` more layers.
pub open spec fn advanced(counter: OcrCounter, n: nat) -> OcrCounter
    decreases n,
{
    if n == 0 {
        counter
    } else {
        let c = advanced(counter, (n - 1) as nat);
        OcrCounter {
            next: if c.next == usize::MAX {
                0
            } else {
                (c.next + 1) as usize
            },
        }
    }
}

/// Turns the recognized texts of a page into layers; each layer takes its
/// z-order from the counter.
pub fn ocr_results_to_layers(
    results: Vec<OcrTextResult>,
    page_index: usize,
    _page_height: Fixed,
    scale: Fixed,
    counter: &mut OcrCounter,
) -> (layers: Vec<LayerObject>)
    ensures
        layers@.len() == results@.len(),
        forall|i: int|
            0 <= i < layers@.len() ==> (#[trigger] layers@[i])@ == result_layer(
                results@[i],
                page_index as nat,
                i as nat,
                scale,
                advanced(*old(counter), i as nat).next as nat,
            ),
        *final(counter) == advanced(*old(counter), results@.len()),
{
    let mut layers: Vec<LayerObject> = Vec::new();
    let mut idx: usize = 0;
    while idx < results.len()
        invariant
            idx <= results.len(),
            layers@.len() == idx,
            *counter == advanced(*old(counter), idx as nat),
            forall|i: int|
                0 <= i < layers@.len() ==> (#[trigger] layers@[i])@ == result_layer(
                    results@[i],
                    page_index as nat,
                    i as nat,
                    scale,
                    advanced(*old(counter), i as nat).next as nat,
                ),
        decreases results.len() - idx,
    {
        let number = counter.take();
        let result = &results[idx];
        let mut id = "ocr".to_string();
        push_char(&mut id, '-');
        push_decimal(&mut id, page_index as u64);
        push_char(&mut id, '-');
        push_decimal(&mut id, idx as u64);
        assert(id@ =~= layer_id("ocr"@, page_index as nat, idx as nat));
        let mut layer = LayerObject::plain(id, LayerType::Text);
        layer.bounds = Bounds::new(
            result.bounds.x.over(scale),
            result.bounds.y.over(scale),
            result.bounds.width.over(scale),
            result.bounds.height.over(scale),
        );
        layer.z_index = z_index_of(number);
        layer.content = Some(result.text.clone());
        layer.font_family = Some("Arial".to_string());
        layer.font_size = Some(Fixed::from_int(12));
        layer.font_weight = Some(400);
        layer.color = Some("#000000".to_string());
        layer.text_align = Some(TextAlign::Left);
        layers.push(layer);
        idx += 1;
    }
    layers
}

/// Whether the analysis of a document asks for text recognition.
pub fn needs_ocr_reconstruction(analysis: &PdfAnalysis) -> (r: bool)
    ensures
        r == (analysis.recommendation == ReconstructionRecommendation::OcrRequired
            || analysis.recommendation == ReconstructionRecommendation::OcrVerification),
{
    match analysis.recommendation {
        ReconstructionRecommendation::OcrRequired
        | ReconstructionRecommendation::OcrVerification => true,
        _ => false,
    }
}

} // verus!
