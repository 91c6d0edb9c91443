//! Import: the layers made of what a PDF page or a DOCX body holds.

use crate::content_parser::{layer_id, views};
use crate::fixed::Fixed;
use crate::font_manager::docx_extractor::{
    merge_font_info, merged, DocxFontInfo, FontInfoModel, ParagraphInfo, TableCellInfo,
};
use crate::font_manager::normalizer::{get_canonical_name, parse_font_name, parsed};
use crate::models::{
    count_to_fixed, opt_text, plain_layer, z_index_of, z_of, Bounds, DocumentData,
    DocumentResponse, ImageMetaModel, ImageMetadata, LayerModel, LayerObject, LayerType, PageData, PageMetadata,
    ShapeType, TextAlign,
};
use crate::ocr_handler::OcrCounter;
use crate::sorting::{is_stable_order, stable_order};
use crate::text::{
    blank, contains_chars, decimal, has_substring, hex_pair, is_blank, lowercase, push_char,
    push_decimal, push_hex_pair, same_text, to_chars, to_lowercase,
};
use vstd::prelude::*;
use vstd::string::StrSliceExecFns;

verus! {

broadcast use vstd::string::group_string_axioms;

/// The count of the layers made during one import.
pub type LayerCounter = OcrCounter;

/// Sets the counter back to zero, as at the start of each import.
pub fn reset_layer_counter(counter: &mut LayerCounter)
    ensures
        final(counter).next == 0,
{
    counter.next = 0;
}

/// The identifier of a layer: kind, page index and running number, joined by
/// hyphens.
pub fn generate_layer_id(layer_type: &str, page_index: usize, seq_number: usize) -> (id: String)
    ensures
        id@ == layer_id(layer_type@, page_index as nat, seq_number as nat),
{
    let mut id = layer_type.to_string();
    push_char(&mut id, '-');
    push_decimal(&mut id, page_index as u64);
    push_char(&mut id, '-');
    push_decimal(&mut id, seq_number as u64);
    assert(id@ =~= layer_id(layer_type@, page_index as nat, seq_number as nat));
    id
}

/// The kinds of file that can be imported.
#[derive(Debug, Clone, Copy, PartialEq, Eq, Structural)]
pub enum ImportKind {
    Pdf,
    Docx,
}

/// The kind of file that a type name stands for, whatever the case of its
/// letters.
pub open spec fn import_kind_of(file_type: Seq<char>) -> Option<ImportKind> {
    let lower = lowercase(file_type);
    if lower == "pdf"@ {
        Some(ImportKind::Pdf)
    } else if lower == "docx"@ {
        Some(ImportKind::Docx)
    } else {
        None
    }
}

/// Reads the name of a file type.
pub fn import_kind(file_type: &str) -> (r: Option<ImportKind>)
    ensures
        r == import_kind_of(file_type@),
{
    let lower = to_lowercase(file_type);
    if same_text(lower.as_str(), "pdf") {
        Some(ImportKind::Pdf)
    } else if same_text(lower.as_str(), "docx") {
        Some(ImportKind::Docx)
    } else {
        None
    }
}

/// The answer to an import that failed: no data, and the reason.
pub fn failure_response(head: &str, detail: &str) -> (r: DocumentResponse)
    ensures
        !r.success,
        r.message@ == head@ + detail@,
        r.data is None,
{
    let mut message = head.to_string();
    message.append(detail);
    DocumentResponse { success: false, message, data: None }
}

/// The answer to a file that is not there.
pub fn not_found_response(file_path: &str) -> (r: DocumentResponse)
    ensures
        !r.success,
        r.message@ == "File not found: "@ + file_path@,
        r.data is None,
{
    failure_response("File not found: ", file_path)
}

/// The answer to a file type that cannot be imported.
pub fn unsupported_response(file_type: &str) -> (r: DocumentResponse)
    ensures
        !r.success,
        r.message@ == "Unsupported file type: "@ + file_type@,
        r.data is None,
{
    failure_response("Unsupported file type: ", file_type)
}

/// The message of a finished PDF import.
pub open spec fn imported_message(pages: nat) -> Seq<char> {
    "Successfully imported "@ + decimal(pages) + " pages"@
}

/// The answer to a finished PDF import.
pub fn pdf_response(pages: Vec<PageData>, default_width: Fixed, default_height: Fixed) -> (r:
    DocumentResponse)
    ensures
        r.success,
        r.message@ == imported_message(pages@.len()),
        r.data matches Some(doc) && doc.pages == pages && doc.page_width == default_width
            && doc.page_height == default_height,
{
    let mut message = "Successfully imported ".to_string();
    push_decimal(&mut message, pages.len() as u64);
    message.append(" pages");
    assert(message@ =~= imported_message(pages@.len()));
    DocumentResponse {
        success: true,
        message,
        data: Some(DocumentData { page_width: default_width, page_height: default_height, pages }),
    }
}

/// The rough measures of a font of a given size.
#[derive(Debug, Clone, Copy, PartialEq, Eq, Structural)]
pub struct FontMetrics {
    pub ascent: Fixed,
    pub descent: Fixed,
    pub line_height: Fixed,
    pub avg_char_width: Fixed,
}

/// The rough measures of a font: 0.8 of the size above the baseline, 0.2
/// below, lines 1.2 sizes apart, glyphs half a size wide.
pub open spec fn rough_metrics(font_size: Fixed) -> FontMetrics {
    FontMetrics {
        ascent: font_size.spec_times(Fixed { micros: 800_000 }),
        descent: font_size.spec_times(Fixed { micros: 200_000 }),
        line_height: font_size.spec_times(Fixed { micros: 1_200_000 }),
        avg_char_width: font_size.spec_times(Fixed { micros: 500_000 }),
    }
}

/// Estimates the measures of a font from its size.
pub fn calculate_font_metrics(font_size: Fixed) -> (m: FontMetrics)
    ensures
        m == rough_metrics(font_size),
{
    FontMetrics {
        ascent: font_size.times(Fixed::from_micros(800_000)),
        descent: font_size.times(Fixed::from_micros(200_000)),
        line_height: font_size.times(Fixed::from_micros(1_200_000)),
        avg_char_width: font_size.times(Fixed::from_micros(500_000)),
    }
}

/// A text object of a PDF page, with its box in page space: origin bottom
/// left, y growing upwards.
#[derive(Debug, Clone)]
pub struct TextObjectInfo {
    pub text: String,
    pub left: Fixed,
    pub right: Fixed,
    pub top: Fixed,
    pub bottom: Fixed,
    pub font_name: String,
    pub font_size: Fixed,
    /// The fill colour, where the page tells it.
    pub color: Option<(u8, u8, u8)>,
}

/// A colour as `#rrggbb`; black where there is none.
pub open spec fn color_text(color: Option<(u8, u8, u8)>) -> Seq<char> {
    match color {
        Some((r, g, b)) => seq!['#'] + hex_pair(r) + hex_pair(g) + hex_pair(b),
        None => "#000000"@,
    }
}

fn write_color(color: Option<(u8, u8, u8)>) -> (s: String)
    ensures
        s@ == color_text(color),
{
    match color {
        Some((r, g, b)) => {
            let mut s = String::new();
            push_char(&mut s, '#');
            push_hex_pair(&mut s, r);
            push_hex_pair(&mut s, g);
            push_hex_pair(&mut s, b);
            assert(s@ =~= color_text(color));
            s
        },
        None => "#000000".to_string(),
    }
}

/// The text layer of a text object: its box is flipped against the page
/// height and moved down by the descent of a font of the size
/// `metrics_size`, its extents are at least one point, and family, weight
/// and slant are read from the font name.
pub open spec fn text_object_layer(
    info: TextObjectInfo,
    metrics_size: Fixed,
    page_index: nat,
    idx: nat,
    page_height: Fixed,
    number: nat,
) -> LayerModel {
    let p = parsed(info.font_name@);
    LayerModel {
        bounds: Bounds {
            x: info.left,
            y: page_height.spec_minus(info.top).spec_plus(rough_metrics(metrics_size).descent),
            width: info.right.spec_minus(info.left).spec_max(Fixed::spec_one()),
            height: info.top.spec_minus(info.bottom).spec_max(Fixed::spec_one()),
        },
        z_index: z_of(number as int),
        content: Some(info.text@),
        font_family: Some(p.family),
        font_size: Some(info.font_size),
        font_weight: Some(p.weight),
        font_style: if p.is_italic {
            Some("italic"@)
        } else {
            None
        },
        color: Some(color_text(info.color)),
        text_align: Some(TextAlign::Left),
        ..plain_layer(layer_id("text"@, page_index, idx), LayerType::Text)
    }
}

/// Makes the text layer of a text object.
pub fn text_layer_from(
    info: &TextObjectInfo,
    metrics_size: Fixed,
    page_index: usize,
    idx: usize,
    page_height: Fixed,
    number: usize,
) -> (layer: LayerObject)
    ensures
        layer@ == text_object_layer(
            *info,
            metrics_size,
            page_index as nat,
            idx as nat,
            page_height,
            number as nat,
        ),
{
    let metrics = calculate_font_metrics(metrics_size);
    let parsed = parse_font_name(info.font_name.as_str());
    let canonical_name = get_canonical_name(info.font_name.as_str());
    let mut layer = LayerObject::plain(generate_layer_id("text", page_index, idx), LayerType::Text);
    layer.bounds = Bounds::new(
        info.left,
        page_height.minus(info.top).plus(metrics.descent),
        info.right.minus(info.left).max(Fixed::one()),
        info.top.minus(info.bottom).max(Fixed::one()),
    );
    layer.z_index = z_index_of(number);
    layer.content = Some(info.text.clone());
    layer.font_family = Some(canonical_name);
    layer.font_size = Some(info.font_size);
    layer.font_weight = Some(parsed.weight);
    layer.font_style = if parsed.is_italic {
        Some("italic".to_string())
    } else {
        None
    };
    layer.color = Some(write_color(info.color));
    layer.text_align = Some(TextAlign::Left);
    layer
}

/// The state of the walk over the objects of a page.
pub struct WalkState {
    pub layers: Seq<LayerModel>,
    pub counter: OcrCounter,
}

/// The counter after one more layer.
pub open spec fn stepped(counter: OcrCounter) -> OcrCounter {
    OcrCounter {
        next: if counter.next == usize::MAX {
            0
        } else {
            (counter.next + 1) as usize
        },
    }
}

/// The font size by which the metrics of the font `name` are estimated: that
/// of the first of the given text objects in that font that is not blank, or
/// `fallback` where there is none. The metrics of a font are estimated once
/// for a page.
pub open spec fn metrics_size_of(infos: Seq<TextObjectInfo>, name: Seq<char>, fallback: Fixed) -> Fixed
    decreases infos.len(),
{
    if infos.len() == 0 {
        fallback
    } else {
        let last = infos.last();
        metrics_size_of(
            infos.drop_last(),
            name,
            if !blank(last.text@) && last.font_name@ == name {
                last.font_size
            } else {
                fallback
            },
        )
    }
}

fn find_metrics_size(infos: &Vec<TextObjectInfo>, upto: usize, name: &str, fallback: Fixed) -> (r:
    Fixed)
    requires
        upto <= infos.len(),
    ensures
        r == metrics_size_of(infos@.take(upto as int), name@, fallback),
{
    let mut k: usize = upto;
    let mut size = fallback;
    assert(infos@.take(upto as int).take(upto as int) =~= infos@.take(upto as int));
    while k > 0
        invariant
            k <= upto <= infos.len(),
            metrics_size_of(infos@.take(upto as int), name@, fallback) == metrics_size_of(
                infos@.take(k as int),
                name@,
                size,
            ),
        decreases k,
    {
        proof {
            assert(infos@.take(k as int).drop_last() =~= infos@.take(k - 1));
            assert(infos@.take(k as int).last() == infos@[k - 1]);
        }
        k -= 1;
        if !is_blank(infos[k].text.as_str()) && same_text(infos[k].font_name.as_str(), name) {
            size = infos[k].font_size;
        }
    }
    size
}

/// The layers of the given text objects: blank texts are left out, and each
/// layer takes its z-order from the counter.
pub open spec fn text_layers_of(
    infos: Seq<TextObjectInfo>,
    page_index: nat,
    page_height: Fixed,
    start: OcrCounter,
) -> WalkState
    decreases infos.len(),
{
    if infos.len() == 0 {
        WalkState { layers: Seq::empty(), counter: start }
    } else {
        let st = text_layers_of(infos.drop_last(), page_index, page_height, start);
        if blank(infos.last().text@) {
            st
        } else {
            WalkState {
                layers: st.layers.push(
                    text_object_layer(
                        infos.last(),
                        metrics_size_of(
                            infos.drop_last(),
                            infos.last().font_name@,
                            infos.last().font_size,
                        ),
                        page_index,
                        st.layers.len(),
                        page_height,
                        st.counter.next as nat,
                    ),
                ),
                counter: stepped(st.counter),
            }
        }
    }
}

/// Makes the text layers of the text objects of a page.
pub fn extract_text_layers(
    infos: &Vec<TextObjectInfo>,
    page_index: usize,
    page_height: Fixed,
    counter: &mut LayerCounter,
) -> (layers: Vec<LayerObject>)
    ensures
        views(layers@) == text_layers_of(
            infos@,
            page_index as nat,
            page_height,
            *old(counter),
        ).layers,
        *final(counter) == text_layers_of(
            infos@,
            page_index as nat,
            page_height,
            *old(counter),
        ).counter,
{
    let mut layers: Vec<LayerObject> = Vec::new();
    let mut i: usize = 0;
    assert(views(layers@) =~= Seq::<LayerModel>::empty());
    while i < infos.len()
        invariant
            i <= infos.len(),
            layers@.len() <= i,
            (WalkState { layers: views(layers@), counter: *counter }) == text_layers_of(
                infos@.take(i as int),
                page_index as nat,
                page_height,
                *old(counter),
            ),
        decreases infos.len() - i,
    {
        proof {
            assert(infos@.take(i + 1).drop_last() =~= infos@.take(i as int));
            assert(infos@.take(i + 1).last() == infos@[i as int]);
        }
        if !is_blank(infos[i].text.as_str()) {
            let idx = layers.len();
            let number = counter.take();
            let metrics_size = find_metrics_size(
                infos,
                i,
                infos[i].font_name.as_str(),
                infos[i].font_size,
            );
            let layer = text_layer_from(
                &infos[i],
                metrics_size,
                page_index,
                idx,
                page_height,
                number,
            );
            let ghost before = views(layers@);
            let ghost made = layer@;
            layers.push(layer);
            assert(views(layers@) =~= before.push(made));
        }
        i += 1;
    }
    assert(infos@.take(infos.len() as int) =~= infos@);
    layers
}

/// An image object of a PDF page, with its box in page space and the size
/// of its pixels.
#[derive(Debug, Clone)]
pub struct ImageObjectInfo {
    pub left: Fixed,
    pub right: Fixed,
    pub top: Fixed,
    pub bottom: Fixed,
    pub img_width: u32,
    pub img_height: u32,
    pub color_space: String,
}

/// The resolution along one axis: pixels per point times 72, and 72 for an
/// extent that is not positive.
pub open spec fn axis_dpi(pixels: u32, extent: Fixed) -> Fixed {
    if extent.micros > 0 {
        Fixed::spec_from_int(pixels as int).spec_over(extent).spec_times(Fixed::spec_from_int(72))
    } else {
        Fixed::spec_from_int(72)
    }
}

/// A number rounded to the nearest whole, halves away from zero, and held
/// within the range of `u32`.
pub open spec fn rounded_u32(v: Fixed) -> u32 {
    let half = Fixed { micros: 500_000 };
    let t = if v.micros >= 0 {
        v.spec_plus(half).spec_trunc()
    } else {
        v.spec_minus(half).spec_trunc()
    };
    if t < 0 {
        0
    } else if t > u32::MAX {
        u32::MAX
    } else {
        t as u32
    }
}

fn round_to_u32(v: Fixed) -> (r: u32)
    ensures
        r == rounded_u32(v),
{
    let half = Fixed::from_micros(500_000);
    let t = if v.micros >= 0 {
        v.plus(half).trunc()
    } else {
        v.minus(half).trunc()
    };
    if t < 0 {
        0
    } else if t > 0xffff_ffff {
        0xffff_ffff
    } else {
        t as u32
    }
}

/// The resolution of an image in its box: the mean of both axes, rounded.
pub open spec fn image_dpi(info: ImageObjectInfo) -> u32 {
    let w = info.right.spec_minus(info.left);
    let h = info.top.spec_minus(info.bottom);
    rounded_u32(
        axis_dpi(info.img_width, w).spec_plus(axis_dpi(info.img_height, h)).spec_over(
            Fixed::spec_from_int(2),
        ),
    )
}

/// The address under which the image of a layer is served.
pub open spec fn image_url(id: Seq<char>) -> Seq<char> {
    "image://"@ + id
}

/// Whether an image is large enough to be more than an artifact: at least
/// four pixels each way.
pub open spec fn is_real_image(info: ImageObjectInfo) -> bool {
    info.img_width >= 4 && info.img_height >= 4
}

/// The image layer of an image object.
pub open spec fn image_object_layer(
    info: ImageObjectInfo,
    page_index: nat,
    idx: nat,
    page_height: Fixed,
    number: nat,
) -> LayerModel {
    let id = layer_id("image"@, page_index, idx);
    LayerModel {
        bounds: Bounds {
            x: info.left,
            y: page_height.spec_minus(info.top),
            width: info.right.spec_minus(info.left).spec_max(Fixed::spec_one()),
            height: info.top.spec_minus(info.bottom).spec_max(Fixed::spec_one()),
        },
        z_index: z_of(number as int),
        image_url: Some(image_url(id)),
        image_data: Some(
            ImageMetaModel {
                width: info.img_width,
                height: info.img_height,
                color_space: info.color_space@,
                dpi: image_dpi(info),
            },
        ),
        ..plain_layer(id, LayerType::Image)
    }
}

/// Makes the image layer of an image object; its metadata holds the pixel
/// size, the colour space and the resolution.
pub fn image_layer_from(
    info: &ImageObjectInfo,
    page_index: usize,
    idx: usize,
    page_height: Fixed,
    number: usize,
) -> (layer: LayerObject)
    ensures
        layer@ == image_object_layer(
            *info,
            page_index as nat,
            idx as nat,
            page_height,
            number as nat,
        ),
{
    let id = generate_layer_id("image", page_index, idx);
    let obj_width = info.right.minus(info.left);
    let obj_height = info.top.minus(info.bottom);
    let dpi_x = if Fixed::zero().lt(obj_width) {
        count_u32(info.img_width).over(obj_width).times(Fixed::from_int(72))
    } else {
        Fixed::from_int(72)
    };
    let dpi_y = if Fixed::zero().lt(obj_height) {
        count_u32(info.img_height).over(obj_height).times(Fixed::from_int(72))
    } else {
        Fixed::from_int(72)
    };
    let dpi = round_to_u32(dpi_x.plus(dpi_y).over(Fixed::from_int(2)));
    let mut url = "image://".to_string();
    url.append(id.as_str());
    let mut layer = LayerObject::plain(id, LayerType::Image);
    layer.bounds = Bounds::new(
        info.left,
        page_height.minus(info.top),
        obj_width.max(Fixed::one()),
        obj_height.max(Fixed::one()),
    );
    layer.z_index = z_index_of(number);
    layer.image_url = Some(url);
    layer.image_data = Some(
        ImageMetadata {
            width: info.img_width,
            height: info.img_height,
            color_space: info.color_space.clone(),
            dpi,
        },
    );
    layer
}

fn count_u32(n: u32) -> (r: Fixed)
    ensures
        r == Fixed::spec_from_int(n as int),
{
    Fixed::from_int(n as i64)
}

/// The layers of the given image objects: images under four pixels are left
/// out, and each layer takes its z-order from the counter.
pub open spec fn image_layers_of(
    infos: Seq<ImageObjectInfo>,
    page_index: nat,
    page_height: Fixed,
    start: OcrCounter,
) -> WalkState
    decreases infos.len(),
{
    if infos.len() == 0 {
        WalkState { layers: Seq::empty(), counter: start }
    } else {
        let st = image_layers_of(infos.drop_last(), page_index, page_height, start);
        if !is_real_image(infos.last()) {
            st
        } else {
            WalkState {
                layers: st.layers.push(
                    image_object_layer(
                        infos.last(),
                        page_index,
                        st.layers.len(),
                        page_height,
                        st.counter.next as nat,
                    ),
                ),
                counter: stepped(st.counter),
            }
        }
    }
}

/// Makes the image layers of the image objects of a page.
pub fn extract_image_layers(
    infos: &Vec<ImageObjectInfo>,
    page_index: usize,
    page_height: Fixed,
    counter: &mut LayerCounter,
) -> (layers: Vec<LayerObject>)
    ensures
        views(layers@) == image_layers_of(
            infos@,
            page_index as nat,
            page_height,
            *old(counter),
        ).layers,
        *final(counter) == image_layers_of(
            infos@,
            page_index as nat,
            page_height,
            *old(counter),
        ).counter,
{
    let mut layers: Vec<LayerObject> = Vec::new();
    let mut i: usize = 0;
    assert(views(layers@) =~= Seq::<LayerModel>::empty());
    while i < infos.len()
        invariant
            i <= infos.len(),
            layers@.len() <= i,
            (WalkState { layers: views(layers@), counter: *counter }) == image_layers_of(
                infos@.take(i as int),
                page_index as nat,
                page_height,
                *old(counter),
            ),
        decreases infos.len() - i,
    {
        proof {
            assert(infos@.take(i + 1).drop_last() =~= infos@.take(i as int));
            assert(infos@.take(i + 1).last() == infos@[i as int]);
        }
        if infos[i].img_width >= 4 && infos[i].img_height >= 4 {
            let idx = layers.len();
            let number = counter.take();
            let layer = image_layer_from(&infos[i], page_index, idx, page_height, number);
            let ghost before = views(layers@);
            let ghost made = layer@;
            layers.push(layer);
            assert(views(layers@) =~= before.push(made));
        }
        i += 1;
    }
    assert(infos@.take(infos.len() as int) =~= infos@);
    layers
}

/// The z-orders of layers, as sorting keys.
pub open spec fn layer_keys(layers: Seq<LayerObject>) -> Seq<i64> {
    Seq::new(layers.len(), |i: int| layers[i].z_index as i64)
}

/// `after` holds the layers of `before` in the stable ascending order of
/// their z-orders.
pub open spec fn is_sorted_by_z(after: Seq<LayerObject>, before: Seq<LayerObject>) -> bool {
    exists|order: Seq<usize>|
        {
            &&& #[trigger] is_stable_order(order, layer_keys(before))
            &&& after.len() == before.len()
            &&& forall|k: int| 0 <= k < after.len() ==> #[trigger] after[k] == before[order[k] as int]
        }
}

/// Sorts layers by z-order; layers of the same z-order keep their order.
pub fn sort_layers(layers: Vec<LayerObject>) -> (sorted: Vec<LayerObject>)
    ensures
        is_sorted_by_z(sorted@, layers@),
{
    let n = layers.len();
    let mut keys: Vec<i64> = Vec::new();
    let mut i: usize = 0;
    while i < n
        invariant
            i <= n,
            n == layers@.len(),
            keys@ == layer_keys(layers@).take(i as int),
        decreases n - i,
    {
        keys.push(layers[i].z_index as i64);
        assert(keys@ =~= layer_keys(layers@).take(i + 1));
        i += 1;
    }
    assert(keys@ =~= layer_keys(layers@));
    let order = stable_order(&keys);
    let ghost before = layers@;
    let mut rest = layers;
    let mut slots: Vec<Option<LayerObject>> = Vec::new();
    while rest.len() > 0
        invariant
            rest@.len() + slots@.len() == n,
            n == before.len(),
            rest@ == before.take(rest@.len() as int),
            forall|j: int| 0 <= j < slots@.len() ==> (#[trigger] slots@[j]) == Some(before[n - 1 - j]),
        decreases rest@.len(),
    {
        let ghost m = rest@.len();
        let layer = rest.pop().unwrap();
        assert(rest@ =~= before.take(m - 1));
        slots.push(Some(layer));
    }
    let mut sorted: Vec<LayerObject> = Vec::new();
    let mut k: usize = 0;
    while k < n
        invariant
            k <= n,
            n == before.len(),
            is_stable_order(order@, layer_keys(before)),
            slots@.len() == n,
            sorted@.len() == k,
            forall|j: int| 0 <= j < k ==> (#[trigger] sorted@[j]) == before[order@[j] as int],
            forall|j: int|
                k <= j < n ==> (#[trigger] slots@[n - 1 - order@[j]]) == Some(
                    before[order@[j] as int],
                ),
        decreases n - k,
    {
        let idx = order[k];
        let mut taken: Option<LayerObject> = None;
        let ghost slots_before = slots@;
        core::mem::swap(&mut slots[n - 1 - idx], &mut taken);
        proof {
            assert(slots_before[n - 1 - order@[k as int]] == Some(before[idx as int]));
            assert forall|j: int| k + 1 <= j < n implies (#[trigger] slots@[n - 1 - order@[j]])
                == Some(before[order@[j] as int]) by {
                assert(order@[j] != order@[k as int]);
                assert(slots@[n - 1 - order@[j]] == slots_before[n - 1 - order@[j]]);
            }
        }
        sorted.push(taken.unwrap());
        k += 1;
    }
    sorted
}

/// Puts the layers of a page together: sorted by z-order, at 72 dpi, with
/// the page as its own media box.
pub fn assemble_page(page_index: usize, width: Fixed, height: Fixed, layers: Vec<LayerObject>) -> (
    page: PageData)
    ensures
        page.page_index == page_index,
        page.width == width,
        page.height == height,
        page.dpi == Some(72u32),
        is_sorted_by_z(page.layers@, layers@),
        page.metadata matches Some(m) && m.original_page_index == Some(page_index) && m.rotation
            is None && (m.media_box matches Some(b) && b@ == seq![
            Fixed::spec_zero(),
            Fixed::spec_zero(),
            width,
            height,
        ]),
{
    let media_box = [Fixed::zero(), Fixed::zero(), width, height];
    assert(media_box@ =~= seq![Fixed::spec_zero(), Fixed::spec_zero(), width, height]);
    PageData {
        page_index,
        width,
        height,
        dpi: Some(72),
        layers: sort_layers(layers),
        metadata: Some(
            PageMetadata {
                original_page_index: Some(page_index),
                rotation: None,
                media_box: Some(media_box),
            },
        ),
    }
}

/// A run of a paragraph: its text and its own font.
#[derive(Debug, Clone)]
pub struct DocxRun {
    pub text: String,
    pub font: DocxFontInfo,
}

/// A paragraph: its formatting and its runs, in order.
#[derive(Debug, Clone)]
pub struct DocxParagraph {
    pub props: ParagraphInfo,
    pub runs: Vec<DocxRun>,
}

/// A cell of a table row.
#[derive(Debug, Clone)]
pub struct DocxCell {
    pub props: TableCellInfo,
    pub paragraphs: Vec<DocxParagraph>,
}

/// A row of a table.
#[derive(Debug, Clone)]
pub struct DocxRow {
    pub cells: Vec<DocxCell>,
}

/// A table: the widths of its grid columns, its own width where it has one,
/// and its rows.
#[derive(Debug, Clone)]
pub struct DocxTable {
    pub grid: Vec<Fixed>,
    pub width: Option<Fixed>,
    pub rows: Vec<DocxRow>,
}

/// An element of the body of a document.
#[derive(Debug, Clone)]
pub enum BodyElement {
    Paragraph(DocxParagraph),
    Table(DocxTable),
    Other,
}

/// A number, or `fallback` where there is none.
pub open spec fn or_default(v: Option<Fixed>, fallback: Fixed) -> Fixed {
    match v {
        Some(x) => x,
        None => fallback,
    }
}

fn value_or(v: Option<Fixed>, fallback: Fixed) -> (r: Fixed)
    ensures
        r == or_default(v, fallback),
{
    match v {
        Some(x) => x,
        None => fallback,
    }
}

/// The alignment that a paragraph asks for: `center` and `right` are taken,
/// anything else is left.
pub open spec fn alignment_of(alignment: Option<Seq<char>>) -> TextAlign {
    match alignment {
        Some(a) => if a == "center"@ {
            TextAlign::Center
        } else if a == "right"@ {
            TextAlign::Right
        } else {
            TextAlign::Left
        },
        None => TextAlign::Left,
    }
}

fn read_alignment(alignment: &Option<String>) -> (r: TextAlign)
    ensures
        r == alignment_of(opt_text(*alignment)),
{
    match alignment {
        Some(a) => {
            if same_text(a.as_str(), "center") {
                TextAlign::Center
            } else if same_text(a.as_str(), "right") {
                TextAlign::Right
            } else {
                TextAlign::Left
            }
        },
        None => TextAlign::Left,
    }
}

/// The font of a run within its paragraph.
pub open spec fn run_font(run: DocxFontInfo, para: ParagraphInfo, default_font: Seq<char>) -> FontInfoModel {
    merged(
        run@,
        opt_text(para.font_family),
        para.font_size,
        para.is_bold,
        para.is_italic,
        opt_text(para.color),
        default_font,
    )
}

/// The font size of a run: 11 where none is set.
pub open spec fn size_of(font: FontInfoModel) -> Fixed {
    or_default(font.size, Fixed::spec_from_int(11))
}

/// The estimated width of a run: character count × font size × 0.6 for a
/// font whose lower-case name holds `mono`, × 0.5 for any other; at most the
/// width that is available.
pub open spec fn run_width(text: Seq<char>, font: FontInfoModel, available: Fixed) -> Fixed {
    let factor = if has_substring(lowercase(font.resolved), "mono"@) {
        Fixed { micros: 600_000 }
    } else {
        Fixed { micros: 500_000 }
    };
    Fixed::spec_from_int(text.len() as int).spec_times(size_of(font)).spec_times(factor).spec_min(
        available,
    )
}

/// The distance of lines in font sizes where a paragraph sets none: 1.15.
pub open spec fn usual_line_spacing() -> Fixed {
    Fixed { micros: 1_150_000 }
}

/// The text decoration of a font: underline before strike-through.
pub open spec fn decoration_of(font: FontInfoModel) -> Option<Seq<char>> {
    if font.underline {
        Some("underline"@)
    } else if font.strike {
        Some("line-through"@)
    } else {
        None
    }
}

/// The stylesheet weight of a font: 700 for bold, else 400.
pub open spec fn weight_of(font: FontInfoModel) -> u16 {
    if font.is_bold {
        700
    } else {
        400
    }
}

/// The colour of a font: black where none is set.
pub open spec fn color_of_font(font: FontInfoModel) -> Seq<char> {
    match font.color {
        Some(c) => c,
        None => "#000000"@,
    }
}

/// The text layer of a run at `(run_x, y)`.
pub open spec fn run_layer(
    text: Seq<char>,
    font: FontInfoModel,
    para: ParagraphInfo,
    run_x: Fixed,
    y: Fixed,
    number: nat,
    available: Fixed,
) -> LayerModel {
    LayerModel {
        bounds: Bounds {
            x: run_x,
            y,
            width: run_width(text, font, available).spec_max(Fixed::spec_one()),
            height: size_of(font).spec_times(or_default(para.line_spacing, usual_line_spacing())),
        },
        z_index: z_of(number as int),
        content: Some(text),
        font_family: Some(parsed(font.resolved).family),
        font_size: Some(size_of(font)),
        font_weight: Some(weight_of(font)),
        font_style: if font.is_italic {
            Some("italic"@)
        } else {
            None
        },
        color: Some(color_of_font(font)),
        text_align: Some(alignment_of(opt_text(para.alignment))),
        text_decoration: decoration_of(font),
        line_height: para.line_spacing,
        ..plain_layer(layer_id("text"@, 0, number), LayerType::Text)
    }
}

/// The state of the layout while the runs of a paragraph are placed.
pub struct ParaState {
    pub layers: Seq<LayerModel>,
    pub run_x: Fixed,
    pub counter: OcrCounter,
    pub last_size: Fixed,
}

/// The layout after the given runs: runs without text are left out, and each
/// other run becomes a layer to the right of the one before.
pub open spec fn runs_placed(
    runs: Seq<DocxRun>,
    para: ParagraphInfo,
    default_font: Seq<char>,
    x: Fixed,
    y: Fixed,
    available: Fixed,
    start: OcrCounter,
) -> ParaState
    decreases runs.len(),
{
    if runs.len() == 0 {
        ParaState {
            layers: Seq::empty(),
            run_x: x,
            counter: start,
            last_size: Fixed::spec_from_int(11),
        }
    } else {
        let st = runs_placed(runs.drop_last(), para, default_font, x, y, available, start);
        let run = runs.last();
        if run.text@.len() == 0 {
            st
        } else {
            let font = run_font(run.font, para, default_font);
            ParaState {
                layers: st.layers.push(
                    run_layer(run.text@, font, para, st.run_x, y, st.counter.next as nat, available),
                ),
                run_x: st.run_x.spec_plus(run_width(run.text@, font, available)),
                counter: stepped(st.counter),
                last_size: size_of(font),
            }
        }
    }
}

/// What a paragraph adds to the page.
pub struct Placed {
    pub layers: Seq<LayerModel>,
    /// Where the next element goes.
    pub y: Fixed,
    pub counter: OcrCounter,
}

/// A paragraph at the height `y`: its runs side by side from the left
/// indent on. A paragraph without text moves on by its spacing, 6 where none
/// is set; any other by the height of its last run and its spacing, 4 where
/// none is set.
pub open spec fn paragraph_placed(
    para: DocxParagraph,
    default_font: Seq<char>,
    x_offset: Fixed,
    y: Fixed,
    max_width: Fixed,
    start: OcrCounter,
) -> Placed {
    let indent_left = or_default(para.props.indent_left, Fixed::spec_zero());
    let available = max_width.spec_minus(indent_left).spec_minus(
        or_default(para.props.indent_right, Fixed::spec_zero()),
    );
    let st = runs_placed(
        para.runs@,
        para.props,
        default_font,
        x_offset.spec_plus(indent_left),
        y,
        available,
        start,
    );
    if st.layers.len() == 0 {
        Placed {
            layers: Seq::empty(),
            y: y.spec_plus(or_default(para.props.spacing_after, Fixed::spec_from_int(6))),
            counter: start,
        }
    } else {
        Placed {
            layers: st.layers,
            y: y.spec_plus(
                st.last_size.spec_times(
                    or_default(para.props.line_spacing, usual_line_spacing()),
                ).spec_plus(or_default(para.props.spacing_after, Fixed::spec_from_int(4))),
            ),
            counter: st.counter,
        }
    }
}

fn font_size_of(font: &DocxFontInfo) -> (r: Fixed)
    ensures
        r == size_of(font@),
{
    value_or(font.size, Fixed::from_int(11))
}

fn width_of_run(text: &str, font: &DocxFontInfo, available: Fixed) -> (w: Fixed)
    ensures
        w == run_width(text@, font@, available),
{
    let lower = to_chars(to_lowercase(font.resolved.as_str()).as_str());
    let factor = if contains_chars(&lower, &to_chars("mono")) {
        Fixed::from_micros(600_000)
    } else {
        Fixed::from_micros(500_000)
    };
    count_to_fixed(text.unicode_len()).times(font_size_of(font)).times(factor).min(available)
}

fn text_layer_base(
    text: &str,
    font: &DocxFontInfo,
    alignment: &Option<String>,
    number: usize,
) -> (layer: LayerObject)
    ensures
        layer@ == (LayerModel {
            z_index: z_of(number as int),
            content: Some(text@),
            font_family: Some(parsed(font@.resolved).family),
            font_size: Some(size_of(font@)),
            font_weight: Some(weight_of(font@)),
            font_style: if font@.is_italic {
                Some("italic"@)
            } else {
                None
            },
            color: Some(color_of_font(font@)),
            text_align: Some(alignment_of(opt_text(*alignment))),
            ..plain_layer(layer_id("text"@, 0, number as nat), LayerType::Text)
        }),
{
    let mut layer = LayerObject::plain(generate_layer_id("text", 0, number), LayerType::Text);
    layer.z_index = z_index_of(number);
    layer.content = Some(text.to_string());
    layer.font_family = Some(get_canonical_name(font.resolved.as_str()));
    layer.font_size = Some(font_size_of(font));
    layer.font_weight = Some(
        if font.is_bold {
            700
        } else {
            400
        },
    );
    layer.font_style = if font.is_italic {
        Some("italic".to_string())
    } else {
        None
    };
    layer.color = Some(
        match &font.color {
            Some(c) => c.clone(),
            None => "#000000".to_string(),
        },
    );
    layer.text_align = Some(read_alignment(alignment));
    layer
}

fn make_run_layer(
    text: &str,
    font: &DocxFontInfo,
    para: &ParagraphInfo,
    run_x: Fixed,
    y: Fixed,
    number: usize,
    available: Fixed,
) -> (layer: LayerObject)
    ensures
        layer@ == run_layer(text@, font@, *para, run_x, y, number as nat, available),
{
    let mut layer = text_layer_base(text, font, &para.alignment, number);
    layer.bounds = Bounds::new(
        run_x,
        y,
        width_of_run(text, font, available).max(Fixed::one()),
        font_size_of(font).times(value_or(para.line_spacing, Fixed::from_micros(1_150_000))),
    );
    layer.text_decoration = if font.underline {
        Some("underline".to_string())
    } else if font.strike {
        Some("line-through".to_string())
    } else {
        None
    };
    layer.line_height = para.line_spacing;
    layer
}

/// Lays a paragraph out at the height `current_y` and moves the height on.
pub fn parse_docx_paragraph(
    para: &DocxParagraph,
    default_font: &str,
    x_offset: Fixed,
    current_y: &mut Fixed,
    max_width: Fixed,
    counter: &mut LayerCounter,
) -> (layers: Vec<LayerObject>)
    ensures
        ({
            let placed = paragraph_placed(
                *para,
                default_font@,
                x_offset,
                *old(current_y),
                max_width,
                *old(counter),
            );
            &&& views(layers@) == placed.layers
            &&& *final(current_y) == placed.y
            &&& *final(counter) == placed.counter
        }),
{
    let mut layers: Vec<LayerObject> = Vec::new();
    let indent_left = value_or(para.props.indent_left, Fixed::zero());
    let x = x_offset.plus(indent_left);
    let available_width = max_width.minus(indent_left).minus(
        value_or(para.props.indent_right, Fixed::zero()),
    );
    let y = *current_y;
    let mut run_x = x;
    let mut last_size = Fixed::from_int(11);
    let mut i: usize = 0;
    assert(views(layers@) =~= Seq::<LayerModel>::empty());
    while i < para.runs.len()
        invariant
            i <= para.runs.len(),
            layers@.len() <= i,
            layers@.len() == 0 ==> *counter == *old(counter),
            (ParaState { layers: views(layers@), run_x, counter: *counter, last_size })
                == runs_placed(
                para.runs@.take(i as int),
                para.props,
                default_font@,
                x,
                y,
                available_width,
                *old(counter),
            ),
        decreases para.runs.len() - i,
    {
        proof {
            assert(para.runs@.take(i + 1).drop_last() =~= para.runs@.take(i as int));
            assert(para.runs@.take(i + 1).last() == para.runs@[i as int]);
        }
        let run = &para.runs[i];
        if !run.text.as_str().is_empty() {
            let font = merge_font_info(&run.font, &para.props, default_font);
            let number = counter.take();
            let layer = make_run_layer(
                run.text.as_str(),
                &font,
                &para.props,
                run_x,
                y,
                number,
                available_width,
            );
            let ghost before = views(layers@);
            let ghost made = layer@;
            layers.push(layer);
            assert(views(layers@) =~= before.push(made));
            run_x = run_x.plus(width_of_run(run.text.as_str(), &font, available_width));
            last_size = font_size_of(&font);
        }
        i += 1;
    }
    assert(para.runs@.take(para.runs.len() as int) =~= para.runs@);
    if layers.len() == 0 {
        assert(views(layers@) =~= Seq::<LayerModel>::empty());
        *current_y = y.plus(value_or(para.props.spacing_after, Fixed::from_int(6)));
    } else {
        let line_height = last_size.times(
            value_or(para.props.line_spacing, Fixed::from_micros(1_150_000)),
        );
        *current_y = y.plus(
            line_height.plus(value_or(para.props.spacing_after, Fixed::from_int(4))),
        );
    }
    layers
}

/// The sum of widths, from the left.
pub open spec fn sum(widths: Seq<Fixed>) -> Fixed
    decreases widths.len(),
{
    if widths.len() == 0 {
        Fixed::spec_zero()
    } else {
        sum(widths.drop_last()).spec_plus(widths.last())
    }
}

fn sum_range(widths: &Vec<Fixed>, from: usize, to: usize) -> (r: Fixed)
    requires
        from <= to <= widths.len(),
    ensures
        r == sum(widths@.subrange(from as int, to as int)),
{
    let mut total = Fixed::zero();
    let mut i: usize = from;
    while i < to
        invariant
            from <= i <= to <= widths.len(),
            total == sum(widths@.subrange(from as int, i as int)),
        decreases to - i,
    {
        proof {
            assert(widths@.subrange(from as int, i + 1).drop_last() =~= widths@.subrange(
                from as int,
                i as int,
            ));
        }
        total = total.plus(widths[i]);
        i += 1;
    }
    total
}

/// The number of grid columns that a cell spans: at least one.
pub open spec fn span_of(props: TableCellInfo) -> nat {
    if props.col_span == 0 {
        1
    } else {
        props.col_span as nat
    }
}

/// The lesser of two numbers.
pub open spec fn lesser(a: int, b: int) -> int {
    if a <= b {
        a
    } else {
        b
    }
}

/// Where a cell starts: the left edge of the table and the widths of the
/// grid columns before it.
pub open spec fn cell_left(x_offset: Fixed, grid: Seq<Fixed>, col_index: nat) -> Fixed {
    x_offset.spec_plus(sum(grid.subrange(0, lesser(col_index as int, grid.len() as int))))
}

/// How wide a cell is: the grid columns that it spans, as far as the grid
/// goes; beyond the grid its own width, or the default column width.
pub open spec fn cell_span_width(
    grid: Seq<Fixed>,
    col_index: nat,
    props: TableCellInfo,
    default_width: Fixed,
) -> Fixed {
    if col_index < grid.len() {
        sum(
            grid.subrange(
                col_index as int,
                lesser((col_index + span_of(props)) as int, grid.len() as int),
            ),
        )
    } else {
        or_default(props.width, default_width)
    }
}

/// The text of a paragraph: the texts of its runs, one after the other.
pub open spec fn runs_text(runs: Seq<DocxRun>) -> Seq<char>
    decreases runs.len(),
{
    if runs.len() == 0 {
        Seq::empty()
    } else {
        runs_text(runs.drop_last()) + runs.last().text@
    }
}

/// The font of a paragraph without runs: the default font in size 11.
pub open spec fn plain_font(default_font: Seq<char>) -> FontInfoModel {
    FontInfoModel {
        ascii: None,
        east_asia: None,
        h_ansi: None,
        cs: None,
        theme_font: None,
        resolved: default_font,
        size: Some(Fixed::spec_from_int(11)),
        is_bold: false,
        is_italic: false,
        color: None,
        underline: false,
        strike: false,
    }
}

/// The font of a paragraph in a cell: that of its first run.
pub open spec fn cell_font(para: DocxParagraph, default_font: Seq<char>) -> FontInfoModel {
    if para.runs@.len() > 0 {
        run_font(para.runs@[0].font, para.props, default_font)
    } else {
        plain_font(default_font)
    }
}

/// The height of a line in a cell: 1.2 font sizes.
pub open spec fn cell_line_height(font: FontInfoModel) -> Fixed {
    size_of(font).spec_times(Fixed { micros: 1_200_000 })
}

/// The text layer of a paragraph in a cell, set in by four points on either
/// side.
pub open spec fn cell_layer(
    text: Seq<char>,
    font: FontInfoModel,
    alignment: Option<Seq<char>>,
    left: Fixed,
    y: Fixed,
    width: Fixed,
    number: nat,
) -> LayerModel {
    LayerModel {
        bounds: Bounds {
            x: left.spec_plus(Fixed::spec_from_int(4)),
            y,
            width: width.spec_minus(Fixed::spec_from_int(8)).spec_max(Fixed::spec_one()),
            height: cell_line_height(font),
        },
        z_index: z_of(number as int),
        content: Some(text),
        font_family: Some(parsed(font.resolved).family),
        font_size: Some(size_of(font)),
        font_weight: Some(weight_of(font)),
        font_style: if font.is_italic {
            Some("italic"@)
        } else {
            None
        },
        color: Some(color_of_font(font)),
        text_align: Some(alignment_of(alignment)),
        ..plain_layer(layer_id("text"@, 0, number), LayerType::Text)
    }
}

/// The layout of a cell after the given paragraphs: a paragraph with blank
/// text is left out; any other becomes one layer, and the next goes two
/// points below it.
pub open spec fn cell_placed(
    paras: Seq<DocxParagraph>,
    default_font: Seq<char>,
    left: Fixed,
    width: Fixed,
    y: Fixed,
    start: OcrCounter,
) -> Placed
    decreases paras.len(),
{
    if paras.len() == 0 {
        Placed { layers: Seq::empty(), y, counter: start }
    } else {
        let st = cell_placed(paras.drop_last(), default_font, left, width, y, start);
        let para = paras.last();
        let text = runs_text(para.runs@);
        if blank(text) {
            st
        } else {
            let font = cell_font(para, default_font);
            Placed {
                layers: st.layers.push(
                    cell_layer(
                        text,
                        font,
                        opt_text(para.props.alignment),
                        left,
                        st.y,
                        width,
                        st.counter.next as nat,
                    ),
                ),
                y: st.y.spec_plus(cell_line_height(font).spec_plus(Fixed::spec_from_int(2))),
                counter: stepped(st.counter),
            }
        }
    }
}

fn join_runs(runs: &Vec<DocxRun>) -> (text: String)
    ensures
        text@ == runs_text(runs@),
{
    let mut text = String::new();
    let mut i: usize = 0;
    while i < runs.len()
        invariant
            i <= runs.len(),
            text@ == runs_text(runs@.take(i as int)),
        decreases runs.len() - i,
    {
        proof {
            assert(runs@.take(i + 1).drop_last() =~= runs@.take(i as int));
            assert(runs@.take(i + 1).last() == runs@[i as int]);
        }
        text.append(runs[i].text.as_str());
        i += 1;
    }
    assert(runs@.take(runs.len() as int) =~= runs@);
    text
}

fn font_of_cell(para: &DocxParagraph, default_font: &str) -> (font: DocxFontInfo)
    ensures
        font@ == cell_font(*para, default_font@),
{
    if para.runs.len() > 0 {
        merge_font_info(&para.runs[0].font, &para.props, default_font)
    } else {
        DocxFontInfo {
            ascii: None,
            east_asia: None,
            h_ansi: None,
            cs: None,
            theme_font: None,
            resolved: default_font.to_string(),
            size: Some(Fixed::from_int(11)),
            is_bold: false,
            is_italic: false,
            color: None,
            underline: false,
            strike: false,
        }
    }
}

fn place_cell(
    cell: &DocxCell,
    default_font: &str,
    left: Fixed,
    width: Fixed,
    y: Fixed,
    counter: &mut LayerCounter,
    out: &mut Vec<LayerObject>,
) -> (end: Fixed)
    ensures
        ({
            let placed = cell_placed(
                cell.paragraphs@,
                default_font@,
                left,
                width,
                y,
                *old(counter),
            );
            &&& views(final(out)@) == views(old(out)@) + placed.layers
            &&& end == placed.y
            &&& *final(counter) == placed.counter
        }),
{
    let mut cell_y = y;
    let mut i: usize = 0;
    let ghost before_all = views(out@);
    assert(views(out@) =~= before_all + Seq::<LayerModel>::empty());
    while i < cell.paragraphs.len()
        invariant
            i <= cell.paragraphs.len(),
            before_all == views(old(out)@),
            ({
                let placed = cell_placed(
                    cell.paragraphs@.take(i as int),
                    default_font@,
                    left,
                    width,
                    y,
                    *old(counter),
                );
                &&& views(out@) == before_all + placed.layers
                &&& cell_y == placed.y
                &&& *counter == placed.counter
            }),
        decreases cell.paragraphs.len() - i,
    {
        proof {
            assert(cell.paragraphs@.take(i + 1).drop_last() =~= cell.paragraphs@.take(i as int));
            assert(cell.paragraphs@.take(i + 1).last() == cell.paragraphs@[i as int]);
        }
        let para = &cell.paragraphs[i];
        let text = join_runs(&para.runs);
        if !is_blank(text.as_str()) {
            let font = font_of_cell(para, default_font);
            let number = counter.take();
            let mut layer = text_layer_base(text.as_str(), &font, &para.props.alignment, number);
            let height = font_size_of(&font).times(Fixed::from_micros(1_200_000));
            layer.bounds = Bounds::new(
                left.plus(Fixed::from_int(4)),
                cell_y,
                width.minus(Fixed::from_int(8)).max(Fixed::one()),
                height,
            );
            let ghost before = views(out@);
            let ghost made = layer@;
            out.push(layer);
            assert(views(out@) =~= before.push(made));
            cell_y = cell_y.plus(height.plus(Fixed::from_int(2)));
        }
        proof {
            let placed = cell_placed(
                cell.paragraphs@.take(i + 1),
                default_font@,
                left,
                width,
                y,
                *old(counter),
            );
            assert(views(out@) =~= before_all + placed.layers);
        }
        i += 1;
    }
    assert(cell.paragraphs@.take(cell.paragraphs.len() as int) =~= cell.paragraphs@);
    cell_y
}

/// The state of the layout while the cells of a row are placed.
pub struct RowState {
    pub layers: Seq<LayerModel>,
    /// The grid column at which the next cell starts.
    pub col_index: nat,
    pub row_height: Fixed,
    pub counter: OcrCounter,
}

/// A column index held at the end of `usize`.
pub open spec fn held(n: nat) -> nat {
    if n > usize::MAX {
        usize::MAX as nat
    } else {
        n
    }
}

/// The layout of a row after the given cells: a cell that continues a
/// vertical merge (row span zero) is left out; any other is laid out two
/// points below the top of the row, and the row is at least 20 points high
/// and as high as its highest cell and four points.
pub open spec fn row_placed(
    cells: Seq<DocxCell>,
    grid: Seq<Fixed>,
    default_font: Seq<char>,
    x_offset: Fixed,
    default_width: Fixed,
    row_y: Fixed,
    start: OcrCounter,
) -> RowState
    decreases cells.len(),
{
    if cells.len() == 0 {
        RowState {
            layers: Seq::empty(),
            col_index: 0,
            row_height: Fixed::spec_from_int(20),
            counter: start,
        }
    } else {
        let st = row_placed(
            cells.drop_last(),
            grid,
            default_font,
            x_offset,
            default_width,
            row_y,
            start,
        );
        let cell = cells.last();
        if cell.props.row_span == 0 {
            st
        } else {
            let placed = cell_placed(
                cell.paragraphs@,
                default_font,
                cell_left(x_offset, grid, st.col_index),
                cell_span_width(grid, st.col_index, cell.props, default_width),
                row_y.spec_plus(Fixed::spec_from_int(2)),
                st.counter,
            );
            RowState {
                layers: st.layers + placed.layers,
                col_index: held(st.col_index + span_of(cell.props)),
                row_height: st.row_height.spec_max(
                    placed.y.spec_minus(row_y).spec_plus(Fixed::spec_from_int(4)),
                ),
                counter: placed.counter,
            }
        }
    }
}

fn place_row(
    row: &DocxRow,
    grid: &Vec<Fixed>,
    default_font: &str,
    x_offset: Fixed,
    default_width: Fixed,
    row_y: Fixed,
    counter: &mut LayerCounter,
    out: &mut Vec<LayerObject>,
) -> (row_height: Fixed)
    ensures
        ({
            let st = row_placed(
                row.cells@,
                grid@,
                default_font@,
                x_offset,
                default_width,
                row_y,
                *old(counter),
            );
            &&& views(final(out)@) == views(old(out)@) + st.layers
            &&& row_height == st.row_height
            &&& *final(counter) == st.counter
        }),
{
    let mut col_index: usize = 0;
    let mut row_height = Fixed::from_int(20);
    let ghost before_all = views(out@);
    let mut i: usize = 0;
    assert(views(out@) =~= before_all + Seq::<LayerModel>::empty());
    while i < row.cells.len()
        invariant
            i <= row.cells.len(),
            before_all == views(old(out)@),
            ({
                let st = row_placed(
                    row.cells@.take(i as int),
                    grid@,
                    default_font@,
                    x_offset,
                    default_width,
                    row_y,
                    *old(counter),
                );
                &&& views(out@) == before_all + st.layers
                &&& col_index == st.col_index
                &&& row_height == st.row_height
                &&& *counter == st.counter
            }),
        decreases row.cells.len() - i,
    {
        proof {
            assert(row.cells@.take(i + 1).drop_last() =~= row.cells@.take(i as int));
            assert(row.cells@.take(i + 1).last() == row.cells@[i as int]);
        }
        let cell = &row.cells[i];
        if cell.props.row_span != 0 {
            let span: usize = if cell.props.col_span == 0 {
                1
            } else {
                cell.props.col_span as usize
            };
            let upto: usize = if col_index <= grid.len() {
                col_index
            } else {
                grid.len()
            };
            let left = x_offset.plus(sum_range(grid, 0, upto));
            let width = if col_index < grid.len() {
                let end: usize = if span <= grid.len() - col_index {
                    col_index + span
                } else {
                    grid.len()
                };
                sum_range(grid, col_index, end)
            } else {
                value_or(cell.props.width, default_width)
            };
            let ghost st = row_placed(
                row.cells@.take(i as int),
                grid@,
                default_font@,
                x_offset,
                default_width,
                row_y,
                *old(counter),
            );
            let ghost mid = views(out@);
            let end_y = place_cell(
                cell,
                default_font,
                left,
                width,
                row_y.plus(Fixed::from_int(2)),
                counter,
                out,
            );
            row_height = row_height.max(end_y.minus(row_y).plus(Fixed::from_int(4)));
            col_index = if span > usize::MAX - col_index {
                usize::MAX
            } else {
                col_index + span
            };
            proof {
                let placed = cell_placed(
                    cell.paragraphs@,
                    default_font@,
                    left,
                    width,
                    row_y.spec_plus(Fixed::spec_from_int(2)),
                    st.counter,
                );
                assert(views(out@) =~= before_all + (st.layers + placed.layers));
            }
        }
        i += 1;
    }
    assert(row.cells@.take(row.cells.len() as int) =~= row.cells@);
    row_height
}

/// The layout of a table after the given rows, one below the other.
pub open spec fn rows_placed(
    rows: Seq<DocxRow>,
    grid: Seq<Fixed>,
    default_font: Seq<char>,
    x_offset: Fixed,
    default_width: Fixed,
    y: Fixed,
    start: OcrCounter,
) -> Placed
    decreases rows.len(),
{
    if rows.len() == 0 {
        Placed { layers: Seq::empty(), y, counter: start }
    } else {
        let st = rows_placed(rows.drop_last(), grid, default_font, x_offset, default_width, y, start);
        let row = row_placed(
            rows.last().cells@,
            grid,
            default_font,
            x_offset,
            default_width,
            st.y,
            st.counter,
        );
        Placed {
            layers: st.layers + row.layers,
            y: st.y.spec_plus(row.row_height),
            counter: row.counter,
        }
    }
}

/// The width of a table: its own, or all that is available.
pub open spec fn table_width(table: DocxTable, max_width: Fixed) -> Fixed {
    or_default(table.width, max_width)
}

/// The width of a column that the grid does not tell: the table width
/// divided by the number of grid columns, at least one.
pub open spec fn default_column_width(table: DocxTable, max_width: Fixed) -> Fixed {
    table_width(table, max_width).spec_over(
        Fixed::spec_from_int(
            if table.grid@.len() == 0 {
                1
            } else {
                table.grid@.len() as int
            },
        ),
    )
}

/// The border of a table: a black rectangle around it, below all else.
pub open spec fn border_layer(x: Fixed, y: Fixed, width: Fixed, height: Fixed, number: nat) -> LayerModel {
    LayerModel {
        bounds: Bounds { x, y, width, height },
        shape_type: Some(ShapeType::Rectangle),
        stroke_color: Some("#000000"@),
        stroke_width: Some(Fixed::spec_one()),
        ..plain_layer(layer_id("table-border"@, 0, number), LayerType::Shape)
    }
}

/// A table at the height `y`: its rows, with the border before them where
/// the table has any height; the next element goes eight points below.
pub open spec fn table_placed(
    table: DocxTable,
    default_font: Seq<char>,
    x_offset: Fixed,
    y: Fixed,
    max_width: Fixed,
    start: OcrCounter,
) -> Placed {
    let st = rows_placed(
        table.rows@,
        table.grid@,
        default_font,
        x_offset,
        default_column_width(table, max_width),
        y,
        start,
    );
    let height = st.y.spec_minus(y);
    if height.micros > 0 {
        Placed {
            layers: seq![
                border_layer(
                    x_offset,
                    y,
                    table_width(table, max_width),
                    height,
                    st.counter.next as nat,
                ),
            ] + st.layers,
            y: st.y.spec_plus(Fixed::spec_from_int(8)),
            counter: stepped(st.counter),
        }
    } else {
        Placed { layers: st.layers, y: st.y.spec_plus(Fixed::spec_from_int(8)), counter: st.counter }
    }
}

/// Lays a table out at the height `current_y` and moves the height on.
pub fn parse_docx_table(
    table: &DocxTable,
    default_font: &str,
    x_offset: Fixed,
    current_y: &mut Fixed,
    max_width: Fixed,
    counter: &mut LayerCounter,
) -> (layers: Vec<LayerObject>)
    ensures
        ({
            let placed = table_placed(
                *table,
                default_font@,
                x_offset,
                *old(current_y),
                max_width,
                *old(counter),
            );
            &&& views(layers@) == placed.layers
            &&& *final(current_y) == placed.y
            &&& *final(counter) == placed.counter
        }),
{
    let mut layers: Vec<LayerObject> = Vec::new();
    let total_width = value_or(table.width, max_width);
    let num_cols: usize = if table.grid.len() == 0 {
        1
    } else {
        table.grid.len()
    };
    let default_col_width = total_width.over(count_to_fixed(num_cols));
    let table_start_y = *current_y;
    let mut row_y = table_start_y;
    let mut i: usize = 0;
    assert(views(layers@) =~= Seq::<LayerModel>::empty());
    while i < table.rows.len()
        invariant
            i <= table.rows.len(),
            default_col_width == default_column_width(*table, max_width),
            (Placed { layers: views(layers@), y: row_y, counter: *counter }) == rows_placed(
                table.rows@.take(i as int),
                table.grid@,
                default_font@,
                x_offset,
                default_col_width,
                table_start_y,
                *old(counter),
            ),
        decreases table.rows.len() - i,
    {
        proof {
            assert(table.rows@.take(i + 1).drop_last() =~= table.rows@.take(i as int));
            assert(table.rows@.take(i + 1).last() == table.rows@[i as int]);
        }
        let row_height = place_row(
            &table.rows[i],
            &table.grid,
            default_font,
            x_offset,
            default_col_width,
            row_y,
            counter,
            &mut layers,
        );
        row_y = row_y.plus(row_height);
        i += 1;
    }
    assert(table.rows@.take(table.rows.len() as int) =~= table.rows@);
    let table_height = row_y.minus(table_start_y);
    if Fixed::zero().lt(table_height) {
        let number = counter.take();
        let mut border = LayerObject::plain(
            generate_layer_id("table-border", 0, number),
            LayerType::Shape,
        );
        border.bounds = Bounds::new(x_offset, table_start_y, total_width, table_height);
        border.shape_type = Some(ShapeType::Rectangle);
        border.stroke_color = Some("#000000".to_string());
        border.stroke_width = Some(Fixed::one());
        let ghost before = views(layers@);
        let ghost made = border@;
        layers.insert(0, border);
        assert(views(layers@) =~= seq![made] + before);
    }
    *current_y = row_y.plus(Fixed::from_int(8));
    layers
}

/// The layout of a body after the given elements: paragraphs and tables one
/// below the other between margins of one inch on a page 612 points wide;
/// other elements are left out.
pub open spec fn body_placed(elements: Seq<BodyElement>, default_font: Seq<char>) -> Placed
    decreases elements.len(),
{
    if elements.len() == 0 {
        Placed {
            layers: Seq::empty(),
            y: Fixed::spec_from_int(72),
            counter: OcrCounter { next: 0 },
        }
    } else {
        let st = body_placed(elements.drop_last(), default_font);
        let margin = Fixed::spec_from_int(72);
        let content_width = Fixed::spec_from_int(612).spec_minus(
            margin.spec_times(Fixed::spec_from_int(2)),
        );
        match elements.last() {
            BodyElement::Paragraph(para) => {
                let placed = paragraph_placed(
                    para,
                    default_font,
                    margin,
                    st.y,
                    content_width,
                    st.counter,
                );
                Placed { layers: st.layers + placed.layers, y: placed.y, counter: placed.counter }
            },
            BodyElement::Table(table) => {
                let placed = table_placed(
                    table,
                    default_font,
                    margin,
                    st.y,
                    content_width,
                    st.counter,
                );
                Placed { layers: st.layers + placed.layers, y: placed.y, counter: placed.counter }
            },
            BodyElement::Other => st,
        }
    }
}

/// The message of a finished DOCX import.
pub open spec fn docx_message(layers: nat) -> Seq<char> {
    "Successfully imported DOCX with "@ + decimal(layers) + " layers"@
}

fn append_layers(out: &mut Vec<LayerObject>, more: Vec<LayerObject>)
    ensures
        views(final(out)@) == views(old(out)@) + views(more@),
{
    let mut more = more;
    let ghost added = views(more@);
    let ghost before = views(out@);
    out.append(&mut more);
    assert(views(out@) =~= before + added);
}

/// Lays the body of a DOCX out on one page of letter size.
pub fn parse_docx(elements: &Vec<BodyElement>, default_font: &str) -> (r: DocumentResponse)
    ensures
        r.success,
        r.message@ == docx_message(body_placed(elements@, default_font@).counter.next as nat),
        r.data matches Some(doc) && doc.page_width == Fixed::spec_from_int(612)
            && doc.page_height == Fixed::spec_from_int(792) && doc.pages@.len() == 1
            && doc.pages@[0].page_index == 0 && doc.pages@[0].width == Fixed::spec_from_int(612)
            && doc.pages@[0].height == Fixed::spec_from_int(792) && doc.pages@[0].dpi == Some(
            72u32,
        ) && doc.pages@[0].metadata is None && views(doc.pages@[0].layers@) == body_placed(
            elements@,
            default_font@,
        ).layers,
{
    let mut layers: Vec<LayerObject> = Vec::new();
    let mut counter = OcrCounter::new();
    let mut current_y = Fixed::from_int(72);
    let page_width = Fixed::from_int(612);
    let page_margin = Fixed::from_int(72);
    let content_width = page_width.minus(page_margin.times(Fixed::from_int(2)));
    let mut i: usize = 0;
    assert(views(layers@) =~= Seq::<LayerModel>::empty());
    while i < elements.len()
        invariant
            i <= elements.len(),
            page_margin == Fixed::spec_from_int(72),
            content_width == Fixed::spec_from_int(612).spec_minus(
                Fixed::spec_from_int(72).spec_times(Fixed::spec_from_int(2)),
            ),
            (Placed { layers: views(layers@), y: current_y, counter }) == body_placed(
                elements@.take(i as int),
                default_font@,
            ),
        decreases elements.len() - i,
    {
        proof {
            assert(elements@.take(i + 1).drop_last() =~= elements@.take(i as int));
            assert(elements@.take(i + 1).last() == elements@[i as int]);
        }
        match &elements[i] {
            BodyElement::Paragraph(para) => {
                let more = parse_docx_paragraph(
                    para,
                    default_font,
                    page_margin,
                    &mut current_y,
                    content_width,
                    &mut counter,
                );
                append_layers(&mut layers, more);
            },
            BodyElement::Table(table) => {
                let more = parse_docx_table(
                    table,
                    default_font,
                    page_margin,
                    &mut current_y,
                    content_width,
                    &mut counter,
                );
                append_layers(&mut layers, more);
            },
            BodyElement::Other => {},
        }
        i += 1;
    }
    assert(elements@.take(elements.len() as int) =~= elements@);
    let mut message = "Successfully imported DOCX with ".to_string();
    push_decimal(&mut message, counter.next as u64);
    message.append(" layers");
    assert(message@ =~= docx_message(counter.next as nat));
    let mut pages: Vec<PageData> = Vec::new();
    pages.push(
        PageData {
            page_index: 0,
            width: page_width,
            height: Fixed::from_int(792),
            dpi: Some(72),
            layers,
            metadata: None,
        },
    );
    DocumentResponse {
        success: true,
        message,
        data: Some(DocumentData { page_width, page_height: Fixed::from_int(792), pages }),
    }
}

/// The layers of a PDF page before they are sorted: the layers read from its
/// content stream or, where the stream gave none, those of its text
/// objects; then those of its images.
pub open spec fn page_sources(
    content: Option<Seq<LayerModel>>,
    text_infos: Seq<TextObjectInfo>,
    image_infos: Seq<ImageObjectInfo>,
    page_index: nat,
    page_height: Fixed,
    start: OcrCounter,
) -> WalkState {
    let first = match content {
        Some(layers) => WalkState { layers, counter: start },
        None => text_layers_of(text_infos, page_index, page_height, start),
    };
    let images = image_layers_of(image_infos, page_index, page_height, first.counter);
    WalkState { layers: first.layers + images.layers, counter: images.counter }
}

/// Builds a PDF page from its sources: `content` holds the layers read from
/// the content stream, and is `None` where the page has no stream or the
/// stream could not be read; the text objects are used only then.
pub fn build_page(
    page_index: usize,
    width: Fixed,
    height: Fixed,
    content: Option<Vec<LayerObject>>,
    text_infos: &Vec<TextObjectInfo>,
    image_infos: &Vec<ImageObjectInfo>,
    counter: &mut LayerCounter,
) -> (page: PageData)
    ensures
        page.page_index == page_index,
        page.width == width,
        page.height == height,
        page.dpi == Some(72u32),
        page.metadata matches Some(m) && m.original_page_index == Some(page_index) && m.rotation
            is None && (m.media_box matches Some(b) && b@ == seq![
            Fixed::spec_zero(),
            Fixed::spec_zero(),
            width,
            height,
        ]),
        ({
            let sources = page_sources(
                match content {
                    Some(layers) => Some(views(layers@)),
                    None => None,
                },
                text_infos@,
                image_infos@,
                page_index as nat,
                height,
                *old(counter),
            );
            &&& *final(counter) == sources.counter
            &&& exists|unsorted: Seq<LayerObject>| #[trigger]
                is_sorted_by_z(page.layers@, unsorted) && views(unsorted) == sources.layers
        }),
{
    let mut layers = match content {
        Some(layers) => layers,
        None => extract_text_layers(text_infos, page_index, height, counter),
    };
    let images = extract_image_layers(image_infos, page_index, height, counter);
    append_layers(&mut layers, images);
    let ghost unsorted = layers@;
    let page = assemble_page(page_index, width, height, layers);
    assert(is_sorted_by_z(page.layers@, unsorted));
    page
}

/// How the pixels of an image are stored, as far as the import tells them
/// apart.
#[derive(Debug, Clone, Copy, PartialEq, Eq, Structural)]
pub enum ColorKind {
    L8,
    L16,
    La8,
    La16,
    Rgb8,
    Rgb16,
    Rgba8,
    Rgba16,
    Other,
}

/// The name of the colour space of a kind of pixels.
pub open spec fn color_space_name(kind: ColorKind) -> Seq<char> {
    match kind {
        ColorKind::L8 | ColorKind::L16 => "Grayscale"@,
        ColorKind::La8 | ColorKind::La16 => "GrayscaleAlpha"@,
        ColorKind::Rgb8 | ColorKind::Rgb16 => "RGB"@,
        ColorKind::Rgba8 | ColorKind::Rgba16 => "RGBA"@,
        ColorKind::Other => "Unknown"@,
    }
}

/// Names the colour space of a kind of pixels.
pub fn determine_color_space(kind: ColorKind) -> (name: &'static str)
    ensures
        name@ == color_space_name(kind),
{
    match kind {
        ColorKind::L8 | ColorKind::L16 => "Grayscale",
        ColorKind::La8 | ColorKind::La16 => "GrayscaleAlpha",
        ColorKind::Rgb8 | ColorKind::Rgb16 => "RGB",
        ColorKind::Rgba8 | ColorKind::Rgba16 => "RGBA",
        ColorKind::Other => "Unknown",
    }
}

/// For each of the given image objects the identifier of the layer that it
/// becomes, where it becomes one: the images that are large enough are
/// numbered in their order.
pub open spec fn image_ids(infos: Seq<ImageObjectInfo>, page_index: nat) -> Seq<Option<Seq<char>>>
    decreases infos.len(),
{
    if infos.len() == 0 {
        Seq::empty()
    } else {
        let before = image_ids(infos.drop_last(), page_index);
        before.push(
            if is_real_image(infos.last()) {
                Some(layer_id("image"@, page_index, real_images(infos.drop_last())))
            } else {
                None
            },
        )
    }
}

/// How many of the given image objects are large enough to become layers.
pub open spec fn real_images(infos: Seq<ImageObjectInfo>) -> nat
    decreases infos.len(),
{
    if infos.len() == 0 {
        0
    } else if is_real_image(infos.last()) {
        real_images(infos.drop_last()) + 1
    } else {
        real_images(infos.drop_last())
    }
}

/// The image layers are as many as there are images large enough, and each
/// image that becomes a layer becomes the layer of its identifier.
pub proof fn law_image_ids_name_the_layers(
    infos: Seq<ImageObjectInfo>,
    page_index: nat,
    page_height: Fixed,
    start: OcrCounter,
)
    ensures
        image_layers_of(infos, page_index, page_height, start).layers.len() == real_images(infos),
        image_ids(infos, page_index).len() == infos.len(),
        forall|i: int|
            0 <= i < infos.len() && is_real_image(infos[i]) ==> (#[trigger] image_ids(
                infos,
                page_index,
            )[i]) == Some(
                image_layers_of(infos, page_index, page_height, start).layers[real_images(
                    infos.take(i),
                ) as int].id,
            ),
    decreases infos.len(),
{
    if infos.len() > 0 {
        let rest = infos.drop_last();
        law_image_ids_name_the_layers(rest, page_index, page_height, start);
        let all = image_layers_of(infos, page_index, page_height, start).layers;
        let before = image_layers_of(rest, page_index, page_height, start).layers;
        assert forall|i: int| 0 <= i < infos.len() && is_real_image(infos[i]) implies (
        #[trigger] image_ids(infos, page_index)[i]) == Some(
            all[real_images(infos.take(i)) as int].id,
        ) by {
            if i < infos.len() - 1 {
                assert(infos.take(i) =~= rest.take(i));
                assert(rest[i] == infos[i]);
                lemma_real_images_grow(rest, i);
                assert(image_ids(infos, page_index)[i] == image_ids(rest, page_index)[i]);
                assert(all[real_images(rest.take(i)) as int] == before[real_images(
                    rest.take(i),
                ) as int]);
            } else {
                assert(infos.take(i) =~= rest);
            }
        }
    }
}

/// Before a real image lie fewer real images than there are in all.
proof fn lemma_real_images_grow(infos: Seq<ImageObjectInfo>, i: int)
    requires
        0 <= i < infos.len(),
        is_real_image(infos[i]),
    ensures
        real_images(infos.take(i)) < real_images(infos),
    decreases infos.len(),
{
    if i == infos.len() - 1 {
        assert(infos.take(i) =~= infos.drop_last());
    } else {
        assert(infos.drop_last().take(i) =~= infos.take(i));
        lemma_real_images_grow(infos.drop_last(), i);
    }
}

/// Names the layers that the given image objects become.
pub fn image_layer_ids(infos: &Vec<ImageObjectInfo>, page_index: usize) -> (ids: Vec<Option<String>>)
    ensures
        ids@.len() == infos@.len(),
        forall|i: int|
            0 <= i < ids@.len() ==> opt_text(#[trigger] ids@[i]) == image_ids(
                infos@,
                page_index as nat,
            )[i],
{
    let mut ids: Vec<Option<String>> = Vec::new();
    let mut kept: usize = 0;
    let mut i: usize = 0;
    while i < infos.len()
        invariant
            i <= infos.len(),
            kept == real_images(infos@.take(i as int)),
            kept <= i,
            ids@.len() == i,
            image_ids(infos@.take(i as int), page_index as nat).len() == i,
            forall|k: int|
                0 <= k < i ==> opt_text(#[trigger] ids@[k]) == image_ids(
                    infos@.take(i as int),
                    page_index as nat,
                )[k],
        decreases infos.len() - i,
    {
        proof {
            assert(infos@.take(i + 1).drop_last() =~= infos@.take(i as int));
            assert(infos@.take(i + 1).last() == infos@[i as int]);
        }
        if infos[i].img_width >= 4 && infos[i].img_height >= 4 {
            ids.push(Some(generate_layer_id("image", page_index, kept)));
            kept += 1;
        } else {
            ids.push(None);
        }
        i += 1;
    }
    assert(infos@.take(infos.len() as int) =~= infos@);
    ids
}

} // verus!
