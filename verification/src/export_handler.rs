//! Export: what is drawn for a PDF, what is written for a DOCX, and what is
//! saved as a project.

use crate::content_parser::views;
use crate::fixed::Fixed;
use crate::models::{
    opt_text, BookProjectData, DocumentData, DocumentMetadata, ExportResult, LayerModel,
    LayerObject, LayerType, PageData, ProjectSettings,
};
use crate::sorting::{is_stable_order, stable_order};
use crate::text::{
    decimal, lowercase, push_decimal, same_text, texts, to_chars, to_lowercase,
};
use vstd::prelude::*;

verus! {

broadcast use vstd::string::group_string_axioms;

/// What can go wrong with an export.
#[derive(Debug)]
pub enum ExportError {
    NoPages,
    InvalidPageRange(String),
    FileCreation(String),
    PdfGeneration(String),
    DocxGeneration(String),
    Serialization(String),
    UnsupportedFormat(String),
}

impl ExportError {
    /// The message of the error.
    pub open spec fn spec_message(self) -> Seq<char> {
        match self {
            ExportError::NoPages => "No pages to export"@,
            ExportError::InvalidPageRange(why) => "Invalid page range: "@ + why@,
            ExportError::FileCreation(why) => "Failed to create output file: "@ + why@,
            ExportError::PdfGeneration(why) => "PDF generation failed: "@ + why@,
            ExportError::DocxGeneration(why) => "DOCX generation failed: "@ + why@,
            ExportError::Serialization(why) => "JSON serialization failed: "@ + why@,
            ExportError::UnsupportedFormat(what) => "Unsupported export format: "@ + what@,
        }
    }

    /// The message of the error.
    pub fn to_string(&self) -> (s: String)
        ensures
            s@ == self.spec_message(),
    {
        match self {
            ExportError::NoPages => "No pages to export".to_string(),
            ExportError::InvalidPageRange(why) => with_detail("Invalid page range: ", why),
            ExportError::FileCreation(why) => with_detail("Failed to create output file: ", why),
            ExportError::PdfGeneration(why) => with_detail("PDF generation failed: ", why),
            ExportError::DocxGeneration(why) => with_detail("DOCX generation failed: ", why),
            ExportError::Serialization(why) => with_detail("JSON serialization failed: ", why),
            ExportError::UnsupportedFormat(what) => with_detail(
                "Unsupported export format: ",
                what,
            ),
        }
    }
}

impl From<ExportError> for String {
    fn from(err: ExportError) -> (s: String)
        ensures
            s@ == err.spec_message(),
    {
        err.to_string()
    }
}

impl vstd::std_specs::convert::FromSpecImpl<ExportError> for String {
    open spec fn obeys_from_spec() -> bool {
        false
    }

    open spec fn from_spec(err: ExportError) -> String {
        choose|s: String| s@ == err.spec_message()
    }
}

fn with_detail(head: &str, detail: &String) -> (s: String)
    ensures
        s@ == head@ + detail@,
{
    let mut s = head.to_string();
    s.append(detail.as_str());
    s
}

/// The formats that a document can be exported to.
#[derive(Debug, Clone, Copy, PartialEq, Eq, Structural)]
pub enum ExportFormat {
    Pdf,
    Docx,
    BookProj,
}

/// The format that a name stands for, whatever the case of its letters.
pub open spec fn format_of(name: Seq<char>) -> Option<ExportFormat> {
    let lower = lowercase(name);
    if lower == "pdf"@ {
        Some(ExportFormat::Pdf)
    } else if lower == "docx"@ {
        Some(ExportFormat::Docx)
    } else if lower == "bookproj"@ {
        Some(ExportFormat::BookProj)
    } else {
        None
    }
}

/// Reads the name of a format; an unknown name is an error that names it.
pub fn parse_format(name: &str) -> (r: Result<ExportFormat, ExportError>)
    ensures
        match format_of(name@) {
            Some(f) => r == Ok::<ExportFormat, ExportError>(f),
            None => r matches Err(ExportError::UnsupportedFormat(what)) && what@ == name@,
        },
{
    let lower = to_lowercase(name);
    if same_text(lower.as_str(), "pdf") {
        Ok(ExportFormat::Pdf)
    } else if same_text(lower.as_str(), "docx") {
        Ok(ExportFormat::Docx)
    } else if same_text(lower.as_str(), "bookproj") {
        Ok(ExportFormat::BookProj)
    } else {
        Err(ExportError::UnsupportedFormat(name.to_string()))
    }
}

/// What is asked of an export.
#[derive(Debug, Clone)]
pub struct ExportOptions {
    pub format: ExportFormat,
    pub output_path: String,
    /// The first and the last page to export, counted from zero.
    pub page_range: Option<(usize, usize)>,
    pub image_quality: u8,
    pub compress_text: bool,
    pub create_layers: bool,
}

/// The image quality where none is asked for: the best.
pub fn default_image_quality() -> (q: u8)
    ensures
        q == 100,
{
    100
}

/// The page range of an export of `count` pages: the one asked for, or all
/// pages.
pub open spec fn wanted_range(asked: Option<(usize, usize)>, count: nat) -> (int, int) {
    match asked {
        Some((a, b)) => (a as int, b as int),
        None => (
            0,
            if count == 0 {
                0
            } else {
                count - 1
            },
        ),
    }
}

/// Whether a page range is good for `count` pages: it is in order and ends
/// within the pages.
pub open spec fn range_is_valid(range: (int, int), count: nat) -> bool {
    range.0 <= range.1 && range.1 < count
}

/// The complaint about a bad page range.
pub open spec fn range_complaint(range: (int, int), count: nat) -> Seq<char> {
    "Range "@ + decimal(range.0 as nat) + "-"@ + decimal(range.1 as nat) + " is invalid for "@
        + decimal(count) + " pages"@
}

/// Settles the page range of an export; a range that is out of order or
/// ends beyond the pages is an error. A document without pages has no good
/// range.
pub fn resolve_page_range(asked: Option<(usize, usize)>, count: usize) -> (r: Result<
    (usize, usize),
    ExportError,
>)
    ensures
        range_is_valid(wanted_range(asked, count as nat), count as nat) ==> (r matches Ok(range)
            && (range.0 as int, range.1 as int) == wanted_range(asked, count as nat)),
        !range_is_valid(wanted_range(asked, count as nat), count as nat) ==> (r matches Err(
            ExportError::InvalidPageRange(why),
        ) && why@ == range_complaint(wanted_range(asked, count as nat), count as nat)),
{
    let range = match asked {
        Some(r) => r,
        None => (
            0,
            if count == 0 {
                0
            } else {
                count - 1
            },
        ),
    };
    if range.0 > range.1 || range.1 >= count {
        let mut why = "Range ".to_string();
        push_decimal(&mut why, range.0 as u64);
        why.append("-");
        push_decimal(&mut why, range.1 as u64);
        why.append(" is invalid for ");
        push_decimal(&mut why, count as u64);
        why.append(" pages");
        assert(why@ =~= range_complaint(wanted_range(asked, count as nat), count as nat));
        return Err(ExportError::InvalidPageRange(why));
    }
    Ok(range)
}

/// The value of a hexadecimal digit, in either case.
pub open spec fn hex_value(c: char) -> Option<int> {
    if '0' <= c && c <= '9' {
        Some(c as int - '0' as int)
    } else if 'a' <= c && c <= 'f' {
        Some(c as int - 'a' as int + 10)
    } else if 'A' <= c && c <= 'F' {
        Some(c as int - 'A' as int + 10)
    } else {
        None
    }
}

/// The number that two characters write in hexadecimal: two digits, or a
/// plus sign and one digit.
pub open spec fn hex_byte(a: char, b: char) -> Option<u8> {
    match hex_value(b) {
        None => None,
        Some(low) => if a == '+' {
            Some(low as u8)
        } else {
            match hex_value(a) {
                Some(high) => Some((high * 16 + low) as u8),
                None => None,
            }
        },
    }
}

/// A text without every `#` at its start.
pub open spec fn without_hashes(s: Seq<char>) -> Seq<char>
    decreases s.len(),
{
    if s.len() > 0 && s[0] == '#' {
        without_hashes(s.skip(1))
    } else {
        s
    }
}

/// The colour that a text like `#rrggbb` writes: after the hashes there must
/// be six ASCII characters that write three numbers in hexadecimal.
pub open spec fn hex_color(color: Seq<char>) -> Option<(u8, u8, u8)> {
    let c = without_hashes(color);
    if c.len() != 6 || exists|i: int| 0 <= i < 6 && (#[trigger] c[i]) as u32 >= 128 {
        None
    } else {
        match (hex_byte(c[0], c[1]), hex_byte(c[2], c[3]), hex_byte(c[4], c[5])) {
            (Some(r), Some(g), Some(b)) => Some((r, g, b)),
            _ => None,
        }
    }
}

fn hex_value_of(c: char) -> (r: Option<u8>)
    ensures
        match r {
            Some(v) => hex_value(c) == Some(v as int) && v < 16,
            None => hex_value(c) is None,
        },
{
    if '0' <= c && c <= '9' {
        Some(((c as u32) - ('0' as u32)) as u8)
    } else if 'a' <= c && c <= 'f' {
        Some(((c as u32) - ('a' as u32) + 10) as u8)
    } else if 'A' <= c && c <= 'F' {
        Some(((c as u32) - ('A' as u32) + 10) as u8)
    } else {
        None
    }
}

fn hex_byte_of(a: char, b: char) -> (r: Option<u8>)
    ensures
        r == hex_byte(a, b),
{
    match hex_value_of(b) {
        None => None,
        Some(low) => {
            if a == '+' {
                Some(low)
            } else {
                match hex_value_of(a) {
                    Some(high) => Some(high * 16 + low),
                    None => None,
                }
            }
        },
    }
}

/// Reads a colour like `#rrggbb`.
pub fn parse_hex_color(color: &str) -> (r: Option<(u8, u8, u8)>)
    ensures
        r == hex_color(color@),
{
    let chars = to_chars(color);
    let mut from: usize = 0;
    assert(chars@.skip(0) =~= chars@);
    while from < chars.len() && chars[from] == '#'
        invariant
            from <= chars.len(),
            without_hashes(chars@) == without_hashes(chars@.skip(from as int)),
        decreases chars.len() - from,
    {
        assert(chars@.skip(from as int).skip(1) =~= chars@.skip(from + 1));
        from += 1;
    }
    let ghost c = chars@.skip(from as int);
    assert(without_hashes(chars@) == c);
    if chars.len() - from != 6 {
        return None;
    }
    let mut i: usize = 0;
    while i < 6
        invariant
            i <= 6,
            from + 6 == chars.len(),
            c == chars@.skip(from as int),
            chars@ == color@,
            without_hashes(chars@) == c,
            forall|k: int| 0 <= k < i ==> ((#[trigger] c[k]) as u32) < 128,
        decreases 6 - i,
    {
        if chars[from + i] as u32 >= 128 {
            assert(c[i as int] as u32 >= 128);
            return None;
        }
        i += 1;
    }
    let r = hex_byte_of(chars[from], chars[from + 1]);
    let g = hex_byte_of(chars[from + 2], chars[from + 3]);
    let b = hex_byte_of(chars[from + 4], chars[from + 5]);
    match (r, g, b) {
        (Some(r), Some(g), Some(b)) => Some((r, g, b)),
        _ => None,
    }
}

/// Millimetres per point: 0.352778.
pub open spec fn mm_per_pt() -> Fixed {
    Fixed { micros: 352_778 }
}

/// A length in points as millimetres.
pub open spec fn to_mm(points: Fixed) -> Fixed {
    points.spec_times(mm_per_pt())
}

fn mm(points: Fixed) -> (r: Fixed)
    ensures
        r == to_mm(points),
{
    points.times(Fixed::from_micros(352_778))
}

/// What is drawn on a page of a PDF, in millimetres from the bottom left.
#[derive(Debug, Clone)]
pub enum DrawCommand {
    /// A line of text; without a colour the one before stays.
    Text { content: String, font_size: Fixed, x: Fixed, y: Fixed, bold: bool, color: Option<
        (u8, u8, u8),
    > },
    /// A closed rectangle; without a colour the one before stays.
    Rectangle {
        x: Fixed,
        y: Fixed,
        width: Fixed,
        height: Fixed,
        fill: Option<(u8, u8, u8)>,
        stroke: Option<(u8, u8, u8)>,
        stroke_width: Fixed,
    },
}

/// The mathematical content of a [`DrawCommand`].
pub enum DrawModel {
    Text { content: Seq<char>, font_size: Fixed, x: Fixed, y: Fixed, bold: bool, color: Option<
        (u8, u8, u8),
    > },
    Rectangle {
        x: Fixed,
        y: Fixed,
        width: Fixed,
        height: Fixed,
        fill: Option<(u8, u8, u8)>,
        stroke: Option<(u8, u8, u8)>,
        stroke_width: Fixed,
    },
}

impl View for DrawCommand {
    type V = DrawModel;

    open spec fn view(&self) -> DrawModel {
        match self {
            DrawCommand::Text { content, font_size, x, y, bold, color } => DrawModel::Text {
                content: content@,
                font_size: *font_size,
                x: *x,
                y: *y,
                bold: *bold,
                color: *color,
            },
            DrawCommand::Rectangle { x, y, width, height, fill, stroke, stroke_width } => {
                DrawModel::Rectangle {
                    x: *x,
                    y: *y,
                    width: *width,
                    height: *height,
                    fill: *fill,
                    stroke: *stroke,
                    stroke_width: *stroke_width,
                }
            },
        }
    }
}

/// The colour that an optional text writes.
pub open spec fn opt_color(color: Option<Seq<char>>) -> Option<(u8, u8, u8)> {
    match color {
        Some(c) => hex_color(c),
        None => None,
    }
}

/// What is drawn for a layer on a page of the given height: a text layer
/// with content gives its text, in size 12 where none is set, in bold from
/// weight 700 on; a shape layer gives its box; any other layer nothing.
pub open spec fn drawn(layer: LayerModel, page_height: Fixed) -> Option<DrawModel> {
    match layer.layer_type {
        LayerType::Text => match layer.content {
            Some(content) => {
                let font_size = match layer.font_size {
                    Some(s) => s,
                    None => Fixed::spec_from_int(12),
                };
                Some(
                    DrawModel::Text {
                        content,
                        font_size,
                        x: to_mm(layer.bounds.x),
                        y: to_mm(page_height.spec_minus(layer.bounds.y).spec_minus(font_size)),
                        bold: match layer.font_weight {
                            Some(w) => w >= 700,
                            None => false,
                        },
                        color: opt_color(layer.color),
                    },
                )
            },
            None => None,
        },
        LayerType::Shape => Some(
            DrawModel::Rectangle {
                x: to_mm(layer.bounds.x),
                y: to_mm(page_height.spec_minus(layer.bounds.y).spec_minus(layer.bounds.height)),
                width: to_mm(layer.bounds.width),
                height: to_mm(layer.bounds.height),
                fill: opt_color(layer.fill_color),
                stroke: opt_color(layer.stroke_color),
                stroke_width: match layer.stroke_width {
                    Some(w) => w,
                    None => Fixed::spec_one(),
                },
            },
        ),
        _ => None,
    }
}

fn color_of(color: &Option<String>) -> (r: Option<(u8, u8, u8)>)
    ensures
        r == opt_color(opt_text(*color)),
{
    match color {
        Some(c) => parse_hex_color(c.as_str()),
        None => None,
    }
}

/// Tells what is drawn for a layer.
pub fn draw_layer(layer: &LayerObject, page_height: Fixed) -> (r: Option<DrawCommand>)
    ensures
        match drawn(layer@, page_height) {
            Some(d) => r matches Some(c) && c@ == d,
            None => r is None,
        },
{
    match layer.layer_type {
        LayerType::Text => match &layer.content {
            Some(content) => {
                let font_size = match layer.font_size {
                    Some(s) => s,
                    None => Fixed::from_int(12),
                };
                Some(
                    DrawCommand::Text {
                        content: content.clone(),
                        font_size,
                        x: mm(layer.bounds.x),
                        y: mm(page_height.minus(layer.bounds.y).minus(font_size)),
                        bold: match layer.font_weight {
                            Some(w) => w >= 700,
                            None => false,
                        },
                        color: color_of(&layer.color),
                    },
                )
            },
            None => None,
        },
        LayerType::Shape => Some(
            DrawCommand::Rectangle {
                x: mm(layer.bounds.x),
                y: mm(page_height.minus(layer.bounds.y).minus(layer.bounds.height)),
                width: mm(layer.bounds.width),
                height: mm(layer.bounds.height),
                fill: color_of(&layer.fill_color),
                stroke: color_of(&layer.stroke_color),
                stroke_width: match layer.stroke_width {
                    Some(w) => w,
                    None => Fixed::one(),
                },
            },
        ),
        _ => None,
    }
}

/// The positions of the visible layers among the first `upto`, in order.
pub open spec fn visible_positions(layers: Seq<LayerModel>, upto: int) -> Seq<usize>
    decreases upto,
{
    if upto <= 0 {
        Seq::empty()
    } else if layers[upto - 1].visible {
        visible_positions(layers, upto - 1).push((upto - 1) as usize)
    } else {
        visible_positions(layers, upto - 1)
    }
}

/// The z-orders of the visible layers, as sorting keys.
pub open spec fn visible_keys(layers: Seq<LayerModel>) -> Seq<i64> {
    let v = visible_positions(layers, layers.len() as int);
    Seq::new(v.len(), |k: int| layers[v[k] as int].z_index as i64)
}

/// `order` lists the positions of the visible layers by ascending z-order,
/// layers of the same z-order in their order on the page.
pub open spec fn is_render_order(order: Seq<usize>, layers: Seq<LayerModel>) -> bool {
    let v = visible_positions(layers, layers.len() as int);
    exists|perm: Seq<usize>|
        {
            &&& #[trigger] is_stable_order(perm, visible_keys(layers))
            &&& order.len() == v.len()
            &&& forall|k: int| 0 <= k < order.len() ==> #[trigger] order[k] == v[perm[k] as int]
        }
}

/// Every visible position is a position of the page.
pub proof fn lemma_visible_in_range(layers: Seq<LayerModel>, upto: int)
    requires
        upto <= layers.len() <= usize::MAX,
    ensures
        forall|k: int|
            0 <= k < visible_positions(layers, upto).len() ==> (#[trigger] visible_positions(
                layers,
                upto,
            )[k]) < upto,
    decreases upto,
{
    if upto > 0 {
        lemma_visible_in_range(layers, upto - 1);
        let before = visible_positions(layers, upto - 1);
        assert forall|k: int| 0 <= k < visible_positions(layers, upto).len() implies (
        #[trigger] visible_positions(layers, upto)[k]) < upto by {
            if k < before.len() {
                assert(visible_positions(layers, upto)[k] == before[k]);
            }
        }
    }
}

/// The order in which the layers of a page are drawn: the visible ones, from
/// the lowest z-order up.
pub fn render_order(layers: &Vec<LayerObject>) -> (order: Vec<usize>)
    ensures
        is_render_order(order@, views(layers@)),
        forall|k: int| 0 <= k < order@.len() ==> (#[trigger] order@[k]) < layers@.len(),
{
    let ghost all = views(layers@);
    let mut found: Vec<usize> = Vec::new();
    let mut keys: Vec<i64> = Vec::new();
    let mut i: usize = 0;
    while i < layers.len()
        invariant
            i <= layers.len(),
            all == views(layers@),
            found@ == visible_positions(all, i as int),
            keys@.len() == found@.len(),
            forall|k: int|
                0 <= k < keys@.len() ==> (#[trigger] keys@[k]) == all[found@[k] as int].z_index as i64,
        decreases layers.len() - i,
    {
        if layers[i].visible {
            found.push(i);
            keys.push(layers[i].z_index as i64);
        }
        i += 1;
    }
    proof {
        lemma_visible_in_range(all, all.len() as int);
        assert(keys@ =~= visible_keys(all));
    }
    let perm = stable_order(&keys);
    let mut order: Vec<usize> = Vec::new();
    let mut k: usize = 0;
    while k < found.len()
        invariant
            k <= found@.len(),
            is_stable_order(perm@, keys@),
            keys@.len() == found@.len(),
            order@.len() == k,
            forall|j: int| 0 <= j < k ==> (#[trigger] order@[j]) == found@[perm@[j] as int],
        decreases found.len() - k,
    {
        order.push(found[perm[k]]);
        k += 1;
    }
    order
}

/// What is drawn on a page, in drawing order.
pub fn draw_page(page: &PageData) -> (commands: Vec<DrawCommand>)
    ensures
        exists|order: Seq<usize>|
            {
                &&& #[trigger] is_render_order(order, views(page.layers@))
                &&& views(commands@) == drawn_in_order(
                    views(page.layers@),
                    order,
                    page.height,
                    order.len() as int,
                )
            },
{
    let order = render_order(&page.layers);
    let ghost all = views(page.layers@);
    let mut commands: Vec<DrawCommand> = Vec::new();
    let mut k: usize = 0;
    assert(views(commands@) =~= drawn_in_order(all, order@, page.height, 0));
    while k < order.len()
        invariant
            k <= order@.len(),
            all == views(page.layers@),
            forall|j: int| 0 <= j < order@.len() ==> (#[trigger] order@[j]) < page.layers@.len(),
            views(commands@) == drawn_in_order(all, order@, page.height, k as int),
        decreases order.len() - k,
    {
        let ghost before = views(commands@);
        match draw_layer(&page.layers[order[k]], page.height) {
            Some(c) => {
                let ghost made = c@;
                commands.push(c);
                assert(views(commands@) =~= before.push(made));
            },
            None => {},
        }
        k += 1;
    }
    commands
}

/// What is drawn for the first `upto` layers of a drawing order.
pub open spec fn drawn_in_order(
    layers: Seq<LayerModel>,
    order: Seq<usize>,
    page_height: Fixed,
    upto: int,
) -> Seq<DrawModel>
    decreases upto,
{
    if upto <= 0 {
        Seq::empty()
    } else {
        let before = drawn_in_order(layers, order, page_height, upto - 1);
        match drawn(layers[order[upto - 1] as int], page_height) {
            Some(d) => before.push(d),
            None => before,
        }
    }
}

/// The paragraphs that a page gives to a DOCX: the contents of its visible
/// text layers, in drawing order.
pub open spec fn paragraphs_in_order(layers: Seq<LayerModel>, order: Seq<usize>, upto: int) -> Seq<
    Seq<char>,
>
    decreases upto,
{
    if upto <= 0 {
        Seq::empty()
    } else {
        let before = paragraphs_in_order(layers, order, upto - 1);
        let layer = layers[order[upto - 1] as int];
        if layer.layer_type == LayerType::Text && layer.content is Some {
            before.push(layer.content.unwrap())
        } else {
            before
        }
    }
}

/// The paragraphs that a page gives to a DOCX.
pub fn page_paragraphs(page: &PageData) -> (out: Vec<String>)
    ensures
        exists|order: Seq<usize>|
            {
                &&& #[trigger] is_render_order(order, views(page.layers@))
                &&& texts(out@) == paragraphs_in_order(
                    views(page.layers@),
                    order,
                    order.len() as int,
                )
            },
{
    let order = render_order(&page.layers);
    let ghost all = views(page.layers@);
    let mut out: Vec<String> = Vec::new();
    let mut k: usize = 0;
    assert(texts(out@) =~= paragraphs_in_order(all, order@, 0));
    while k < order.len()
        invariant
            k <= order@.len(),
            all == views(page.layers@),
            forall|j: int| 0 <= j < order@.len() ==> (#[trigger] order@[j]) < page.layers@.len(),
            texts(out@) == paragraphs_in_order(all, order@, k as int),
        decreases order.len() - k,
    {
        let layer = &page.layers[order[k]];
        let ghost before = texts(out@);
        match layer.layer_type {
            LayerType::Text => match &layer.content {
                Some(content) => {
                    out.push(content.clone());
                    assert(texts(out@) =~= before.push(content@));
                },
                None => {},
            },
            _ => {},
        }
        k += 1;
    }
    out
}

/// Whether the page at position `i` lies within a page range.
pub fn in_range(i: usize, range: (usize, usize)) -> (r: bool)
    ensures
        r == (range.0 <= i <= range.1),
{
    i >= range.0 && i <= range.1
}

/// The message of a finished PDF export.
pub open spec fn pdf_message(pages: nat) -> Seq<char> {
    "Exported "@ + decimal(pages) + " pages to PDF"@
}

/// The report of a finished export: success, the message, and where the
/// file is.
pub fn success_result(message: String, output_path: &str) -> (r: ExportResult)
    ensures
        r.success,
        r.message@ == message@,
        opt_text(r.output_path) == Some(output_path@),
{
    ExportResult { success: true, message, output_path: Some(output_path.to_string()) }
}

/// The report of a finished PDF export of `pages` pages.
pub fn pdf_result(pages: usize, output_path: &str) -> (r: ExportResult)
    ensures
        r.success,
        r.message@ == pdf_message(pages as nat),
        opt_text(r.output_path) == Some(output_path@),
{
    let mut message = "Exported ".to_string();
    push_decimal(&mut message, pages as u64);
    message.append(" pages to PDF");
    assert(message@ =~= pdf_message(pages as nat));
    success_result(message, output_path)
}

/// The report of a finished DOCX export.
pub fn docx_result(output_path: &str) -> (r: ExportResult)
    ensures
        r.success,
        r.message@ == "Exported to DOCX: "@ + output_path@,
        opt_text(r.output_path) == Some(output_path@),
{
    let mut message = "Exported to DOCX: ".to_string();
    message.append(output_path);
    success_result(message, output_path)
}

/// The report of a project that was exported.
pub fn bookproj_result(output_path: &str) -> (r: ExportResult)
    ensures
        r.success,
        r.message@ == "Project saved to: "@ + output_path@,
        opt_text(r.output_path) == Some(output_path@),
{
    let mut message = "Project saved to: ".to_string();
    message.append(output_path);
    success_result(message, output_path)
}

/// The report of a project that was saved.
pub fn saved_result(output_path: &str) -> (r: ExportResult)
    ensures
        r.success,
        r.message@ == "Project saved: "@ + output_path@,
        opt_text(r.output_path) == Some(output_path@),
{
    let mut message = "Project saved: ".to_string();
    message.append(output_path);
    success_result(message, output_path)
}

/// The report of an export that failed: the message of the error, and no
/// file.
pub fn failure_result(error: &ExportError) -> (r: ExportResult)
    ensures
        !r.success,
        r.message@ == error.spec_message(),
        r.output_path is None,
{
    ExportResult { success: false, message: error.to_string(), output_path: None }
}

/// The project that holds the given pages: the page size is that of the
/// first page, or letter size without pages; the settings are the usual
/// ones.
pub fn build_project(pages: Vec<PageData>, metadata: DocumentMetadata) -> (p: BookProjectData)
    ensures
        p.format@ == "bookproj"@,
        p.version@ == "1.0.0"@,
        p.metadata == metadata,
        p.document.pages == pages,
        p.document.page_width == if pages@.len() > 0 {
            pages@[0].width
        } else {
            Fixed::spec_from_int(612)
        },
        p.document.page_height == if pages@.len() > 0 {
            pages@[0].height
        } else {
            Fixed::spec_from_int(792)
        },
        opt_text(p.settings.default_font) == Some("Arial"@),
        p.settings.default_font_size == Some(Fixed::spec_from_int(12)),
        opt_text(p.settings.export_quality) == Some("standard"@),
{
    let page_width = if pages.len() > 0 {
        pages[0].width
    } else {
        Fixed::from_int(612)
    };
    let page_height = if pages.len() > 0 {
        pages[0].height
    } else {
        Fixed::from_int(792)
    };
    BookProjectData {
        format: "bookproj".to_string(),
        version: "1.0.0".to_string(),
        metadata,
        document: DocumentData { page_width, page_height, pages },
        settings: ProjectSettings {
            default_font: Some("Arial".to_string()),
            default_font_size: Some(Fixed::from_int(12)),
            export_quality: Some("standard".to_string()),
        },
    }
}

/// Whether `commands` is what is drawn on `page`: its visible layers from
/// the lowest z-order up.
pub open spec fn is_drawing_of(commands: Seq<DrawModel>, page: PageData) -> bool {
    exists|order: Seq<usize>|
        {
            &&& #[trigger] is_render_order(order, views(page.layers@))
            &&& commands == drawn_in_order(
                views(page.layers@),
                order,
                page.height,
                order.len() as int,
            )
        }
}

/// Whether `paragraphs` is what `page` gives to a DOCX.
pub open spec fn is_paragraphs_of(paragraphs: Seq<Seq<char>>, page: PageData) -> bool {
    exists|order: Seq<usize>|
        {
            &&& #[trigger] is_render_order(order, views(page.layers@))
            &&& paragraphs == paragraphs_in_order(
                views(page.layers@),
                order,
                order.len() as int,
            )
        }
}

/// One page of a PDF that is to be written: its size in millimetres and
/// what is drawn on it.
#[derive(Debug, Clone)]
pub struct PdfPagePlan {
    pub width: Fixed,
    pub height: Fixed,
    pub commands: Vec<DrawCommand>,
}

/// Plans the pages of a PDF: one for each page of the range, in order. A
/// page range that is out of order or ends beyond the pages is an error.
pub fn pdf_plan(pages: &Vec<PageData>, asked: Option<(usize, usize)>) -> (r: Result<
    Vec<PdfPagePlan>,
    ExportError,
>)
    ensures
        range_is_valid(wanted_range(asked, pages@.len()), pages@.len()) ==> (r matches Ok(plan) && {
            let first = wanted_range(asked, pages@.len()).0;
            let last = wanted_range(asked, pages@.len()).1;
            &&& plan@.len() == last - first + 1
            &&& forall|k: int|
                0 <= k < plan@.len() ==> {
                    &&& (#[trigger] plan@[k]).width == to_mm(pages@[first + k].width)
                    &&& plan@[k].height == to_mm(pages@[first + k].height)
                    &&& is_drawing_of(views(plan@[k].commands@), pages@[first + k])
                }
        }),
        !range_is_valid(wanted_range(asked, pages@.len()), pages@.len()) ==> (r matches Err(
            ExportError::InvalidPageRange(why),
        ) && why@ == range_complaint(wanted_range(asked, pages@.len()), pages@.len())),
{
    let range = match resolve_page_range(asked, pages.len()) {
        Ok(range) => range,
        Err(e) => {
            return Err(e);
        },
    };
    let mut plan: Vec<PdfPagePlan> = Vec::new();
    let mut i: usize = range.0;
    while i <= range.1
        invariant
            range.0 <= i <= range.1 + 1,
            range.1 < pages.len(),
            plan@.len() == i - range.0,
            forall|k: int|
                0 <= k < plan@.len() ==> {
                    &&& (#[trigger] plan@[k]).width == to_mm(pages@[range.0 + k].width)
                    &&& plan@[k].height == to_mm(pages@[range.0 + k].height)
                    &&& is_drawing_of(views(plan@[k].commands@), pages@[range.0 + k])
                },
        decreases range.1 + 1 - i,
    {
        let page = &pages[i];
        let commands = draw_page(page);
        plan.push(PdfPagePlan { width: mm(page.width), height: mm(page.height), commands });
        i += 1;
    }
    Ok(plan)
}

/// The first page and the page after the last of a range that was asked for
/// or, where none was, of all pages; both within the `count` pages.
pub open spec fn clipped_range(asked: Option<(usize, usize)>, count: nat) -> (int, int) {
    let range = wanted_range(asked, count);
    let end = if range.1 + 1 < count {
        range.1 + 1
    } else {
        count as int
    };
    if range.0 < end {
        (range.0, end)
    } else {
        (0, 0)
    }
}

/// The paragraphs of a DOCX: for each page of the range that the document
/// has, in order, the texts of its visible text layers. The range is taken
/// as it is: what lies beyond the pages is left out.
pub fn docx_paragraphs(pages: &Vec<PageData>, asked: Option<(usize, usize)>) -> (out: Vec<
    Vec<String>,
>)
    ensures
        ({
            let first = clipped_range(asked, pages@.len()).0;
            let end = clipped_range(asked, pages@.len()).1;
            &&& out@.len() == end - first
            &&& forall|k: int|
                0 <= k < out@.len() ==> is_paragraphs_of(
                    texts((#[trigger] out@[k])@),
                    pages@[first + k],
                )
        }),
{
    let range = match asked {
        Some(r) => r,
        None => (
            0,
            if pages.len() == 0 {
                0
            } else {
                pages.len() - 1
            },
        ),
    };
    let end: usize = if range.1 < pages.len() {
        range.1 + 1
    } else {
        pages.len()
    };
    let mut out: Vec<Vec<String>> = Vec::new();
    if range.0 >= end {
        return out;
    }
    let mut i: usize = range.0;
    while i < end
        invariant
            range.0 <= i <= end <= pages@.len(),
            out@.len() == i - range.0,
            forall|k: int|
                0 <= k < out@.len() ==> is_paragraphs_of(
                    texts((#[trigger] out@[k])@),
                    pages@[range.0 + k],
                ),
        decreases end - i,
    {
        out.push(page_paragraphs(&pages[i]));
        i += 1;
    }
    out
}

} // verus!
