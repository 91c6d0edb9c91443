//! The document model: layers, pages, geometry.

use crate::clock::unix_seconds;
use crate::fixed::Fixed;
use crate::text::{decimal, left_padded, push_char, push_decimal_padded};
use vstd::prelude::*;

verus! {

broadcast use vstd::string::group_string_axioms;

/// The kind of a layer.
#[derive(Debug, Clone, Copy, PartialEq, Eq, Hash, Structural)]
pub enum LayerType {
    Text,
    Image,
    Vector,
    Shape,
}

impl LayerType {
    /// The lower-case name of the kind.
    pub open spec fn name(self) -> Seq<char> {
        match self {
            LayerType::Text => "text"@,
            LayerType::Image => "image"@,
            LayerType::Vector => "vector"@,
            LayerType::Shape => "shape"@,
        }
    }

    /// The lower-case name of the kind, as text.
    pub fn to_string(&self) -> (s: String)
        ensures
            s@ == self.name(),
    {
        match self {
            LayerType::Text => "text".to_string(),
            LayerType::Image => "image".to_string(),
            LayerType::Vector => "vector".to_string(),
            LayerType::Shape => "shape".to_string(),
        }
    }
}

/// Horizontal alignment of text.
#[derive(Debug, Clone, Copy, PartialEq, Eq, Structural)]
pub enum TextAlign {
    Left,
    Center,
    Right,
}

impl Default for TextAlign {
    fn default() -> (r: Self)
        ensures
            r == TextAlign::Left,
    {
        TextAlign::Left
    }
}

/// The geometry of a shape layer.
#[derive(Debug, Clone, Copy, PartialEq, Eq, Structural)]
pub enum ShapeType {
    Rectangle,
    Circle,
    Line,
    Polygon,
}

/// How a layer came to be.
#[derive(Debug, Clone, Copy, PartialEq, Eq, Structural)]
pub enum SourceType {
    Extracted,
    Manual,
    Imported,
}

impl SourceType {
    /// The lower-case name of the source.
    pub open spec fn name(self) -> Seq<char> {
        match self {
            SourceType::Extracted => "extracted"@,
            SourceType::Manual => "manual"@,
            SourceType::Imported => "imported"@,
        }
    }

    /// The lower-case name of the source, as text.
    pub fn to_string(&self) -> (s: String)
        ensures
            s@ == self.name(),
    {
        match self {
            SourceType::Extracted => "extracted".to_string(),
            SourceType::Manual => "manual".to_string(),
            SourceType::Imported => "imported".to_string(),
        }
    }
}

/// The part a layer plays on its page.
#[derive(Debug, Clone, Copy, PartialEq, Eq, Structural)]
pub enum LayerRole {
    Background,
    Content,
    Header,
    Footer,
    Annotation,
}

impl LayerRole {
    /// The lower-case name of the role.
    pub open spec fn name(self) -> Seq<char> {
        match self {
            LayerRole::Background => "background"@,
            LayerRole::Content => "content"@,
            LayerRole::Header => "header"@,
            LayerRole::Footer => "footer"@,
            LayerRole::Annotation => "annotation"@,
        }
    }

    /// The lower-case name of the role, as text.
    pub fn to_string(&self) -> (s: String)
        ensures
            s@ == self.name(),
    {
        match self {
            LayerRole::Background => "background".to_string(),
            LayerRole::Content => "content".to_string(),
            LayerRole::Header => "header".to_string(),
            LayerRole::Footer => "footer".to_string(),
            LayerRole::Annotation => "annotation".to_string(),
        }
    }
}

/// An axis-aligned box in points, measured from the top-left corner.
#[derive(Debug, Clone, Copy, PartialEq, Eq, Structural)]
pub struct Bounds {
    pub x: Fixed,
    pub y: Fixed,
    pub width: Fixed,
    pub height: Fixed,
}

impl Bounds {
    /// The box with both extents raised to at least one point.
    pub open spec fn spec_clamp_positive(self) -> Bounds {
        Bounds {
            x: self.x,
            y: self.y,
            width: self.width.spec_max(Fixed::spec_one()),
            height: self.height.spec_max(Fixed::spec_one()),
        }
    }

    /// The box with the given corner and extents.
    pub fn new(x: Fixed, y: Fixed, width: Fixed, height: Fixed) -> (b: Bounds)
        ensures
            b == (Bounds { x, y, width, height }),
    {
        Bounds { x, y, width, height }
    }

    /// Raises both extents to at least one point; the corner stays.
    pub fn clamp_positive(&self) -> (b: Bounds)
        ensures
            b == self.spec_clamp_positive(),
    {
        Bounds {
            x: self.x,
            y: self.y,
            width: self.width.max(Fixed::one()),
            height: self.height.max(Fixed::one()),
        }
    }
}

/// A 2D affine map `(x, y) -> (a·x + c·y + e, b·x + d·y + f)`.
#[derive(Debug, Clone, Copy, PartialEq, Eq, Structural)]
pub struct TransformMatrix {
    pub a: Fixed,
    pub b: Fixed,
    pub c: Fixed,
    pub d: Fixed,
    pub e: Fixed,
    pub f: Fixed,
}

impl TransformMatrix {
    /// The map that moves nothing.
    pub open spec fn spec_identity() -> TransformMatrix {
        TransformMatrix {
            a: Fixed::spec_one(),
            b: Fixed::spec_zero(),
            c: Fixed::spec_zero(),
            d: Fixed::spec_one(),
            e: Fixed::spec_zero(),
            f: Fixed::spec_zero(),
        }
    }

    /// The shift by `(tx, ty)`.
    pub open spec fn spec_translate(tx: Fixed, ty: Fixed) -> TransformMatrix {
        TransformMatrix {
            a: Fixed::spec_one(),
            b: Fixed::spec_zero(),
            c: Fixed::spec_zero(),
            d: Fixed::spec_one(),
            e: tx,
            f: ty,
        }
    }

    /// The scaling by `sx` along x and `sy` along y.
    pub open spec fn spec_scale(sx: Fixed, sy: Fixed) -> TransformMatrix {
        TransformMatrix {
            a: sx,
            b: Fixed::spec_zero(),
            c: Fixed::spec_zero(),
            d: sy,
            e: Fixed::spec_zero(),
            f: Fixed::spec_zero(),
        }
    }

    /// The composition that applies `self` first and `other` second.
    pub open spec fn spec_multiply(self, other: TransformMatrix) -> TransformMatrix {
        TransformMatrix {
            a: self.a.spec_times(other.a).spec_plus(self.b.spec_times(other.c)),
            b: self.a.spec_times(other.b).spec_plus(self.b.spec_times(other.d)),
            c: self.c.spec_times(other.a).spec_plus(self.d.spec_times(other.c)),
            d: self.c.spec_times(other.b).spec_plus(self.d.spec_times(other.d)),
            e: self.e.spec_times(other.a).spec_plus(self.f.spec_times(other.c)).spec_plus(other.e),
            f: self.e.spec_times(other.b).spec_plus(self.f.spec_times(other.d)).spec_plus(other.f),
        }
    }

    /// The image of the point `(x, y)`.
    pub open spec fn spec_transform_point(self, x: Fixed, y: Fixed) -> (Fixed, Fixed) {
        (
            self.a.spec_times(x).spec_plus(self.c.spec_times(y)).spec_plus(self.e),
            self.b.spec_times(x).spec_plus(self.d.spec_times(y)).spec_plus(self.f),
        )
    }

    /// The horizontal scale factor `sqrt(a² + c²)`.
    pub open spec fn spec_scale_x(self) -> Fixed {
        self.a.spec_hypot(self.c)
    }

    /// The vertical scale factor `sqrt(b² + d²)`.
    pub open spec fn spec_scale_y(self) -> Fixed {
        self.b.spec_hypot(self.d)
    }

    /// The map that moves nothing.
    pub fn identity() -> (m: TransformMatrix)
        ensures
            m == TransformMatrix::spec_identity(),
    {
        TransformMatrix {
            a: Fixed::one(),
            b: Fixed::zero(),
            c: Fixed::zero(),
            d: Fixed::one(),
            e: Fixed::zero(),
            f: Fixed::zero(),
        }
    }

    /// The shift by `(tx, ty)`.
    pub fn translate(tx: Fixed, ty: Fixed) -> (m: TransformMatrix)
        ensures
            m == TransformMatrix::spec_translate(tx, ty),
    {
        TransformMatrix {
            a: Fixed::one(),
            b: Fixed::zero(),
            c: Fixed::zero(),
            d: Fixed::one(),
            e: tx,
            f: ty,
        }
    }

    /// The scaling by `sx` along x and `sy` along y.
    pub fn scale(sx: Fixed, sy: Fixed) -> (m: TransformMatrix)
        ensures
            m == TransformMatrix::spec_scale(sx, sy),
    {
        TransformMatrix {
            a: sx,
            b: Fixed::zero(),
            c: Fixed::zero(),
            d: sy,
            e: Fixed::zero(),
            f: Fixed::zero(),
        }
    }

    /// Composes two maps: the result applies `self` first and `other` second.
    pub fn multiply(&self, other: &TransformMatrix) -> (m: TransformMatrix)
        ensures
            m == self.spec_multiply(*other),
    {
        TransformMatrix {
            a: self.a.times(other.a).plus(self.b.times(other.c)),
            b: self.a.times(other.b).plus(self.b.times(other.d)),
            c: self.c.times(other.a).plus(self.d.times(other.c)),
            d: self.c.times(other.b).plus(self.d.times(other.d)),
            e: self.e.times(other.a).plus(self.f.times(other.c)).plus(other.e),
            f: self.e.times(other.b).plus(self.f.times(other.d)).plus(other.f),
        }
    }

    /// Maps the point `(x, y)`.
    pub fn transform_point(&self, x: Fixed, y: Fixed) -> (p: (Fixed, Fixed))
        ensures
            p == self.spec_transform_point(x, y),
    {
        (
            self.a.times(x).plus(self.c.times(y)).plus(self.e),
            self.b.times(x).plus(self.d.times(y)).plus(self.f),
        )
    }

    /// The horizontal scale factor.
    pub fn scale_x(&self) -> (s: Fixed)
        ensures
            s == self.spec_scale_x(),
    {
        self.a.hypot(self.c)
    }

    /// The vertical scale factor.
    pub fn scale_y(&self) -> (s: Fixed)
        ensures
            s == self.spec_scale_y(),
    {
        self.b.hypot(self.d)
    }
}

impl Default for TransformMatrix {
    fn default() -> (m: Self)
        ensures
            m == TransformMatrix::spec_identity(),
    {
        TransformMatrix::identity()
    }
}

/// Composing with the identity, on either side, gives the matrix back.
pub proof fn law_identity_is_neutral(m: TransformMatrix)
    ensures
        TransformMatrix::spec_identity().spec_multiply(m) == m,
        m.spec_multiply(TransformMatrix::spec_identity()) == m,
{
    crate::fixed::lemma_times_one(m.a);
    crate::fixed::lemma_times_one(m.b);
    crate::fixed::lemma_times_one(m.c);
    crate::fixed::lemma_times_one(m.d);
    crate::fixed::lemma_times_one(m.e);
    crate::fixed::lemma_times_one(m.f);
    crate::fixed::lemma_times_zero(m.a);
    crate::fixed::lemma_times_zero(m.b);
    crate::fixed::lemma_times_zero(m.c);
    crate::fixed::lemma_times_zero(m.d);
    crate::fixed::lemma_times_zero(m.e);
    crate::fixed::lemma_times_zero(m.f);
    crate::fixed::lemma_plus_zero(m.a);
    crate::fixed::lemma_plus_zero(m.b);
    crate::fixed::lemma_plus_zero(m.c);
    crate::fixed::lemma_plus_zero(m.d);
    crate::fixed::lemma_plus_zero(m.e);
    crate::fixed::lemma_plus_zero(m.f);
}

/// The identity maps every point to itself.
pub proof fn law_identity_fixes_points(x: Fixed, y: Fixed)
    ensures
        TransformMatrix::spec_identity().spec_transform_point(x, y) == (x, y),
{
    crate::fixed::lemma_times_one(x);
    crate::fixed::lemma_times_one(y);
    crate::fixed::lemma_times_zero(x);
    crate::fixed::lemma_times_zero(y);
    crate::fixed::lemma_plus_zero(x);
    crate::fixed::lemma_plus_zero(y);
}

/// One step of a path.
#[derive(Debug, Clone, Copy, PartialEq, Eq, Structural)]
pub enum PathCommand {
    MoveTo { x: Fixed, y: Fixed },
    LineTo { x: Fixed, y: Fixed },
    CurveTo { x1: Fixed, y1: Fixed, x2: Fixed, y2: Fixed, x: Fixed, y: Fixed },
    ClosePath,
}

/// How the inside of a path is decided.
#[derive(Debug, Clone, Copy, PartialEq, Eq, Structural)]
pub enum FillRule {
    NonZero,
    EvenOdd,
}

/// The commands of a vector layer.
#[derive(Debug, Clone, PartialEq)]
pub struct PathData {
    pub commands: Vec<PathCommand>,
    pub fill_rule: Option<FillRule>,
}

/// What is known of an image.
#[derive(Debug, Clone, PartialEq, Eq)]
pub struct ImageMetadata {
    pub width: u32,
    pub height: u32,
    pub color_space: String,
    pub dpi: u32,
}

/// The mathematical content of an [`ImageMetadata`].
pub struct ImageMetaModel {
    pub width: u32,
    pub height: u32,
    pub color_space: Seq<char>,
    pub dpi: u32,
}

impl View for ImageMetadata {
    type V = ImageMetaModel;

    open spec fn view(&self) -> ImageMetaModel {
        ImageMetaModel {
            width: self.width,
            height: self.height,
            color_space: self.color_space@,
            dpi: self.dpi,
        }
    }
}

/// A discrete visual element on a page.
#[derive(Debug, Clone, PartialEq)]
pub struct LayerObject {
    pub id: String,
    pub layer_type: LayerType,
    pub bounds: Bounds,
    pub visible: bool,
    pub locked: bool,
    pub z_index: i32,
    pub opacity: Fixed,
    pub content: Option<String>,
    pub font_family: Option<String>,
    pub font_size: Option<Fixed>,
    pub font_weight: Option<u16>,
    pub font_style: Option<String>,
    pub color: Option<String>,
    pub text_align: Option<TextAlign>,
    pub text_decoration: Option<String>,
    pub text_transform: Option<String>,
    pub line_height: Option<Fixed>,
    pub letter_spacing: Option<Fixed>,
    pub background_color: Option<String>,
    pub image_url: Option<String>,
    pub image_path: Option<String>,
    pub image_data: Option<ImageMetadata>,
    pub shape_type: Option<ShapeType>,
    pub stroke_color: Option<String>,
    pub stroke_width: Option<Fixed>,
    pub fill_color: Option<String>,
    pub path_data: Option<PathData>,
    pub transform: Option<TransformMatrix>,
    pub source_type: SourceType,
    pub role: LayerRole,
}

/// The characters of an optional text.
pub open spec fn opt_text(s: Option<String>) -> Option<Seq<char>> {
    match s {
        Some(t) => Some(t@),
        None => None,
    }
}

/// The mathematical content of a [`LayerObject`].
pub struct LayerModel {
    pub id: Seq<char>,
    pub layer_type: LayerType,
    pub bounds: Bounds,
    pub visible: bool,
    pub locked: bool,
    pub z_index: int,
    pub opacity: Fixed,
    pub content: Option<Seq<char>>,
    pub font_family: Option<Seq<char>>,
    pub font_size: Option<Fixed>,
    pub font_weight: Option<u16>,
    pub font_style: Option<Seq<char>>,
    pub color: Option<Seq<char>>,
    pub text_align: Option<TextAlign>,
    pub text_decoration: Option<Seq<char>>,
    pub text_transform: Option<Seq<char>>,
    pub line_height: Option<Fixed>,
    pub letter_spacing: Option<Fixed>,
    pub background_color: Option<Seq<char>>,
    pub image_url: Option<Seq<char>>,
    pub image_path: Option<Seq<char>>,
    pub image_data: Option<ImageMetaModel>,
    pub shape_type: Option<ShapeType>,
    pub stroke_color: Option<Seq<char>>,
    pub stroke_width: Option<Fixed>,
    pub fill_color: Option<Seq<char>>,
    pub path_commands: Option<Seq<PathCommand>>,
    pub path_fill_rule: Option<FillRule>,
    pub transform: Option<TransformMatrix>,
    pub source_type: SourceType,
    pub role: LayerRole,
}

impl View for LayerObject {
    type V = LayerModel;

    open spec fn view(&self) -> LayerModel {
        LayerModel {
            id: self.id@,
            layer_type: self.layer_type,
            bounds: self.bounds,
            visible: self.visible,
            locked: self.locked,
            z_index: self.z_index as int,
            opacity: self.opacity,
            content: opt_text(self.content),
            font_family: opt_text(self.font_family),
            font_size: self.font_size,
            font_weight: self.font_weight,
            font_style: opt_text(self.font_style),
            color: opt_text(self.color),
            text_align: self.text_align,
            text_decoration: opt_text(self.text_decoration),
            text_transform: opt_text(self.text_transform),
            line_height: self.line_height,
            letter_spacing: self.letter_spacing,
            background_color: opt_text(self.background_color),
            image_url: opt_text(self.image_url),
            image_path: opt_text(self.image_path),
            image_data: match self.image_data {
                Some(data) => Some(data@),
                None => None,
            },
            shape_type: self.shape_type,
            stroke_color: opt_text(self.stroke_color),
            stroke_width: self.stroke_width,
            fill_color: opt_text(self.fill_color),
            path_commands: match self.path_data {
                Some(data) => Some(data.commands@),
                None => None,
            },
            path_fill_rule: match self.path_data {
                Some(data) => data.fill_rule,
                None => None,
            },
            transform: self.transform,
            source_type: self.source_type,
            role: self.role,
        }
    }
}

/// The plain layer of a kind: visible, unlocked, opaque, at z-order zero, an
/// extracted content layer with an empty box and nothing else set.
pub open spec fn plain_layer(id: Seq<char>, layer_type: LayerType) -> LayerModel {
    LayerModel {
        id,
        layer_type,
        bounds: Bounds {
            x: Fixed::spec_zero(),
            y: Fixed::spec_zero(),
            width: Fixed::spec_zero(),
            height: Fixed::spec_zero(),
        },
        visible: true,
        locked: false,
        z_index: 0,
        opacity: Fixed::spec_one(),
        content: None,
        font_family: None,
        font_size: None,
        font_weight: None,
        font_style: None,
        color: None,
        text_align: None,
        text_decoration: None,
        text_transform: None,
        line_height: None,
        letter_spacing: None,
        background_color: None,
        image_url: None,
        image_path: None,
        image_data: None,
        shape_type: None,
        stroke_color: None,
        stroke_width: None,
        fill_color: None,
        path_commands: None,
        path_fill_rule: None,
        transform: None,
        source_type: SourceType::Extracted,
        role: LayerRole::Content,
    }
}

impl LayerObject {
    /// The plain layer of a kind, to be filled in.
    pub fn plain(id: String, layer_type: LayerType) -> (layer: LayerObject)
        ensures
            layer@ == plain_layer(id@, layer_type),
            layer.image_data is None,
    {
        LayerObject {
            id,
            layer_type,
            bounds: Bounds::new(Fixed::zero(), Fixed::zero(), Fixed::zero(), Fixed::zero()),
            visible: true,
            locked: false,
            z_index: 0,
            opacity: Fixed::one(),
            content: None,
            font_family: None,
            font_size: None,
            font_weight: None,
            font_style: None,
            color: None,
            text_align: None,
            text_decoration: None,
            text_transform: None,
            line_height: None,
            letter_spacing: None,
            background_color: None,
            image_url: None,
            image_path: None,
            image_data: None,
            shape_type: None,
            stroke_color: None,
            stroke_width: None,
            fill_color: None,
            path_data: None,
            transform: None,
            source_type: SourceType::Extracted,
            role: LayerRole::Content,
        }
    }
}

/// The z-order of the layer with the running number `n`: the number itself,
/// held at the largest z-order.
pub open spec fn z_of(n: int) -> int {
    if n > i32::MAX {
        i32::MAX as int
    } else {
        n
    }
}

/// Gives the z-order of the layer with the running number `n`.
pub fn z_index_of(n: usize) -> (z: i32)
    ensures
        z == z_of(n as int),
{
    if n > 0x7fff_ffff {
        0x7fff_ffff
    } else {
        n as i32
    }
}

/// A count as a number; a count beyond the range of numbers is held at the
/// largest.
pub fn count_to_fixed(n: usize) -> (r: Fixed)
    ensures
        r == Fixed::spec_from_int(n as int),
{
    let wide: u64 = n as u64;
    if wide > 0x7fff_ffff_ffff_ffff {
        Fixed::largest()
    } else {
        Fixed::from_int(wide as i64)
    }
}

/// Where a page came from.
#[derive(Debug, Clone, PartialEq)]
pub struct PageMetadata {
    pub original_page_index: Option<usize>,
    pub rotation: Option<u16>,
    pub media_box: Option<[Fixed; 4]>,
}

/// A single page with its layers.
#[derive(Debug, Clone, PartialEq)]
pub struct PageData {
    pub page_index: usize,
    pub width: Fixed,
    pub height: Fixed,
    pub dpi: Option<u32>,
    pub layers: Vec<LayerObject>,
    pub metadata: Option<PageMetadata>,
}

/// All pages of a document.
#[derive(Debug, Clone, PartialEq)]
pub struct DocumentData {
    pub page_width: Fixed,
    pub page_height: Fixed,
    pub pages: Vec<PageData>,
}

/// The outcome of an import.
#[derive(Debug, Clone)]
pub struct DocumentResponse {
    pub success: bool,
    pub message: String,
    pub data: Option<DocumentData>,
}

/// The outcome of an export.
#[derive(Debug, Clone)]
pub struct ExportResult {
    pub success: bool,
    pub message: String,
    pub output_path: Option<String>,
}

/// The changes asked for on one layer; an absent field leaves the layer's
/// value as it is.
#[derive(Debug, Clone)]
pub struct LayerUpdates {
    pub bounds: Option<Bounds>,
    pub visible: Option<bool>,
    pub locked: Option<bool>,
    pub z_index: Option<i32>,
    pub opacity: Option<Fixed>,
    pub content: Option<String>,
    pub font_family: Option<String>,
    pub font_size: Option<Fixed>,
    pub font_weight: Option<u16>,
    pub font_style: Option<String>,
    pub color: Option<String>,
    pub text_align: Option<TextAlign>,
    pub text_decoration: Option<String>,
    pub text_transform: Option<String>,
    pub line_height: Option<Fixed>,
    pub letter_spacing: Option<Fixed>,
    pub background_color: Option<String>,
    pub role: Option<LayerRole>,
}

impl Default for LayerUpdates {
    fn default() -> (u: Self)
        ensures
            u.bounds is None,
            u.visible is None,
            u.locked is None,
            u.z_index is None,
            u.opacity is None,
            u.content is None,
            u.font_family is None,
            u.font_size is None,
            u.font_weight is None,
            u.font_style is None,
            u.color is None,
            u.text_align is None,
            u.text_decoration is None,
            u.text_transform is None,
            u.line_height is None,
            u.letter_spacing is None,
            u.background_color is None,
            u.role is None,
    {
        LayerUpdates {
            bounds: None,
            visible: None,
            locked: None,
            z_index: None,
            opacity: None,
            content: None,
            font_family: None,
            font_size: None,
            font_weight: None,
            font_style: None,
            color: None,
            text_align: None,
            text_decoration: None,
            text_transform: None,
            line_height: None,
            letter_spacing: None,
            background_color: None,
            role: None,
        }
    }
}

/// Whether a year of the Gregorian calendar is a leap year.
pub open spec fn is_leap_year(y: int) -> bool {
    y % 4 == 0 && (y % 100 != 0 || y % 400 == 0)
}

/// The number of days of a month.
pub open spec fn days_in_month(y: int, m: int) -> int {
    if m == 2 {
        if is_leap_year(y) {
            29
        } else {
            28
        }
    } else if m == 4 || m == 6 || m == 9 || m == 11 {
        30
    } else {
        31
    }
}

/// A day that the proleptic Gregorian calendar has.
pub open spec fn is_date(y: int, m: int, d: int) -> bool {
    1 <= m <= 12 && 1 <= d <= days_in_month(y, m)
}

/// The number of days from 1970-01-01 to the given day of the proleptic
/// Gregorian calendar.
pub open spec fn days_from_civil(y: int, m: int, d: int) -> int {
    let yy = if m <= 2 {
        y - 1
    } else {
        y
    };
    let era = yy / 400;
    let yoe = yy - era * 400;
    let mp = if m > 2 {
        m - 3
    } else {
        m + 9
    };
    let doy = (153 * mp + 2) / 5 + d - 1;
    let doe = yoe * 365 + yoe / 4 - yoe / 100 + doy;
    era * 146097 + doe - 719468
}

/// The days before year `y` of a 400-year era, the years counted from March.
pub open spec fn days_before_year(y: int) -> int {
    365 * y + y / 4 - y / 100
}

/// The days of the year before month `mp`, the months counted from March.
pub open spec fn days_before_month(mp: int) -> int {
    (153 * mp + 2) / 5
}

proof fn lemma_year_of_era(doe: u32, yoe: u32)
    requires
        doe < 146097,
        yoe == (doe - doe / 1460 + doe / 36524 - doe / 146096) / 365,
    ensures
        yoe <= 399,
        days_before_year(yoe as int) <= doe,
        doe - days_before_year(yoe as int) <= 365,
        doe - days_before_year(yoe as int) == 365 ==> is_leap_year(yoe + 1),
{
    let t: u32 = (doe - doe / 1460 + doe / 36524 - doe / 146096) as u32;
    assert(yoe == t / 365u32);
    let y1: u32 = (yoe + 1) as u32;
    assert(yoe <= 399u32 && ((365u32 * yoe + yoe / 4u32 - yoe / 100u32) as u32) <= doe && doe - ((
    365u32 * yoe + yoe / 4u32 - yoe / 100u32) as u32) <= 365u32 && (doe - ((365u32 * yoe + yoe
        / 4u32 - yoe / 100u32) as u32) == 365u32 ==> (y1 % 4u32 == 0u32 && (y1 % 100u32 != 0u32
        || y1 % 400u32 == 0u32)))) by (bit_vector)
        requires
            doe < 146097u32,
            yoe == ((doe - doe / 1460u32 + doe / 36524u32 - doe / 146096u32) as u32) / 365u32,
            y1 == (yoe + 1u32) as u32,
    ;
}

proof fn lemma_month_of_year(doy: u32, mp: u32)
    requires
        doy <= 365,
        mp == (5 * doy + 2) / 153,
    ensures
        mp <= 11,
        days_before_month(mp as int) <= doy,
        mp == 0 || mp == 2 || mp == 4 || mp == 5 || mp == 7 || mp == 9 || mp == 10 ==> doy
            - days_before_month(mp as int) <= 30,
        mp == 1 || mp == 3 || mp == 6 || mp == 8 ==> doy - days_before_month(mp as int) <= 29,
        mp == 11 ==> doy - days_before_month(mp as int) <= 28,
        mp == 11 && doy - days_before_month(mp as int) == 28 ==> doy == 365,
{
    let t: u32 = (5 * doy + 2) as u32;
    assert(mp == t / 153u32);
    let b: u32 = ((153 * mp + 2) / 5) as u32;
    assert(mp <= 11u32 && b <= doy && ((mp == 0u32 || mp == 2u32 || mp == 4u32 || mp == 5u32 || mp
        == 7u32 || mp == 9u32 || mp == 10u32) ==> doy - b <= 30u32) && ((mp == 1u32 || mp == 3u32
        || mp == 6u32 || mp == 8u32) ==> doy - b <= 29u32) && (mp == 11u32 ==> doy - b <= 28u32)
        && (mp == 11u32 && doy - b == 28u32 ==> doy == 365u32)) by (bit_vector)
        requires
            doy <= 365u32,
            mp == ((5u32 * doy + 2u32) as u32) / 153u32,
            b == ((153u32 * mp + 2u32) as u32) / 5u32,
    ;
}

/// The date put together from its parts within a 400-year era counts back
/// to the day it was taken from.
proof fn lemma_civil_round_trip(z: int, era: int, yoe: int, doy: int, mp: int)
    requires
        0 <= yoe <= 399,
        0 <= mp <= 11,
        z == era * 146097 + days_before_year(yoe) + doy,
    ensures
        ({
            let d = doy - days_before_month(mp) + 1;
            let m = if mp < 10 {
                mp + 3
            } else {
                mp - 9
            };
            let year = if m <= 2 {
                yoe + era * 400 + 1
            } else {
                yoe + era * 400
            };
            days_from_civil(year, m, d) == z - 719468
        }),
{
    let m = if mp < 10 {
        mp + 3
    } else {
        mp - 9
    };
    let yy = yoe + era * 400;
    vstd::arithmetic::div_mod::lemma_fundamental_div_mod_converse(yy, 400, era, yoe);
    assert(yy / 400 == era);
    assert(yy - era * 400 == yoe);
    assert((if m > 2 {
        m - 3
    } else {
        m + 9
    }) == mp);
}

/// Leap years repeat every 400 years.
proof fn lemma_leap_in_era(y: int, era: int)
    ensures
        is_leap_year(y + era * 400) == is_leap_year(y),
{
    vstd::arithmetic::div_mod::lemma_mod_multiples_vanish(era * 100, y, 4);
    vstd::arithmetic::div_mod::lemma_mod_multiples_vanish(era * 4, y, 100);
    vstd::arithmetic::div_mod::lemma_mod_multiples_vanish(era, y, 400);
    assert(4 * (era * 100) + y == y + era * 400);
    assert(100 * (era * 4) + y == y + era * 400);
    assert(400 * era + y == y + era * 400);
}

/// The date of the day that lies `days` days after 1970-01-01, or before it
/// where `days` is negative. Days whose count from 0000-03-01 leaves 64
/// bits are not taken.
pub fn days_to_ymd(days: i64) -> (r: (i64, u32, u32))
    requires
        days <= i64::MAX - 719_468,
    ensures
        is_date(r.0 as int, r.1 as int, r.2 as int),
        days_from_civil(r.0 as int, r.1 as int, r.2 as int) == days,
        days >= -719_468 ==> r.0 >= 0,
{
    let z: i64 = days + 719468;
    let era: i64 = if z >= 0 {
        z / 146097
    } else {
        let back: u64 = (-z) as u64;
        -(((back + 146096) / 146097) as i64)
    };
    let doe: i64 = z - era * 146097;
    let yoe: i64 = (doe - doe / 1460 + doe / 36524 - doe / 146096) / 365;
    proof {
        lemma_year_of_era(doe as u32, yoe as u32);
    }
    let y: i64 = yoe + era * 400;
    let doy: i64 = doe - (365 * yoe + yoe / 4 - yoe / 100);
    let mp: i64 = (5 * doy + 2) / 153;
    proof {
        lemma_month_of_year(doy as u32, mp as u32);
        lemma_civil_round_trip(z as int, era as int, yoe as int, doy as int, mp as int);
        lemma_leap_in_era(yoe + 1, era as int);
    }
    let d: i64 = doy - (153 * mp + 2) / 5 + 1;
    let m: i64 = if mp < 10 {
        mp + 3
    } else {
        mp - 9
    };
    let year: i64 = if m <= 2 {
        y + 1
    } else {
        y
    };
    (year, m as u32, d as u32)
}


/// The timestamp text of a date and a second of its day:
/// `YYYY-MM-DDTHH:MM:SSZ`, each part padded with zeros to its width.
pub open spec fn iso8601_text(y: int, m: int, d: int, second_of_day: int) -> Seq<char> {
    left_padded(decimal(y as nat), 4) + seq!['-'] + left_padded(decimal(m as nat), 2) + seq!['-']
        + left_padded(decimal(d as nat), 2) + seq!['T'] + left_padded(
        decimal((second_of_day / 3600) as nat),
        2,
    ) + seq![':'] + left_padded(decimal(((second_of_day % 3600) / 60) as nat), 2) + seq![':']
        + left_padded(decimal((second_of_day % 60) as nat), 2) + seq!['Z']
}

/// `text` is the UTC timestamp of the instant `total_secs` seconds after the
/// Unix epoch.
pub open spec fn is_iso8601_of(text: Seq<char>, total_secs: int) -> bool {
    exists|y: int, m: int, d: int|
        is_date(y, m, d) && days_from_civil(y, m, d) == total_secs / 86400 && text
            == #[trigger] iso8601_text(y, m, d, total_secs % 86400)
}

fn write_iso8601(year: u64, month: u64, day: u64, time_of_day: u64) -> (s: String)
    ensures
        s@ == iso8601_text(year as int, month as int, day as int, time_of_day as int),
{
    let hours = time_of_day / 3600;
    let minutes = (time_of_day % 3600) / 60;
    let seconds = time_of_day % 60;
    let mut s = String::new();
    push_decimal_padded(&mut s, year, 4);
    push_char(&mut s, '-');
    push_decimal_padded(&mut s, month, 2);
    push_char(&mut s, '-');
    push_decimal_padded(&mut s, day, 2);
    push_char(&mut s, 'T');
    push_decimal_padded(&mut s, hours, 2);
    push_char(&mut s, ':');
    push_decimal_padded(&mut s, minutes, 2);
    push_char(&mut s, ':');
    push_decimal_padded(&mut s, seconds, 2);
    push_char(&mut s, 'Z');
    assert(s@ =~= iso8601_text(year as int, month as int, day as int, time_of_day as int));
    s
}

/// Writes an instant, given in seconds since the Unix epoch, as a UTC
/// timestamp.
pub fn format_iso8601(total_secs: u64) -> (s: String)
    ensures
        is_iso8601_of(s@, total_secs as int),
{
    let days_since_epoch: u64 = total_secs / 86400;
    let time_of_day: u64 = total_secs % 86400;
    let (year, month, day) = days_to_ymd(days_since_epoch as i64);
    write_iso8601(year as u64, month as u64, day as u64, time_of_day)
}

/// The current time as a UTC timestamp.
pub fn iso8601_now() -> (s: String)
    ensures
        exists|secs: u64| is_iso8601_of(s@, secs as int),
{
    let secs = unix_seconds();
    let s = format_iso8601(secs);
    assert(is_iso8601_of(s@, secs as int));
    s
}

/// Title, author and times of a document.
#[derive(Debug, Clone, PartialEq)]
pub struct DocumentMetadata {
    pub title: String,
    pub author: String,
    pub created: String,
    pub modified: String,
    pub description: Option<String>,
}

impl DocumentMetadata {
    /// The metadata of an untitled document made at the time `now`.
    pub fn created_at(now: String) -> (m: DocumentMetadata)
        ensures
            m.title@.len() == 0,
            m.author@.len() == 0,
            m.created@ == now@,
            m.modified@ == now@,
            m.description is None,
    {
        DocumentMetadata {
            title: String::new(),
            author: String::new(),
            created: now.clone(),
            modified: now,
            description: None,
        }
    }
}

impl Default for DocumentMetadata {
    fn default() -> (m: Self)
        ensures
            m.title@.len() == 0,
            m.author@.len() == 0,
            m.created@ == m.modified@,
            exists|secs: u64| is_iso8601_of(m.created@, secs as int),
            m.description is None,
    {
        DocumentMetadata::created_at(iso8601_now())
    }
}

/// The settings of a project.
#[derive(Debug, Clone, PartialEq)]
pub struct ProjectSettings {
    pub default_font: Option<String>,
    pub default_font_size: Option<Fixed>,
    pub export_quality: Option<String>,
}

impl Default for ProjectSettings {
    fn default() -> (s: Self)
        ensures
            opt_text(s.default_font) == Some("Arial"@),
            s.default_font_size == Some(Fixed::spec_from_int(12)),
            opt_text(s.export_quality) == Some("standard"@),
    {
        ProjectSettings {
            default_font: Some("Arial".to_string()),
            default_font_size: Some(Fixed::from_int(12)),
            export_quality: Some("standard".to_string()),
        }
    }
}

/// A whole book project.
#[derive(Debug, Clone, PartialEq)]
pub struct BookProjectData {
    pub format: String,
    pub version: String,
    pub metadata: DocumentMetadata,
    pub document: DocumentData,
    pub settings: ProjectSettings,
}

impl Default for BookProjectData {
    fn default() -> (p: Self)
        ensures
            p.format@ == "bookproj"@,
            p.version@ == "1.0.0"@,
            p.document.page_width == Fixed::spec_from_int(612),
            p.document.page_height == Fixed::spec_from_int(792),
            p.document.pages@.len() == 0,
            p.metadata.title@.len() == 0,
            p.metadata.created@ == p.metadata.modified@,
            opt_text(p.settings.default_font) == Some("Arial"@),
    {
        BookProjectData {
            format: "bookproj".to_string(),
            version: "1.0.0".to_string(),
            metadata: DocumentMetadata::default(),
            document: DocumentData {
                page_width: Fixed::from_int(612),
                page_height: Fixed::from_int(792),
                pages: Vec::new(),
            },
            settings: ProjectSettings::default(),
        }
    }
}

} // verus!
