//! The document model of the browser build: kinds, sources and roles are
//! plain texts.

use crate::fixed::Fixed;
use crate::models::opt_text;
use vstd::prelude::*;

verus! {

broadcast use vstd::string::group_string_axioms;

/// An axis-aligned box in points.
#[derive(Debug, Clone, Copy, PartialEq, Eq, Structural)]
pub struct Bounds {
    pub x: Fixed,
    pub y: Fixed,
    pub width: Fixed,
    pub height: Fixed,
}

/// What is known of an image.
#[derive(Debug, Clone)]
pub struct ImageMetadata {
    pub width: u32,
    pub height: u32,
    pub color_space: String,
    pub dpi: u32,
}

/// The mathematical content of an [`ImageMetadata`].
pub struct ImageMetaModel {
    pub width: u32,
    pub height: u32,
    pub color_space: Seq<char>,
    pub dpi: u32,
}

impl View for ImageMetadata {
    type V = ImageMetaModel;

    open spec fn view(&self) -> ImageMetaModel {
        ImageMetaModel {
            width: self.width,
            height: self.height,
            color_space: self.color_space@,
            dpi: self.dpi,
        }
    }
}

/// A discrete visual element on a page.
#[derive(Debug, Clone)]
pub struct LayerObject {
    pub id: String,
    pub layer_type: String,
    pub bounds: Bounds,
    pub visible: bool,
    pub locked: bool,
    pub z_index: i32,
    pub opacity: Fixed,
    pub content: Option<String>,
    pub font_family: Option<String>,
    pub font_size: Option<Fixed>,
    pub font_weight: Option<u16>,
    pub color: Option<String>,
    pub text_align: Option<String>,
    pub image_url: Option<String>,
    pub image_path: Option<String>,
    pub image_data: Option<ImageMetadata>,
    pub shape_type: Option<String>,
    pub stroke_color: Option<String>,
    pub stroke_width: Option<Fixed>,
    pub fill_color: Option<String>,
    pub source_type: String,
    pub role: String,
}

/// The mathematical content of a [`LayerObject`].
pub struct LayerModel {
    pub id: Seq<char>,
    pub layer_type: Seq<char>,
    pub bounds: Bounds,
    pub visible: bool,
    pub locked: bool,
    pub z_index: int,
    pub opacity: Fixed,
    pub content: Option<Seq<char>>,
    pub font_family: Option<Seq<char>>,
    pub font_size: Option<Fixed>,
    pub font_weight: Option<u16>,
    pub color: Option<Seq<char>>,
    pub text_align: Option<Seq<char>>,
    pub image_url: Option<Seq<char>>,
    pub image_path: Option<Seq<char>>,
    pub image_data: Option<ImageMetaModel>,
    pub shape_type: Option<Seq<char>>,
    pub stroke_color: Option<Seq<char>>,
    pub stroke_width: Option<Fixed>,
    pub fill_color: Option<Seq<char>>,
    pub source_type: Seq<char>,
    pub role: Seq<char>,
}

impl View for LayerObject {
    type V = LayerModel;

    open spec fn view(&self) -> LayerModel {
        LayerModel {
            id: self.id@,
            layer_type: self.layer_type@,
            bounds: self.bounds,
            visible: self.visible,
            locked: self.locked,
            z_index: self.z_index as int,
            opacity: self.opacity,
            content: opt_text(self.content),
            font_family: opt_text(self.font_family),
            font_size: self.font_size,
            font_weight: self.font_weight,
            color: opt_text(self.color),
            text_align: opt_text(self.text_align),
            image_url: opt_text(self.image_url),
            image_path: opt_text(self.image_path),
            image_data: match self.image_data {
                Some(data) => Some(data@),
                None => None,
            },
            shape_type: opt_text(self.shape_type),
            stroke_color: opt_text(self.stroke_color),
            stroke_width: self.stroke_width,
            fill_color: opt_text(self.fill_color),
            source_type: self.source_type@,
            role: self.role@,
        }
    }
}

/// Where a page came from.
#[derive(Debug, Clone, Copy, PartialEq, Eq, Structural)]
pub struct PageMetadata {
    pub original_page_index: Option<usize>,
    pub rotation: Option<u16>,
}

/// A single page with its layers.
#[derive(Debug, Clone)]
pub struct PageData {
    pub page_index: usize,
    pub width: Fixed,
    pub height: Fixed,
    pub dpi: Option<u32>,
    pub layers: Vec<LayerObject>,
    pub metadata: Option<PageMetadata>,
}

/// The mathematical content of a [`PageData`].
pub struct PageModel {
    pub page_index: nat,
    pub width: Fixed,
    pub height: Fixed,
    pub dpi: Option<u32>,
    pub layers: Seq<LayerModel>,
    pub metadata: Option<PageMetadata>,
}

impl View for PageData {
    type V = PageModel;

    open spec fn view(&self) -> PageModel {
        PageModel {
            page_index: self.page_index as nat,
            width: self.width,
            height: self.height,
            dpi: self.dpi,
            layers: crate::content_parser::views(self.layers@),
            metadata: self.metadata,
        }
    }
}

/// Title, author and times of a document.
#[derive(Debug, Clone)]
pub struct DocumentMetadata {
    pub title: String,
    pub author: String,
    pub created: String,
    pub modified: String,
    pub description: Option<String>,
}

impl Default for DocumentMetadata {
    fn default() -> (m: Self)
        ensures
            m.title@.len() == 0,
            m.author@.len() == 0,
            m.created@.len() == 0,
            m.modified@.len() == 0,
            m.description is None,
    {
        DocumentMetadata {
            title: String::new(),
            author: String::new(),
            created: String::new(),
            modified: String::new(),
            description: None,
        }
    }
}

/// All pages of a document.
#[derive(Debug, Clone)]
pub struct DocumentData {
    pub page_width: Fixed,
    pub page_height: Fixed,
    pub pages: Vec<PageData>,
}

/// The settings of a project.
#[derive(Debug, Clone)]
pub struct ProjectSettings {
    pub default_font: Option<String>,
    pub default_font_size: Option<Fixed>,
    pub export_quality: Option<String>,
}

impl Default for ProjectSettings {
    fn default() -> (s: Self)
        ensures
            opt_text(s.default_font) == Some("Arial"@),
            s.default_font_size == Some(Fixed::spec_from_int(12)),
            opt_text(s.export_quality) == Some("standard"@),
    {
        ProjectSettings {
            default_font: Some("Arial".to_string()),
            default_font_size: Some(Fixed::from_int(12)),
            export_quality: Some("standard".to_string()),
        }
    }
}

/// A whole book project.
#[derive(Debug, Clone)]
pub struct BookProjectData {
    pub format: String,
    pub version: String,
    pub metadata: DocumentMetadata,
    pub document: DocumentData,
    pub settings: ProjectSettings,
}

/// The outcome of an import.
#[derive(Debug, Clone)]
pub struct DocumentResponse {
    pub success: bool,
    pub message: String,
    pub data: Option<DocumentData>,
}

/// The outcome of an export, with the bytes that were made.
#[derive(Debug, Clone)]
pub struct ExportResult {
    pub success: bool,
    pub message: String,
    pub data: Option<Vec<u8>>,
}

/// The changes asked for on one layer.
#[derive(Debug, Clone)]
pub struct LayerUpdates {
    pub bounds: Option<Bounds>,
    pub visible: Option<bool>,
    pub locked: Option<bool>,
    pub z_index: Option<i32>,
    pub opacity: Option<Fixed>,
    pub content: Option<String>,
}

/// A layer after the changes that `updates` asks for: each field that is
/// present replaces that of the layer.
pub open spec fn updated(layer: LayerModel, updates: LayerUpdates) -> LayerModel {
    LayerModel {
        bounds: match updates.bounds {
            Some(b) => b,
            None => layer.bounds,
        },
        visible: match updates.visible {
            Some(v) => v,
            None => layer.visible,
        },
        locked: match updates.locked {
            Some(v) => v,
            None => layer.locked,
        },
        z_index: match updates.z_index {
            Some(z) => z as int,
            None => layer.z_index,
        },
        opacity: match updates.opacity {
            Some(o) => o,
            None => layer.opacity,
        },
        content: match updates.content {
            Some(c) => Some(c@),
            None => layer.content,
        },
        ..layer
    }
}

fn pick<T: Copy>(change: Option<T>, old: T) -> (r: T)
    ensures
        r == match change {
            Some(v) => v,
            None => old,
        },
{
    match change {
        Some(v) => v,
        None => old,
    }
}

/// Applies the changes that `updates` asks for to a layer.
pub fn update_layer(layer: LayerObject, updates: LayerUpdates) -> (out: LayerObject)
    ensures
        out@ == updated(layer@, updates),
{
    let mut out = layer;
    out.bounds = pick(updates.bounds, out.bounds);
    out.visible = pick(updates.visible, out.visible);
    out.locked = pick(updates.locked, out.locked);
    out.z_index = pick(updates.z_index, out.z_index);
    out.opacity = pick(updates.opacity, out.opacity);
    match updates.content {
        Some(content) => {
            out.content = Some(content);
        },
        None => {},
    }
    out
}

/// The message of a successful assembly.
pub open spec fn created_message() -> Seq<char> {
    "Document created"@
}

/// Puts pages together to a document of the given page size.
pub fn create_document_from_pages(pages: Vec<PageData>, width: Fixed, height: Fixed) -> (r:
    DocumentResponse)
    ensures
        r.success,
        r.message@ == created_message(),
        r.data matches Some(doc) && doc.page_width == width && doc.page_height == height
            && doc.pages == pages,
{
    DocumentResponse {
        success: true,
        message: "Document created".to_string(),
        data: Some(DocumentData { page_width: width, page_height: height, pages }),
    }
}

} // verus!
