//! Page content interpretation, layer projection and document utilities on
//! exact fixed-point numbers.

pub mod clock;
pub mod content_laws;
pub mod content_parser;
pub mod document_parser;
pub mod export_handler;
pub mod fixed;
pub mod font_handler;
pub mod font_manager;
pub mod font_service;
pub mod graphics_state;
pub mod hocr;
pub mod image_cache;
pub mod image_handler;
pub mod layer_processor;
pub mod live_sync;
pub mod models;
pub mod ocr_handler;
pub mod operand;
pub mod otsu;
pub mod path_ops;
pub mod pdf_analyzer;
pub mod pdf_reconstructor;
pub mod print_service;
pub mod sorting;
pub mod text;
pub mod text_ops;
pub mod wasm;
