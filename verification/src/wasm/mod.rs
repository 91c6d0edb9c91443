//! The document functions of the browser build: its own document model,
//! DOCX import and DOCX export.

pub mod docx_parser;
pub mod export;
pub mod models;
