//! Core of a document reader: a content-addressed catalog of a document
//! collection, and page rendering and bounded text search over several
//! document formats.

pub mod annot;
pub mod catalog;
pub mod chars;
pub mod comic;
pub mod database;
pub mod document;
pub mod epub;
pub mod error;
pub mod hashing;
pub mod library;
pub mod metadata;
pub mod natural;
pub mod paths;
pub mod pdf;
pub mod raster;
pub mod render;
pub mod scan_laws;
pub mod scanner;
pub mod search;
pub mod security;
pub mod text;
pub mod types;
