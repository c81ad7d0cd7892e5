//! Verified core of the area translator service: capture geometry, text
//! confirmation, OCR and translation reply handling, and the decisions of the
//! translation engine. I/O, D-Bus, the screen-cast portal and the HTTP clients
//! live in the application crate around this library.
pub mod model;
pub mod text;
pub mod image;
pub mod cache;
pub mod capture;
pub mod ocr;
pub mod translate;
pub mod service;
pub mod laws;
pub mod engine;
