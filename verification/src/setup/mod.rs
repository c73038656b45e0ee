//! The installer.

pub mod engine;
pub mod paint;
pub mod png_file;
pub mod ui;
