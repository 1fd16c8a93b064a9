//! The codec adapters: one module per file format.

pub mod bmp_loader;
pub mod exr_laws;
pub mod exr_loader;
pub mod exr_model;
pub mod jpeg_loader;
pub mod png_loader;
pub mod reduce;

pub use bmp_loader::{load_bmp, save_bmp};
pub use exr_loader::{load_exr, save_exr};
pub use jpeg_loader::{load_jpeg, save_jpeg};
pub use png_loader::{load_png, save_png};
