//! Image container and format-conversion layer.
//!
//! An [`Image`] holds raster pixel data in one canonical in-memory layout,
//! described by a [`PixelFormat`] and a [`ComponentType`]. The crate detects
//! the on-disk encoding of a byte buffer ([`ImageFormat`]) and converts
//! between the canonical layout and PNG, BMP, JPEG and OpenEXR files.

pub mod component_type;
pub mod error;
pub mod galaxy_image;
pub mod image;
pub mod image_format;
pub mod loaders;
pub mod pixel_format;

pub use component_type::ComponentType;
pub use error::{ImageError, ImageResult};
pub use galaxy_image::GalaxyImage;
pub use image::Image;
pub use image_format::ImageFormat;
pub use pixel_format::PixelFormat;
