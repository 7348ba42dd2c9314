//! Verified core of an image-slicing service.
//!
//! The library partitions a decoded RGBA raster into four quadrants,
//! optionally blends a semi-transparent watermark bitmap onto each quadrant,
//! optionally rescales the quadrants to a uniform square size, and encodes
//! the results as PNG byte streams. Decoding, encoding and base64 handling
//! go through the `image` and `base64` crates behind trusted wrappers; all
//! pixel arithmetic is verified.

pub mod codec;
pub mod image_processor;
pub mod image_slicer;
pub mod raster;
pub mod watermark;

pub use raster::Raster;
pub use raster::Rgba;
