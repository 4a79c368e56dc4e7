//! Geometric transforms on RGBA raster images (border, aspect-ratio fill and
//! longest-side resizing), the pipeline that applies them in a fixed order,
//! and the caption text builder of the command line tool.

pub mod raster;
pub mod resample;
pub mod transform;
pub mod pipeline;
pub mod laws;
pub mod caption;
