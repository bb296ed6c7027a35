//! Conversion of vector scenes into multi-resolution icon containers.
//!
//! A parsed scene is rasterized at each requested size ([`raster`]), the bitmaps are encoded
//! ([`encode`]) and packed into one container ([`container`]) whose byte layout [`layout`]
//! describes. [`svg_to_ico`] does all of it in one call.
//!
//! The library works on values in memory: parsing a scene and writing the container to a
//! file are left to the caller.

pub mod container;
pub mod convert;
pub mod encode;
pub mod error;
pub mod layout;
pub mod raster;

pub use crate::convert::svg_to_ico;
pub use crate::encode::create_ico;
pub use crate::error::Error;
pub use crate::raster::{rasterize, RasterImage};
