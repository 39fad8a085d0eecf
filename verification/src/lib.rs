//! Library for pixel and image compositing.
//!
//! A raster image is a rectangular array of pixels, each made of integer
//! color channels in a color model, with an alpha mode and a gamma mode.
use vstd::prelude::*;

pub mod chan;
pub mod el;
pub mod model;
pub mod ops;
pub mod palette;
pub mod raster;
pub mod rgb;
pub mod bgr;
pub mod cmy;
pub mod gray;
pub mod matte;
pub mod mask;
pub mod hsv;
pub mod hsl;
pub mod hwb;
pub mod ycc;
pub mod oklab;
pub mod xyz;

pub use crate::model::ColorModel;
pub use crate::palette::Palette;
pub use crate::raster::{Raster, RasterBuilder, Region, Rows, RowsMut};

verus! {
} // verus!
