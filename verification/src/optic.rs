//! Light as it is stored and shown: colours, materials and the pixel raster.

pub mod color;
pub mod image;
pub mod material;
pub mod render;
pub mod trace;
