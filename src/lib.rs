//! Generator catalog, parameter schemas and weighted palettes for an
//! image-generation service.

pub mod params;
pub mod catalog;
pub mod colors;
pub mod generators;
pub mod palette;
pub mod palette_generator;
pub mod test_generator;
