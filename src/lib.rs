//! Columnar geometry arrays: coordinates, nested offset buffers and validity
//! bits, with zero-copy row views, a tagged mixed-geometry array and a
//! dialect-tagged WKB byte store.

pub mod array;
pub mod buffer;
pub mod error;
pub mod geometry;
pub mod geometry_type;
pub mod linestring;
pub mod mixed;
pub mod multilinestring;
pub mod multipoint;
pub mod multipolygon;
pub mod offsets;
pub mod point;
pub mod polygon;
pub mod scalar;
pub mod wkb;
