//! Line drawings from photographs: edge extraction, alpha keying, darkening
//! sweeps and the contact sheet that lays the variants out side by side.

pub mod alpha;
pub mod buffer;
pub mod darken;
pub mod edge;
pub mod error;
pub mod filters;
pub mod grid;
pub mod image_generation;
pub mod lineart;
pub mod paths;
pub mod sheet;
pub mod sweep;
pub mod text;
