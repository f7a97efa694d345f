//! Polygon shapes taken from GeoJSON-style documents, their bounding extent,
//! and the linear map that carries them into a window.
//!
//! The library works on whole numbers throughout. A coordinate is a
//! fixed-point integer whose unit the caller picks (one ten-millionth of a
//! degree, say); a window is measured in whole pixels; a slider value is
//! counted in thousandths. Whoever reads a file or owns a window converts at
//! that edge and hands plain values in and out.
//!
//! The pieces, in the order in which data flows through them:
//! - [`geometry`]: one geometry to the points of its exterior ring;
//! - [`document`]: a whole document to a collection of such shapes;
//! - [`extent`]: the bounding box of a collection;
//! - [`viewport`]: world coordinates to window coordinates;
//! - [`render`]: a collection to the list of things to draw in one frame;
//! - [`view_state`] and [`model`]: the slider settings and the state of the
//!   viewer as a whole.

pub mod document;
pub mod extent;
pub mod geometry;
pub mod model;
pub mod point;
pub mod render;
pub mod view_state;
pub mod viewport;

pub use document::{process_geo_json, Document, Feature, Shape, ShapeCollection};
pub use extent::{calc_extent, Extent};
pub use geometry::{match_geometry, Geometry, ShapeError};
pub use model::Model;
pub use point::{pt3, Point3};
pub use render::{plan_frame, plan_poly, DrawCommand};
pub use view_state::{Slider, SliderKind, ViewState, ROTATION_MAX, SCALE_MAX, UNIT};
pub use viewport::{scale_coordinate, scale_point, scale_shape};
