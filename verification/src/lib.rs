//! Freehand stroke geometry: turns a sequence of pointer samples (position
//! plus optional pressure) into the outline polygon of a variable-width
//! stroke, and renders that polygon as an SVG curve path.
//!
//! All geometry is carried on [`fixed::Fx`], a signed binary fixed-point
//! number with sixteen fractional bits, so every arithmetic step has an
//! exact integer meaning that the contracts state.

pub mod fixed;
pub mod get_stroke;
pub mod get_stroke_outline_points;
pub mod get_stroke_points;
pub mod get_stroke_radius;
pub mod types;
pub mod utils;
pub mod vector;

pub use get_stroke::get_stroke;
pub use get_stroke_outline_points::get_stroke_outline_points;
pub use get_stroke_points::{expand_input_points, get_stroke_points};
pub use get_stroke_radius::get_stroke_radius;
pub use utils::{get_svg_path_from_stroke, input_bounds};

pub use fixed::Fx;
pub use fixed::FX_SCALE;
pub use types::{Easing, InputPoint, StrokeOptions, StrokePoint, TaperOptions, TaperType};
pub use vector::Vec2;
pub use vector::{neg, add, sub, mul, div, per, dpr, is_equal, len, len2, dist2, uni, dist, med,
    rot_around, lrp, prj, sin_fx, cos_fx};
