use vstd::prelude::*;
use crate::vector::Vec2;
use crate::types::{InputPoint, StrokeOptions, StrokePoint, inputs_valid, options_valid,
    vec2_within, size_of_options, OUT_RAW_MAX};
use crate::get_stroke_points::{get_stroke_points, stroke_points_v};
use crate::get_stroke_outline_points::{get_stroke_outline_points, outline_points_v};

verus! {

/// The whole pipeline: resample the raw input samples, then build the
/// outline polygon around them — exactly the composition of the two
/// stages, adding nothing.
///
/// No input samples, or a non-positive configured size, give an empty
/// polygon; a polygon of more than one point closes on its first point;
/// and every point stays within the outline band.
pub fn get_stroke(points: &Vec<InputPoint>, options: &StrokeOptions) -> (res: Vec<Vec2>)
    requires
        inputs_valid(points@),
        options_valid(*options),
    ensures
        res@ == outline_points_v(stroke_points_v(points@, *options), *options),
        points@.len() == 0 ==> res@.len() == 0,
        size_of_options(*options) <= 0 ==> res@.len() == 0,
        res@.len() > 1 ==> res@[0] == res@[res@.len() - 1],
        res@.len() != 2,
        forall|i: int| 0 <= i < res@.len() ==> vec2_within(#[trigger] res@[i], OUT_RAW_MAX as int),
{
    let stroke_points: Vec<StrokePoint> = get_stroke_points(points, options);
    get_stroke_outline_points(&stroke_points, options)
}

} // verus!
