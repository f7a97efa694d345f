//! The linear map that carries world coordinates into window coordinates.
//!
//! Along each axis the extent's least bound goes to 0 and its greatest to the
//! window's size; what lies between is spread evenly, rounded down to a whole
//! pixel. An axis on which the extent has no width has nothing to spread: every
//! coordinate goes to the middle of the window.

use vstd::prelude::*;
use vstd::arithmetic::div_mod::{
    lemma_div_is_ordered,
    lemma_div_is_ordered_by_denominator,
    lemma_div_multiples_vanish,
    lemma_div_pos_is_pos,
    lemma_fundamental_div_mod,
    lemma_fundamental_div_mod_converse,
};
use crate::extent::Extent;
use crate::point::Point3;

verus! {

/// Where `v` goes on an axis of `size` pixels when the extent spans `lo` to
/// `hi` on it: `(v - lo) * size / (hi - lo)`, rounded down, or the middle of
/// the axis when `hi` does not lie above `lo`.
pub open spec fn scale_axis(v: int, lo: int, hi: int, size: int) -> int {
    if lo < hi {
        ((v - lo) * size) / (hi - lo)
    } else {
        size / 2
    }
}

/// The number can be held in a coordinate.
pub open spec fn fits_coordinate(v: int) -> bool {
    i64::MIN <= v <= i64::MAX
}

/// The window x of a point.
pub open spec fn scaled_x(p: Point3, extent: Extent, width: u32) -> int {
    scale_axis(p.x as int, extent.min_x as int, extent.max_x as int, width as int)
}

/// The window y of a point.
pub open spec fn scaled_y(p: Point3, extent: Extent, height: u32) -> int {
    scale_axis(p.y as int, extent.min_y as int, extent.max_y as int, height as int)
}

/// Both window coordinates of the point can be held in a coordinate.
pub open spec fn point_scales(p: Point3, extent: Extent, width: u32, height: u32) -> bool {
    &&& fits_coordinate(scaled_x(p, extent, width))
    &&& fits_coordinate(scaled_y(p, extent, height))
}

/// The point in window coordinates; z is kept.
pub open spec fn scaled_point(p: Point3, extent: Extent, width: u32, height: u32) -> Point3 {
    Point3 {
        x: scaled_x(p, extent, width) as i64,
        y: scaled_y(p, extent, height) as i64,
        z: p.z,
    }
}

/// Every point of the shape can be carried into the window.
pub open spec fn shape_scales(points: Seq<Point3>, extent: Extent, width: u32, height: u32) -> bool {
    forall|k: int| 0 <= k < points.len() ==> point_scales(#[trigger] points[k], extent, width, height)
}

/// The shape in window coordinates, point for point.
pub open spec fn scaled_shape(points: Seq<Point3>, extent: Extent, width: u32, height: u32) -> Seq<
    Point3,
> {
    Seq::new(points.len(), |k: int| scaled_point(points[k], extent, width, height))
}

/// Rounding down the quotient of a negated number rounds up the quotient of
/// the number itself.
proof fn lemma_floor_of_negative(n: int, d: int)
    requires
        0 <= n,
        0 < d,
    ensures
        (-n) / d == if n % d == 0 {
            -(n / d)
        } else {
            -(n / d) - 1
        },
{
    let q = n / d;
    let r = n % d;
    lemma_fundamental_div_mod(n, d);
    if r == 0 {
        assert(-n == (-q) * d + 0) by (nonlinear_arith)
            requires
                n == d * q + r,
                r == 0,
        ;
        lemma_fundamental_div_mod_converse(-n, d, -q, 0);
    } else {
        assert(-n == (-q - 1) * d + (d - r)) by (nonlinear_arith)
            requires
                n == d * q + r,
        ;
        lemma_fundamental_div_mod_converse(-n, d, -q - 1, d - r);
    }
}

/// The quotient of a number that is not negative is no greater than the
/// number.
proof fn lemma_quotient_is_no_greater(x: int, d: int)
    requires
        0 <= x,
        1 <= d,
    ensures
        x / d <= x,
{
    lemma_div_is_ordered_by_denominator(x, 1, d);
}

/// Carries one coordinate into an axis of `size` pixels.
///
/// The result is `(v - lo) * size / (hi - lo)` rounded down, and `size / 2`
/// where `lo >= hi`. It is `None` exactly when that number cannot be held in
/// a coordinate, which needs `v` to lie far outside `lo..=hi`.
pub fn scale_coordinate(v: i64, lo: i64, hi: i64, size: u32) -> (scaled: Option<i64>)
    ensures
        match scaled {
            Some(s) => s == scale_axis(v as int, lo as int, hi as int, size as int),
            None => !fits_coordinate(scale_axis(v as int, lo as int, hi as int, size as int)),
        },
{
    if lo >= hi {
        return Some((size / 2) as i64);
    }
    // The distance of `v` from `lo` and the span are below 2^64 and the size
    // is below 2^32, so the product is below 2^96 and 128 bits hold it.
    let span: u128 = (hi as i128 - lo as i128) as u128;
    let below: bool = v < lo;
    let distance: u128 = if below {
        (lo as i128 - v as i128) as u128
    } else {
        (v as i128 - lo as i128) as u128
    };
    assert(distance * size <= 0xffff_ffff_ffff_ffff * 0xffff_ffff) by (nonlinear_arith)
        requires
            0 <= distance <= 0xffff_ffff_ffff_ffff,
            0 <= size <= 0xffff_ffff,
    ;
    let product: u128 = distance * (size as u128);
    let quotient: u128 = product / span;
    if !below {
        if quotient <= 0x7fff_ffff_ffff_ffff {
            Some(quotient as i64)
        } else {
            None
        }
    } else {
        // Left of `lo` the exact quotient is negative: rounding it down
        // rounds its size up.
        proof {
            assert((v - lo) * size == -(product as int)) by (nonlinear_arith)
                requires
                    product == (lo - v) * size,
            ;
            lemma_floor_of_negative(product as int, span as int);
            lemma_quotient_is_no_greater(product as int, span as int);
        }
        let up: u128 = if product % span == 0 {
            quotient
        } else {
            quotient + 1
        };
        if up <= 0x8000_0000_0000_0000 {
            Some((-(up as i128)) as i64)
        } else {
            None
        }
    }
}

/// Carries one point into a window of `width` by `height` pixels; z is kept.
///
/// `None` exactly when one of the two window coordinates cannot be held.
pub fn scale_point(p: Point3, extent: &Extent, width: u32, height: u32) -> (scaled: Option<Point3>)
    ensures
        scaled == if point_scales(p, *extent, width, height) {
            Some(scaled_point(p, *extent, width, height))
        } else {
            None
        },
{
    match scale_coordinate(p.x, extent.min_x, extent.max_x, width) {
        None => None,
        Some(x) => match scale_coordinate(p.y, extent.min_y, extent.max_y, height) {
            None => None,
            Some(y) => Some(Point3 { x, y, z: p.z }),
        },
    }
}

/// Carries a shape into a window of `width` by `height` pixels, point for
/// point and in order.
///
/// Each point `(x, y, z)` goes to
/// `((x - min_x) * width / (max_x - min_x), (y - min_y) * height / (max_y - min_y), z)`,
/// each quotient rounded down, so that the extent is laid over the window
/// from `(0, 0)` to `(width, height)`. On an axis where the extent's greatest
/// bound does not lie above its least, every point goes to the middle of the
/// window instead. The result is `None` exactly when some point lies so far
/// outside the extent that a window coordinate cannot be held.
pub fn scale_shape(shape: &Vec<Point3>, extent: &Extent, width: u32, height: u32) -> (scaled:
    Option<Vec<Point3>>)
    ensures
        match scaled {
            Some(points) => shape_scales(shape@, *extent, width, height) && points@ == scaled_shape(
                shape@,
                *extent,
                width,
                height,
            ),
            None => !shape_scales(shape@, *extent, width, height),
        },
{
    let mut points: Vec<Point3> = Vec::new();
    let mut k: usize = 0;
    while k < shape.len()
        invariant
            k <= shape.len(),
            points@.len() == k,
            forall|m: int| 0 <= m < k ==> point_scales(#[trigger] shape@[m], *extent, width, height),
            forall|m: int|
                0 <= m < k ==> #[trigger] points@[m] == scaled_point(
                    shape@[m],
                    *extent,
                    width,
                    height,
                ),
        decreases shape.len() - k,
    {
        match scale_point(shape[k], extent, width, height) {
            Some(p) => points.push(p),
            None => {
                return None;
            },
        }
        k += 1;
    }
    Some(points)
}

/// A coordinate within the extent lands within the window: the least bound
/// on 0, the greatest on `size`, and everything between them between 0 and
/// `size`.
pub proof fn lemma_scale_stays_in_window(v: int, lo: int, hi: int, size: int)
    requires
        lo <= v <= hi,
        0 <= size,
    ensures
        0 <= scale_axis(v, lo, hi, size) <= size,
        lo < hi ==> scale_axis(lo, lo, hi, size) == 0,
        lo < hi ==> scale_axis(hi, lo, hi, size) == size,
{
    if lo < hi {
        let d = hi - lo;
        assert(0 <= (v - lo) * size <= d * size) by (nonlinear_arith)
            requires
                0 <= v - lo <= d,
                0 <= size,
        ;
        lemma_div_pos_is_pos((v - lo) * size, d);
        lemma_div_is_ordered((v - lo) * size, d * size, d);
        lemma_div_multiples_vanish(size, d);
    }
}

/// The map keeps order: of two coordinates the greater never lands before
/// the lesser.
pub proof fn lemma_scale_keeps_order(v1: int, v2: int, lo: int, hi: int, size: int)
    requires
        v1 <= v2,
        0 <= size,
    ensures
        scale_axis(v1, lo, hi, size) <= scale_axis(v2, lo, hi, size),
{
    if lo < hi {
        assert((v1 - lo) * size <= (v2 - lo) * size) by (nonlinear_arith)
            requires
                v1 <= v2,
                0 <= size,
        ;
        lemma_div_is_ordered((v1 - lo) * size, (v2 - lo) * size, hi - lo);
    }
}

/// On an axis where the extent has no width, every coordinate lands on the
/// middle of the window, whatever the coordinate is.
pub proof fn lemma_flat_axis_goes_to_middle(v: int, lo: int, hi: int, size: int)
    requires
        lo >= hi,
    ensures
        scale_axis(v, lo, hi, size) == size / 2,
{
}

/// A point that the extent covers can be carried into the window, and lands
/// between `(0, 0)` and `(width, height)`.
pub proof fn lemma_covered_point_scales(p: Point3, extent: Extent, width: u32, height: u32)
    requires
        extent.covers(p),
    ensures
        point_scales(p, extent, width, height),
        0 <= scaled_point(p, extent, width, height).x <= width,
        0 <= scaled_point(p, extent, width, height).y <= height,
        scaled_point(p, extent, width, height).z == p.z,
{
    lemma_scale_stays_in_window(
        p.x as int,
        extent.min_x as int,
        extent.max_x as int,
        width as int,
    );
    lemma_scale_stays_in_window(
        p.y as int,
        extent.min_y as int,
        extent.max_y as int,
        height as int,
    );
}

} // verus!
