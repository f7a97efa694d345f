//! What a frame draws, as a list of commands for whoever owns the window.
//!
//! Nothing here touches a window. A frame is planned as plain values: for
//! each slot of a shape collection, in collection order, either a filled
//! polygon followed by its outline, or the notice that the slot is empty.

use vstd::prelude::*;
use vstd::pervasive::unreached;
use crate::document::{collection_view, ShapeCollection};
use crate::extent::{calc_extent, extent_of, is_point_at, lemma_extent_covers_shapes, Extent};
use crate::point::Point3;
use crate::viewport::{
    lemma_covered_point_scales,
    point_scales,
    scale_shape,
    scaled_shape,
    shape_scales,
};

verus! {

/// One thing to do in the window. Points are window coordinates with the
/// origin in a corner; `shift_x` and `shift_y` move the whole figure so that
/// it is centred on an origin in the middle of the window.
#[derive(Debug, PartialEq, Eq)]
pub enum DrawCommand {
    /// Fill the polygon with these corners.
    FillPolygon { points: Vec<Point3>, shift_x: i64, shift_y: i64 },
    /// Stroke the line through these points.
    StrokeOutline { points: Vec<Point3>, shift_x: i64, shift_y: i64 },
    /// Say that a slot holds no shape. This is a notice, not a failure.
    ReportNoShape,
}

/// The mathematical value of a command.
pub enum DrawCommandView {
    FillPolygon { points: Seq<Point3>, shift_x: int, shift_y: int },
    StrokeOutline { points: Seq<Point3>, shift_x: int, shift_y: int },
    ReportNoShape,
}

impl View for DrawCommand {
    type V = DrawCommandView;

    open spec fn view(&self) -> DrawCommandView {
        match *self {
            DrawCommand::FillPolygon { points, shift_x, shift_y } => DrawCommandView::FillPolygon {
                points: points@,
                shift_x: shift_x as int,
                shift_y: shift_y as int,
            },
            DrawCommand::StrokeOutline {
                points,
                shift_x,
                shift_y,
            } => DrawCommandView::StrokeOutline {
                points: points@,
                shift_x: shift_x as int,
                shift_y: shift_y as int,
            },
            DrawCommand::ReportNoShape => DrawCommandView::ReportNoShape,
        }
    }
}

/// The mathematical value of a list of commands.
pub open spec fn commands_view(commands: Seq<DrawCommand>) -> Seq<DrawCommandView> {
    Seq::new(commands.len(), |i: int| commands[i]@)
}

/// How far a figure is moved along an axis of `size` pixels to centre it:
/// half the size, to the negative side.
pub open spec fn centre_shift(size: u32) -> int {
    -(size as int / 2)
}

/// The two commands that draw one shape: the filled polygon, then the outline
/// along the same points, both moved by the same shift.
pub open spec fn poly_plan(points: Seq<Point3>, extent: Extent, width: u32, height: u32) -> Seq<
    DrawCommandView,
> {
    let scaled = scaled_shape(points, extent, width, height);
    seq![
        DrawCommandView::FillPolygon {
            points: scaled,
            shift_x: centre_shift(width),
            shift_y: centre_shift(height),
        },
        DrawCommandView::StrokeOutline {
            points: scaled,
            shift_x: centre_shift(width),
            shift_y: centre_shift(height),
        },
    ]
}

/// The commands for one slot.
pub open spec fn slot_plan(slot: Option<Seq<Point3>>, extent: Extent, width: u32, height: u32) -> Seq<
    DrawCommandView,
> {
    match slot {
        Some(points) => poly_plan(points, extent, width, height),
        None => seq![DrawCommandView::ReportNoShape],
    }
}

/// The commands for a collection under a given extent: those of each slot,
/// in collection order.
pub open spec fn frame_plan_under(
    shapes: Seq<Option<Seq<Point3>>>,
    extent: Extent,
    width: u32,
    height: u32,
) -> Seq<DrawCommandView>
    decreases shapes.len(),
{
    if shapes.len() == 0 {
        Seq::empty()
    } else {
        frame_plan_under(shapes.drop_last(), extent, width, height) + slot_plan(
            shapes.last(),
            extent,
            width,
            height,
        )
    }
}

/// The commands of a frame: the collection drawn under its own extent.
pub open spec fn frame_plan(shapes: Seq<Option<Seq<Point3>>>, width: u32, height: u32) -> Seq<
    DrawCommandView,
> {
    frame_plan_under(shapes, extent_of(shapes), width, height)
}

/// The points that a command draws; none for a notice.
pub open spec fn command_points(command: DrawCommandView) -> Seq<Point3> {
    match command {
        DrawCommandView::FillPolygon { points, .. } => points,
        DrawCommandView::StrokeOutline { points, .. } => points,
        DrawCommandView::ReportNoShape => Seq::empty(),
    }
}

/// How many slots of the collection hold a shape.
pub open spec fn populated(shapes: Seq<Option<Seq<Point3>>>) -> nat {
    shapes.filter(|slot: Option<Seq<Point3>>| slot is Some).len()
}

/// Slots are drawn in collection order: the plan of two collections laid end
/// to end is the plan of the first followed by the plan of the second.
pub proof fn lemma_plan_follows_collection_order(
    a: Seq<Option<Seq<Point3>>>,
    b: Seq<Option<Seq<Point3>>>,
    extent: Extent,
    width: u32,
    height: u32,
)
    ensures
        frame_plan_under(a + b, extent, width, height) == frame_plan_under(a, extent, width, height)
            + frame_plan_under(b, extent, width, height),
    decreases b.len(),
{
    if b.len() > 0 {
        assert((a + b).drop_last() =~= a + b.drop_last());
        lemma_plan_follows_collection_order(a, b.drop_last(), extent, width, height);
    }
}

/// A plan holds two commands for each slot with a shape and one for each
/// slot without.
pub proof fn lemma_plan_length(
    shapes: Seq<Option<Seq<Point3>>>,
    extent: Extent,
    width: u32,
    height: u32,
)
    ensures
        frame_plan_under(shapes, extent, width, height).len() == shapes.len() + populated(shapes),
    decreases shapes.len(),
{
    reveal(Seq::filter);
    if shapes.len() > 0 {
        lemma_plan_length(shapes.drop_last(), extent, width, height);
    }
}

/// Under an extent that covers every point of the collection, every point
/// that the plan draws lies in the window, between `(0, 0)` and
/// `(width, height)`.
pub proof fn lemma_plan_stays_in_window(
    shapes: Seq<Option<Seq<Point3>>>,
    extent: Extent,
    width: u32,
    height: u32,
    c: int,
    k: int,
)
    requires
        forall|i: int, j: int, p: Point3| #[trigger] is_point_at(shapes, i, j, p) ==> extent.covers(p),
        0 <= c < frame_plan_under(shapes, extent, width, height).len(),
        0 <= k < command_points(frame_plan_under(shapes, extent, width, height)[c]).len(),
    ensures
        0 <= command_points(frame_plan_under(shapes, extent, width, height)[c])[k].x <= width,
        0 <= command_points(frame_plan_under(shapes, extent, width, height)[c])[k].y <= height,
    decreases shapes.len(),
{
    let front = shapes.drop_last();
    let front_plan = frame_plan_under(front, extent, width, height);
    if c < front_plan.len() {
        assert forall|i: int, j: int, p: Point3| #[trigger]
            is_point_at(front, i, j, p) implies extent.covers(p) by {
            assert(is_point_at(shapes, i, j, p));
        }
        lemma_plan_stays_in_window(front, extent, width, height, c, k);
    } else {
        let points = shapes.last()->0;
        assert(is_point_at(shapes, shapes.len() - 1, k, points[k]));
        lemma_covered_point_scales(points[k], extent, width, height);
    }
}

/// Every point that a frame draws lies in the window.
pub proof fn lemma_frame_stays_in_window(
    shapes: Seq<Option<Seq<Point3>>>,
    width: u32,
    height: u32,
    c: int,
    k: int,
)
    requires
        0 <= c < frame_plan(shapes, width, height).len(),
        0 <= k < command_points(frame_plan(shapes, width, height)[c]).len(),
    ensures
        0 <= command_points(frame_plan(shapes, width, height)[c])[k].x <= width,
        0 <= command_points(frame_plan(shapes, width, height)[c])[k].y <= height,
{
    assert forall|i: int, j: int, p: Point3| #[trigger]
        is_point_at(shapes, i, j, p) implies extent_of(shapes).covers(p) by {
        lemma_extent_covers_shapes(shapes, p);
    }
    lemma_plan_stays_in_window(shapes, extent_of(shapes), width, height, c, k);
}

/// The shift that centres a figure along an axis of `size` pixels.
pub fn centre_shift_of(size: u32) -> (shift: i64)
    ensures
        shift == centre_shift(size),
{
    -((size / 2) as i64)
}

/// Plans the drawing of one shape in a window of `width` by `height` pixels:
/// the shape is carried into the window by [`scale_shape`], then filled, then
/// outlined.
///
/// `None` exactly when the shape cannot be carried into the window, which
/// does not happen for a shape that the extent covers.
pub fn plan_poly(shape: &Vec<Point3>, extent: &Extent, width: u32, height: u32) -> (commands:
    Option<Vec<DrawCommand>>)
    ensures
        match commands {
            Some(list) => shape_scales(shape@, *extent, width, height) && commands_view(list@)
                == poly_plan(shape@, *extent, width, height),
            None => !shape_scales(shape@, *extent, width, height),
        },
{
    match scale_shape(shape, extent, width, height) {
        None => None,
        Some(points) => {
            let outline: Vec<Point3> = points.clone();
            let shift_x: i64 = centre_shift_of(width);
            let shift_y: i64 = centre_shift_of(height);
            let mut list: Vec<DrawCommand> = Vec::new();
            list.push(DrawCommand::FillPolygon { points, shift_x, shift_y });
            list.push(DrawCommand::StrokeOutline { points: outline, shift_x, shift_y });
            Some(list)
        },
    }
}

/// Plans a frame in a window of `width` by `height` pixels.
///
/// The extent is computed from the collection itself. Then, slot by slot in
/// collection order: a shape gives a filled polygon followed by its outline,
/// an empty slot gives the notice that it is empty. Later commands draw over
/// earlier ones; nothing is sorted.
pub fn plan_frame(shapes: &ShapeCollection, width: u32, height: u32) -> (commands: Vec<DrawCommand>)
    ensures
        commands_view(commands@) == frame_plan(collection_view(*shapes), width, height),
{
    let ghost slots = collection_view(*shapes);
    let extent = calc_extent(shapes);
    let mut commands: Vec<DrawCommand> = Vec::new();
    let mut i: usize = 0;
    while i < shapes.len()
        invariant
            i <= shapes.len(),
            slots == collection_view(*shapes),
            extent == extent_of(slots),
            commands_view(commands@) == frame_plan_under(slots.take(i as int), extent, width, height),
        decreases shapes.len() - i,
    {
        assert(slots.take(i + 1).drop_last() =~= slots.take(i as int));
        match &shapes[i] {
            Some(shape) => {
                assert forall|k: int| 0 <= k < shape@.len() implies point_scales(
                    #[trigger] shape@[k],
                    extent,
                    width,
                    height,
                ) by {
                    assert(is_point_at(slots, i as int, k, shape@[k]));
                    lemma_extent_covers_shapes(slots, shape@[k]);
                    lemma_covered_point_scales(shape@[k], extent, width, height);
                }
                let mut pair: Vec<DrawCommand> = match plan_poly(shape, &extent, width, height) {
                    Some(pair) => pair,
                    None => unreached(),
                };
                commands.append(&mut pair);
            },
            None => commands.push(DrawCommand::ReportNoShape),
        }
        i += 1;
    }
    assert(slots.take(i as int) =~= slots);
    commands
}

} // verus!
