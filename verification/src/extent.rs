//! The bounding extent of a shape collection.

use vstd::prelude::*;
use crate::document::{
    collection_result_view,
    collection_view,
    shapes_of,
    Document,
    ShapeCollection,
};
use crate::geometry::ShapeError;
use crate::point::Point3;

verus! {

/// An axis-aligned box in world coordinates, by its least and greatest x and y.
#[derive(Clone, Copy, Debug, PartialEq, Eq, Structural)]
pub struct Extent {
    pub min_x: i64,
    pub max_x: i64,
    pub min_y: i64,
    pub max_y: i64,
}

impl Extent {
    /// The extent of no points at all: each least bound is the greatest
    /// number there is and each greatest bound the least one, so that the
    /// first point met replaces all four.
    pub open spec fn spec_empty() -> Extent {
        Extent { min_x: i64::MAX, max_x: i64::MIN, min_y: i64::MAX, max_y: i64::MIN }
    }

    /// The extent widened, where needed, to reach `p`. A bound moves only
    /// when `p` lies strictly beyond it.
    pub open spec fn spec_with_point(self, p: Point3) -> Extent {
        Extent {
            min_x: if p.x < self.min_x { p.x } else { self.min_x },
            max_x: if p.x > self.max_x { p.x } else { self.max_x },
            min_y: if p.y < self.min_y { p.y } else { self.min_y },
            max_y: if p.y > self.max_y { p.y } else { self.max_y },
        }
    }

    /// The point lies in the box, borders counted.
    pub open spec fn covers(self, p: Point3) -> bool {
        &&& self.min_x <= p.x <= self.max_x
        &&& self.min_y <= p.y <= self.max_y
    }

    /// The box has no width on at least one axis: there the greatest bound
    /// does not lie above the least. This holds of the extent of no points,
    /// of a single point, and of points on one vertical or horizontal line.
    pub open spec fn spec_is_flat(&self) -> bool {
        self.min_x >= self.max_x || self.min_y >= self.max_y
    }

    /// Tells whether the box has no width on at least one axis, so that
    /// scaling sends that axis to the middle of the window.
    #[verifier::when_used_as_spec(spec_is_flat)]
    pub fn is_flat(&self) -> (flat: bool)
        ensures
            flat == self.spec_is_flat(),
    {
        self.min_x >= self.max_x || self.min_y >= self.max_y
    }

    /// The extent of no points.
    #[verifier::when_used_as_spec(spec_empty)]
    pub fn empty() -> (extent: Extent)
        ensures
            extent == Extent::spec_empty(),
    {
        Extent { min_x: i64::MAX, max_x: i64::MIN, min_y: i64::MAX, max_y: i64::MIN }
    }

    /// Widens the extent, where needed, to reach `p`.
    #[verifier::when_used_as_spec(spec_with_point)]
    pub fn with_point(self, p: Point3) -> (extent: Extent)
        ensures
            extent == self.spec_with_point(p),
    {
        let mut extent = self;
        if p.x > extent.max_x {
            extent.max_x = p.x;
        }
        if p.x < extent.min_x {
            extent.min_x = p.x;
        }
        if p.y > extent.max_y {
            extent.max_y = p.y;
        }
        if p.y < extent.min_y {
            extent.min_y = p.y;
        }
        extent
    }
}

/// The extent of a sequence of points: that of no points, widened by each
/// point in turn.
pub open spec fn extent_of_points(points: Seq<Point3>) -> Extent
    decreases points.len(),
{
    if points.len() == 0 {
        Extent::spec_empty()
    } else {
        extent_of_points(points.drop_last()).spec_with_point(points.last())
    }
}

/// Every point of every populated slot, in collection order.
pub open spec fn all_points(shapes: Seq<Option<Seq<Point3>>>) -> Seq<Point3>
    decreases shapes.len(),
{
    if shapes.len() == 0 {
        Seq::empty()
    } else {
        match shapes.last() {
            Some(points) => all_points(shapes.drop_last()) + points,
            None => all_points(shapes.drop_last()),
        }
    }
}

/// The extent of a shape collection: the extent of the points of its
/// populated slots. Empty slots add nothing.
pub open spec fn extent_of(shapes: Seq<Option<Seq<Point3>>>) -> Extent {
    extent_of_points(all_points(shapes))
}

/// `p` is the `j`-th point of the `i`-th slot of the collection.
pub open spec fn is_point_at(shapes: Seq<Option<Seq<Point3>>>, i: int, j: int, p: Point3) -> bool {
    &&& 0 <= i < shapes.len()
    &&& shapes[i] matches Some(points)
    &&& 0 <= j < points.len()
    &&& points[j] == p
}

/// `p` is a point of some populated slot of the collection.
pub open spec fn holds_point(shapes: Seq<Option<Seq<Point3>>>, p: Point3) -> bool {
    exists|i: int, j: int| is_point_at(shapes, i, j, p)
}

/// The extent of a sequence of points covers each of them.
pub proof fn lemma_extent_covers(points: Seq<Point3>, k: int)
    requires
        0 <= k < points.len(),
    ensures
        extent_of_points(points).covers(points[k]),
    decreases points.len(),
{
    if k < points.len() - 1 {
        lemma_extent_covers(points.drop_last(), k);
    }
}

/// Each bound of the extent of one or more points is a coordinate of one of
/// them: the box is no wider than the points make it.
pub proof fn lemma_extent_is_attained(points: Seq<Point3>)
    requires
        points.len() > 0,
    ensures
        exists|k: int| 0 <= k < points.len() && (#[trigger] points[k]).x == extent_of_points(points).min_x,
        exists|k: int| 0 <= k < points.len() && (#[trigger] points[k]).x == extent_of_points(points).max_x,
        exists|k: int| 0 <= k < points.len() && (#[trigger] points[k]).y == extent_of_points(points).min_y,
        exists|k: int| 0 <= k < points.len() && (#[trigger] points[k]).y == extent_of_points(points).max_y,
    decreases points.len(),
{
    let front = points.drop_last();
    assert(points[points.len() - 1] == points.last());
    if front.len() == 0 {
        assert(extent_of_points(front) == Extent::spec_empty());
    } else {
        lemma_extent_is_attained(front);
        let f = extent_of_points(front);
        let left = choose|k: int| 0 <= k < front.len() && (#[trigger] front[k]).x == f.min_x;
        let right = choose|k: int| 0 <= k < front.len() && (#[trigger] front[k]).x == f.max_x;
        let low = choose|k: int| 0 <= k < front.len() && (#[trigger] front[k]).y == f.min_y;
        let high = choose|k: int| 0 <= k < front.len() && (#[trigger] front[k]).y == f.max_y;
        assert(points[left] == front[left] && points[right] == front[right]);
        assert(points[low] == front[low] && points[high] == front[high]);
    }
}

/// Where at least one point exists, the least bound of each axis does not
/// lie above the greatest.
pub proof fn lemma_extent_is_ordered(points: Seq<Point3>)
    requires
        points.len() > 0,
    ensures
        extent_of_points(points).min_x <= extent_of_points(points).max_x,
        extent_of_points(points).min_y <= extent_of_points(points).max_y,
{
    lemma_extent_covers(points, 0);
}

/// A box that covers every point and whose four bounds are each a coordinate
/// of some point is the extent of the points.
pub proof fn lemma_extent_is_unique(points: Seq<Point3>, e: Extent)
    requires
        points.len() > 0,
        forall|k: int| 0 <= k < points.len() ==> e.covers(#[trigger] points[k]),
        exists|k: int| 0 <= k < points.len() && (#[trigger] points[k]).x == e.min_x,
        exists|k: int| 0 <= k < points.len() && (#[trigger] points[k]).x == e.max_x,
        exists|k: int| 0 <= k < points.len() && (#[trigger] points[k]).y == e.min_y,
        exists|k: int| 0 <= k < points.len() && (#[trigger] points[k]).y == e.max_y,
    ensures
        e == extent_of_points(points),
{
    let f = extent_of_points(points);
    lemma_extent_is_attained(points);
    assert forall|k: int| 0 <= k < points.len() implies f.covers(#[trigger] points[k]) by {
        lemma_extent_covers(points, k);
    }
}

/// The extent depends on which points there are, not on the order in which
/// they are met nor on how often one occurs.
pub proof fn lemma_extent_ignores_order(a: Seq<Point3>, b: Seq<Point3>)
    requires
        forall|p: Point3| a.contains(p) <==> b.contains(p),
    ensures
        extent_of_points(a) == extent_of_points(b),
{
    if a.len() == 0 {
        if b.len() > 0 {
            assert(b.contains(b[0]));
        }
    } else {
        assert(a.contains(a[0]));
        let e = extent_of_points(b);
        lemma_extent_is_attained(b);
        assert forall|k: int| 0 <= k < a.len() implies e.covers(#[trigger] a[k]) by {
            assert(a.contains(a[k]));
            let m = choose|m: int| 0 <= m < b.len() && b[m] == a[k];
            lemma_extent_covers(b, m);
        }
        let k0 = choose|k: int| 0 <= k < b.len() && (#[trigger] b[k]).x == e.min_x;
        assert(b.contains(b[k0]));
        let k1 = choose|k: int| 0 <= k < b.len() && (#[trigger] b[k]).x == e.max_x;
        assert(b.contains(b[k1]));
        let k2 = choose|k: int| 0 <= k < b.len() && (#[trigger] b[k]).y == e.min_y;
        assert(b.contains(b[k2]));
        let k3 = choose|k: int| 0 <= k < b.len() && (#[trigger] b[k]).y == e.max_y;
        assert(b.contains(b[k3]));
        lemma_extent_is_unique(a, e);
    }
}

/// The points gathered from a collection are the points of its populated
/// slots, no more and no fewer.
pub proof fn lemma_all_points_are_held(shapes: Seq<Option<Seq<Point3>>>, p: Point3)
    ensures
        all_points(shapes).contains(p) <==> holds_point(shapes, p),
    decreases shapes.len(),
{
    if shapes.len() > 0 {
        let front = shapes.drop_last();
        let last = shapes.len() - 1;
        lemma_all_points_are_held(front, p);
        if all_points(shapes).contains(p) {
            let k = choose|k: int| 0 <= k < all_points(shapes).len() && all_points(shapes)[k] == p;
            if k < all_points(front).len() {
                let (i, j) = choose|i: int, j: int| is_point_at(front, i, j, p);
                assert(is_point_at(shapes, i, j, p));
            } else {
                assert(is_point_at(shapes, last, k - all_points(front).len(), p));
            }
        }
        if holds_point(shapes, p) {
            let (i, j) = choose|i: int, j: int| is_point_at(shapes, i, j, p);
            if i < last {
                assert(is_point_at(front, i, j, p));
                let k = choose|k: int| 0 <= k < all_points(front).len() && all_points(front)[k] == p;
                assert(all_points(shapes)[k] == p);
            } else {
                assert(all_points(shapes)[all_points(front).len() + j] == p);
            }
        }
    }
}

/// The extent of a collection covers every point of every populated slot.
pub proof fn lemma_extent_covers_shapes(shapes: Seq<Option<Seq<Point3>>>, p: Point3)
    requires
        holds_point(shapes, p),
    ensures
        extent_of(shapes).covers(p),
{
    lemma_all_points_are_held(shapes, p);
    let k = choose|k: int| 0 <= k < all_points(shapes).len() && all_points(shapes)[k] == p;
    lemma_extent_covers(all_points(shapes), k);
}

/// Where a collection holds at least one point, the least bound of each
/// axis of its extent does not lie above the greatest.
pub proof fn lemma_extent_of_shapes_is_ordered(shapes: Seq<Option<Seq<Point3>>>, p: Point3)
    requires
        holds_point(shapes, p),
    ensures
        extent_of(shapes).min_x <= extent_of(shapes).max_x,
        extent_of(shapes).min_y <= extent_of(shapes).max_y,
{
    lemma_extent_covers_shapes(shapes, p);
}

/// A collection that holds no point has the extent of no points.
pub proof fn lemma_extent_of_no_points(shapes: Seq<Option<Seq<Point3>>>)
    requires
        forall|p: Point3| !holds_point(shapes, p),
    ensures
        extent_of(shapes) == Extent::spec_empty(),
{
    if all_points(shapes).len() > 0 {
        let p = all_points(shapes)[0];
        assert(all_points(shapes).contains(p));
        lemma_all_points_are_held(shapes, p);
    }
}

/// Two collections that hold the same points have the same extent, however
/// the points are spread over slots and in whatever order they come.
pub proof fn lemma_extent_depends_on_points_only(
    a: Seq<Option<Seq<Point3>>>,
    b: Seq<Option<Seq<Point3>>>,
)
    requires
        forall|p: Point3| holds_point(a, p) <==> holds_point(b, p),
    ensures
        extent_of(a) == extent_of(b),
{
    assert forall|p: Point3| all_points(a).contains(p) <==> all_points(b).contains(p) by {
        lemma_all_points_are_held(a, p);
        lemma_all_points_are_held(b, p);
    }
    lemma_extent_ignores_order(all_points(a), all_points(b));
}

/// Processing one document twice gives the same outcome both times: the same
/// error, or collections that are equal slot for slot and point for point and
/// so have the same extent. Nothing is carried over from one run to the next.
pub proof fn lemma_second_run_changes_nothing(
    doc: Document,
    first: Result<ShapeCollection, ShapeError>,
    second: Result<ShapeCollection, ShapeError>,
)
    requires
        collection_result_view(first) == shapes_of(doc),
        collection_result_view(second) == shapes_of(doc),
    ensures
        collection_result_view(first) == collection_result_view(second),
        first is Ok <==> second is Ok,
        first is Ok ==> extent_of(collection_view(first->Ok_0)) == extent_of(
            collection_view(second->Ok_0),
        ),
{
}

/// Computes the extent of a shape collection in one pass over its points.
///
/// Slots that hold no shape are passed over. Where the collection holds no
/// point at all the result is [`Extent::empty`], whose least bounds lie above
/// its greatest.
pub fn calc_extent(shapes: &ShapeCollection) -> (extent: Extent)
    ensures
        extent == extent_of(collection_view(*shapes)),
{
    let ghost slots = collection_view(*shapes);
    let mut extent = Extent::empty();
    let mut i: usize = 0;
    while i < shapes.len()
        invariant
            i <= shapes.len(),
            slots == collection_view(*shapes),
            extent == extent_of(slots.take(i as int)),
        decreases shapes.len() - i,
    {
        let ghost done = all_points(slots.take(i as int));
        assert(slots.take(i + 1).drop_last() =~= slots.take(i as int));
        match &shapes[i] {
            Some(points) => {
                let mut j: usize = 0;
                while j < points.len()
                    invariant
                        j <= points.len(),
                        extent == extent_of_points(done + points@.take(j as int)),
                    decreases points.len() - j,
                {
                    assert((done + points@.take(j + 1)).drop_last() =~= done + points@.take(
                        j as int,
                    ));
                    extent = extent.with_point(points[j]);
                    j += 1;
                }
                assert(points@.take(j as int) =~= points@);
            },
            None => {},
        }
        i += 1;
    }
    assert(slots.take(i as int) =~= slots);
    extent
}

} // verus!
