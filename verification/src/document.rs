//! Documents and the shapes they hold.
//!
//! A document is a feature collection, a single feature or a bare geometry.
//! Processing one gives a shape collection: one slot for each geometry found,
//! in document order, where a slot is empty when the geometry is of a kind
//! that has no exterior ring.

use vstd::prelude::*;
use crate::geometry::{match_geometry, shape_of, Geometry, ShapeError};
use crate::point::Point3;

verus! {

/// The points of one exterior ring, in ring order.
pub type Shape = Vec<Point3>;

/// One slot for each geometry of a document; `None` where the geometry is
/// neither a polygon nor a multi-polygon.
pub type ShapeCollection = Vec<Option<Shape>>;

/// A feature: a geometry, or none. Properties play no part here.
#[derive(Debug)]
pub struct Feature {
    pub geometry: Option<Geometry>,
}

/// A document, by its top-level kind.
#[derive(Debug)]
pub enum Document {
    FeatureCollection(Vec<Feature>),
    Feature(Feature),
    Geometry(Geometry),
}

/// The mathematical value of a slot.
pub open spec fn slot_view(slot: Option<Shape>) -> Option<Seq<Point3>> {
    match slot {
        Some(points) => Some(points@),
        None => None,
    }
}

/// The mathematical value of a shape collection.
pub open spec fn collection_view(shapes: ShapeCollection) -> Seq<Option<Seq<Point3>>> {
    Seq::new(shapes@.len(), |i: int| slot_view(shapes@[i]))
}

/// The mathematical value of a processing result.
pub open spec fn collection_result_view(
    result: Result<ShapeCollection, ShapeError>,
) -> Result<Seq<Option<Seq<Point3>>>, ShapeError> {
    match result {
        Ok(shapes) => Ok(collection_view(shapes)),
        Err(e) => Err(e),
    }
}

/// The slot that a geometry adds to a collection.
pub open spec fn single_shape(geom: Geometry) -> Result<Seq<Option<Seq<Point3>>>, ShapeError> {
    match shape_of(geom) {
        Ok(slot) => Ok(seq![slot]),
        Err(e) => Err(e),
    }
}

/// The shapes of a list of features: features without a geometry add nothing,
/// every other feature adds the slot of its geometry, and the first geometry
/// that is refused, in list order, decides the error.
pub open spec fn shapes_of_features(features: Seq<Feature>) -> Result<
    Seq<Option<Seq<Point3>>>,
    ShapeError,
>
    decreases features.len(),
{
    if features.len() == 0 {
        Ok(Seq::empty())
    } else {
        match shapes_of_features(features.drop_last()) {
            Err(e) => Err(e),
            Ok(shapes) => match features.last().geometry {
                None => Ok(shapes),
                Some(geom) => match shape_of(geom) {
                    Ok(slot) => Ok(shapes.push(slot)),
                    Err(e) => Err(e),
                },
            },
        }
    }
}

/// The shapes of a document.
///
/// In a feature collection a feature without geometry is passed over. A
/// document that is one feature without geometry has nothing to pass over to:
/// it is refused with `MissingGeometry`.
pub open spec fn shapes_of(doc: Document) -> Result<Seq<Option<Seq<Point3>>>, ShapeError> {
    match doc {
        Document::FeatureCollection(features) => shapes_of_features(features@),
        Document::Feature(feature) => match feature.geometry {
            Some(geom) => single_shape(geom),
            None => Err(ShapeError::MissingGeometry),
        },
        Document::Geometry(geom) => single_shape(geom),
    }
}

/// An error met in a prefix of the features is the error of the whole list.
proof fn lemma_error_is_final(features: Seq<Feature>, n: int)
    requires
        0 <= n <= features.len(),
        shapes_of_features(features.take(n)) is Err,
    ensures
        shapes_of_features(features) == shapes_of_features(features.take(n)),
    decreases features.len(),
{
    if n == features.len() {
        assert(features.take(n) =~= features);
    } else {
        assert(features.drop_last().take(n) =~= features.take(n));
        lemma_error_is_final(features.drop_last(), n);
    }
}

/// The features of a list that carry a geometry, in list order.
pub open spec fn features_with_geometry(features: Seq<Feature>) -> Seq<Feature> {
    features.filter(|f: Feature| f.geometry is Some)
}

/// Where a list of features yields shapes, it yields exactly one slot for
/// each feature that has a geometry, in the order of those features, and the
/// slot is the shape of that feature's geometry: a feature without geometry
/// leaves no slot, and a geometry of another kind than polygon or
/// multi-polygon leaves an empty one.
pub proof fn lemma_slots_follow_features(features: Seq<Feature>)
    ensures
        shapes_of_features(features) matches Ok(shapes) ==> {
            &&& shapes.len() == features_with_geometry(features).len()
            &&& forall|k: int|
                0 <= k < shapes.len() ==> shape_of(
                    features_with_geometry(features)[k].geometry->0,
                ) == Ok::<Option<Seq<Point3>>, ShapeError>(#[trigger] shapes[k])
        },
    decreases features.len(),
{
    reveal(Seq::filter);
    if features.len() > 0 {
        lemma_slots_follow_features(features.drop_last());
    }
}

/// A list of features yields shapes exactly when no geometry in it is
/// refused; otherwise the error is that of the first refused geometry.
pub proof fn lemma_first_refusal_decides(features: Seq<Feature>)
    ensures
        shapes_of_features(features) is Ok <==> forall|i: int|
            0 <= i < features.len() && (#[trigger] features[i]).geometry is Some ==> shape_of(
                features[i].geometry->0,
            ) is Ok,
        shapes_of_features(features) matches Err(e) ==> exists|i: int|
            {
                &&& 0 <= i < features.len()
                &&& (#[trigger] features[i]).geometry is Some
                &&& shape_of(features[i].geometry->0) == Err::<Option<Seq<Point3>>, ShapeError>(e)
                &&& forall|j: int|
                    0 <= j < i && (#[trigger] features[j]).geometry is Some ==> shape_of(
                        features[j].geometry->0,
                    ) is Ok
            },
    decreases features.len(),
{
    if features.len() > 0 {
        let front = features.drop_last();
        lemma_first_refusal_decides(front);
        assert(forall|i: int| 0 <= i < front.len() ==> front[i] == features[i]);
    }
}

/// How many geometries a document holds: one for each feature of a
/// collection that has a geometry, one for a feature with a geometry, one for
/// a bare geometry.
pub open spec fn geometry_count(doc: Document) -> nat {
    match doc {
        Document::FeatureCollection(features) => features_with_geometry(features@).len(),
        Document::Feature(feature) => if feature.geometry is Some {
            1
        } else {
            0
        },
        Document::Geometry(_) => 1,
    }
}

/// The collection of a document has one slot for each geometry found in it,
/// whatever the kind of the geometry.
pub proof fn lemma_one_slot_for_each_geometry(doc: Document)
    ensures
        shapes_of(doc) matches Ok(shapes) ==> shapes.len() == geometry_count(doc),
{
    if let Document::FeatureCollection(features) = doc {
        lemma_slots_follow_features(features@);
    }
}

/// Wraps the shape of one geometry in a collection of one slot.
fn single_slot(geom: &Geometry) -> (result: Result<ShapeCollection, ShapeError>)
    ensures
        collection_result_view(result) == single_shape(*geom),
{
    match match_geometry(geom) {
        Ok(slot) => {
            let mut shapes: ShapeCollection = Vec::new();
            shapes.push(slot);
            assert(collection_view(shapes) =~= seq![slot_view(slot)]);
            Ok(shapes)
        },
        Err(e) => Err(e),
    }
}

/// Collects the shapes of a document.
///
/// A feature collection gives one slot for each feature that has a geometry,
/// in the order of the features; features without geometry are dropped and
/// leave no slot. A single feature or a bare geometry gives one slot. A slot
/// is `None` where the geometry is neither a polygon nor a multi-polygon.
///
/// The result is an error when a geometry is refused by [`match_geometry`]
/// (the first such geometry in document order decides which error), and
/// `MissingGeometry` when the document is a single feature without geometry.
pub fn process_geo_json(doc: &Document) -> (result: Result<ShapeCollection, ShapeError>)
    ensures
        collection_result_view(result) == shapes_of(*doc),
{
    match doc {
        Document::FeatureCollection(features) => {
            let mut shapes: ShapeCollection = Vec::new();
            let mut i: usize = 0;
            assert(collection_view(shapes) =~= Seq::<Option<Seq<Point3>>>::empty());
            while i < features.len()
                invariant
                    i <= features.len(),
                    shapes_of(*doc) == shapes_of_features(features@),
                    shapes_of_features(features@.take(i as int)) == Ok::<
                        Seq<Option<Seq<Point3>>>,
                        ShapeError,
                    >(collection_view(shapes)),
                decreases features.len() - i,
            {
                let ghost before = collection_view(shapes);
                let ghost prefix = features@.take(i + 1);
                assert(prefix.drop_last() =~= features@.take(i as int));
                match &features[i].geometry {
                    None => {},
                    Some(geom) => {
                        match match_geometry(geom) {
                            Ok(slot) => {
                                shapes.push(slot);
                                assert(collection_view(shapes) =~= before.push(slot_view(slot)));
                            },
                            Err(e) => {
                                proof {
                                    lemma_error_is_final(features@, i + 1);
                                }
                                return Err(e);
                            },
                        }
                    },
                }
                i += 1;
            }
            assert(features@.take(i as int) =~= features@);
            Ok(shapes)
        },
        Document::Feature(feature) => match &feature.geometry {
            Some(geom) => single_slot(geom),
            None => Err(ShapeError::MissingGeometry),
        },
        Document::Geometry(geom) => single_slot(geom),
    }
}

} // verus!
