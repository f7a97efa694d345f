//! The state of the viewer: the shapes of one document and the view settings.
//!
//! The shapes are fixed when the model is made. Each frame the owner of the
//! window first reports what the sliders say ([`Model::update`]) and then
//! asks what to draw ([`Model::frame`]).

use vstd::prelude::*;
use crate::document::{
    collection_result_view,
    collection_view,
    process_geo_json,
    shapes_of,
    Document,
    ShapeCollection,
};
use crate::geometry::ShapeError;
use crate::point::Point3;
use crate::render::{commands_view, frame_plan, plan_frame, DrawCommand};
use crate::view_state::{clamped, SliderKind, ViewState, ROTATION_MAX, SCALE_MAX, UNIT};

verus! {

/// The shapes of a document together with the view settings.
#[derive(Debug)]
pub struct Model {
    shapes: ShapeCollection,
    state: ViewState,
}

impl Model {
    /// The shapes held, as mathematical values.
    pub closed spec fn shapes_view(self) -> Seq<Option<Seq<Point3>>> {
        collection_view(self.shapes)
    }

    /// The view settings held.
    pub closed spec fn state_view(self) -> ViewState {
        self.state
    }

    /// Makes the model of a document: its shapes, no rotation, and a scale
    /// factor of one. A document that [`process_geo_json`] refuses gives no
    /// model but the same error.
    pub fn load(doc: &Document) -> (result: Result<Model, ShapeError>)
        ensures
            match shapes_of(*doc) {
                Ok(shapes) => {
                    &&& result matches Ok(model)
                    &&& model.shapes_view() == shapes
                    &&& model.state_view().rotation_value() == 0
                    &&& model.state_view().scale_value() == UNIT
                },
                Err(e) => result matches Err(refusal) && refusal == e,
            },
    {
        match process_geo_json(doc) {
            Ok(shapes) => Ok(Model { shapes, state: ViewState::new() }),
            Err(e) => Err(e),
        }
    }

    /// The shapes held.
    pub fn shapes(&self) -> (shapes: &ShapeCollection)
        ensures
            collection_view(*shapes) == self.shapes_view(),
    {
        &self.shapes
    }

    /// The view settings held.
    pub fn state(&self) -> (state: ViewState)
        ensures
            state == self.state_view(),
    {
        self.state
    }

    /// Takes over what the two sliders report in one frame: `None` where a
    /// slider was left alone, else its new value, which is written at once
    /// and brought into the slider's range if it lies outside. The shapes
    /// stay as they are.
    pub fn update(&mut self, rotation: Option<i64>, scale: Option<i64>)
        ensures
            final(self).shapes_view() == old(self).shapes_view(),
            final(self).state_view().rotation_value() == match rotation {
                Some(value) => clamped(value as int, 0, ROTATION_MAX as int),
                None => old(self).state_view().rotation_value(),
            },
            final(self).state_view().scale_value() == match scale {
                Some(value) => clamped(value as int, 0, SCALE_MAX as int),
                None => old(self).state_view().scale_value(),
            },
    {
        if let Some(value) = rotation {
            self.state.set(SliderKind::Rotation, value);
        }
        if let Some(value) = scale {
            self.state.set(SliderKind::Scale, value);
        }
    }

    /// Plans one frame for a window of `width` by `height` pixels, as
    /// [`plan_frame`] does for the shapes held. The view settings play no
    /// part: the frame is the same whatever the sliders say.
    pub fn frame(&self, width: u32, height: u32) -> (commands: Vec<DrawCommand>)
        ensures
            commands_view(commands@) == frame_plan(self.shapes_view(), width, height),
    {
        plan_frame(&self.shapes, width, height)
    }
}

} // verus!
