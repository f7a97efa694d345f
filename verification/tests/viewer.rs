use geoview::{
    calc_extent, process_geo_json, pt3, Document, DrawCommand, Extent, Feature, Geometry, Model,
    ShapeError, Slider, SliderKind, ViewState, ROTATION_MAX, SCALE_MAX, UNIT,
};

fn document() -> Document {
    Document::FeatureCollection(vec![
        Feature { geometry: Some(Geometry::Polygon(vec![vec![vec![0, 0], vec![4, 0], vec![4, 3], vec![0, 3]]])) },
        Feature { geometry: None },
        Feature { geometry: Some(Geometry::Point(vec![9, 9])) },
    ])
}

#[test]
fn view_state_starts_without_rotation_and_at_scale_one() {
    let state = ViewState::new();
    assert_eq!(state.rotation(), 0);
    assert_eq!(state.scale(), 1_000);
    assert_eq!(UNIT, 1_000);
    assert_eq!(ROTATION_MAX, 180 * UNIT);
    assert_eq!(SCALE_MAX, 100 * UNIT);
}

#[test]
fn slider_value_is_written_at_once() {
    let mut state = ViewState::new();
    state.set(SliderKind::Rotation, 90_500);
    assert_eq!(state.rotation(), 90_500);
    assert_eq!(state.scale(), 1_000);
    state.set(SliderKind::Scale, 42_000);
    assert_eq!(state.rotation(), 90_500);
    assert_eq!(state.scale(), 42_000);
}

#[test]
fn slider_value_outside_the_range_goes_to_the_nearer_end() {
    let mut state = ViewState::new();
    state.set(SliderKind::Rotation, 180_001);
    assert_eq!(state.rotation(), 180_000);
    state.set(SliderKind::Rotation, -1);
    assert_eq!(state.rotation(), 0);
    state.set(SliderKind::Scale, i64::MAX);
    assert_eq!(state.scale(), 100_000);
    state.set(SliderKind::Scale, i64::MIN);
    assert_eq!(state.scale(), 0);
    state.set(SliderKind::Scale, 100_000);
    assert_eq!(state.scale(), 100_000);
    state.set(SliderKind::Rotation, 0);
    assert_eq!(state.rotation(), 0);
}

#[test]
fn sliders_show_value_ends_and_label() {
    let mut state = ViewState::new();
    state.set(SliderKind::Rotation, 45_000);
    assert_eq!(
        state.slider(SliderKind::Rotation),
        Slider { kind: SliderKind::Rotation, value: 45_000, min: 0, max: 180_000 }
    );
    assert_eq!(
        state.slider(SliderKind::Scale),
        Slider { kind: SliderKind::Scale, value: 1_000, min: 0, max: 100_000 }
    );
    assert_eq!(SliderKind::Rotation.label(), "rotation");
    assert_eq!(SliderKind::Scale.label(), "scale");
    assert_eq!(SliderKind::Rotation.upper(), 180_000);
    assert_eq!(SliderKind::Scale.upper(), 100_000);
}

#[test]
fn model_holds_the_shapes_of_its_document() {
    let model = Model::load(&document()).unwrap();
    assert_eq!(
        model.shapes(),
        &vec![Some(vec![pt3(0, 0, 0), pt3(4, 0, 0), pt3(4, 3, 0), pt3(0, 3, 0)]), None]
    );
    assert_eq!(model.state(), ViewState::new());
}

#[test]
fn model_of_a_refused_document_is_refused_alike() {
    let missing = Document::Feature(Feature { geometry: None });
    assert_eq!(Model::load(&missing).err(), Some(ShapeError::MissingGeometry));
    let empty = Document::Geometry(Geometry::MultiPolygon(vec![]));
    assert_eq!(Model::load(&empty).err(), Some(ShapeError::EmptyMultiPolygon));
    let short = Document::Geometry(Geometry::Polygon(vec![vec![vec![1]]]));
    assert_eq!(Model::load(&short).err(), Some(ShapeError::MalformedPosition));
}

#[test]
fn update_writes_what_the_sliders_report() {
    let mut model = Model::load(&document()).unwrap();
    model.update(None, None);
    assert_eq!(model.state(), ViewState::new());
    model.update(Some(30_000), None);
    assert_eq!(model.state().rotation(), 30_000);
    assert_eq!(model.state().scale(), 1_000);
    model.update(None, Some(2_500));
    assert_eq!(model.state().rotation(), 30_000);
    assert_eq!(model.state().scale(), 2_500);
    model.update(Some(999_999), Some(-5));
    assert_eq!(model.state().rotation(), 180_000);
    assert_eq!(model.state().scale(), 0);
}

#[test]
fn update_leaves_the_shapes_alone() {
    let mut model = Model::load(&document()).unwrap();
    let before = model.shapes().clone();
    model.update(Some(12_345), Some(67_890));
    assert_eq!(model.shapes(), &before);
}

#[test]
fn frame_fills_and_outlines_each_shape_and_reports_empty_slots() {
    let model = Model::load(&document()).unwrap();
    let scaled = vec![pt3(0, 0, 0), pt3(640, 0, 0), pt3(640, 360, 0), pt3(0, 360, 0)];
    assert_eq!(
        model.frame(640, 360),
        vec![
            DrawCommand::FillPolygon { points: scaled.clone(), shift_x: -320, shift_y: -180 },
            DrawCommand::StrokeOutline { points: scaled, shift_x: -320, shift_y: -180 },
            DrawCommand::ReportNoShape,
        ]
    );
}

#[test]
fn frame_does_not_depend_on_the_sliders() {
    let mut model = Model::load(&document()).unwrap();
    let before = model.frame(640, 360);
    model.update(Some(90_000), Some(50_000));
    assert_eq!(model.frame(640, 360), before);
}

#[test]
fn extraction_and_extent_twice_give_identical_results() {
    let doc = document();
    let first = process_geo_json(&doc).unwrap();
    let second = process_geo_json(&doc).unwrap();
    assert_eq!(first, second);
    assert_eq!(calc_extent(&first), calc_extent(&second));
    assert_eq!(calc_extent(&first), Extent { min_x: 0, max_x: 4, min_y: 0, max_y: 3 });
    assert_eq!(calc_extent(&first), calc_extent(&first));
}
