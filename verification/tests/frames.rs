use geoview::render::centre_shift_of;
use geoview::{calc_extent, plan_frame, plan_poly, pt3, DrawCommand, Extent, Point3, ShapeCollection};

fn fill(points: Vec<Point3>, shift_x: i64, shift_y: i64) -> DrawCommand {
    DrawCommand::FillPolygon { points, shift_x, shift_y }
}

fn outline(points: Vec<Point3>, shift_x: i64, shift_y: i64) -> DrawCommand {
    DrawCommand::StrokeOutline { points, shift_x, shift_y }
}

#[test]
fn shape_is_filled_then_outlined() {
    let extent = Extent { min_x: 0, max_x: 100, min_y: 0, max_y: 100 };
    let shape = vec![pt3(0, 0, 0), pt3(50, 50, 0), pt3(100, 0, 0)];
    let scaled = vec![pt3(0, 0, 0), pt3(320, 180, 0), pt3(640, 0, 0)];
    assert_eq!(
        plan_poly(&shape, &extent, 640, 360),
        Some(vec![fill(scaled.clone(), -320, -180), outline(scaled, -320, -180)])
    );
}

#[test]
fn shape_that_cannot_be_scaled_is_not_planned() {
    let extent = Extent { min_x: 0, max_x: 1, min_y: 0, max_y: 1 };
    assert_eq!(plan_poly(&vec![pt3(i64::MAX, 0, 0)], &extent, 640, 360), None);
}

#[test]
fn centre_shift_is_half_the_size_rounded_down_and_negated() {
    assert_eq!(centre_shift_of(640), -320);
    assert_eq!(centre_shift_of(361), -180);
    assert_eq!(centre_shift_of(1), 0);
    assert_eq!(centre_shift_of(0), 0);
    assert_eq!(centre_shift_of(u32::MAX), -2_147_483_647);
}

#[test]
fn frame_draws_slots_in_collection_order() {
    let first = vec![pt3(0, 0, 0), pt3(100, 0, 0), pt3(100, 100, 0)];
    let second = vec![pt3(50, 50, 0), pt3(0, 100, 0)];
    let shapes: ShapeCollection = vec![Some(first), None, Some(second)];
    assert_eq!(calc_extent(&shapes), Extent { min_x: 0, max_x: 100, min_y: 0, max_y: 100 });
    let first_scaled = vec![pt3(0, 0, 0), pt3(640, 0, 0), pt3(640, 360, 0)];
    let second_scaled = vec![pt3(320, 180, 0), pt3(0, 360, 0)];
    assert_eq!(
        plan_frame(&shapes, 640, 360),
        vec![
            fill(first_scaled.clone(), -320, -180),
            outline(first_scaled, -320, -180),
            DrawCommand::ReportNoShape,
            fill(second_scaled.clone(), -320, -180),
            outline(second_scaled, -320, -180),
        ]
    );
}

#[test]
fn frame_of_nothing_draws_nothing() {
    assert_eq!(plan_frame(&vec![], 640, 360), vec![]);
}

#[test]
fn frame_of_empty_slots_only_reports_them() {
    assert_eq!(
        plan_frame(&vec![None, None], 640, 360),
        vec![DrawCommand::ReportNoShape, DrawCommand::ReportNoShape]
    );
}

#[test]
fn frame_of_a_single_point_draws_it_in_the_middle() {
    let shapes = vec![Some(vec![pt3(-73, 40, 0)])];
    let middle = vec![pt3(320, 180, 0)];
    assert_eq!(
        plan_frame(&shapes, 640, 360),
        vec![fill(middle.clone(), -320, -180), outline(middle, -320, -180)]
    );
}

#[test]
fn frame_of_a_vertical_line_keeps_its_height() {
    let shapes = vec![Some(vec![pt3(5, 0, 0), pt3(5, 10, 0), pt3(5, 5, 0)])];
    let scaled = vec![pt3(320, 0, 0), pt3(320, 360, 0), pt3(320, 180, 0)];
    assert_eq!(
        plan_frame(&shapes, 640, 360),
        vec![fill(scaled.clone(), -320, -180), outline(scaled, -320, -180)]
    );
}

#[test]
fn every_planned_point_lies_in_the_window() {
    let shapes = vec![
        Some(vec![pt3(-739_712, 407_831, 0), pt3(-739_300, 407_900, 0), pt3(-740_100, 407_000, 0)]),
        None,
        Some(vec![pt3(-739_000, 408_800, 0), pt3(i64::MIN, i64::MAX, 0), pt3(i64::MAX, i64::MIN, 0)]),
    ];
    let commands = plan_frame(&shapes, 800, 600);
    assert_eq!(commands.len(), 5);
    for command in &commands {
        let points = match command {
            DrawCommand::FillPolygon { points, .. } => points.clone(),
            DrawCommand::StrokeOutline { points, .. } => points.clone(),
            DrawCommand::ReportNoShape => vec![],
        };
        for p in points {
            assert!(0 <= p.x && p.x <= 800);
            assert!(0 <= p.y && p.y <= 600);
        }
    }
}

#[test]
fn frame_twice_gives_the_same_commands() {
    let shapes = vec![Some(vec![pt3(1, 2, 0), pt3(3, 4, 0)]), None];
    assert_eq!(plan_frame(&shapes, 640, 360), plan_frame(&shapes, 640, 360));
}
