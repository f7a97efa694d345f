use geoview::{calc_extent, pt3, Extent, Point3, ShapeCollection};

fn spread() -> Vec<Point3> {
    vec![pt3(10, -5, 0), pt3(50, 5, 0), pt3(30, 0, 0), pt3(10, 5, 0), pt3(50, -5, 0)]
}

fn box_of(min_x: i64, max_x: i64, min_y: i64, max_y: i64) -> Extent {
    Extent { min_x, max_x, min_y, max_y }
}

#[test]
fn extent_spans_the_points() {
    let shapes: ShapeCollection = vec![Some(spread())];
    assert_eq!(calc_extent(&shapes), box_of(10, 50, -5, 5));
}

#[test]
fn extent_does_not_depend_on_the_order_of_points() {
    let forward = spread();
    let mut backward = spread();
    backward.reverse();
    let mut rotated = spread();
    rotated.rotate_left(2);
    assert_eq!(calc_extent(&vec![Some(forward)]), box_of(10, 50, -5, 5));
    assert_eq!(calc_extent(&vec![Some(backward)]), box_of(10, 50, -5, 5));
    assert_eq!(calc_extent(&vec![Some(rotated)]), box_of(10, 50, -5, 5));
}

#[test]
fn extent_does_not_depend_on_how_points_are_spread_over_shapes() {
    let one = vec![Some(spread())];
    let two = vec![Some(vec![pt3(50, 5, 0), pt3(30, 0, 0)]), Some(vec![pt3(10, -5, 0)])];
    let swapped = vec![Some(vec![pt3(10, -5, 0)]), Some(vec![pt3(30, 0, 0), pt3(50, 5, 0)])];
    assert_eq!(calc_extent(&one), calc_extent(&two));
    assert_eq!(calc_extent(&two), calc_extent(&swapped));
    assert_eq!(calc_extent(&two), box_of(10, 50, -5, 5));
}

#[test]
fn empty_slots_are_passed_over() {
    let shapes = vec![None, Some(vec![pt3(1, 2, 0), pt3(-3, 4, 0)]), None, Some(vec![pt3(9, -9, 0)])];
    assert_eq!(calc_extent(&shapes), box_of(-3, 9, -9, 4));
}

#[test]
fn no_points_give_the_empty_extent() {
    let sentinel = box_of(i64::MAX, i64::MIN, i64::MAX, i64::MIN);
    assert_eq!(Extent::empty(), sentinel);
    assert_eq!(calc_extent(&vec![]), sentinel);
    assert_eq!(calc_extent(&vec![None, None]), sentinel);
    assert_eq!(calc_extent(&vec![Some(vec![]), None]), sentinel);
}

#[test]
fn one_point_gives_an_extent_without_width() {
    let shapes = vec![Some(vec![pt3(7, -2, 0)])];
    assert_eq!(calc_extent(&shapes), box_of(7, 7, -2, -2));
}

#[test]
fn extreme_coordinates_are_kept() {
    let shapes = vec![Some(vec![pt3(i64::MAX, i64::MIN, 0), pt3(i64::MIN, i64::MAX, 0)])];
    assert_eq!(calc_extent(&shapes), box_of(i64::MIN, i64::MAX, i64::MIN, i64::MAX));
    let top = vec![Some(vec![pt3(i64::MAX, i64::MAX, 0)])];
    assert_eq!(calc_extent(&top), box_of(i64::MAX, i64::MAX, i64::MAX, i64::MAX));
}

#[test]
fn z_plays_no_part_in_the_extent() {
    let shapes = vec![Some(vec![pt3(1, 1, 1000), pt3(2, 2, -1000)])];
    assert_eq!(calc_extent(&shapes), box_of(1, 2, 1, 2));
}

#[test]
fn with_point_moves_a_bound_only_when_the_point_lies_beyond_it() {
    let start = box_of(0, 10, 0, 10);
    assert_eq!(start.with_point(pt3(5, 5, 0)), start);
    assert_eq!(start.with_point(pt3(0, 10, 0)), start);
    assert_eq!(start.with_point(pt3(-1, 11, 0)), box_of(-1, 10, 0, 11));
    assert_eq!(start.with_point(pt3(12, -4, 0)), box_of(0, 12, -4, 10));
    assert_eq!(Extent::empty().with_point(pt3(3, 4, 0)), box_of(3, 3, 4, 4));
}

#[test]
fn extent_twice_gives_the_same_box() {
    let shapes = vec![Some(spread()), None, Some(vec![pt3(100, 100, 0)])];
    assert_eq!(calc_extent(&shapes), calc_extent(&shapes));
    assert_eq!(calc_extent(&shapes), box_of(10, 100, -5, 100));
}

#[test]
fn flat_extents_are_told_apart_from_wide_ones() {
    assert!(Extent::empty().is_flat());
    assert!(box_of(7, 7, -2, -2).is_flat());
    assert!(box_of(0, 10, 3, 3).is_flat());
    assert!(box_of(4, 4, 0, 10).is_flat());
    assert!(box_of(5, 4, 0, 10).is_flat());
    assert!(!box_of(0, 1, 0, 1).is_flat());
    assert!(!box_of(10, 50, -5, 5).is_flat());
    assert!(calc_extent(&vec![Some(vec![pt3(1, 1, 0), pt3(1, 9, 0)])]).is_flat());
    assert!(!calc_extent(&vec![Some(vec![pt3(1, 1, 0), pt3(2, 9, 0)])]).is_flat());
}
