use rust_3d::aa_bb_tree_3d::AABBTree3D;
use rust_3d::bounding_box_3d::BoundingBox3D;
use rust_3d::line_3d::Line3D;
use rust_3d::point_3d::Point3D;
use rust_3d::result::ErrorKind;

fn bb(min: (i64, i64, i64), max: (i64, i64, i64)) -> BoundingBox3D {
    BoundingBox3D::new(
        Point3D::new(min.0, min.1, min.2),
        Point3D::new(max.0, max.1, max.2),
    )
    .unwrap()
}

/// The three-element scenario: boxes 0..2, 10..12 and 20..22 on every axis
/// (the classic unit boxes at 0, 5 and 10, scaled by two onto the integer
/// grid so that a plane can pass through the middle of the second box).
fn three_boxes() -> Vec<BoundingBox3D> {
    vec![
        bb((0, 0, 0), (2, 2, 2)),
        bb((10, 10, 10), (12, 12, 12)),
        bb((20, 20, 20), (22, 22, 22)),
    ]
}

#[test]
fn three_boxes_collision_query_returns_middle_box() {
    let tree = AABBTree3D::new(three_boxes(), 4).unwrap();
    let hits = tree.bb_colliding(&bb((8, 8, 8), (14, 14, 14)));
    // the middle box straddles the root split plane, so it may be
    // reported more than once, but nothing else is reported
    assert!(!hits.is_empty());
    assert!(hits.iter().all(|h| *h == bb((10, 10, 10), (12, 12, 12))));
}

#[test]
fn three_boxes_crossing_x_returns_middle_box() {
    let tree = AABBTree3D::new(three_boxes(), 4).unwrap();
    let hits = tree.bb_crossing_x_value(11);
    assert!(!hits.is_empty());
    assert!(hits.iter().all(|h| *h == bb((10, 10, 10), (12, 12, 12))));
}

#[test]
fn three_boxes_crossing_x_far_away_is_empty() {
    let tree = AABBTree3D::new(three_boxes(), 4).unwrap();
    assert!(tree.bb_crossing_x_value(200).is_empty());
}

#[test]
fn crossing_outside_merged_range_is_empty_on_all_axes() {
    let tree = AABBTree3D::new(three_boxes(), 4).unwrap();
    assert!(tree.bb_crossing_x_value(-1).is_empty());
    assert!(tree.bb_crossing_y_value(23).is_empty());
    assert!(tree.bb_crossing_z_value(1000).is_empty());
}

#[test]
fn full_merged_box_query_returns_every_element() {
    let data = three_boxes();
    let tree = AABBTree3D::new(data.clone(), 4).unwrap();
    let hits = tree.bb_colliding(&bb((0, 0, 0), (22, 22, 22)));
    for d in data.iter() {
        assert!(hits.contains(d));
    }
}

#[test]
fn empty_input_all_queries_empty() {
    let tree = AABBTree3D::new(Vec::<BoundingBox3D>::new(), 4).unwrap();
    assert!(matches!(tree, AABBTree3D::Empty));
    assert!(tree.bb_colliding(&bb((0, 0, 0), (100, 100, 100))).is_empty());
    assert!(tree.bb_crossing_x_value(0).is_empty());
    assert!(tree.bb_crossing_y_value(0).is_empty());
    assert!(tree.bb_crossing_z_value(0).is_empty());
    let line = Line3D::new(Point3D::new(0, 0, 0), Point3D::new(1, 0, 0));
    assert!(tree.intersection_candidates(&line).is_empty());
    let mut seen: Vec<BoundingBox3D> = Vec::new();
    tree.for_each_intersection_candidate(&line, &mut seen);
    assert!(seen.is_empty());
}

#[test]
fn single_element_gives_leaf_with_its_own_box() {
    let b = bb((1, 2, 3), (4, 5, 6));
    let tree = AABBTree3D::new(vec![b], 4).unwrap();
    match tree {
        AABBTree3D::Leaf(leaf) => {
            assert_eq!(leaf.data, vec![b]);
            assert_eq!(leaf.bb, b);
        }
        _ => panic!("expected a leaf"),
    }
}

#[test]
fn maxdepth_zero_gives_single_leaf_with_all_elements() {
    let data = three_boxes();
    let tree = AABBTree3D::new(data.clone(), 0).unwrap();
    match tree {
        AABBTree3D::Leaf(leaf) => {
            assert_eq!(leaf.data, data);
            assert_eq!(leaf.bb, bb((0, 0, 0), (22, 22, 22)));
        }
        _ => panic!("expected a leaf"),
    }
}

#[test]
fn element_without_bounding_box_fails_construction() {
    let data: Vec<Option<BoundingBox3D>> = vec![Some(bb((0, 0, 0), (1, 1, 1))), None];
    let r = AABBTree3D::new(data, 4);
    assert!(matches!(r, Err(ErrorKind::BoundingBoxMissing)));
}

#[test]
fn optional_elements_with_boxes_build_and_answer_queries() {
    let data: Vec<Option<BoundingBox3D>> = vec![
        Some(bb((0, 0, 0), (2, 2, 2))),
        Some(bb((10, 10, 10), (12, 12, 12))),
    ];
    let tree = AABBTree3D::new(data, 4).unwrap();
    let hits = tree.bb_crossing_y_value(1);
    assert_eq!(hits.len(), 1);
    assert_eq!(hits[0], Some(bb((0, 0, 0), (2, 2, 2))));
}

#[test]
fn rebuilding_gives_identical_query_results() {
    let data = vec![
        bb((0, 0, 0), (9, 9, 9)),
        bb((3, 3, 3), (5, 5, 5)),
        bb((-8, -2, 0), (1, 1, 1)),
        bb((7, 7, 7), (8, 9, 10)),
        bb((2, 2, 2), (2, 2, 2)),
    ];
    let t1 = AABBTree3D::new(data.clone(), 6).unwrap();
    let t2 = AABBTree3D::new(data, 6).unwrap();
    let queries = [
        bb((0, 0, 0), (4, 4, 4)),
        bb((-10, -10, -10), (0, 0, 0)),
        bb((6, 6, 6), (20, 20, 20)),
    ];
    for q in queries.iter() {
        let mut r1 = t1.bb_colliding(q);
        let mut r2 = t2.bb_colliding(q);
        r1.sort_by_key(|b| (b.min.x, b.min.y, b.min.z, b.max.x, b.max.y, b.max.z));
        r1.dedup();
        r2.sort_by_key(|b| (b.min.x, b.min.y, b.min.z, b.max.x, b.max.y, b.max.z));
        r2.dedup();
        assert_eq!(r1, r2);
    }
    for v in [-9i64, 0, 3, 8, 11] {
        let mut r1 = t1.bb_crossing_x_value(v);
        let mut r2 = t2.bb_crossing_x_value(v);
        r1.sort_by_key(|b| (b.min.x, b.min.y, b.min.z));
        r1.dedup();
        r2.sort_by_key(|b| (b.min.x, b.min.y, b.min.z));
        r2.dedup();
        assert_eq!(r1, r2);
    }
}

#[test]
fn straddling_element_may_be_reported_more_than_once_but_always_at_least_once() {
    // one big box straddles every split plane, many small ones force splits
    let mut data = vec![bb((-100, -100, -100), (100, 100, 100))];
    for i in 0..8i64 {
        let c = i * 20 - 80;
        data.push(bb((c, c, c), (c + 1, c + 1, c + 1)));
    }
    let tree = AABBTree3D::new(data.clone(), 5).unwrap();
    let hits = tree.bb_colliding(&bb((-100, -100, -100), (100, 100, 100)));
    for d in data.iter() {
        assert!(hits.iter().filter(|h| *h == d).count() >= 1);
    }
}

#[test]
fn line_query_reports_boxes_the_line_meets() {
    let tree = AABBTree3D::new(three_boxes(), 4).unwrap();
    // the main diagonal passes through all three boxes (the middle one may
    // be reported twice: it straddles the root split plane)
    let diagonal = Line3D::new(Point3D::new(0, 0, 0), Point3D::new(1, 1, 1));
    let hits = tree.intersection_candidates(&diagonal);
    for d in three_boxes().iter() {
        assert!(hits.contains(d));
    }
    // a line along X at height 1 only meets the first box
    let axis = Line3D::new(Point3D::new(-5, 1, 1), Point3D::new(1, 0, 0));
    let hits = tree.intersection_candidates(&axis);
    assert_eq!(hits, vec![bb((0, 0, 0), (2, 2, 2))]);
    // a line far away meets nothing
    let far = Line3D::new(Point3D::new(0, 0, 500), Point3D::new(1, 0, 0));
    assert!(tree.intersection_candidates(&far).is_empty());
}

#[test]
fn line_query_is_exact_on_corner_contact() {
    // the line x = 2, z = 2 touches the box only at its edge
    let b = bb((0, 0, 0), (2, 2, 2));
    let tree = AABBTree3D::new(vec![b], 2).unwrap();
    let touching = Line3D::new(Point3D::new(2, 0, 2), Point3D::new(0, 1, 0));
    assert_eq!(tree.intersection_candidates(&touching).len(), 1);
    let missing = Line3D::new(Point3D::new(3, 0, 2), Point3D::new(0, 1, 0));
    assert!(tree.intersection_candidates(&missing).is_empty());
}

#[test]
fn line_query_handles_fractional_crossings() {
    // from (0,0,0) towards (3,1,1): meets the plane x = 10 at (10, 10/3, 10/3),
    // which is outside the middle box, so only the first box is hit
    let tree = AABBTree3D::new(three_boxes(), 4).unwrap();
    let line = Line3D::new(Point3D::new(0, 0, 0), Point3D::new(3, 1, 1));
    let hits = tree.intersection_candidates(&line);
    assert_eq!(hits, vec![bb((0, 0, 0), (2, 2, 2))]);
}

#[test]
fn visitor_sees_candidates_in_query_order() {
    let tree = AABBTree3D::new(three_boxes(), 4).unwrap();
    let diagonal = Line3D::new(Point3D::new(0, 0, 0), Point3D::new(1, 1, 1));
    let mut seen: Vec<BoundingBox3D> = Vec::new();
    tree.for_each_intersection_candidate(&diagonal, &mut seen);
    assert_eq!(seen, tree.intersection_candidates(&diagonal));
}

#[test]
fn bounding_box_operations() {
    let a = bb((0, 0, 0), (4, 4, 4));
    let b = bb((2, 2, 2), (6, 8, 10));
    let mut m = a;
    m.consume(b);
    assert_eq!(m, bb((0, 0, 0), (6, 8, 10)));
    assert_eq!(m.center_bb(), Point3D::new(3, 4, 5));
    assert!(a.collides_with(&b));
    assert!(b.collides_with(&a));
    assert!(!a.collides_with(&bb((5, 5, 5), (6, 6, 6))));
    // boundary contact counts as collision
    assert!(a.collides_with(&bb((4, 4, 4), (5, 5, 5))));
    assert!(a.crossing_x_value(0));
    assert!(a.crossing_x_value(4));
    assert!(!a.crossing_x_value(5));
    assert!(a.crossing_y_value(2));
    assert!(a.crossing_z_value(3));
    let swapped = BoundingBox3D::new(Point3D::new(1, 0, 0), Point3D::new(0, 1, 1));
    assert!(matches!(swapped, Err(ErrorKind::MinMaxSwapped)));
}

#[test]
fn center_of_negative_range_rounds_towards_min() {
    let b = bb((-5, -5, -5), (0, 0, 0));
    assert_eq!(b.center_bb(), Point3D::new(-3, -3, -3));
}
