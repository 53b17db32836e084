use metaverse::geometry::{
    saturating_add_i32, saturating_sub_i32, sorted_distinct, verify_land_unit_for_estate, verify_land_unit_in_bound,
};

#[test]
fn saturating_arithmetic_clamps_at_the_bounds() {
    assert_eq!(saturating_sub_i32(10, 49), -39);
    assert_eq!(saturating_sub_i32(i32::MIN + 10, 49), i32::MIN);
    assert_eq!(saturating_add_i32(10, 50), 60);
    assert_eq!(saturating_add_i32(i32::MAX - 10, 50), i32::MAX);
}

#[test]
fn land_units_near_the_block_are_in_bound() {
    let coordinates = vec![(0, 0), (10, -5), (-3, 20)];
    assert!(verify_land_unit_in_bound((0, 0), &coordinates));
    // The block may stand at most 49 above the least coordinate of each axis
    // (and at most 50 above the greatest).
    assert!(verify_land_unit_in_bound((46, 44), &coordinates));
    assert!(verify_land_unit_in_bound((-3, -5), &coordinates));
    // Nothing bounds the block from below.
    assert!(verify_land_unit_in_bound((-1000, -1000), &coordinates));
}

#[test]
fn land_units_far_from_the_block_are_out_of_bound() {
    let coordinates = vec![(0, 0), (10, -5)];
    // x: the block is more than 49 above the least x.
    assert!(!verify_land_unit_in_bound((50, 0), &coordinates));
    assert!(!verify_land_unit_in_bound((61, 0), &coordinates));
    // y: the block is more than 49 above the least y.
    assert!(!verify_land_unit_in_bound((0, 45), &coordinates));
    assert!(verify_land_unit_in_bound((0, 44), &coordinates));
    assert!(verify_land_unit_in_bound((49, 44), &coordinates));
}

#[test]
fn in_bound_saturates_at_the_edges_of_the_plane() {
    let coordinates = vec![(i32::MAX, i32::MIN)];
    assert!(verify_land_unit_in_bound((i32::MAX, i32::MIN), &coordinates));
    let coordinates = vec![(i32::MIN, i32::MAX)];
    assert!(verify_land_unit_in_bound((i32::MIN, i32::MAX), &coordinates));
}

#[test]
fn sorted_distinct_sorts_and_drops_repeats() {
    assert_eq!(sorted_distinct(&vec![3, -1, 3, 7, -1, 0]), vec![-1, 0, 3, 7]);
    assert_eq!(sorted_distinct(&vec![]), Vec::<i32>::new());
    assert_eq!(sorted_distinct(&vec![5, 5, 5]), vec![5]);
}

#[test]
fn estate_coordinates_must_be_next_to_each_other() {
    assert!(verify_land_unit_for_estate(&vec![(0, 0), (0, 1), (1, 0), (1, 1)]));
    assert!(verify_land_unit_for_estate(&vec![(0, 0), (1, 1)]));
    assert!(verify_land_unit_for_estate(&vec![(3, -1), (1, -1), (2, 0), (3, -1)]));
    assert!(verify_land_unit_for_estate(&vec![(5, 5)]));
    assert!(verify_land_unit_for_estate(&vec![]));
    assert!(!verify_land_unit_for_estate(&vec![(0, 0), (2, 0)]));
    assert!(!verify_land_unit_for_estate(&vec![(0, 0), (5, 5)]));
    assert!(!verify_land_unit_for_estate(&vec![(0, 0), (0, 2)]));
    assert!(!verify_land_unit_for_estate(&vec![(0, 0), (100, -100)]));
    assert!(!verify_land_unit_for_estate(&vec![(i32::MIN, 0), (i32::MAX, 0)]));
    assert!(verify_land_unit_for_estate(&vec![(i32::MAX - 1, 0), (i32::MAX, 0)]));
}
