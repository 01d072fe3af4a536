use kd_tree::KdIndexTree;
use toha_nearest_neighbor::brute_force::{min_distance_to_point, minimize_float};
use toha_nearest_neighbor::float_bits::{bits_is_nan, bits_lt};
use toha_nearest_neighbor::record::point_of;
use toha_nearest_neighbor::{
    brute_force_index, brute_force_index_par, brute_force_location, brute_force_location_par,
    kd_tree_index, kd_tree_index_par, kd_tree_location, kd_tree_location_par, FromShapeIter, IndexAndDistance,
    LocationAndDistance, MatchError, SingleIndexDistance, SinglePointDistance, Table,
};

fn point_distance(point: [f64; 2], distance: f64) -> SinglePointDistance {
    SinglePointDistance { point: point.iter().map(|c| c.to_bits()).collect(), distance: distance.to_bits() }
}

fn table_of(cols: usize, rows: &[Vec<f64>]) -> Table {
    let rows: Vec<Vec<u64>> = rows.iter().map(|r| r.iter().map(|c| c.to_bits()).collect()).collect();
    Table::new(cols, rows).unwrap()
}

fn squared_distance(a: &[f64], b: &[f64]) -> u64 {
    let mut sum = 0.0f64;
    for (x, y) in a.iter().zip(b.iter()) {
        let d = x - y;
        sum += d * d;
    }
    sum.to_bits()
}

/// Uniform values in [0, 10) from a fixed linear congruential sequence.
fn random_points(n: usize, seed: u64) -> Vec<Vec<f64>> {
    let mut state = seed;
    let mut next = || {
        state = state.wrapping_mul(6364136223846793005).wrapping_add(1442695040888963407);
        ((state >> 11) as f64) / ((1u64 << 53) as f64) * 10.0
    };
    (0..n).map(|_| vec![next(), next()]).collect()
}

fn index_tree_points(rows: &[Vec<f64>]) -> Vec<[f64; 2]> {
    rows.iter().map(|r| [r[0], r[1]]).collect()
}

fn bits(v: &[f64]) -> Vec<u64> {
    v.iter().map(|c| c.to_bits()).collect()
}

#[test]
fn minimize_left() {
    let left = point_distance([0., 0.], 0.);
    let right = point_distance([1., 1.], 1.);

    let out = minimize_float(left, right);

    assert_eq!(out, point_distance([0., 0.], 0.))
}

#[test]
fn minimize_right() {
    let left = point_distance([0., 0.], 1.);
    let right = point_distance([1., 1.], 0.);

    let out = minimize_float(left, right);

    assert_eq!(out, point_distance([1., 1.], 0.))
}

#[test]
fn minimize_eq() {
    let left = point_distance([0., 0.], 0.);
    let right = point_distance([1., 1.], 0.);

    let out = minimize_float(left, right);

    assert_eq!(out, point_distance([0., 0.], 0.))
}

#[test]
fn minimize_left_nan() {
    let left = point_distance([0., 0.], f64::NAN);
    let right = point_distance([1., 1.], 0.);

    let out = minimize_float(left, right);

    assert_eq!(out, point_distance([1., 1.], 0.))
}

#[test]
fn minimize_right_nan() {
    let left = point_distance([0., 0.], 20.);
    let right = point_distance([0., 0.], f64::NAN);

    let out = minimize_float(left, right);

    assert_eq!(out, point_distance([0., 0.], 20.))
}

#[test]
fn minimize_both_nan_keeps_left() {
    let left = SingleIndexDistance { index: 0, distance: f64::NAN.to_bits() };
    let right = SingleIndexDistance { index: 1, distance: f64::NAN.to_bits() };

    assert_eq!(minimize_float(left, right).index, 0);
}

#[test]
fn nearest_neighbor_single() {
    let rows = vec![vec![0.0, 0.0], vec![1.0, 0.0], vec![2.0, 1.0], vec![3.0, 2.0]];
    let line_points = table_of(2, &rows);

    let point = [1.1, 0.1];
    let distances: Vec<u64> = rows.iter().map(|r| squared_distance(&point, r)).collect();

    let out = min_distance_to_point(&distances);
    let out = point_of(&out, &line_points);

    assert_eq!(out.point, bits(&[1.0, 0.0]));
}

#[test]
fn brute_force_parallel_serial_same() {
    let lines = random_points(10000, 1);
    let points = random_points(3000, 2);
    let reference = table_of(2, &lines);
    let query = table_of(2, &points);
    let dist = |q: usize, j: usize| squared_distance(&points[q], &lines[j]);

    let out_brute = brute_force_location(&reference, &query, &dist).unwrap();
    let out_par = brute_force_location_par(&reference, &query, &dist).unwrap();

    assert_eq!(out_brute, out_par);
}

#[test]
fn tree_parallel_serial_same() {
    let lines = random_points(10000, 3);
    let points = random_points(3000, 4);
    let reference = table_of(2, &lines);
    let query = table_of(2, &points);
    let tree_points = index_tree_points(&lines);
    let query_points = index_tree_points(&points);
    let tree = KdIndexTree::build_by_ordered_float(&tree_points);
    let nearest = |q: usize| {
        let item = tree.nearest(&query_points[q]).unwrap();
        SingleIndexDistance { index: *item.item, distance: item.squared_distance.to_bits() }
    };

    let kd_brute = kd_tree_location(&reference, &query, &nearest).unwrap();
    let kd_par = kd_tree_location_par(&reference, &query, &nearest).unwrap();

    assert_eq!(kd_brute, kd_par);
}

#[test]
fn kdtree_brute_force_same() {
    let lines = random_points(100, 5);
    let points = random_points(100, 6);
    let reference = table_of(2, &lines);
    let query = table_of(2, &points);
    let tree_points = index_tree_points(&lines);
    let query_points = index_tree_points(&points);
    let tree = KdIndexTree::build_by_ordered_float(&tree_points);
    let nearest = |q: usize| {
        let item = tree.nearest(&query_points[q]).unwrap();
        SingleIndexDistance { index: *item.item, distance: item.squared_distance.to_bits() }
    };
    let dist = |q: usize, j: usize| squared_distance(&points[q], &lines[j]);

    let out_kd = kd_tree_location(&reference, &query, &nearest).unwrap();
    let out_brute = brute_force_location(&reference, &query, &dist).unwrap();

    assert_eq!(out_kd, out_brute);
}

#[test]
fn kdtree_brute_force_same_index() {
    let lines = random_points(200, 7);
    let points = random_points(150, 8);
    let reference = table_of(2, &lines);
    let query = table_of(2, &points);
    let tree_points = index_tree_points(&lines);
    let query_points = index_tree_points(&points);
    let tree = KdIndexTree::build_by_ordered_float(&tree_points);
    let nearest = |q: usize| {
        let item = tree.nearest(&query_points[q]).unwrap();
        SingleIndexDistance { index: *item.item, distance: item.squared_distance.to_bits() }
    };
    let dist = |q: usize, j: usize| squared_distance(&points[q], &lines[j]);

    let out_kd = kd_tree_index(&reference, &query, &nearest).unwrap();
    let out_kd_par = kd_tree_index_par(&reference, &query, &nearest).unwrap();
    let out_brute = brute_force_index(&reference, &query, &dist).unwrap();
    let out_brute_par = brute_force_index_par(&reference, &query, &dist).unwrap();

    assert_eq!(out_kd, out_brute);
    assert_eq!(out_kd_par, out_brute);
    assert_eq!(out_brute_par, out_brute);
}

#[test]
fn example_nearest_index_location_distance() {
    let lines = vec![vec![0.0, 0.0], vec![1.0, 0.0], vec![2.0, 1.0], vec![3.0, 2.0]];
    let points = vec![vec![1.1, 0.1]];
    let reference = table_of(2, &lines);
    let query = table_of(2, &points);
    let dist = |q: usize, j: usize| squared_distance(&points[q], &lines[j]);
    let expected = (1.1f64 - 1.0) * (1.1 - 1.0) + 0.1 * 0.1;

    let by_index = brute_force_index(&reference, &query, &dist).unwrap();
    let by_location = brute_force_location(&reference, &query, &dist).unwrap();

    assert_eq!(by_index.index, vec![1]);
    assert_eq!(by_index.distance, vec![expected.to_bits()]);
    assert!((f64::from_bits(by_index.distance[0]) - 0.02).abs() < 1e-12);
    assert_eq!(by_location.location, table_of(2, &[vec![1.0, 0.0]]));
    assert_eq!(by_location.distance, vec![expected.to_bits()]);
}

#[test]
fn example_tie_goes_to_earlier_row() {
    let lines = vec![vec![0.0, 0.0], vec![2.0, 0.0]];
    let points = vec![vec![1.0, 0.0]];
    let reference = table_of(2, &lines);
    let query = table_of(2, &points);
    let dist = |q: usize, j: usize| squared_distance(&points[q], &lines[j]);

    let serial = brute_force_index(&reference, &query, &dist).unwrap();
    let parallel = brute_force_index_par(&reference, &query, &dist).unwrap();

    let expected = IndexAndDistance { index: vec![0], distance: vec![1.0f64.to_bits()] };
    assert_eq!(serial, expected);
    assert_eq!(parallel, expected);
}

#[test]
fn example_dimension_mismatch() {
    let reference = table_of(3, &[vec![0.0, 0.0, 0.0], vec![1.0, 1.0, 1.0]]);
    let query = table_of(2, &[vec![0.0, 0.0]]);
    let dist = |_q: usize, _j: usize| -> u64 { panic!("no distance is measured") };
    let nearest = |_q: usize| -> SingleIndexDistance { panic!("the index is not asked") };
    let expected = MatchError::DimensionMismatch { reference: 3, query: 2 };

    assert_eq!(brute_force_index(&reference, &query, &dist), Err(expected));
    assert_eq!(brute_force_index_par(&reference, &query, &dist), Err(expected));
    assert_eq!(brute_force_location(&reference, &query, &dist), Err(expected));
    assert_eq!(brute_force_location_par(&reference, &query, &dist), Err(expected));
    assert_eq!(kd_tree_index(&reference, &query, &nearest), Err(expected));
    assert_eq!(kd_tree_location_par(&reference, &query, &nearest), Err(expected));
}

#[test]
fn empty_reference_is_refused() {
    let reference = table_of(2, &[]);
    let query = table_of(2, &[vec![0.0, 0.0]]);
    let dist = |_q: usize, _j: usize| -> u64 { panic!("no distance is measured") };

    assert_eq!(brute_force_index(&reference, &query, &dist), Err(MatchError::EmptyReference));
    assert_eq!(brute_force_location_par(&reference, &query, &dist), Err(MatchError::EmptyReference));
}

#[test]
fn empty_query_gives_no_rows_without_scanning() {
    let reference = table_of(2, &[vec![0.0, 0.0], vec![1.0, 1.0]]);
    let query = table_of(2, &[]);
    let dist = |_q: usize, _j: usize| -> u64 { panic!("no distance is measured") };

    let by_index = brute_force_index_par(&reference, &query, &dist).unwrap();
    let by_location = brute_force_location(&reference, &query, &dist).unwrap();

    assert_eq!(by_index, IndexAndDistance { index: vec![], distance: vec![] });
    assert_eq!(by_location, LocationAndDistance { location: Table::empty(2), distance: vec![] });
    assert_eq!(brute_force_index(&table_of(2, &[]), &query, &dist).unwrap().index.len(), 0);
}

#[test]
fn nan_distance_never_beats_a_number() {
    let distances = vec![f64::NAN.to_bits(), 4.0f64.to_bits(), f64::NAN.to_bits(), 9.0f64.to_bits()];
    let out = min_distance_to_point(&distances);
    assert_eq!(out, SingleIndexDistance { index: 1, distance: 4.0f64.to_bits() });

    let all_nan = vec![f64::NAN.to_bits(), f64::NAN.to_bits()];
    assert_eq!(min_distance_to_point(&all_nan).index, 0);
}

#[test]
fn nan_coordinate_is_not_matched() {
    let lines = vec![vec![f64::NAN, 0.0], vec![5.0, 5.0]];
    let points = vec![vec![0.0, 0.0]];
    let reference = table_of(2, &lines);
    let query = table_of(2, &points);
    let dist = |q: usize, j: usize| squared_distance(&points[q], &lines[j]);

    let out = brute_force_index(&reference, &query, &dist).unwrap();
    assert_eq!(out.index, vec![1]);
    assert_eq!(out.distance, vec![50.0f64.to_bits()]);
}

#[test]
fn rows_follow_query_order() {
    let lines = vec![vec![0.0, 0.0], vec![10.0, 0.0], vec![0.0, 10.0]];
    let points = vec![vec![0.0, 9.0], vec![9.0, 0.0], vec![1.0, 1.0], vec![0.0, 11.0]];
    let reference = table_of(2, &lines);
    let query = table_of(2, &points);
    let dist = |q: usize, j: usize| squared_distance(&points[q], &lines[j]);

    let serial = brute_force_index(&reference, &query, &dist).unwrap();
    let parallel = brute_force_index_par(&reference, &query, &dist).unwrap();
    let located = brute_force_location_par(&reference, &query, &dist).unwrap();

    assert_eq!(serial.index, vec![2, 1, 0, 2]);
    assert_eq!(parallel, serial);
    assert_eq!(located.location, table_of(2, &[vec![0.0, 10.0], vec![10.0, 0.0], vec![0.0, 0.0], vec![0.0, 10.0]]));
}

#[test]
fn float_ordering_on_bits() {
    let b = |x: f64| x.to_bits();
    assert!(bits_lt(b(1.0), b(2.0)));
    assert!(!bits_lt(b(2.0), b(1.0)));
    assert!(bits_lt(b(-3.0), b(-1.0)));
    assert!(bits_lt(b(-1.0), b(0.0)));
    assert!(!bits_lt(b(-0.0), b(0.0)));
    assert!(!bits_lt(b(0.0), b(-0.0)));
    assert!(bits_lt(b(1e300), b(f64::INFINITY)));
    assert!(bits_lt(b(f64::NEG_INFINITY), b(-1e300)));
    assert!(!bits_lt(b(f64::NAN), b(1.0)));
    assert!(!bits_lt(b(1.0), b(f64::NAN)));
    assert!(bits_is_nan(b(f64::NAN)));
    assert!(!bits_is_nan(b(f64::INFINITY)));
    assert!(!bits_is_nan(b(0.0)));
}

#[test]
fn table_rejects_ragged_rows() {
    assert!(Table::new(2, vec![vec![1, 2], vec![3]]).is_none());
    let t = Table::new(2, vec![vec![1, 2], vec![3, 4]]).unwrap();
    assert_eq!(t.nrows(), 2);
    assert_eq!(t.ncols(), 2);
    assert_eq!(t.get(1, 0), 3);
    assert_eq!(t.row(0), &vec![1, 2]);
}

#[test]
fn location_assembly_keeps_rows() {
    let items = vec![point_distance([1.0, 2.0], 3.0), point_distance([4.0, 5.0], 6.0)];
    let out = LocationAndDistance::from_shape_iter(items, (2, 2));
    assert_eq!(out.location, table_of(2, &[vec![1.0, 2.0], vec![4.0, 5.0]]));
    assert_eq!(out.distance, vec![3.0f64.to_bits(), 6.0f64.to_bits()]);

    let records = vec![SingleIndexDistance { index: 7, distance: 1 }, SingleIndexDistance { index: 3, distance: 2 }];
    let out = IndexAndDistance::from_shape_iter(records, (2, 2));
    assert_eq!(out, IndexAndDistance { index: vec![7, 3], distance: vec![1, 2] });
}
