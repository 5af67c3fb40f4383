use sst_ingest::document::make_id;
use sst_ingest::grid::{all_distinct, canonical_longitudes, GridAxes};

fn axes(latitudes: Vec<i64>, longitudes: Vec<i64>) -> GridAxes {
    GridAxes { latitudes, longitudes, days: vec![0, 7, 14] }
}

#[test]
fn longitudes_are_made_canonical_in_order() {
    assert_eq!(
        canonical_longitudes(&vec![500, 179_500, 180_000, 180_500, 359_500]),
        vec![500, 179_500, 180_000, -179_500, -500]
    );
    assert!(canonical_longitudes(&Vec::new()).is_empty());
}

#[test]
fn repeated_values_are_found() {
    assert!(all_distinct(&Vec::new()));
    assert!(all_distinct(&vec![5]));
    assert!(all_distinct(&vec![3, 1, 2, -1, 0]));
    assert!(!all_distinct(&vec![5, 5]));
    assert!(!all_distinct(&vec![3, 1, 2, 3]));
    assert!(!all_distinct(&vec![1, 2, 3, 3]));
    assert!(!all_distinct(&vec![0, 1, 0, 2]));
}

#[test]
fn grid_of_half_degrees_is_regular() {
    let latitudes: Vec<i64> = (0..180).map(|r| 89_500 - 1_000 * r).collect();
    let longitudes: Vec<i64> = (0..360).map(|c| 500 + 1_000 * c).collect();
    assert!(axes(latitudes, longitudes).is_regular());
    assert!(axes(Vec::new(), Vec::new()).is_regular());
}

#[test]
fn grid_with_two_cells_at_one_place_is_not_regular() {
    assert!(!axes(vec![500, 1_500, 500], vec![500, 1_500]).is_regular());
    assert!(!axes(vec![500, 1_500], vec![500, 1_500, 1_500]).is_regular());
    // a full turn apart
    assert!(!axes(vec![500], vec![10_000, 370_000]).is_regular());
    assert_eq!(
        canonical_longitudes(&vec![10_000, 370_000]),
        vec![10_000, 10_000]
    );
    // the same place written in both ways
    assert!(!axes(vec![500], vec![-500, 359_500]).is_regular());
    assert!(axes(vec![500], vec![-500, 359_000]).is_regular());
}

#[test]
fn cells_of_a_regular_grid_have_their_own_identity() {
    let grid = axes(vec![-500, 500, 1_500], vec![500, 180_000, 180_500, 359_500]);
    assert!(grid.is_regular());
    let tidy = canonical_longitudes(&grid.longitudes);
    let mut seen = std::collections::HashSet::new();
    for latitude in &grid.latitudes {
        for longitude in &tidy {
            assert!(seen.insert(make_id(*longitude, *latitude)));
        }
    }
    assert_eq!(seen.len(), 12);
}
