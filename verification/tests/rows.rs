use sst_ingest::basin::BasinLattice;
use sst_ingest::batch::{build_row, RowBuffer, RowError};
use sst_ingest::grid::GridAxes;
use sst_ingest::document::{build_document, GeoPoint};
use sst_ingest::value::{hundredths, Decimal};

fn small_axes() -> GridAxes {
    GridAxes {
        latitudes: vec![-77_500, -76_500],
        longitudes: vec![180_500, 181_500],
        days: vec![69_397, 69_404, 69_411],
    }
}

fn small_lattice() -> BasinLattice {
    BasinLattice::new(vec![vec![1, 2], vec![3, 4]]).unwrap()
}

#[test]
fn document_holds_what_it_is_given() {
    let data = vec![Decimal { mantissa: 2575, places: 2 }, Decimal { mantissa: -180, places: 2 }];
    let doc = build_document("noaa-oi-sst-v2", -160_500, 20_000, 3, data.clone());
    assert_eq!(doc.id, "-160.5_20");
    assert_eq!(doc.metadata, vec!["noaa-oi-sst-v2".to_string()]);
    assert_eq!(doc.basin, 3);
    assert_eq!(doc.geolocation, GeoPoint { longitude: -160_500, latitude: 20_000 });
    assert_eq!(doc.data, data);
}

#[test]
fn buffer_hands_over_what_it_gathered_in_order() {
    let mut buffer = RowBuffer::new();
    assert_eq!(buffer.len(), 0);
    assert!(buffer.flush().is_empty());
    buffer.accumulate(build_document("d", 500, 500, 1, Vec::new()));
    buffer.accumulate(build_document("d", 1_500, 500, 2, Vec::new()));
    buffer.accumulate(build_document("d", 2_500, 500, 3, Vec::new()));
    assert_eq!(buffer.len(), 3);
    let batch = buffer.flush();
    let ids: Vec<&str> = batch.iter().map(|d| d.id.as_str()).collect();
    assert_eq!(ids, vec!["0.5_0.5", "1.5_0.5", "2.5_0.5"]);
    assert_eq!(buffer.len(), 0);
    assert!(buffer.flush().is_empty());
    buffer.accumulate(build_document("d", 3_500, 500, 4, Vec::new()));
    assert_eq!(buffer.flush().len(), 1);
}

#[test]
fn row_gives_one_document_for_each_column() {
    let samples = vec![vec![2575, 2600, 2625], vec![-180, -170, -160]];
    let docs =
        build_row("noaa-oi-sst-v2", hundredths(), &small_lattice(), &small_axes(), 1, &samples)
            .unwrap();
    assert_eq!(docs.len(), 2);
    assert_eq!(docs[0].id, "-179.5_-76.5");
    assert_eq!(docs[0].basin, 3);
    assert_eq!(docs[0].geolocation, GeoPoint { longitude: -179_500, latitude: -76_500 });
    assert_eq!(docs[0].metadata, vec!["noaa-oi-sst-v2".to_string()]);
    assert_eq!(
        docs[0].data,
        vec![
            Decimal { mantissa: 2575, places: 2 },
            Decimal { mantissa: 2600, places: 2 },
            Decimal { mantissa: 2625, places: 2 },
        ]
    );
    assert_eq!(docs[1].id, "-178.5_-76.5");
    assert_eq!(docs[1].basin, 4);
    assert_eq!(docs[1].data[0], Decimal { mantissa: -180, places: 2 });
    assert_eq!(docs[1].data.len(), 3);
}

#[test]
fn row_of_an_empty_axis_is_empty() {
    let axes = GridAxes { latitudes: vec![500], longitudes: Vec::new(), days: vec![1] };
    let docs = build_row("d", hundredths(), &small_lattice(), &axes, 0, &Vec::new()).unwrap();
    assert!(docs.is_empty());
}

#[test]
fn row_that_the_grid_lacks_is_refused() {
    let samples = vec![vec![1, 2, 3], vec![4, 5, 6]];
    let outcome = build_row("d", hundredths(), &small_lattice(), &small_axes(), 2, &samples);
    assert_eq!(outcome.unwrap_err(), RowError::NoSuchRow);
    // the row is looked at before the shape
    let outcome = build_row("d", hundredths(), &small_lattice(), &small_axes(), 9, &Vec::new());
    assert_eq!(outcome.unwrap_err(), RowError::NoSuchRow);
}

#[test]
fn samples_of_the_wrong_shape_are_refused() {
    let lattice = small_lattice();
    let axes = small_axes();
    let one_column = vec![vec![1, 2, 3]];
    assert_eq!(
        build_row("d", hundredths(), &lattice, &axes, 0, &one_column).unwrap_err(),
        RowError::Shape
    );
    let short_series = vec![vec![1, 2, 3], vec![4, 5]];
    assert_eq!(
        build_row("d", hundredths(), &lattice, &axes, 0, &short_series).unwrap_err(),
        RowError::Shape
    );
    let long_series = vec![vec![1, 2, 3, 4], vec![4, 5, 6]];
    assert_eq!(
        build_row("d", hundredths(), &lattice, &axes, 0, &long_series).unwrap_err(),
        RowError::Shape
    );
}

#[test]
fn row_off_the_lattice_names_the_first_such_column() {
    let lattice = small_lattice();
    let samples = vec![vec![1, 2, 3], vec![4, 5, 6], vec![7, 8, 9]];
    let axes = GridAxes {
        latitudes: vec![-77_500, -75_500],
        longitudes: vec![180_500, 182_500, 183_500],
        days: vec![0, 1, 2],
    };
    assert_eq!(
        build_row("d", hundredths(), &lattice, &axes, 0, &samples).unwrap_err(),
        RowError::OutOfCoverage { column: 1 }
    );
    assert_eq!(
        build_row("d", hundredths(), &lattice, &axes, 1, &samples).unwrap_err(),
        RowError::OutOfCoverage { column: 0 }
    );
    // the shape is looked at before the lattice
    assert_eq!(
        build_row("d", hundredths(), &lattice, &axes, 1, &Vec::new()).unwrap_err(),
        RowError::Shape
    );
}
