use sst_ingest::basin::BasinLattice;
use sst_ingest::batch::build_row;
use sst_ingest::grid::GridAxes;
use sst_ingest::document::TimeSeriesDocument;
use sst_ingest::metadata::{build_metadata, AttributeValue, DatasetMetadataDocument, DATASET_ID};
use sst_ingest::pipeline::{Action, Outcome, Phase, Run};
use sst_ingest::time::nowstring;
use sst_ingest::value::hundredths;

/// A store that keeps what is written to it, and fails the write of one row
/// if told so.
struct Store {
    metadata: Vec<DatasetMetadataDocument>,
    data: Vec<TimeSeriesDocument>,
    attempted: Vec<usize>,
    failing_row: Option<usize>,
}

impl Store {
    fn new(failing_row: Option<usize>) -> Store {
        Store { metadata: Vec::new(), data: Vec::new(), attempted: Vec::new(), failing_row }
    }
}

fn grid(rows: usize, columns: usize) -> (GridAxes, BasinLattice, Vec<Vec<Vec<i32>>>) {
    let days = vec![69_397, 69_404, 69_411];
    let axes = GridAxes {
        latitudes: (0..rows).map(|r| -77_500 + 1_000 * r as i64).collect(),
        longitudes: (0..columns).map(|c| 180_500 + 1_000 * c as i64).collect(),
        days,
    };
    let lattice = BasinLattice::new(
        (0..rows).map(|r| (0..columns).map(|c| (10 * r + c) as i32).collect()).collect(),
    )
    .unwrap();
    let samples = (0..rows)
        .map(|r| {
            (0..columns)
                .map(|c| (0..3).map(|t| (1000 * r + 100 * c + t) as i32).collect())
                .collect()
        })
        .collect();
    (axes, lattice, samples)
}

/// Runs the pipeline over a grid against the store, as the program does.
fn run(rows: usize, columns: usize, store: &mut Store) -> (Run, Vec<Action>) {
    let (axes, lattice, samples) = grid(rows, columns);
    let mut run = Run::new(rows);
    let mut actions = Vec::new();
    let mut action = run.action();
    loop {
        actions.push(action);
        let outcome = match action {
            Action::WriteMetadata => {
                let units = Some(AttributeValue::Text("degC".to_string()));
                let long_name = Some(AttributeValue::Text("Sea Surface Temperature".to_string()));
                let updated = nowstring(chrono::Utc::now().timestamp()).unwrap();
                match build_metadata(units, long_name, &axes.days, &updated) {
                    Ok(doc) => {
                        store.metadata.push(doc);
                        Outcome::Written
                    }
                    Err(_) => Outcome::Failed,
                }
            }
            Action::WriteRow(k) => {
                store.attempted.push(k);
                match build_row(DATASET_ID, hundredths(), &lattice, &axes, k, &samples[k]) {
                    Ok(docs) if store.failing_row != Some(k) => {
                        store.data.extend(docs);
                        Outcome::Written
                    }
                    _ => Outcome::Failed,
                }
            }
            Action::Finish | Action::Abort => return (run, actions),
        };
        action = run.step(outcome);
    }
}

#[test]
fn run_over_a_two_by_two_grid() {
    let mut store = Store::new(None);
    let (end, actions) = run(2, 2, &mut store);
    assert_eq!(
        actions,
        vec![Action::WriteMetadata, Action::WriteRow(0), Action::WriteRow(1), Action::Finish]
    );
    assert_eq!(end.phase(), Phase::Finished);
    assert_eq!(end.flushed(), 2);
    assert_eq!(store.metadata.len(), 1);
    assert_eq!(store.data.len(), 4);
    for doc in &store.data {
        assert_eq!(doc.data.len(), 3);
        assert_eq!(doc.data.len(), store.metadata[0].timeseries.len());
        assert_eq!(doc.metadata, vec![store.metadata[0].id.clone()]);
    }
    let ids: Vec<&str> = store.data.iter().map(|d| d.id.as_str()).collect();
    assert_eq!(ids, vec!["-179.5_-77.5", "-178.5_-77.5", "-179.5_-76.5", "-178.5_-76.5"]);
    let basins: Vec<i32> = store.data.iter().map(|d| d.basin).collect();
    assert_eq!(basins, vec![0, 1, 10, 11]);
    assert_eq!(store.data[3].data[2].mantissa, 1102);
    assert_eq!(store.metadata[0].timeseries, vec![631_238_400_000, 631_843_200_000, 632_448_000_000]);
}

#[test]
fn failed_row_ends_the_run() {
    for k in 0..5 {
        let mut store = Store::new(Some(k));
        let (end, actions) = run(5, 3, &mut store);
        assert_eq!(end.phase(), Phase::Aborted);
        assert_eq!(end.flushed(), k);
        assert_eq!(actions.last(), Some(&Action::Abort));
        // the rows before the failed one are there, those after it were
        // never attempted
        assert_eq!(store.attempted, (0..=k).collect::<Vec<usize>>());
        assert_eq!(store.data.len(), 3 * k);
        assert_eq!(store.metadata.len(), 1);
        for (i, doc) in store.data.iter().enumerate() {
            assert_eq!(doc.geolocation.latitude, -77_500 + 1_000 * (i / 3) as i64);
        }
    }
}

#[test]
fn aborted_run_stays_aborted() {
    let mut run = Run::new(3);
    assert_eq!(run.step(Outcome::Written), Action::WriteRow(0));
    assert_eq!(run.step(Outcome::Written), Action::WriteRow(1));
    assert_eq!(run.step(Outcome::Failed), Action::Abort);
    for outcome in [Outcome::Written, Outcome::Failed, Outcome::Written] {
        assert_eq!(run.step(outcome), Action::Abort);
        assert_eq!(run.phase(), Phase::Aborted);
        assert_eq!(run.flushed(), 1);
        assert_eq!(run.rows(), 3);
    }
}

#[test]
fn failed_metadata_write_ends_the_run_before_any_row() {
    let mut run = Run::new(3);
    assert_eq!(run.action(), Action::WriteMetadata);
    assert_eq!(run.phase(), Phase::Metadata);
    assert_eq!(run.step(Outcome::Failed), Action::Abort);
    assert_eq!(run.flushed(), 0);
    assert_eq!(run.step(Outcome::Written), Action::Abort);
}

#[test]
fn finished_run_stays_finished() {
    let mut run = Run::new(1);
    assert_eq!(run.step(Outcome::Written), Action::WriteRow(0));
    assert_eq!(run.phase(), Phase::Row(0));
    assert_eq!(run.step(Outcome::Written), Action::Finish);
    assert_eq!(run.step(Outcome::Failed), Action::Finish);
    assert_eq!(run.step(Outcome::Written), Action::Finish);
    assert_eq!(run.flushed(), 1);
    assert_eq!(run.phase(), Phase::Finished);
}

#[test]
fn run_over_no_rows_writes_the_metadata_only() {
    let mut store = Store::new(None);
    let (end, actions) = run(0, 0, &mut store);
    assert_eq!(actions, vec![Action::WriteMetadata, Action::Finish]);
    assert_eq!(end.flushed(), 0);
    assert_eq!(store.metadata.len(), 1);
    assert!(store.data.is_empty());
}

#[test]
fn rows_are_asked_for_in_increasing_order() {
    let mut run = Run::new(180);
    let mut action = run.action();
    assert_eq!(action, Action::WriteMetadata);
    for k in 0..180 {
        action = run.step(Outcome::Written);
        assert_eq!(action, Action::WriteRow(k));
        assert_eq!(run.flushed(), k);
    }
    assert_eq!(run.step(Outcome::Written), Action::Finish);
    assert_eq!(run.flushed(), 180);
}
