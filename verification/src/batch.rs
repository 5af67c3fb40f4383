//! The documents of one latitude row, gathered and handed over as one batch.

use crate::basin::{classify, find_basin, BasinLattice};
use crate::coordinate::tidylon;
use crate::document::{build_document, document, documents, DocumentView, TimeSeriesDocument};
use crate::grid::GridAxes;
use crate::time::is_time_axis;
use crate::value::{decode_series, scaled_series, Scale};
use vstd::prelude::*;

verus! {

/// The basin code of the cell at a row and a column, if the lattice covers
/// it.
pub open spec fn cell_basin(axes: GridAxes, basins: Seq<Seq<i32>>, row: int, column: int) -> Option<
    i32,
> {
    classify(basins, axes.longitude(column) as int, axes.latitudes@[row] as int)
}

/// The document of the cell at a row and a column that the lattice covers,
/// with the stored samples `raw`.
pub open spec fn cell_document(
    axes: GridAxes,
    dataset: Seq<char>,
    scale: Scale,
    basins: Seq<Seq<i32>>,
    row: int,
    column: int,
    raw: Seq<i32>,
) -> DocumentView {
    document(
        dataset,
        axes.longitude(column),
        axes.latitudes@[row],
        cell_basin(axes, basins, row, column)->Some_0,
        scaled_series(raw, scale),
    )
}

/// The lattice covers the cells of a row in every column before `end`.
pub open spec fn row_covered(axes: GridAxes, basins: Seq<Seq<i32>>, row: int, end: int) -> bool {
    forall|j: int| 0 <= j < end ==> (#[trigger] cell_basin(axes, basins, row, j)) is Some
}

/// Why a row gave no documents.
#[derive(Debug, Clone, Copy, PartialEq, Eq, Structural)]
pub enum RowError {
    /// The grid has no row of that number.
    NoSuchRow,
    /// The samples are not one full series for each column.
    Shape,
    /// The lattice does not cover the cell in this column, the first such.
    OutOfCoverage { column: usize },
}

/// The documents gathered for the row at hand.
pub struct RowBuffer {
    docs: Vec<TimeSeriesDocument>,
}

impl View for RowBuffer {
    type V = Seq<DocumentView>;

    closed spec fn view(&self) -> Seq<DocumentView> {
        documents(self.docs@)
    }
}

impl RowBuffer {
    /// A buffer that holds nothing.
    pub fn new() -> (buffer: RowBuffer)
        ensures
            buffer@ == Seq::<DocumentView>::empty(),
    {
        let buffer = RowBuffer { docs: Vec::new() };
        assert(buffer@ =~= Seq::<DocumentView>::empty());
        buffer
    }

    /// Number of documents held.
    pub fn len(&self) -> (n: usize)
        ensures
            n == self@.len(),
    {
        self.docs.len()
    }

    /// Puts a document behind those held.
    pub fn accumulate(&mut self, doc: TimeSeriesDocument)
        ensures
            final(self)@ == old(self)@.push(doc@),
    {
        self.docs.push(doc);
        assert(self@ =~= old(self)@.push(doc@));
    }

    /// Hands over the documents held, in the order they came, as the one
    /// batch to write, and holds nothing afterwards.
    pub fn flush(&mut self) -> (batch: Vec<TimeSeriesDocument>)
        ensures
            documents(batch@) == old(self)@,
            final(self)@ == Seq::<DocumentView>::empty(),
    {
        let mut batch: Vec<TimeSeriesDocument> = Vec::new();
        core::mem::swap(&mut self.docs, &mut batch);
        assert(self@ =~= Seq::<DocumentView>::empty());
        batch
    }
}

/// Tells whether the samples are one series for each column, each with one
/// sample for each time step.
fn has_shape(axes: &GridAxes, samples: &Vec<Vec<i32>>) -> (ok: bool)
    ensures
        ok == axes.shaped(samples@),
{
    if samples.len() != axes.longitudes.len() {
        return false;
    }
    let mut j: usize = 0;
    while j < samples.len()
        invariant
            j <= samples.len(),
            samples.len() == axes.longitudes.len(),
            forall|k: int| 0 <= k < j ==> (#[trigger] samples@[k])@.len() == axes.days@.len(),
        decreases samples.len() - j,
    {
        if samples[j].len() != axes.days.len() {
            return false;
        }
        j += 1;
    }
    true
}

/// The documents of one latitude row, one for each column in increasing
/// order: the longitude made canonical, the basin looked up at the place,
/// the samples decoded with the scale factor. `samples[j]` holds the stored
/// series of column `j`.
pub fn build_row(
    dataset: &str,
    scale: Scale,
    basins: &BasinLattice,
    axes: &GridAxes,
    row: usize,
    samples: &Vec<Vec<i32>>,
) -> (outcome: Result<Vec<TimeSeriesDocument>, RowError>)
    ensures
        match outcome {
            Ok(docs) => {
                &&& row < axes.latitudes@.len()
                &&& axes.shaped(samples@)
                &&& row_covered(*axes, basins@, row as int, axes.longitudes@.len() as int)
                &&& docs@.len() == axes.longitudes@.len()
                &&& forall|j: int|
                    0 <= j < docs@.len() ==> (#[trigger] docs@[j])@ == cell_document(
                        *axes,
                        dataset@,
                        scale,
                        basins@,
                        row as int,
                        j,
                        samples@[j]@,
                    )
                &&& forall|j: int|
                    0 <= j < docs@.len() ==> (#[trigger] docs@[j]).data@.len() == axes.days@.len()
            },
            Err(RowError::NoSuchRow) => row >= axes.latitudes@.len(),
            Err(RowError::Shape) => row < axes.latitudes@.len() && !axes.shaped(samples@),
            Err(RowError::OutOfCoverage { column }) => {
                &&& row < axes.latitudes@.len()
                &&& axes.shaped(samples@)
                &&& column < axes.longitudes@.len()
                &&& row_covered(*axes, basins@, row as int, column as int)
                &&& cell_basin(*axes, basins@, row as int, column as int) is None
            },
        },
{
    if row >= axes.latitudes.len() {
        return Err(RowError::NoSuchRow);
    }
    if !has_shape(axes, samples) {
        return Err(RowError::Shape);
    }
    let latitude = axes.latitudes[row];
    let mut buffer = RowBuffer::new();
    let mut column: usize = 0;
    while column < axes.longitudes.len()
        invariant
            column <= axes.longitudes@.len(),
            row < axes.latitudes@.len(),
            latitude == axes.latitudes@[row as int],
            axes.shaped(samples@),
            row_covered(*axes, basins@, row as int, column as int),
            buffer@.len() == column,
            forall|j: int|
                0 <= j < column ==> #[trigger] buffer@[j] == cell_document(
                    *axes,
                    dataset@,
                    scale,
                    basins@,
                    row as int,
                    j,
                    samples@[j]@,
                ),
        decreases axes.longitudes@.len() - column,
    {
        let longitude = tidylon(axes.longitudes[column]);
        let data = decode_series(&samples[column], scale);
        let basin = match find_basin(basins, longitude, latitude) {
            Ok(code) => code,
            Err(_) => {
                return Err(RowError::OutOfCoverage { column });
            },
        };
        buffer.accumulate(build_document(dataset, longitude, latitude, basin, data));
        column += 1;
    }
    let docs = buffer.flush();
    assert forall|j: int| 0 <= j < docs@.len() implies (#[trigger] docs@[j])@ == cell_document(
        *axes,
        dataset@,
        scale,
        basins@,
        row as int,
        j,
        samples@[j]@,
    ) && docs@[j].data@.len() == axes.days@.len() by {
        assert(documents(docs@)[j] == docs@[j]@);
    }
    Ok(docs)
}

/// The series of every cell has one value for each instant of the time axis.
pub proof fn lemma_series_follow_time_axis(
    axes: GridAxes,
    dataset: Seq<char>,
    scale: Scale,
    basins: Seq<Seq<i32>>,
    row: int,
    column: int,
    samples: Seq<Vec<i32>>,
    epoch: int,
    timeseries: Seq<i64>,
)
    requires
        axes.shaped(samples),
        0 <= column < axes.longitudes@.len(),
        is_time_axis(timeseries, epoch, axes.days@),
    ensures
        cell_document(axes, dataset, scale, basins, row, column, samples[column]@).data.len()
            == timeseries.len(),
{
}

} // verus!
