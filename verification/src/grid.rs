//! The coordinate axes of the source grid.

use crate::coordinate::{canonical_longitude, lemma_canonical_longitude_injective, tidylon, FULL_TURN};
use crate::document::{document_id, lemma_document_id_injective};
use vstd::prelude::*;

verus! {

/// The coordinate axes of the source grid.
#[derive(Debug, Clone)]
pub struct GridAxes {
    /// The latitude of each row, in thousandths of a degree.
    pub latitudes: Vec<i64>,
    /// The longitude of each column on `[0, 360)` degrees, in thousandths.
    pub longitudes: Vec<i64>,
    /// The day offset of each time step.
    pub days: Vec<i64>,
}

/// No value occurs twice.
pub open spec fn distinct(values: Seq<i64>) -> bool {
    forall|i: int, j: int| 0 <= i < j < values.len() ==> values[i] != values[j]
}

/// The canonical longitudes of a sequence of longitudes.
pub open spec fn canonical(longitudes: Seq<i64>) -> Seq<i64> {
    Seq::new(longitudes.len(), |j: int| canonical_longitude(longitudes[j] as int) as i64)
}

impl GridAxes {
    /// The canonical longitude of a column.
    pub open spec fn longitude(self, column: int) -> i64 {
        canonical(self.longitudes@)[column]
    }

    /// No two rows share a latitude, and no two columns a canonical
    /// longitude.
    pub open spec fn regular(self) -> bool {
        distinct(self.latitudes@) && distinct(canonical(self.longitudes@))
    }

    /// The samples of a row are one series for each column, each with one
    /// sample for each time step.
    pub open spec fn shaped(self, samples: Seq<Vec<i32>>) -> bool {
        &&& samples.len() == self.longitudes@.len()
        &&& forall|j: int|
            0 <= j < samples.len() ==> (#[trigger] samples[j])@.len() == self.days@.len()
    }

    /// Tells whether no two rows share a latitude and no two columns a
    /// canonical longitude, so that no two cells lie at one place.
    pub fn is_regular(&self) -> (regular: bool)
        ensures
            regular == self.regular(),
    {
        let longitudes = canonical_longitudes(&self.longitudes);
        all_distinct(&self.latitudes) && all_distinct(&longitudes)
    }
}

/// The canonical longitudes of the columns, in their order.
pub fn canonical_longitudes(longitudes: &Vec<i64>) -> (tidy: Vec<i64>)
    ensures
        tidy@ == canonical(longitudes@),
{
    let mut tidy: Vec<i64> = Vec::new();
    let mut j: usize = 0;
    while j < longitudes.len()
        invariant
            j <= longitudes.len(),
            tidy@ == canonical(longitudes@.take(j as int)),
        decreases longitudes.len() - j,
    {
        tidy.push(tidylon(longitudes[j]));
        j += 1;
        assert(tidy@ =~= canonical(longitudes@.take(j as int)));
    }
    assert(longitudes@.take(j as int) =~= longitudes@);
    tidy
}

/// Tells whether no value occurs twice.
pub fn all_distinct(values: &Vec<i64>) -> (ok: bool)
    ensures
        ok == distinct(values@),
{
    let mut j: usize = 0;
    while j < values.len()
        invariant
            j <= values.len(),
            forall|a: int, b: int| 0 <= a < b < j ==> values@[a] != values@[b],
        decreases values.len() - j,
    {
        let mut i: usize = 0;
        while i < j
            invariant
                i <= j < values.len(),
                forall|a: int| 0 <= a < i ==> values@[a] != values@[j as int],
            decreases j - i,
        {
            if values[i] == values[j] {
                return false;
            }
            i += 1;
        }
        j += 1;
    }
    true
}

/// No two cells of a regular grid have the same identity.
pub proof fn lemma_cells_have_their_own_identity(
    axes: GridAxes,
    row: int,
    column: int,
    other_row: int,
    other_column: int,
)
    requires
        axes.regular(),
        0 <= row < axes.latitudes@.len(),
        0 <= other_row < axes.latitudes@.len(),
        0 <= column < axes.longitudes@.len(),
        0 <= other_column < axes.longitudes@.len(),
        row != other_row || column != other_column,
    ensures
        document_id(axes.longitude(column) as int, axes.latitudes@[row] as int) != document_id(
            axes.longitude(other_column) as int,
            axes.latitudes@[other_row] as int,
        ),
{
    if document_id(axes.longitude(column) as int, axes.latitudes@[row] as int) == document_id(
        axes.longitude(other_column) as int,
        axes.latitudes@[other_row] as int,
    ) {
        lemma_document_id_injective(
            axes.longitude(column) as int,
            axes.latitudes@[row] as int,
            axes.longitude(other_column) as int,
            axes.latitudes@[other_row] as int,
        );
        let tidy = canonical(axes.longitudes@);
        if row < other_row {
            assert(axes.latitudes@[row] != axes.latitudes@[other_row]);
        } else if other_row < row {
            assert(axes.latitudes@[other_row] != axes.latitudes@[row]);
        }
        if column < other_column {
            assert(tidy[column] != tidy[other_column]);
        } else if other_column < column {
            assert(tidy[other_column] != tidy[column]);
        }
    }
}

/// Longitudes on `[0, 360)` degrees of which none occurs twice have
/// canonical values of which none occurs twice.
pub proof fn lemma_distinct_longitudes_stay_distinct(longitudes: Seq<i64>)
    requires
        distinct(longitudes),
        forall|j: int| 0 <= j < longitudes.len() ==> 0 <= #[trigger] longitudes[j] < FULL_TURN,
    ensures
        distinct(canonical(longitudes)),
{
    let tidy = canonical(longitudes);
    assert forall|i: int, j: int| 0 <= i < j < tidy.len() implies tidy[i] != tidy[j] by {
        if tidy[i] == tidy[j] {
            lemma_canonical_longitude_injective(longitudes[i] as int, longitudes[j] as int);
        }
    }
}

} // verus!
