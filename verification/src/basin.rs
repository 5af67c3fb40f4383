//! Ocean-basin classification on a lattice of one-degree cells.
//!
//! The lattice has its cell centres at half degrees. A point is given the
//! code of the nearest of the four centres around it. Coordinates are
//! thousandths of a degree.

use vstd::prelude::*;

verus! {

/// Distance between neighbouring cell centres.
pub const CELL: i64 = 1_000;

/// Distance from a whole degree to the cell centres next to it.
pub const HALF_CELL: i64 = 500;

/// Longitude of the centres of column 0.
pub const LONGITUDE_ORIGIN: i64 = -179_500;

/// Latitude of the centres of row 0.
pub const LATITUDE_ORIGIN: i64 = -77_500;

/// Number of the cell whose centre is the nearest one at or below `p`:
/// the floor of `p - 0.5` degrees.
pub open spec fn cell_below(p: int) -> int {
    (p - HALF_CELL) / (CELL as int)
}

/// Number of the cell whose centre is the nearest one at or above `p`:
/// the ceiling of `p - 0.5` degrees.
pub open spec fn cell_above(p: int) -> int {
    -((HALF_CELL - p) / (CELL as int))
}

/// The coordinate of the centre of cell `k`.
pub open spec fn centre(k: int) -> int {
    k * CELL + HALF_CELL
}

/// The cells `(latitude cell, longitude cell)` of the four centres around a
/// point, from the bottom left one clockwise.
pub open spec fn corner(longitude: int, latitude: int, i: int) -> (int, int) {
    if i == 0 {
        (cell_below(latitude), cell_below(longitude))
    } else if i == 1 {
        (cell_above(latitude), cell_below(longitude))
    } else if i == 2 {
        (cell_above(latitude), cell_above(longitude))
    } else {
        (cell_below(latitude), cell_above(longitude))
    }
}

/// The square of the distance from a point to corner `i`.
pub open spec fn distance_squared(longitude: int, latitude: int, i: int) -> int {
    let (lat_cell, lon_cell) = corner(longitude, latitude, i);
    (longitude - centre(lon_cell)) * (longitude - centre(lon_cell)) + (latitude - centre(lat_cell))
        * (latitude - centre(lat_cell))
}

/// Corner `i` is as near to the point as any corner, and nearer than every
/// corner before it.
pub open spec fn is_nearest(longitude: int, latitude: int, i: int) -> bool {
    &&& 0 <= i < 4
    &&& forall|j: int|
        0 <= j < 4 ==> distance_squared(longitude, latitude, i) <= #[trigger] distance_squared(
            longitude,
            latitude,
            j,
        )
    &&& forall|j: int|
        0 <= j < i ==> distance_squared(longitude, latitude, i) < #[trigger] distance_squared(
            longitude,
            latitude,
            j,
        )
}

/// The first of the corners at the least distance.
pub open spec fn nearest_corner(longitude: int, latitude: int) -> int {
    let d0 = distance_squared(longitude, latitude, 0);
    let d1 = distance_squared(longitude, latitude, 1);
    let d2 = distance_squared(longitude, latitude, 2);
    let d3 = distance_squared(longitude, latitude, 3);
    if d0 <= d1 && d0 <= d2 && d0 <= d3 {
        0
    } else if d1 <= d2 && d1 <= d3 {
        1
    } else if d2 <= d3 {
        2
    } else {
        3
    }
}

/// The lattice row whose centres lie at the latitude of cell `lat_cell`.
pub open spec fn row_of(lat_cell: int) -> int {
    (centre(lat_cell) - LATITUDE_ORIGIN) / (CELL as int)
}

/// The lattice column whose centres lie at the longitude of cell `lon_cell`.
pub open spec fn column_of(lon_cell: int) -> int {
    (centre(lon_cell) - LONGITUDE_ORIGIN) / (CELL as int)
}

/// Every row of the grid has as many columns as the first.
pub open spec fn rectangular(grid: Seq<Seq<i32>>) -> bool {
    forall|r: int| 0 <= r < grid.len() ==> (#[trigger] grid[r]).len() == grid[0].len()
}

/// The code that the lattice holds for the cell `(latitude cell, longitude
/// cell)`, if it has that cell.
pub open spec fn lookup(lattice: Seq<Seq<i32>>, cell: (int, int)) -> Option<i32> {
    let row = row_of(cell.0);
    let column = column_of(cell.1);
    if 0 <= row < lattice.len() && 0 <= column < lattice[row].len() {
        Some(lattice[row][column])
    } else {
        None
    }
}

/// The code of the lattice cell nearest to the point, if the lattice has
/// that cell.
pub open spec fn classify(lattice: Seq<Seq<i32>>, longitude: int, latitude: int) -> Option<i32> {
    lookup(lattice, corner(longitude, latitude, nearest_corner(longitude, latitude)))
}

/// The cell whose centre is nearest to `p`; half way between two centres,
/// the lower one.
pub open spec fn nearest_cell(p: int) -> int {
    (p - 1) / (CELL as int)
}

/// The cell `(latitude cell, longitude cell)` that the choice among the four
/// corners comes to: on each axis the cell whose centre is nearest. A
/// longitude half way between two centres gets the lower cell. So does such
/// a latitude, unless the longitude went to the upper cell: then the
/// latitude goes up too, as the top right corner comes before the bottom
/// right one.
pub open spec fn chosen_cell(longitude: int, latitude: int) -> (int, int) {
    (
        if latitude % (CELL as int) == 0 && nearest_cell(longitude) != cell_below(longitude) {
            cell_above(latitude)
        } else {
            nearest_cell(latitude)
        },
        nearest_cell(longitude),
    )
}

/// The rows of a nested vector as a grid.
pub open spec fn grid_of(cells: Vec<Vec<i32>>) -> Seq<Seq<i32>> {
    Seq::new(cells@.len(), |r: int| cells@[r]@)
}

/// The point asked for lies where the lattice has no cell.
#[derive(Debug, Clone, Copy, PartialEq, Eq)]
pub struct OutOfCoverage;

/// A rectangular grid of basin codes, indexed by latitude cell, then
/// longitude cell.
pub struct BasinLattice {
    cells: Vec<Vec<i32>>,
}

impl View for BasinLattice {
    type V = Seq<Seq<i32>>;

    closed spec fn view(&self) -> Seq<Seq<i32>> {
        grid_of(self.cells)
    }
}

impl BasinLattice {
    #[verifier::type_invariant]
    spec fn well_formed(self) -> bool {
        rectangular(grid_of(self.cells))
    }

    /// Takes the rows of a lattice, unless they differ in length.
    pub fn new(cells: Vec<Vec<i32>>) -> (lattice: Option<BasinLattice>)
        ensures
            lattice is Some <==> rectangular(grid_of(cells)),
            lattice matches Some(l) ==> l@ == grid_of(cells),
    {
        let mut r: usize = 0;
        while r < cells.len()
            invariant
                r <= cells.len(),
                forall|q: int| 0 <= q < r ==> (#[trigger] grid_of(cells)[q]).len() == grid_of(cells)[0].len(),
            decreases cells.len() - r,
        {
            if cells[r].len() != cells[0].len() {
                assert(grid_of(cells)[r as int].len() != grid_of(cells)[0].len());
                return None;
            }
            r += 1;
        }
        Some(BasinLattice { cells })
    }

    /// Number of latitude cells.
    pub fn rows(&self) -> (n: usize)
        ensures
            n == self@.len(),
    {
        self.cells.len()
    }

    /// Number of longitude cells in each row.
    pub fn columns(&self) -> (n: usize)
        ensures
            rectangular(self@),
            n == (if self@.len() == 0 { 0 } else { self@[0].len() }),
    {
        proof {
            use_type_invariant(self);
        }
        if self.cells.len() == 0 {
            0
        } else {
            self.cells[0].len()
        }
    }

    /// The code at a row and column, if the lattice has that cell.
    pub fn code(&self, row: usize, column: usize) -> (code: Option<i32>)
        ensures
            code == (if row < self@.len() && column < self@[row as int].len() {
                Some(self@[row as int][column as int])
            } else {
                None
            }),
    {
        if row < self.cells.len() && column < self.cells[row].len() {
            Some(self.cells[row][column])
        } else {
            None
        }
    }
}

/// A multiple of `CELL` above every `i64` distance.
const SHIFT: i128 = 1_000_000_000_000_000_000_000;

/// The lattice row of cell 0, whose centres lie half a degree north.
const ROW_OF_CELL_ZERO: i128 = 78;

/// The lattice column of cell 0, whose centres lie half a degree east.
const COLUMN_OF_CELL_ZERO: i128 = 180;

fn cell_below_of(p: i64) -> (k: i128)
    ensures
        k == cell_below(p as int),
        -10_000_000_000_000_000 < k < 10_000_000_000_000_000,
        centre(k as int) <= p < centre(k as int) + CELL,
{
    let shifted: i128 = p as i128 - HALF_CELL as i128 + SHIFT;
    shifted / CELL as i128 - SHIFT / CELL as i128
}

fn cell_above_of(p: i64) -> (k: i128)
    ensures
        k == cell_above(p as int),
        -10_000_000_000_000_000 < k < 10_000_000_000_000_000,
        centre(k as int) - CELL < p <= centre(k as int),
{
    let shifted: i128 = HALF_CELL as i128 - p as i128 + SHIFT;
    SHIFT / CELL as i128 - shifted / CELL as i128
}

fn square_distance(longitude: i64, latitude: i64, lon_cell: i128, lat_cell: i128) -> (d: i128)
    requires
        -CELL < longitude - centre(lon_cell as int) < CELL,
        -CELL < latitude - centre(lat_cell as int) < CELL,
    ensures
        d == (longitude - centre(lon_cell as int)) * (longitude - centre(lon_cell as int)) + (latitude
            - centre(lat_cell as int)) * (latitude - centre(lat_cell as int)),
{
    let dx: i128 = longitude as i128 - (lon_cell * CELL as i128 + HALF_CELL as i128);
    let dy: i128 = latitude as i128 - (lat_cell * CELL as i128 + HALF_CELL as i128);
    assert(0 <= dx * dx < 1_000_000 && 0 <= dy * dy < 1_000_000) by (nonlinear_arith)
        requires
            -1_000 < dx < 1_000,
            -1_000 < dy < 1_000,
    ;
    dx * dx + dy * dy
}

/// The basin code of the lattice cell whose centre is nearest to the point;
/// of centres equally near, the first of bottom left, top left, top right,
/// bottom right. Fails where the lattice has no such cell. The corners are
/// compared by the squares of their distances, which are whole numbers and
/// ordered as the distances are.
pub fn find_basin(basins: &BasinLattice, longitude: i64, latitude: i64) -> (basin: Result<
    i32,
    OutOfCoverage,
>)
    ensures
        basin == match classify(basins@, longitude as int, latitude as int) {
            Some(code) => Ok::<i32, OutOfCoverage>(code),
            None => Err(OutOfCoverage),
        },
        classify(basins@, longitude as int, latitude as int) == lookup(
            basins@,
            chosen_cell(longitude as int, latitude as int),
        ),
{
    proof {
        lemma_nearest_corner_is_nearest_cell(longitude as int, latitude as int);
    }
    let lonplus = cell_above_of(longitude);
    let lonminus = cell_below_of(longitude);
    let latplus = cell_above_of(latitude);
    let latminus = cell_below_of(latitude);

    // bottom left corner, clockwise
    let corner_lat: [i128; 4] = [latminus, latplus, latplus, latminus];
    let corner_lon: [i128; 4] = [lonminus, lonminus, lonplus, lonplus];
    let distances: [i128; 4] = [
        square_distance(longitude, latitude, lonminus, latminus),
        square_distance(longitude, latitude, lonminus, latplus),
        square_distance(longitude, latitude, lonplus, latplus),
        square_distance(longitude, latitude, lonplus, latminus),
    ];
    assert(forall|j: int|
        0 <= j < 4 ==> distances[j] == #[trigger] distance_squared(
            longitude as int,
            latitude as int,
            j,
        ) && (corner_lat[j] as int, corner_lon[j] as int) == corner(
            longitude as int,
            latitude as int,
            j,
        ));

    let mut closest: usize = 0;
    let mut closedist = distances[0];
    for i in 1..4usize
        invariant
            closest < i,
            closedist == distances[closest as int],
            forall|j: int| 0 <= j < i ==> closedist <= distances[j],
            forall|j: int| 0 <= j < closest ==> closedist < distances[j],
    {
        if distances[i] < closedist {
            closest = i;
            closedist = distances[i];
        }
    }
    assert(closest == nearest_corner(longitude as int, latitude as int));

    let row = corner_lat[closest] + ROW_OF_CELL_ZERO;
    let column = corner_lon[closest] + COLUMN_OF_CELL_ZERO;
    assert(row == row_of(corner_lat[closest as int] as int));
    assert(column == column_of(corner_lon[closest as int] as int));
    if row < 0 || column < 0 || row >= basins.rows() as i128 || column >= basins.columns() as i128 {
        return Err(OutOfCoverage);
    }
    match basins.code(row as usize, column as usize) {
        Some(code) => Ok(code),
        None => Err(OutOfCoverage),
    }
}

/// The point lies strictly between the first and the last row centre, and
/// strictly between the first and the last column centre, of the lattice.
pub open spec fn strictly_inside(lattice: Seq<Seq<i32>>, longitude: int, latitude: int) -> bool {
    &&& lattice.len() > 0
    &&& LATITUDE_ORIGIN < latitude < LATITUDE_ORIGIN + (lattice.len() - 1) * CELL
    &&& LONGITUDE_ORIGIN < longitude < LONGITUDE_ORIGIN + (lattice[0].len() - 1) * CELL
}

/// Corner `i` of the point is a cell of the lattice.
pub open spec fn corner_in_lattice(
    lattice: Seq<Seq<i32>>,
    longitude: int,
    latitude: int,
    i: int,
) -> bool {
    let (lat_cell, lon_cell) = corner(longitude, latitude, i);
    0 <= row_of(lat_cell) < lattice.len() && 0 <= column_of(lon_cell) < lattice[row_of(
        lat_cell,
    )].len()
}

/// The code that the lattice holds at corner `i` of the point.
pub open spec fn corner_code(lattice: Seq<Seq<i32>>, longitude: int, latitude: int, i: int) -> i32 {
    let (lat_cell, lon_cell) = corner(longitude, latitude, i);
    lattice[row_of(lat_cell)][column_of(lon_cell)]
}

/// The corner that is chosen is the first of those at the least distance,
/// and no other corner is.
pub proof fn lemma_nearest_corner_is_first_minimum(longitude: int, latitude: int)
    ensures
        is_nearest(longitude, latitude, nearest_corner(longitude, latitude)),
        forall|i: int| #[trigger]
            is_nearest(longitude, latitude, i) ==> i == nearest_corner(longitude, latitude),
{
    let n = nearest_corner(longitude, latitude);
    assert forall|i: int| #[trigger] is_nearest(longitude, latitude, i) implies i == n by {
        if i < n {
            assert(distance_squared(longitude, latitude, n) < distance_squared(
                longitude,
                latitude,
                i,
            ));
        } else if n < i {
            assert(distance_squared(longitude, latitude, i) < distance_squared(
                longitude,
                latitude,
                n,
            ));
        }
    }
}

/// Choosing among the four corners by distance comes to choosing the
/// nearest cell on each axis.
pub proof fn lemma_nearest_corner_is_nearest_cell(longitude: int, latitude: int)
    ensures
        corner(longitude, latitude, nearest_corner(longitude, latitude)) == chosen_cell(
            longitude,
            latitude,
        ),
{
    let xb = longitude - centre(cell_below(longitude));
    let xa = centre(cell_above(longitude)) - longitude;
    let yb = latitude - centre(cell_below(latitude));
    let ya = centre(cell_above(latitude)) - latitude;
    assert(0 <= xb < CELL && (xb == 0 ==> xa == 0) && (xb > 0 ==> xa == CELL - xb));
    assert(0 <= yb < CELL && (yb == 0 ==> ya == 0) && (yb > 0 ==> ya == CELL - yb));
    lemma_square_order(xb, xa);
    lemma_square_order(yb, ya);
    let xn = longitude - centre(cell_above(longitude));
    let yn = latitude - centre(cell_above(latitude));
    assert(xn * xn == xa * xa && yn * yn == ya * ya) by (nonlinear_arith)
        requires
            xn == -xa,
            yn == -ya,
    ;
    assert(distance_squared(longitude, latitude, 0) == xb * xb + yb * yb);
    assert(distance_squared(longitude, latitude, 1) == xb * xb + ya * ya);
    assert(distance_squared(longitude, latitude, 2) == xa * xa + ya * ya);
    assert(distance_squared(longitude, latitude, 3) == xa * xa + yb * yb);
}

/// Squares of distances are ordered as the distances are.
#[verifier::nonlinear]
proof fn lemma_square_order(a: int, b: int)
    requires
        0 <= a,
        0 <= b,
    ensures
        a <= b <==> a * a <= b * b,
        a == b <==> a * a == b * b,
{
}

/// A point strictly inside the lattice has all four corners in the lattice,
/// and is given the code that the lattice holds at the nearest of them.
pub proof fn lemma_covered_point_is_classified(
    lattice: Seq<Seq<i32>>,
    longitude: int,
    latitude: int,
)
    requires
        rectangular(lattice),
        strictly_inside(lattice, longitude, latitude),
    ensures
        forall|i: int| 0 <= i < 4 ==> #[trigger] corner_in_lattice(lattice, longitude, latitude, i),
        classify(lattice, longitude, latitude) == Some(
            corner_code(lattice, longitude, latitude, nearest_corner(longitude, latitude)),
        ),
{
    let rows = lattice.len() as int;
    let columns = lattice[0].len() as int;
    assert(0 <= row_of(cell_below(latitude)) <= row_of(cell_above(latitude)) < rows);
    assert(0 <= column_of(cell_below(longitude)) <= column_of(cell_above(longitude)) < columns);
    assert forall|i: int| 0 <= i < 4 implies #[trigger] corner_in_lattice(
        lattice,
        longitude,
        latitude,
        i,
    ) by {
        let (lat_cell, lon_cell) = corner(longitude, latitude, i);
        assert(lattice[row_of(lat_cell)].len() == columns);
    }
    assert(corner_in_lattice(lattice, longitude, latitude, nearest_corner(longitude, latitude)));
}

/// The code of a point depends on nothing but the lattice's codes and the
/// point: equal lattices give equal points equal codes.
pub proof fn lemma_classification_is_a_function(
    first: BasinLattice,
    second: BasinLattice,
    longitude: int,
    latitude: int,
)
    requires
        first@ == second@,
    ensures
        classify(first@, longitude, latitude) == classify(second@, longitude, latitude),
{
}

} // verus!
