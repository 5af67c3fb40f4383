//! Canonical coordinates.
//!
//! Every coordinate is a whole number of thousandths of a degree, so that
//! half- and quarter-degree grids are held exactly.

use vstd::prelude::*;

verus! {

/// Thousandths of a degree in half a turn.
pub const HALF_TURN: i64 = 180_000;

/// Thousandths of a degree in a full turn.
pub const FULL_TURN: i64 = 360_000;

/// The canonical longitude of a longitude given on `[0, 360)` degrees.
pub open spec fn canonical_longitude(longitude: int) -> int {
    if longitude <= HALF_TURN {
        longitude
    } else {
        longitude - FULL_TURN
    }
}

/// Maps a longitude on `[0, 360)` degrees to `(-180, 180]` degrees: values up
/// to half a turn stay, larger ones lose a full turn.
pub fn tidylon(longitude: i64) -> (canonical: i64)
    ensures
        canonical == canonical_longitude(longitude as int),
        0 <= longitude < FULL_TURN ==> -HALF_TURN < canonical <= HALF_TURN,
{
    if longitude <= HALF_TURN {
        longitude
    } else {
        longitude - FULL_TURN
    }
}

/// A longitude on `[0, 360)` degrees has its canonical value on `(-180, 180]`
/// degrees. That value is canonical as it stands, and so is what comes of
/// giving a negative one its full turn back.
pub proof fn lemma_canonical_longitude(longitude: int)
    requires
        0 <= longitude < FULL_TURN,
    ensures
        -HALF_TURN < canonical_longitude(longitude) <= HALF_TURN,
        canonical_longitude(canonical_longitude(longitude)) == canonical_longitude(longitude),
        canonical_longitude(
            if canonical_longitude(longitude) < 0 {
                canonical_longitude(longitude) + FULL_TURN
            } else {
                canonical_longitude(longitude)
            },
        ) == canonical_longitude(longitude),
{
}

/// Two longitudes on `[0, 360)` degrees with one canonical value are equal.
pub proof fn lemma_canonical_longitude_injective(first: int, second: int)
    requires
        0 <= first < FULL_TURN,
        0 <= second < FULL_TURN,
        canonical_longitude(first) == canonical_longitude(second),
    ensures
        first == second,
{
}

} // verus!
