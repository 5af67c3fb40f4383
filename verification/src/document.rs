//! The document of one grid cell: its identity, basin, place and series.

use crate::text::{
    lemma_split_unique, lemma_thousandths_chars, lemma_thousandths_injective, push_thousandths,
    thousandths,
};
use crate::value::Decimal;
use vstd::prelude::*;

verus! {

/// A place in canonical coordinates, in thousandths of a degree.
#[derive(Debug, Clone, Copy, PartialEq, Eq, Structural)]
pub struct GeoPoint {
    pub longitude: i64,
    pub latitude: i64,
}

/// The record of one grid cell.
#[derive(Debug, Clone)]
pub struct TimeSeriesDocument {
    /// Longitude and latitude as decimal numbers of degrees, joined by `_`.
    pub id: String,
    /// The identifier of the data set that the series belongs to.
    pub metadata: Vec<String>,
    /// The basin code of the place.
    pub basin: i32,
    /// The place of the cell.
    pub geolocation: GeoPoint,
    /// One value for each step of the time axis, in its order.
    pub data: Vec<Decimal>,
}

/// What a document holds.
pub struct DocumentView {
    pub id: Seq<char>,
    pub metadata: Seq<Seq<char>>,
    pub basin: i32,
    pub geolocation: GeoPoint,
    pub data: Seq<Decimal>,
}

/// The texts that a sequence of strings holds.
pub open spec fn texts(strings: Seq<String>) -> Seq<Seq<char>> {
    Seq::new(strings.len(), |i: int| strings[i]@)
}

impl View for TimeSeriesDocument {
    type V = DocumentView;

    open spec fn view(&self) -> DocumentView {
        DocumentView {
            id: self.id@,
            metadata: texts(self.metadata@),
            basin: self.basin,
            geolocation: self.geolocation,
            data: self.data@,
        }
    }
}

/// What a sequence of documents holds.
pub open spec fn documents(docs: Seq<TimeSeriesDocument>) -> Seq<DocumentView> {
    Seq::new(docs.len(), |i: int| docs[i]@)
}

/// The identity of the cell at a place: `-160.5_-77.5` for 160.5 degrees west
/// and 77.5 degrees south.
pub open spec fn document_id(longitude: int, latitude: int) -> Seq<char> {
    thousandths(longitude) + seq!['_'] + thousandths(latitude)
}

/// The identity of the cell at a place.
pub fn make_id(longitude: i64, latitude: i64) -> (id: String)
    ensures
        id@ == document_id(longitude as int, latitude as int),
{
    let mut id = String::new();
    push_thousandths(&mut id, longitude);
    id.append("_");
    push_thousandths(&mut id, latitude);
    proof {
        reveal_strlit("_");
        assert(id@ =~= document_id(longitude as int, latitude as int));
    }
    id
}

/// The document of a cell.
pub open spec fn document(
    dataset: Seq<char>,
    longitude: i64,
    latitude: i64,
    basin: i32,
    data: Seq<Decimal>,
) -> DocumentView {
    DocumentView {
        id: document_id(longitude as int, latitude as int),
        metadata: seq![dataset],
        basin,
        geolocation: GeoPoint { longitude, latitude },
        data,
    }
}

/// The document of the cell at a place in canonical coordinates, with its
/// basin code and its series of values.
pub fn build_document(
    dataset: &str,
    longitude: i64,
    latitude: i64,
    basin: i32,
    data: Vec<Decimal>,
) -> (doc: TimeSeriesDocument)
    ensures
        doc@ == document(dataset@, longitude, latitude, basin, data@),
{
    let mut metadata: Vec<String> = Vec::new();
    metadata.push(String::from_str(dataset));
    let doc = TimeSeriesDocument {
        id: make_id(longitude, latitude),
        metadata,
        basin,
        geolocation: GeoPoint { longitude, latitude },
        data,
    };
    assert(texts(doc.metadata@) =~= seq![dataset@]);
    doc
}

/// Cells at different places have different identities.
pub proof fn lemma_document_id_injective(
    longitude: int,
    latitude: int,
    other_longitude: int,
    other_latitude: int,
)
    requires
        document_id(longitude, latitude) == document_id(other_longitude, other_latitude),
    ensures
        longitude == other_longitude,
        latitude == other_latitude,
{
    lemma_thousandths_chars(longitude);
    lemma_thousandths_chars(other_longitude);
    lemma_split_unique(
        thousandths(longitude),
        thousandths(latitude),
        thousandths(other_longitude),
        thousandths(other_latitude),
        '_',
    );
    lemma_thousandths_injective(longitude, other_longitude);
    lemma_thousandths_injective(latitude, other_latitude);
}

} // verus!
