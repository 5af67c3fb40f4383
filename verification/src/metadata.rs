//! The one document that describes the data set.

use crate::document::texts;
use crate::time::{
    axis_decodes, decode_time_axis, decoded_time, is_time_axis, parse_wire, parsed_wire,
    TimeOutOfRange, EPOCH,
};
use vstd::prelude::*;

verus! {

/// Identifier of the data set, and its data type.
pub const DATASET_ID: &'static str = "noaa-oi-sst-v2";

/// Name of the sample field.
pub const FIELD: &'static str = "sst";

/// Name of the attribute that holds the unit of the samples.
pub const UNITS: &'static str = "units";

/// Name of the attribute that holds the long name of the sample field.
pub const LONG_NAME: &'static str = "long_name";

/// Name of the source of the data.
pub const SOURCE_NAME: &'static str = "NOAA Optimum Interpolation SST V2";

/// Where the source publishes the data.
pub const SOURCE_URL: &'static str = "https://psl.noaa.gov/data/gridded/data.noaa.oisst.v2.html";

/// The value of an attribute of the source, as far as it is read here.
#[derive(Debug, Clone, PartialEq, Eq)]
pub enum AttributeValue {
    /// A single text.
    Text(String),
    /// Numbers, or several texts.
    Other,
}

/// Why an attribute gave no text.
#[derive(Debug, Clone, Copy, PartialEq, Eq, Structural)]
pub enum AttributeError {
    /// The field has no attribute of that name.
    NotFound,
    /// The attribute does not hold a single text.
    WrongType,
}

/// The text of an attribute, or why it has none.
pub open spec fn attribute_text(value: Option<AttributeValue>) -> Result<Seq<char>, AttributeError> {
    match value {
        Some(AttributeValue::Text(text)) => Ok(text@),
        Some(AttributeValue::Other) => Err(AttributeError::WrongType),
        None => Err(AttributeError::NotFound),
    }
}

/// The text of an attribute that is there and holds a single text.
pub fn string_attribute(value: Option<AttributeValue>) -> (text: Result<String, AttributeError>)
    ensures
        match text {
            Ok(t) => attribute_text(value) == Ok::<Seq<char>, AttributeError>(t@),
            Err(e) => attribute_text(value) == Err::<Seq<char>, AttributeError>(e),
        },
{
    match value {
        Some(AttributeValue::Text(text)) => Ok(text),
        Some(AttributeValue::Other) => Err(AttributeError::WrongType),
        None => Err(AttributeError::NotFound),
    }
}

/// Who made the data, and where it is published.
#[derive(Debug, Clone)]
pub struct SourceEntry {
    pub source: Vec<String>,
    pub url: String,
}

/// The fields of the data set: their names, the names of their attributes,
/// and for each field the values of those attributes.
#[derive(Debug, Clone)]
pub struct DataInfo {
    pub fields: Vec<String>,
    pub attributes: Vec<String>,
    pub values: Vec<Vec<String>>,
}

/// The document that describes the data set.
#[derive(Debug, Clone)]
pub struct DatasetMetadataDocument {
    pub id: String,
    pub data_type: String,
    pub data_info: DataInfo,
    /// The instant at which the documents were made.
    pub date_updated: i64,
    /// The instants of the time axis that every series follows.
    pub timeseries: Vec<i64>,
    pub source: Vec<SourceEntry>,
}

/// What the document that describes the data set holds.
pub struct MetadataView {
    pub id: Seq<char>,
    pub data_type: Seq<char>,
    pub fields: Seq<Seq<char>>,
    pub attributes: Seq<Seq<char>>,
    pub values: Seq<Seq<Seq<char>>>,
    pub date_updated: i64,
    pub timeseries: Seq<i64>,
    pub source: Seq<(Seq<Seq<char>>, Seq<char>)>,
}

impl View for DatasetMetadataDocument {
    type V = MetadataView;

    open spec fn view(&self) -> MetadataView {
        MetadataView {
            id: self.id@,
            data_type: self.data_type@,
            fields: texts(self.data_info.fields@),
            attributes: texts(self.data_info.attributes@),
            values: Seq::new(
                self.data_info.values@.len(),
                |i: int| texts(self.data_info.values@[i]@),
            ),
            date_updated: self.date_updated,
            timeseries: self.timeseries@,
            source: Seq::new(
                self.source@.len(),
                |i: int| (texts(self.source@[i].source@), self.source@[i].url@),
            ),
        }
    }
}

/// The document of the data set with a unit and a long name of its field, a
/// time axis and the instant of its making.
pub open spec fn metadata(
    units: Seq<char>,
    long_name: Seq<char>,
    timeseries: Seq<i64>,
    date_updated: i64,
) -> MetadataView {
    MetadataView {
        id: DATASET_ID@,
        data_type: DATASET_ID@,
        fields: seq![FIELD@],
        attributes: seq![UNITS@, LONG_NAME@],
        values: seq![seq![units, long_name]],
        date_updated,
        timeseries,
        source: seq![(seq![SOURCE_NAME@], SOURCE_URL@)],
    }
}

/// The document of the data set with a unit and a long name of its field, a
/// time axis and the instant of its making.
pub fn assemble_metadata(
    units: String,
    long_name: String,
    timeseries: Vec<i64>,
    date_updated: i64,
) -> (doc: DatasetMetadataDocument)
    ensures
        doc@ == metadata(units@, long_name@, timeseries@, date_updated),
{
    let mut fields: Vec<String> = Vec::new();
    fields.push(String::from_str(FIELD));
    let mut attributes: Vec<String> = Vec::new();
    attributes.push(String::from_str(UNITS));
    attributes.push(String::from_str(LONG_NAME));
    let mut of_field: Vec<String> = Vec::new();
    of_field.push(units);
    of_field.push(long_name);
    let mut values: Vec<Vec<String>> = Vec::new();
    values.push(of_field);
    let mut names: Vec<String> = Vec::new();
    names.push(String::from_str(SOURCE_NAME));
    let mut source: Vec<SourceEntry> = Vec::new();
    source.push(SourceEntry { source: names, url: String::from_str(SOURCE_URL) });
    let doc = DatasetMetadataDocument {
        id: String::from_str(DATASET_ID),
        data_type: String::from_str(DATASET_ID),
        data_info: DataInfo { fields, attributes, values },
        date_updated,
        timeseries,
        source,
    };
    proof {
        let want = metadata(units@, long_name@, timeseries@, date_updated);
        assert(doc@.fields =~= want.fields);
        assert(doc@.attributes =~= want.attributes);
        assert(texts(doc.data_info.values@[0]@) =~= seq![units@, long_name@]);
        assert(doc@.values =~= want.values);
        assert(texts(doc.source@[0].source@) =~= seq![SOURCE_NAME@]);
        assert(doc@.source =~= want.source);
    }
    doc
}

/// Why the document that describes the data set was not made.
#[derive(Debug, Clone, Copy, PartialEq, Eq, Structural)]
pub enum MetadataError {
    /// A day offset of the time axis does not decode.
    Time(TimeOutOfRange),
    /// The sample field has no unit that is a text.
    Units(AttributeError),
    /// The sample field has no long name that is a text.
    LongName(AttributeError),
    /// The time of making is not a timestamp.
    Updated,
}

/// The document that describes the data set, from the unit and the long
/// name of the sample field, the day offsets of the time axis and the text
/// of the time of its making. Looks at them in this order, and fails at the
/// first that is not in order.
pub fn build_metadata(
    units: Option<AttributeValue>,
    long_name: Option<AttributeValue>,
    days: &Vec<i64>,
    updated: &str,
) -> (outcome: Result<DatasetMetadataDocument, MetadataError>)
    ensures
        match outcome {
            Ok(doc) => {
                &&& axis_decodes(EPOCH as int, days@, days@.len() as int)
                &&& is_time_axis(doc.timeseries@, EPOCH as int, days@)
                &&& attribute_text(units) is Ok
                &&& attribute_text(long_name) is Ok
                &&& parsed_wire(updated@) == Some(doc.date_updated as int)
                &&& doc@ == metadata(
                    attribute_text(units)->Ok_0,
                    attribute_text(long_name)->Ok_0,
                    doc.timeseries@,
                    doc.date_updated,
                )
            },
            Err(MetadataError::Units(e)) => attribute_text(units) == Err::<
                Seq<char>,
                AttributeError,
            >(e),
            Err(MetadataError::LongName(e)) => {
                &&& attribute_text(units) is Ok
                &&& attribute_text(long_name) == Err::<Seq<char>, AttributeError>(e)
            },
            Err(MetadataError::Time(e)) => {
                &&& attribute_text(units) is Ok
                &&& attribute_text(long_name) is Ok
                &&& e.index < days@.len()
                &&& axis_decodes(EPOCH as int, days@, e.index as int)
                &&& decoded_time(EPOCH as int, days@[e.index as int] as int) is None
            },
            Err(MetadataError::Updated) => {
                &&& attribute_text(units) is Ok
                &&& attribute_text(long_name) is Ok
                &&& axis_decodes(EPOCH as int, days@, days@.len() as int)
                &&& parsed_wire(updated@) is None
            },
        },
{
    let units_text = match string_attribute(units) {
        Ok(text) => text,
        Err(e) => {
            return Err(MetadataError::Units(e));
        },
    };
    let long_name_text = match string_attribute(long_name) {
        Ok(text) => text,
        Err(e) => {
            return Err(MetadataError::LongName(e));
        },
    };
    let timeseries = match decode_time_axis(EPOCH, days) {
        Ok(instants) => instants,
        Err(e) => {
            return Err(MetadataError::Time(e));
        },
    };
    let date_updated = match parse_wire(updated) {
        Some(instant) => instant,
        None => {
            return Err(MetadataError::Updated);
        },
    };
    Ok(assemble_metadata(units_text, long_name_text, timeseries, date_updated))
}

} // verus!
