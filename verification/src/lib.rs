//! Turns a gridded, time-indexed sea-surface-temperature data set into one
//! document for each grid cell, each with the full time series of the cell,
//! its place and the ocean basin it lies in, and one document that describes
//! the data set.
//!
//! The library holds whole numbers only. A coordinate is a number of
//! thousandths of a degree, an instant a number of milliseconds since
//! 1970-01-01T00:00:00Z, and a value a mantissa with a number of decimal
//! places. Reading the gridded files and the clock and writing to the
//! document store is left to the caller, who is told by [`pipeline::Run`]
//! what to do next.

pub mod basin;
pub mod batch;
pub mod coordinate;
pub mod document;
pub mod grid;
pub mod metadata;
pub mod pipeline;
pub mod text;
pub mod time;
pub mod value;
