//! Decoding of Speedwire energy-meter datagrams and projection of the decoded
//! channels onto labelled metric series.

pub mod bytes;
pub mod catalog;
pub mod decoder;
pub mod frame;
pub mod metrics;
