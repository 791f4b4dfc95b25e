//! Reading the JSON report of `cargo crap4rust`.
pub mod json;
pub mod crap_report;
pub mod crap_report_parser;
