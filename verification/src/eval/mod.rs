//! The evaluation harness: data sets, the analysis of failures, and what is
//! recycled from them.
pub mod calibration;
pub mod dataset;
pub mod document;
pub mod loader;
pub mod rca;
pub mod recycle;
pub mod standalone;
pub mod suites;
pub mod types;
pub mod yaml;
