//! A verified core for a bucket listing and filtering utility.
//!
//! The library holds the logic of the utility: building uniform error
//! values, parsing a target region, and the single linear pass that
//! counts buckets, filters them by region, and produces the output
//! lines and the summary line. The surrounding program performs the
//! network calls and hands their results to this library as plain
//! values.

pub mod decimal;
pub mod error;
pub mod listing;
pub mod region;

pub use error::S3ExampleError;
