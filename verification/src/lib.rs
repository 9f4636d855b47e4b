//! Verified core of an S3 transfer diagnostic tool.
use vstd::prelude::*;

pub mod command;
pub mod headers;
pub mod influx;
pub mod report;
pub mod rolling;
pub mod session;
pub mod stats;
pub mod status;
pub mod text;
pub mod transfer;
pub mod version;
pub mod wide;
pub mod writeout;

verus! {

} // verus!
