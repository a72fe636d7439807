//! Extraction of build-timing records from compiler timing reports, and the
//! bookkeeping that keeps a batch of reports from being counted twice.
use vstd::prelude::*;

pub mod text;
pub mod identity;
pub mod calendar;
pub mod report;
pub mod ledger;
pub mod pipeline;
pub mod batch;

verus! {

/// Why a report could not be turned into records.
#[derive(Debug, Clone, Copy, PartialEq, Eq, Structural)]
pub enum ExtractError {
    /// The file name holds no usable build identity.
    MalformedFilename,
    /// A required summary field is absent or cannot be read.
    ExtractionFailed,
}

} // verus!
