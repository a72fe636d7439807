//! One report at a time: decide whether it is new, then record it.
//!
//! The caller lists the reports, reads a report only where `plan_report`
//! calls it new, and writes out what `ingest_report` returns; the ledger and
//! the store are saved once the whole batch has been visited.
use vstd::prelude::*;
use crate::calendar::{build_start_timestamp, start_time_of};
use crate::identity::{extract_raw_time_and_commit_hash, identity_of, revision_of};
use crate::ledger::{Ledger, MetadataStore};
use crate::report::{
    extract_build_metadata, extract_units_data, metadata_of, units_of, units_view,
    BuildMetadataView, UnitBuildData,
};
use crate::ExtractError;

verus! {

/// What to do with a report, judged from its file name and the ledger.
#[derive(Debug, PartialEq, Eq)]
pub enum ReportPlan {
    /// Its build is in the ledger already: leave it.
    AlreadyProcessed { identity: String },
    /// Its build is new: read it and pass it to `ingest_report`.
    New { identity: String, commit_hash: String },
}

/// Judges a report by its file name: already processed when the ledger holds
/// its identity, new otherwise. Fails with `MalformedFilename` exactly when the
/// name holds no identity.
pub fn plan_report(ledger: &Ledger, filename: &str) -> (r: Result<ReportPlan, ExtractError>)
    ensures
        match r {
            Ok(ReportPlan::AlreadyProcessed { identity }) => identity_of(filename@) == Some(identity@)
                && ledger@.contains(identity@),
            Ok(ReportPlan::New { identity, commit_hash }) => identity_of(filename@) == Some(identity@)
                && !ledger@.contains(identity@) && commit_hash@ == revision_of(filename@),
            Err(e) => identity_of(filename@) is None && e == ExtractError::MalformedFilename,
        },
{
    let (identity, commit_hash) = extract_raw_time_and_commit_hash(filename)?;
    if ledger.contains(identity.as_str()) {
        Ok(ReportPlan::AlreadyProcessed { identity })
    } else {
        Ok(ReportPlan::New { identity, commit_hash })
    }
}

/// The records of a report: its summary and its unit rows, where its identity
/// gives a start time and its summary block is complete.
pub open spec fn report_records(identity: Seq<char>, hash: Seq<char>, content: Seq<char>) -> Option<
    (BuildMetadataView, Seq<(Seq<char>, Seq<char>)>),
> {
    match start_time_of(identity) {
        Some(t) => match metadata_of(content, t, hash) {
            Some(m) => Some((m, units_of(content))),
            None => None,
        },
        None => None,
    }
}

/// Records a new report: stores its summary under its identity, appends the
/// identity to the ledger and returns the unit rows to be written out. On
/// failure neither the ledger nor the store changes: `MalformedFilename` where
/// the identity gives no start time, `ExtractionFailed` where the summary block
/// is incomplete.
pub fn ingest_report(
    ledger: &mut Ledger,
    store: &mut MetadataStore,
    identity: String,
    commit_hash: String,
    content: &str,
) -> (r: Result<Vec<UnitBuildData>, ExtractError>)
    ensures
        match r {
            Ok(units) => report_records(identity@, commit_hash@, content@) matches Some((m, rows))
                && units_view(units@) == rows && final(ledger)@ == old(ledger)@.push(identity@)
                && final(store)@ == old(store)@.insert(identity@, m),
            Err(e) => report_records(identity@, commit_hash@, content@) is None && final(ledger)@
                == old(ledger)@ && final(store)@ == old(store)@ && e == (if start_time_of(
                identity@,
            ) is None {
                ExtractError::MalformedFilename
            } else {
                ExtractError::ExtractionFailed
            }),
        },
{
    let start = build_start_timestamp(identity.as_str())?;
    let summary = extract_build_metadata(content, start, commit_hash)?;
    let units = extract_units_data(content);
    let key = identity.clone();
    store.put(key, summary);
    ledger.append(identity);
    Ok(units)
}

} // verus!
