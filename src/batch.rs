//! What a batch of reports does to the ledger and the store, and why running
//! the same batch again changes nothing.
use vstd::prelude::*;
use crate::identity::{identity_of, revision_of};
use crate::ledger::{Ledger, MetadataStore};
use crate::pipeline::{ingest_report, plan_report, report_records, ReportPlan};
use crate::report::{field_text, units_of, units_view, BuildMetadataView, SummaryField, UnitBuildData};
use crate::ExtractError;

verus! {

/// The ledger and the store, as plain values.
pub struct BatchState {
    pub ledger: Seq<Seq<char>>,
    pub store: Map<Seq<char>, BuildMetadataView>,
}

/// One report, named `filename` and holding `content`, visited in state `st`:
/// a report without identity, or whose build is in the ledger, or whose
/// records cannot be read, leaves the state as it is; any other has its
/// summary stored and its identity appended.
pub open spec fn step(st: BatchState, filename: Seq<char>, content: Seq<char>) -> BatchState {
    match identity_of(filename) {
        None => st,
        Some(id) => if st.ledger.contains(id) {
            st
        } else {
            match report_records(id, revision_of(filename), content) {
                Some((m, _)) => BatchState { ledger: st.ledger.push(id), store: st.store.insert(id, m) },
                None => st,
            }
        },
    }
}

/// The reports `(filename, content)` visited in order from state `st`.
pub open spec fn run(st: BatchState, reports: Seq<(Seq<char>, Seq<char>)>) -> BatchState
    decreases reports.len(),
{
    if reports.len() == 0 {
        st
    } else {
        run(step(st, reports[0].0, reports[0].1), reports.drop_first())
    }
}

/// Visits one report: records it where it is new and readable, and returns
/// its unit rows then; returns `Ok(None)` where its build is in the ledger
/// already. The ledger and the store change exactly as `step` says.
pub fn process_report(
    ledger: &mut Ledger,
    store: &mut MetadataStore,
    filename: &str,
    content: &str,
) -> (r: Result<Option<Vec<UnitBuildData>>, ExtractError>)
    ensures
        (BatchState { ledger: final(ledger)@, store: final(store)@ }) == step(
            BatchState { ledger: old(ledger)@, store: old(store)@ },
            filename@,
            content@,
        ),
        r matches Ok(Some(units)) ==> readable(filename@, content@) && units_view(units@) == units_of(
            content@,
        ),
        r matches Ok(None) ==> identity_of(filename@) matches Some(id) && old(ledger)@.contains(id),
        r is Err ==> !readable(filename@, content@),
{
    match plan_report(ledger, filename)? {
        ReportPlan::AlreadyProcessed { identity: _ } => Ok(None),
        ReportPlan::New { identity, commit_hash } => {
            let units = ingest_report(ledger, store, identity, commit_hash, content)?;
            Ok(Some(units))
        },
    }
}

/// A report whose identity and records can both be read.
pub open spec fn readable(filename: Seq<char>, content: Seq<char>) -> bool {
    identity_of(filename) matches Some(id) && report_records(id, revision_of(filename), content) is Some
}

proof fn lemma_run_keeps_ledger(st: BatchState, reports: Seq<(Seq<char>, Seq<char>)>, id: Seq<char>)
    requires
        st.ledger.contains(id),
    ensures
        run(st, reports).ledger.contains(id),
    decreases reports.len(),
{
    if reports.len() > 0 {
        let s1 = step(st, reports[0].0, reports[0].1);
        if s1.ledger != st.ledger {
            let k = choose|k: int| 0 <= k < st.ledger.len() && st.ledger[k] == id;
            assert(s1.ledger[k] == id);
        }
        lemma_run_keeps_ledger(s1, reports.drop_first(), id);
    }
}

proof fn lemma_run_records_readable(st: BatchState, reports: Seq<(Seq<char>, Seq<char>)>, i: int)
    requires
        0 <= i < reports.len(),
        readable(reports[i].0, reports[i].1),
    ensures
        run(st, reports).ledger.contains(identity_of(reports[i].0)->0),
    decreases reports.len(),
{
    let s1 = step(st, reports[0].0, reports[0].1);
    let rest = reports.drop_first();
    if i == 0 {
        let id = identity_of(reports[0].0)->0;
        if !st.ledger.contains(id) {
            assert(s1.ledger[st.ledger.len() as int] == id);
        }
        assert(s1.ledger.contains(id));
        lemma_run_keeps_ledger(s1, rest, id);
    } else {
        assert(rest[i - 1] == reports[i]);
        lemma_run_records_readable(s1, rest, i - 1);
    }
}

proof fn lemma_run_of_recorded_is_identity(st: BatchState, reports: Seq<(Seq<char>, Seq<char>)>)
    requires
        forall|i: int|
            0 <= i < reports.len() && readable(reports[i].0, reports[i].1) ==> st.ledger.contains(
                identity_of(reports[i].0)->0,
            ),
    ensures
        run(st, reports) == st,
    decreases reports.len(),
{
    if reports.len() > 0 {
        assert(step(st, reports[0].0, reports[0].1) == st);
        let rest = reports.drop_first();
        assert forall|i: int|
            0 <= i < rest.len() && readable(rest[i].0, rest[i].1) implies st.ledger.contains(
            identity_of(rest[i].0)->0,
        ) by {
            assert(rest[i] == reports[i + 1]);
        }
        lemma_run_of_recorded_is_identity(st, rest);
    }
}

/// Running a batch a second time, from the state that the first run left,
/// adds nothing to the ledger and changes nothing in the store.
pub proof fn lemma_rerun_changes_nothing(st: BatchState, reports: Seq<(Seq<char>, Seq<char>)>)
    ensures
        run(run(st, reports), reports) == run(st, reports),
{
    let s1 = run(st, reports);
    assert forall|i: int|
        0 <= i < reports.len() && readable(reports[i].0, reports[i].1) implies s1.ledger.contains(
        identity_of(reports[i].0)->0,
    ) by {
        lemma_run_records_readable(st, reports, i);
    }
    lemma_run_of_recorded_is_identity(s1, reports);
}

/// A report whose summary block has no total time leaves the ledger and the
/// store as they were, whatever the state: its identity is not recorded.
pub proof fn lemma_no_total_time_not_recorded(st: BatchState, filename: Seq<char>, content: Seq<char>)
    requires
        field_text(SummaryField::TotalTime, content) is None,
    ensures
        step(st, filename, content) == st,
{
}

} // verus!
