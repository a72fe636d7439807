use compile_timing_extractor::batch::process_report;
use compile_timing_extractor::ledger::{Ledger, MetadataStore};
use compile_timing_extractor::pipeline::{ingest_report, plan_report, ReportPlan};
use compile_timing_extractor::report::UnitBuildData;
use compile_timing_extractor::ExtractError;

const REPORT: &str = "<td>Total time:</td><td>3.25s</td><td>rustc:</td><td>rustc 1.88.0</td>\
<td>Total units:</td><td>2</td>\
<table class=\"my-table\"><tbody><tr><td>1.</td><td>a</td><td>1.5s</td></tr>\
<tr><td>2.</td><td>b</td><td>0.2s</td></tr></tbody></table>";

const NO_TOTAL_TIME: &str = "<td>rustc:</td><td>rustc 1.88.0</td><td>Total units:</td><td>2</td>";

/// Visits each report once, as a driver would, and counts the new builds.
fn run(ledger: &mut Ledger, store: &mut MetadataStore, reports: &[(&str, &str)]) -> usize {
    let mut added = 0;
    for (name, content) in reports {
        if let Ok(ReportPlan::New { identity, commit_hash }) = plan_report(ledger, name) {
            if ingest_report(ledger, store, identity, commit_hash, content).is_ok() {
                added += 1;
            }
        }
    }
    added
}

#[test]
fn ledger_contains_what_was_appended() {
    let mut ledger = Ledger::new();
    assert!(!ledger.contains("20241101T173901Z"));
    ledger.append("20241101T173901Z".to_string());
    assert!(ledger.contains("20241101T173901Z"));
    assert!(!ledger.contains("20241101T173902Z"));
    assert_eq!(ledger.len(), 1);
    let loaded = Ledger::from_entries(vec!["a".to_string(), "b".to_string()]);
    assert!(loaded.contains("b"));
    assert_eq!(loaded.entries(), &vec!["a".to_string(), "b".to_string()]);
}

#[test]
fn plan_skips_known_builds() {
    let mut ledger = Ledger::new();
    let name = "cargo-timing-20241101T173901Z_73191b7.html";
    assert_eq!(
        plan_report(&ledger, name),
        Ok(ReportPlan::New { identity: "20241101T173901Z".to_string(), commit_hash: "73191b7".to_string() })
    );
    ledger.append("20241101T173901Z".to_string());
    assert_eq!(
        plan_report(&ledger, name),
        Ok(ReportPlan::AlreadyProcessed { identity: "20241101T173901Z".to_string() })
    );
    assert_eq!(plan_report(&ledger, "notes.txt"), Err(ExtractError::MalformedFilename));
}

#[test]
fn ingest_records_summary_and_returns_rows() {
    let mut ledger = Ledger::new();
    let mut store = MetadataStore::new();
    let units = ingest_report(
        &mut ledger,
        &mut store,
        "20241101T173901Z".to_string(),
        "73191b7".to_string(),
        REPORT,
    )
    .unwrap();
    assert_eq!(
        units,
        vec![
            UnitBuildData { name: "a".to_string(), time: "1.5".to_string() },
            UnitBuildData { name: "b".to_string(), time: "0.2".to_string() },
        ]
    );
    assert_eq!(ledger.entries(), &vec!["20241101T173901Z".to_string()]);
    let entries = store.entries();
    assert_eq!(entries.len(), 1);
    assert_eq!(entries[0].0, "20241101T173901Z");
    assert_eq!(entries[0].1.total_time, "3.25");
    assert_eq!(entries[0].1.rustc_version, "rustc 1.88.0");
    assert_eq!(entries[0].1.total_units, 2);
    assert_eq!(entries[0].1.build_start_unix_timestamp, 1730482741);
    assert_eq!(entries[0].1.commit_hash, "73191b7");
}

#[test]
fn report_without_total_time_is_not_recorded() {
    let mut ledger = Ledger::new();
    let mut store = MetadataStore::new();
    let r = ingest_report(
        &mut ledger,
        &mut store,
        "20241101T173901Z".to_string(),
        "h".to_string(),
        NO_TOTAL_TIME,
    );
    assert_eq!(r, Err(ExtractError::ExtractionFailed));
    assert_eq!(ledger.len(), 0);
    assert!(store.entries().is_empty());
}

#[test]
fn impossible_identity_date_is_not_recorded() {
    let mut ledger = Ledger::new();
    let mut store = MetadataStore::new();
    let r = ingest_report(&mut ledger, &mut store, "20241301T000000Z".to_string(), "h".to_string(), REPORT);
    assert_eq!(r, Err(ExtractError::MalformedFilename));
    assert_eq!(ledger.len(), 0);
    assert!(store.entries().is_empty());
}

#[test]
fn second_run_over_same_reports_changes_nothing() {
    let reports = [
        ("cargo-timing-20241101T173901Z_73191b7.html", REPORT),
        ("cargo-timing-20250725T214437.067643888Z_300007d.html", REPORT),
        ("cargo-timing-20250726T000000Z_1.html", NO_TOTAL_TIME),
        ("README.md", REPORT),
    ];
    let mut ledger = Ledger::new();
    let mut store = MetadataStore::new();
    assert_eq!(run(&mut ledger, &mut store, &reports), 2);
    let ledger_after = ledger.entries().clone();
    let store_after = store.entries().clone();
    assert_eq!(run(&mut ledger, &mut store, &reports), 0);
    assert_eq!(ledger.entries(), &ledger_after);
    assert_eq!(store.entries(), &store_after);
    assert!(!ledger.contains("20250726T000000Z"));
}

#[test]
fn store_put_overrides_earlier_summary() {
    let mut ledger = Ledger::new();
    let mut store = MetadataStore::new();
    ingest_report(&mut ledger, &mut store, "20241101T173901Z".to_string(), "x".to_string(), REPORT).unwrap();
    let first = store.entries()[0].1.clone();
    let mut second = first.clone();
    second.commit_hash = "y".to_string();
    store.put("20241101T173901Z".to_string(), second.clone());
    assert_eq!(store.entries().last().unwrap().1, second);
}

#[test]
fn process_report_records_once_then_skips() {
    let mut ledger = Ledger::new();
    let mut store = MetadataStore::new();
    let name = "cargo-timing-20250725T214437.067643888Z_300007d.html";
    let first = process_report(&mut ledger, &mut store, name, REPORT).unwrap();
    assert_eq!(first.map(|u| u.len()), Some(2));
    assert_eq!(ledger.entries(), &vec!["20250725T214437Z".to_string()]);
    assert_eq!(store.entries()[0].1.build_start_unix_timestamp, 1753479877);
    assert_eq!(store.entries()[0].1.commit_hash, "300007d");
    let second = process_report(&mut ledger, &mut store, name, REPORT).unwrap();
    assert_eq!(second, None);
    assert_eq!(ledger.len(), 1);
    assert_eq!(store.entries().len(), 1);
}

#[test]
fn process_report_failures_leave_state_alone() {
    let mut ledger = Ledger::new();
    let mut store = MetadataStore::new();
    assert_eq!(
        process_report(&mut ledger, &mut store, "cargo-timing-20250726T000000Z_1.html", NO_TOTAL_TIME),
        Err(ExtractError::ExtractionFailed)
    );
    assert_eq!(
        process_report(&mut ledger, &mut store, "index.html", REPORT),
        Err(ExtractError::MalformedFilename)
    );
    assert_eq!(ledger.len(), 0);
    assert!(store.entries().is_empty());
}
