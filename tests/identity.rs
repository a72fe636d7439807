use chrono::{Datelike, NaiveDateTime, TimeZone, Timelike, Utc};
use compile_timing_extractor::calendar::build_start_timestamp;
use compile_timing_extractor::identity::extract_raw_time_and_commit_hash;
use compile_timing_extractor::ExtractError;

#[test]
fn test_raw_time_with_nanos_and_commit_hash_extraction_and_parsing() -> anyhow::Result<()> {
    // newer toolchains add nanoseconds to the file name
    let filename = "cargo-timing-20250725T214437.067643888Z_300007d.html";
    let (raw_time, commit_hash) = extract_raw_time_and_commit_hash(filename).unwrap();
    assert_eq!(raw_time, "20250725T214437Z");
    assert_eq!(commit_hash, "300007d");

    let parsed_time = NaiveDateTime::parse_from_str(&raw_time, "%Y%m%dT%H%M%SZ")?.and_utc();
    assert_eq!(parsed_time.year(), 2025);
    assert_eq!(parsed_time.month(), 7);
    assert_eq!(parsed_time.day(), 25);
    assert_eq!(parsed_time.hour(), 21);
    assert_eq!(parsed_time.minute(), 44);
    assert_eq!(parsed_time.second(), 37);

    Ok(())
}

#[test]
fn test_raw_time_without_nanos_and_commit_hash_extraction_and_parsing() -> anyhow::Result<()> {
    // older toolchains write whole seconds only
    let filename = "cargo-timing-20241101T173901Z_73191b7.html";
    let (raw_time, commit_hash) = extract_raw_time_and_commit_hash(filename).unwrap();

    assert_eq!(raw_time, "20241101T173901Z");
    assert_eq!(commit_hash, "73191b7");

    let parsed_time = NaiveDateTime::parse_from_str(&raw_time, "%Y%m%dT%H%M%SZ")?;
    let utc_time = Utc.from_utc_datetime(&parsed_time);

    assert_eq!(utc_time.year(), 2024);
    assert_eq!(utc_time.month(), 11);
    assert_eq!(utc_time.day(), 1);
    assert_eq!(utc_time.hour(), 17);
    assert_eq!(utc_time.minute(), 39);
    assert_eq!(utc_time.second(), 1);

    Ok(())
}

#[test]
fn identity_is_the_same_on_every_call() {
    let filename = "cargo-timing-20250725T214437.067643888Z_300007d.html";
    let a = extract_raw_time_and_commit_hash(filename).unwrap();
    let b = extract_raw_time_and_commit_hash(filename).unwrap();
    assert_eq!(a, b);
}

#[test]
fn name_without_stamp_is_malformed() {
    assert_eq!(
        extract_raw_time_and_commit_hash("cargo-timing.html"),
        Err(ExtractError::MalformedFilename)
    );
    assert_eq!(
        extract_raw_time_and_commit_hash("cargo-timing-20250725T2144Z_1.html"),
        Err(ExtractError::MalformedFilename)
    );
}

#[test]
fn stamp_needs_its_closing_z() {
    assert_eq!(
        extract_raw_time_and_commit_hash("cargo-timing-20250725T214437_abc.html"),
        Err(ExtractError::MalformedFilename)
    );
    assert_eq!(
        extract_raw_time_and_commit_hash("cargo-timing-20250725T214437.Z_abc.html"),
        Err(ExtractError::MalformedFilename)
    );
}

#[test]
fn name_without_underscore_keeps_whole_name_as_revision() {
    let (raw_time, hash) = extract_raw_time_and_commit_hash("cargo-timing-20241101T173901Z.html").unwrap();
    assert_eq!(raw_time, "20241101T173901Z");
    assert_eq!(hash, "cargo-timing-20241101T173901Z");
}

#[test]
fn later_stamp_used_when_first_lacks_z() {
    let (raw_time, hash) =
        extract_raw_time_and_commit_hash("x-20200101T000000-20241101T173901Z_ab_cd.html.html").unwrap();
    assert_eq!(raw_time, "20241101T173901Z");
    assert_eq!(hash, "cd");
}

#[test]
fn start_timestamp_of_identities() {
    assert_eq!(build_start_timestamp("20250725T214437Z"), Ok(1753479877));
    assert_eq!(build_start_timestamp("20241101T173901Z"), Ok(1730482741));
    assert_eq!(build_start_timestamp("19700101T000000Z"), Ok(0));
    assert_eq!(build_start_timestamp("20240229T000000Z"), Ok(1709164800));
}

#[test]
fn start_timestamp_rejects_impossible_dates() {
    assert_eq!(build_start_timestamp("20230229T000000Z"), Err(ExtractError::MalformedFilename));
    assert_eq!(build_start_timestamp("20241301T000000Z"), Err(ExtractError::MalformedFilename));
    assert_eq!(build_start_timestamp("20240101T240000Z"), Err(ExtractError::MalformedFilename));
    assert_eq!(build_start_timestamp("19690101T000000Z"), Err(ExtractError::MalformedFilename));
    assert_eq!(build_start_timestamp("2024-01-01"), Err(ExtractError::MalformedFilename));
}
