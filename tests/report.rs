use compile_timing_extractor::report::{extract_build_metadata, extract_units_data, UnitBuildData};
use compile_timing_extractor::ExtractError;

fn unit(name: &str, time: &str) -> UnitBuildData {
    UnitBuildData { name: name.to_string(), time: time.to_string() }
}

const SUMMARY: &str = "<table><tr><td>Total time:</td><td>12.5s (12.5 seconds)</td></tr>\
<tr><td>rustc:</td><td>rustc 1.82.0-nightly (abc 2024-08-01)</td></tr>\
<tr><td>Total units:</td><td>42</td></tr></table>";

#[test]
fn summary_fields_are_read() {
    let m = extract_build_metadata(SUMMARY, 1730482741, "73191b7".to_string()).unwrap();
    assert_eq!(m.total_time, "12.5");
    assert_eq!(m.rustc_version, "rustc 1.82.0-nightly");
    assert_eq!(m.total_units, 42);
    assert_eq!(m.build_start_unix_timestamp, 1730482741);
    assert_eq!(m.commit_hash, "73191b7");
}

#[test]
fn missing_total_time_fails() {
    let content = "<td>rustc:</td><td>rustc 1.80.0</td><td>Total units:</td><td>3</td>";
    assert_eq!(
        extract_build_metadata(content, 0, "h".to_string()),
        Err(ExtractError::ExtractionFailed)
    );
}

#[test]
fn unit_count_too_large_fails() {
    let content = "<td>Total time:</td><td>1s</td><td>rustc:</td><td>rustc 1.80.0</td>\
<td>Total units:</td><td>99999999999999999999999</td>";
    assert_eq!(
        extract_build_metadata(content, 0, "h".to_string()),
        Err(ExtractError::ExtractionFailed)
    );
}

#[test]
fn whole_second_total_time() {
    let content = "<td>Total time:</td><td>7s</td><td>rustc:</td><td>rustc 1.80.0</td>\
<td>Total units:</td><td>0</td>";
    let m = extract_build_metadata(content, 5, "h".to_string()).unwrap();
    assert_eq!(m.total_time, "7");
    assert_eq!(m.total_units, 0);
}

#[test]
fn unit_rows_keep_their_order() {
    let content = "<table class=\"my-table\"><thead></thead><tbody>\n\
<tr>\n<td>1.</td>\n<td>a</td>\n<td>1.5s</td>\n</tr>\n\
<tr>\n<td>2.</td>\n<td>b</td>\n<td>0.2s</td>\n</tr>\n\
</tbody></table>";
    assert_eq!(extract_units_data(content), vec![unit("a", "1.5"), unit("b", "0.2")]);
}

#[test]
fn absent_unit_table_gives_no_rows() {
    assert_eq!(extract_units_data(SUMMARY), Vec::<UnitBuildData>::new());
    assert_eq!(extract_units_data(""), Vec::<UnitBuildData>::new());
}

#[test]
fn unit_names_are_not_unescaped_and_repeats_stay() {
    let content = "<table class=\"my-table\"><tbody>\
<tr><td>1.</td><td>serde &amp; co</td><td>3s</td></tr>\
<tr><td>2.</td><td>serde &amp; co</td><td>3s</td></tr>\
<tr><td>3.</td><td>x</td><td>bad</td></tr>\
</tbody></table>\
<tr><td>4.</td><td>outside</td><td>1s</td></tr>";
    assert_eq!(
        extract_units_data(content),
        vec![unit("serde &amp; co", "3"), unit("serde &amp; co", "3")]
    );
}
