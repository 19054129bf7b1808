use turso_dst::rows::{
    can_sum, check_count, check_integrity, join_integrity, parse_rows, read_digest, read_model,
    rows_readable,
};
use turso_dst::table::{digest_model, put_row, Model};

fn cells(rows: &[&[&str]]) -> Vec<Vec<String>> {
    rows.iter().map(|r| r.iter().map(|c| c.to_string()).collect()).collect()
}

fn model() -> Model {
    let mut m = Model::new();
    put_row(&mut m, 1, 10, String::from("x"));
    put_row(&mut m, 2, -3, String::from("y z"));
    m
}

#[test]
fn shown_table_reads_back() {
    let shown = cells(&[&["1", "10", "x"], &["2", "-3", "y z"]]);
    assert!(rows_readable(&shown));
    assert_eq!(read_model(&shown).unwrap(), model());
    assert_eq!(parse_rows(&shown).unwrap(), vec![(1, 10, "x"), (2, -3, "y z")]);
    assert_eq!(read_digest(&shown).unwrap(), (digest_model(&model()), 2));
}

#[test]
fn unreadable_cells_are_reported() {
    let bad = cells(&[&["1", "10", "x"], &["two", "-3", "y"]]);
    assert_eq!(read_model(&bad).err().unwrap().wording(), "Error(\"bad id \\\"two\\\"\")");
    let bad = cells(&[&["1", "", "x"]]);
    assert_eq!(read_digest(&bad).err().unwrap().wording(), "Error(\"bad n \\\"\\\"\")");
    assert!(!rows_readable(&cells(&[&["1", "10"]])));
    assert!(!rows_readable(&cells(&[&["1", "10", "x"], &[]])));
    // What comes after a cell that fails is not looked at.
    let early = cells(&[&["two"], &[]]);
    assert!(rows_readable(&early));
    assert_eq!(read_model(&early).err().unwrap().wording(), "Error(\"bad id \\\"two\\\"\")");
    assert!(rows_readable(&cells(&[&["1", "two"], &["1"]])));
}

#[test]
fn right_counts_pass() {
    assert!(can_sum(&model()));
    assert!(check_count(&cells(&[&["2", "7"]]), &model(), "in-tx").is_none());
    assert!(check_count(&cells(&[&["0", "0"]]), &Model::new(), "in-tx").is_none());
}

#[test]
fn wrong_counts_are_reported() {
    let v = check_count(&cells(&[&["2", "8"]]), &model(), "in-tx").unwrap();
    assert_eq!(v.label, "read-your-writes-violated");
    assert_eq!(v.detail, "in-tx count/sum: got (2,8) want (2,7)");
    let v = check_count(&cells(&[]), &model(), "autocommit").unwrap();
    assert_eq!(v.detail, "autocommit count/sum: got (-1,-9223372036854775808) want (2,7)");
    let v = check_count(&cells(&[&["x"]]), &model(), "autocommit").unwrap();
    assert_eq!(v.detail, "autocommit count/sum: got (-1,-9223372036854775808) want (2,7)");
}

#[test]
fn sums_beyond_the_range_are_seen() {
    let mut m = Model::new();
    put_row(&mut m, 1, i64::MAX, String::new());
    assert!(can_sum(&m));
    put_row(&mut m, 2, 1, String::new());
    assert!(!can_sum(&m));
}

#[test]
fn integrity_is_judged() {
    assert!(check_integrity(&cells(&[&["ok"]]), "integrity-check-failed").is_none());
    let bad = cells(&[&["row 1", "missing"], &["row 2"]]);
    assert_eq!(join_integrity(&bad), "row 1|missing; row 2");
    let v = check_integrity(&bad, "integrity-check-failed").unwrap();
    assert_eq!((v.label.as_str(), v.detail.as_str()), ("integrity-check-failed", "row 1|missing; row 2"));
    assert_eq!(check_integrity(&cells(&[]), "l").unwrap().detail, "");
}
