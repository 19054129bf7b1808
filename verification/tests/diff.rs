use turso_dst::diff::{can_show, describe_diff, files_line, show_model};
use turso_dst::model::{History, SyncMode};
use turso_dst::table::{put_row, Model};

fn model(rows: &[(i64, i64, &str)]) -> Model {
    let mut m = Model::new();
    for (id, n, v) in rows {
        put_row(&mut m, *id, *n, v.to_string());
    }
    m
}

#[test]
fn rows_are_shown_short() {
    let m = model(&[(2, -1, "short"), (1, 5, "abcdefgh"), (3, 0, "")]);
    assert!(can_show(&m));
    assert_eq!(show_model(&m), "1:5:abcdef,2:-1:short,3:0:");
    assert_eq!(show_model(&Model::new()), "");
}

#[test]
fn values_are_not_cut_inside_a_character() {
    assert!(!can_show(&model(&[(1, 1, "abcde\u{e9}x")])));
    assert!(can_show(&model(&[(1, 1, "abcd\u{e9}x")])));
    assert!(can_show(&model(&[(1, 1, "abcd\u{e9}")])));
    assert_eq!(show_model(&model(&[(1, 1, "abcd\u{e9}x")])), "1:1:abcd\u{e9}");
}

#[test]
fn differences_are_counted() {
    let h = History::new(model(&[(1, 1, "a"), (2, 2, "b"), (3, 3, "c")]), SyncMode::Full);
    let seen = model(&[(1, 1, "a"), (2, 9, "b"), (4, 4, "d"), (5, 5, "e")]);
    let lines = describe_diff(&seen, &h);
    assert_eq!(lines.len(), 4);
    assert_eq!(
        lines[0],
        "TURSO_DST_DIFF vs last observed model: missing=1 extra=2 changed=1"
    );
    assert_eq!(lines[1], "TURSO_DST_DIFF observed=[1:1:a,2:9:b,4:4:d,5:5:e]");
    assert_eq!(lines[2], "TURSO_DST_DIFF model=[1:1:a,2:2:b,3:3:c]");
    assert_eq!(
        lines[3],
        format!("TURSO_DST_DIFF history: floor=0 snaps=[open(3r,{:x})]", h.last().digest)
    );
}

#[test]
fn the_same_table_has_no_difference() {
    let m = model(&[(1, 1, "a"), (2, 2, "b")]);
    let h = History::new(m.clone(), SyncMode::Full);
    assert!(describe_diff(&m, &h)[0].ends_with("missing=0 extra=0 changed=0"));
}

#[test]
fn file_lengths_are_shown() {
    assert_eq!(
        files_line(Some(4096), None),
        "TURSO_DST_DIFF files: db_len=Some(4096) wal_len=None"
    );
}
