use std::collections::BTreeMap;

use turso_dst::table::{
    digest_model, digest_rows, drop_row, find_row, model_keys, model_rows, put_row, row_count,
    Model,
};

fn two_rows() -> Model {
    let mut m: Model = BTreeMap::new();
    put_row(&mut m, 2, 20, String::from("y"));
    put_row(&mut m, 1, 10, String::from("x"));
    m
}

#[test]
fn digest_of_nothing() {
    assert_eq!(digest_model(&Model::new()), 0xcbf29ce484222325);
    assert_eq!(digest_rows(&vec![]), 0xcbf29ce484222325);
}

#[test]
fn digest_of_rows() {
    assert_eq!(digest_rows(&vec![(1, 2, "a")]), 0xd7f10197d9e23b81);
    assert_eq!(digest_rows(&vec![(-1, -5, "\u{e9}")]), 0xfebffec073f4ae49);
    assert_eq!(digest_model(&two_rows()), 0xfc19a9df04c48c0d);
}

#[test]
fn digest_depends_on_every_part() {
    let d = digest_rows(&vec![(1, 10, "x"), (2, 20, "y")]);
    assert_eq!(d, digest_model(&two_rows()));
    assert_ne!(d, digest_rows(&vec![(2, 20, "y"), (1, 10, "x")]));
    assert_ne!(d, digest_rows(&vec![(1, 10, "x"), (2, 21, "y")]));
    assert_ne!(d, digest_rows(&vec![(1, 10, "x"), (2, 20, "z")]));
    assert_ne!(d, digest_rows(&vec![(1, 10, "x")]));
}

#[test]
fn rows_come_in_order() {
    let m = two_rows();
    assert_eq!(model_rows(&m), vec![(1, 10, "x"), (2, 20, "y")]);
    assert_eq!(model_keys(&m), vec![1, 2]);
    assert_eq!(row_count(&m), 2);
}

#[test]
fn rows_are_put_found_and_dropped() {
    let mut m = two_rows();
    put_row(&mut m, 1, 11, String::from("xx"));
    assert_eq!(find_row(&m, 1), Some((11, "xx")));
    assert_eq!(find_row(&m, 3), None);
    drop_row(&mut m, 2);
    drop_row(&mut m, 7);
    assert_eq!(model_keys(&m), vec![1]);
}
