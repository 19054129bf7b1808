use turso_dst::table::{model_keys, row_count, Model};
use turso_dst::workload::{Expect, Workload};

#[test]
fn statements_drawn_from_one() {
    let mut wl = Workload::new(1);
    let mut m = Model::new();
    let want = [
        "INSERT INTO kv VALUES(1, 448, 'v80235')",
        "UPDATE kv SET n = 388, v = 'v36950' WHERE id = 1",
        "INSERT INTO kv VALUES(2, 518, 'v63816')",
        "INSERT INTO kv VALUES(3, 859, 'v5192')",
        "UPDATE kv SET n = 287, v = 'v87159' WHERE id = 1",
        "INSERT INTO kv VALUES(4, 306, 'v68036')",
        "INSERT INTO kv VALUES(5, 711, 'v72780')",
        "UPDATE kv SET n = n + 9 WHERE id BETWEEN 4 AND 9",
        "DELETE FROM kv WHERE id BETWEEN 4 AND 6",
        "DELETE FROM kv WHERE id = 3",
    ];
    for (i, sql) in want.iter().enumerate() {
        assert!(wl.can_state(&m, 0));
        let (got, next, expect) = wl.statement(&m, 0);
        assert_eq!(&got, sql);
        assert_eq!(expect, Expect::Success);
        m = next;
        if i == 7 {
            assert_eq!(m[&4], (315, String::from("v68036")));
            assert_eq!(m[&5], (720, String::from("v72780")));
            assert_eq!(m[&3], (859, String::from("v5192")));
        }
    }
    assert_eq!(model_keys(&m), vec![1, 2]);
    assert_eq!(m[&1], (287, String::from("v87159")));
    assert_eq!(wl.next_id, 5);
    assert_eq!(wl.stats.count("insert"), 5);
    assert_eq!(wl.stats.count("update"), 2);
    assert_eq!(wl.stats.count("update-range"), 1);
    assert_eq!(wl.stats.count("delete-range"), 1);
    assert_eq!(wl.stats.count("delete"), 1);
}

#[test]
fn expectations_are_right() {
    let mut kinds = [0u32; 3];
    for seed in 0..40 {
        let mut wl = Workload::new(seed);
        let mut m = Model::new();
        for _ in 0..60 {
            let before = wl.next_id;
            let (sql, next, expect) = wl.statement(&m, 20);
            match expect {
                Expect::Success => {
                    kinds[0] += 1;
                    if sql.starts_with("INSERT") {
                        assert_eq!(row_count(&next), row_count(&m) + 1);
                        assert_eq!(wl.next_id, before + 1);
                    }
                }
                Expect::Constraint => {
                    kinds[1] += 1;
                    assert!(sql.starts_with("INSERT INTO kv VALUES("));
                    let id: i64 = sql["INSERT INTO kv VALUES(".len()..]
                        .split(',')
                        .next()
                        .unwrap()
                        .parse()
                        .unwrap();
                    assert!(m.contains_key(&id));
                    assert_eq!(next, m);
                }
                Expect::Count => {
                    kinds[2] += 1;
                    assert_eq!(sql, "SELECT count(*), coalesce(sum(n), 0) FROM kv");
                    assert_eq!(next, m);
                }
            }
            m = next;
        }
    }
    assert!(kinds.iter().all(|n| *n > 0));
}

#[test]
fn large_values_are_letters() {
    let mut wl = Workload::new(7);
    let v = wl.value(1000);
    assert!(v.len() >= 1500 && v.len() <= 24000);
    assert!(v.bytes().all(|b| b.is_ascii_lowercase()));
    let small = Workload::new(7).value(0);
    assert!(small.starts_with('v') && small.len() <= 6);
}

#[test]
fn exhausted_ids_are_seen() {
    let mut wl = Workload::new(1);
    wl.next_id = i64::MAX;
    assert!(!wl.can_state(&Model::new(), 0));
    wl.next_id = i64::MAX - 1;
    assert!(wl.can_state(&Model::new(), 0));
}

#[test]
fn full_counter_is_seen() {
    let mut wl = Workload::new(1);
    wl.stats.raise("insert", u64::MAX);
    assert!(!wl.can_bump("insert"));
    assert!(!wl.can_state(&Model::new(), 0));
}
