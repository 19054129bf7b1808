use turso_dst::config::Config;
use turso_dst::model::SyncMode;
use turso_dst::prng::Prng;

#[test]
fn shape_drawn_from_zero() {
    let mut rng = Prng(0);
    let cfg = Config::derive(&mut rng);
    assert_eq!(cfg.sync_mode, SyncMode::Full);
    assert_eq!(cfg.cache_pages, 2);
    assert_eq!(cfg.autockpt, 1000);
    assert!(!cfg.with_index);
    assert_eq!(cfg.epochs, 4);
    assert_eq!(cfg.txs_per_epoch, 12);
    assert_eq!(cfg.big_value_permille, 142);
    assert_eq!(cfg.reader_window_permille, 109);
    assert_eq!(cfg.checkpoint_permille, 92);
    assert_eq!(cfg.integrity_permille, 49);
    assert_eq!(cfg.crash_permille, 373);
    assert_eq!(cfg.mid_tx_crash_permille, 143);
    assert_eq!(cfg.io_defer_permille, 900);
    assert!(cfg.io_reorder);
    assert_eq!(cfg.io_hold_back_permille, 142);
    assert_eq!(cfg.bg_thread_permille, 727);
    assert_eq!(rng.0, 0xe3779b97f4a7c150);
    assert_eq!(
        cfg.show(),
        "TURSO_DST_CONFIG sync=Full cache_pages=2 autockpt=1000 index=false epochs=4 txs=12 \
         defer=900 reorder=true hold=142 crash=373"
    );
}

#[test]
fn shape_without_deferred_io_takes_fewer_draws() {
    let mut rng = Prng(1);
    let cfg = Config::derive(&mut rng);
    assert_eq!(cfg.io_defer_permille, 0);
    assert!(!cfg.io_reorder);
    assert_eq!(cfg.io_hold_back_permille, 0);
    assert_eq!(cfg.bg_thread_permille, 772);
    assert_eq!(cfg.cache_pages, 2000);
    assert_eq!(rng.0, 0xa708a824f612c927);
}

#[test]
fn drawn_shapes_are_in_bounds() {
    for seed in 0..300 {
        let cfg = Config::derive(&mut Prng(seed));
        assert!(cfg.epochs >= 2 && cfg.epochs <= 5);
        assert!(cfg.txs_per_epoch >= 6 && cfg.txs_per_epoch <= 24);
        assert!([2, 5, 10, 50, 2000].contains(&cfg.cache_pages));
        assert!([0, 5, 20, 100, 1000].contains(&cfg.autockpt));
        assert!((20..=150).contains(&cfg.big_value_permille));
        assert!((50..=250).contains(&cfg.reader_window_permille));
        assert!((50..=300).contains(&cfg.checkpoint_permille));
        assert!((30..=120).contains(&cfg.integrity_permille));
        assert!((300..=900).contains(&cfg.crash_permille));
        assert!((100..=400).contains(&cfg.mid_tx_crash_permille));
        assert!([0, 200, 500, 900].contains(&cfg.io_defer_permille));
        assert!(cfg.io_hold_back_permille <= 300);
        assert!((300..=800).contains(&cfg.bg_thread_permille));
        assert!(cfg.io_defer_permille > 0 || !cfg.io_reorder);
    }
}

#[test]
fn connections_are_set_up() {
    let mut cfg = Config::derive(&mut Prng(0));
    cfg.sync_mode = SyncMode::Normal;
    assert_eq!(
        cfg.connection_pragmas(),
        vec![
            "PRAGMA synchronous=NORMAL",
            "PRAGMA data_sync_retry=ON",
            "PRAGMA cache_size=2",
            "PRAGMA wal_autocheckpoint=1000",
        ]
    );
}

#[test]
fn scenarios_run_under_full_synchronization() {
    let mut cfg = Config::derive(&mut Prng(3));
    cfg.sync_mode = SyncMode::Normal;
    let narrowed = cfg.for_scenario();
    assert_eq!(narrowed.sync_mode, SyncMode::Full);
    assert_eq!((narrowed.cache_pages, narrowed.autockpt), (2000, 0));
    assert_eq!(narrowed.epochs, cfg.epochs);
    assert_eq!(narrowed.connection_pragmas()[0], "PRAGMA synchronous=FULL");
}
