//! The shape of a run, drawn from its seed.

use crate::model::SyncMode;
use crate::prng;
use crate::prng::Prng;
use crate::text;
use crate::text::{flag_word, push_signed, push_unsigned};
use vstd::prelude::*;
use vstd::string::*;

verus! {

/// What a run does, and how often.
#[derive(Clone, Copy, Debug)]
pub struct Config {
    pub sync_mode: SyncMode,
    pub cache_pages: i64,
    pub autockpt: i64,
    pub with_index: bool,
    pub epochs: u64,
    pub txs_per_epoch: u64,
    pub big_value_permille: u64,
    pub reader_window_permille: u64,
    pub checkpoint_permille: u64,
    pub integrity_permille: u64,
    pub crash_permille: u64,
    pub mid_tx_crash_permille: u64,
    pub io_defer_permille: u64,
    pub io_reorder: bool,
    pub io_hold_back_permille: u64,
    /// Probability (per epoch) of running a background reader and
    /// checkpointer concurrently with the writer.
    pub bg_thread_permille: u64,
}

/// The page-cache sizes that are drawn from.
pub open spec fn cache_choice(i: int) -> i64 {
    seq![2i64, 5i64, 10i64, 50i64, 2000i64][i]
}

/// The autocheckpoint settings that are drawn from.
pub open spec fn autockpt_choice(i: int) -> i64 {
    seq![0i64, 5i64, 20i64, 100i64, 1000i64][i]
}

/// The probabilities of deferring I/O that are drawn from.
pub open spec fn defer_choice(i: int) -> u64 {
    seq![0u64, 0u64, 200u64, 500u64, 900u64][i]
}

fn pick_cache(i: u64) -> (n: i64)
    requires
        i < 5,
    ensures
        n == cache_choice(i as int),
{
    match i {
        0 => 2,
        1 => 5,
        2 => 10,
        3 => 50,
        _ => 2000,
    }
}

fn pick_autockpt(i: u64) -> (n: i64)
    requires
        i < 5,
    ensures
        n == autockpt_choice(i as int),
{
    match i {
        0 => 0,
        1 => 5,
        2 => 20,
        3 => 100,
        _ => 1000,
    }
}

fn pick_defer(i: u64) -> (n: u64)
    requires
        i < 5,
    ensures
        n == defer_choice(i as int),
{
    match i {
        0 => 0,
        1 => 0,
        2 => 200,
        3 => 500,
        _ => 900,
    }
}

impl Config {
    /// The shape that is drawn when the generator stands at `rng`: one draw for
    /// each setting in turn, but none for reordering and holding back where no
    /// I/O is deferred.
    pub open spec fn drawn(rng: u64) -> Config {
        let defer = defer_choice(prng::prng_pick(prng::prng_skip(rng, 3), 0, 4) as int);
        let r = prng::prng_skip(rng, 13);
        Config {
            sync_mode: if prng::prng_hit(rng, 600) {
                SyncMode::Full
            } else {
                SyncMode::Normal
            },
            cache_pages: cache_choice(prng::prng_pick(prng::prng_skip(rng, 1), 0, 4) as int),
            autockpt: autockpt_choice(prng::prng_pick(prng::prng_skip(rng, 2), 0, 4) as int),
            with_index: prng::prng_hit(prng::prng_skip(rng, 4), 500),
            epochs: prng::prng_pick(prng::prng_skip(rng, 5), 2, 5),
            txs_per_epoch: prng::prng_pick(prng::prng_skip(rng, 6), 6, 24),
            big_value_permille: prng::prng_pick(prng::prng_skip(rng, 7), 20, 150),
            reader_window_permille: prng::prng_pick(prng::prng_skip(rng, 8), 50, 250),
            checkpoint_permille: prng::prng_pick(prng::prng_skip(rng, 9), 50, 300),
            integrity_permille: prng::prng_pick(prng::prng_skip(rng, 10), 30, 120),
            crash_permille: prng::prng_pick(prng::prng_skip(rng, 11), 300, 900),
            mid_tx_crash_permille: prng::prng_pick(prng::prng_skip(rng, 12), 100, 400),
            io_defer_permille: defer,
            io_reorder: defer > 0 && prng::prng_hit(r, 700),
            io_hold_back_permille: if defer > 0 {
                prng::prng_pick(prng::prng_skip(r, 1), 0, 300)
            } else {
                0
            },
            bg_thread_permille: prng::prng_pick(
                if defer > 0 {
                    prng::prng_skip(r, 2)
                } else {
                    r
                },
                300,
                800,
            ),
        }
    }

    /// How many draws that takes.
    pub open spec fn draws(rng: u64) -> nat {
        if Config::drawn(rng).io_defer_permille > 0 {
            16
        } else {
            14
        }
    }

    /// Draws the shape of a run.
    pub fn derive(rng: &mut Prng) -> (cfg: Self)
        ensures
            cfg == Config::drawn(old(rng).0),
            final(rng).0 == prng::prng_skip(old(rng).0, Config::draws(old(rng).0)),
    {
        proof {
            reveal_with_fuel(prng::prng_skip, 17);
        }
        let sync_mode = if rng.chance(600) {
            SyncMode::Full
        } else {
            SyncMode::Normal
        };
        let cache_pages: i64 = pick_cache(rng.range(0, 4));
        let autockpt: i64 = pick_autockpt(rng.range(0, 4));
        let io_defer_permille: u64 = pick_defer(rng.range(0, 4));
        let with_index: bool = rng.chance(500);
        let epochs: u64 = rng.range(2, 5);
        let txs_per_epoch: u64 = rng.range(6, 24);
        let big_value_permille: u64 = rng.range(20, 150);
        let reader_window_permille: u64 = rng.range(50, 250);
        let checkpoint_permille: u64 = rng.range(50, 300);
        let integrity_permille: u64 = rng.range(30, 120);
        let crash_permille: u64 = rng.range(300, 900);
        let mid_tx_crash_permille: u64 = rng.range(100, 400);
        let io_reorder: bool = io_defer_permille > 0 && rng.chance(700);
        let io_hold_back_permille: u64 = if io_defer_permille > 0 {
            rng.range(0, 300)
        } else {
            0
        };
        let bg_thread_permille: u64 = rng.range(300, 800);
        Config {
            sync_mode,
            cache_pages,
            autockpt,
            with_index,
            epochs,
            txs_per_epoch,
            big_value_permille,
            reader_window_permille,
            checkpoint_permille,
            integrity_permille,
            crash_permille,
            mid_tx_crash_permille,
            io_defer_permille,
            io_reorder,
            io_hold_back_permille,
            bg_thread_permille,
        }
    }

    /// The configuration that a focused scenario runs under: everything durable
    /// at once, a large cache, and no automatic checkpoint.
    pub fn for_scenario(&self) -> (cfg: Config)
        ensures
            cfg == (Config {
                sync_mode: SyncMode::Full,
                cache_pages: 2000,
                autockpt: 0,
                ..*self
            }),
    {
        Config {
            sync_mode: SyncMode::Full,
            cache_pages: 2000,
            autockpt: 0,
            with_index: self.with_index,
            epochs: self.epochs,
            txs_per_epoch: self.txs_per_epoch,
            big_value_permille: self.big_value_permille,
            reader_window_permille: self.reader_window_permille,
            checkpoint_permille: self.checkpoint_permille,
            integrity_permille: self.integrity_permille,
            crash_permille: self.crash_permille,
            mid_tx_crash_permille: self.mid_tx_crash_permille,
            io_defer_permille: self.io_defer_permille,
            io_reorder: self.io_reorder,
            io_hold_back_permille: self.io_hold_back_permille,
            bg_thread_permille: self.bg_thread_permille,
        }
    }

    /// The line that shows the shape of a run.
    pub open spec fn shown(self) -> Seq<char> {
        "TURSO_DST_CONFIG sync="@ + (match self.sync_mode {
            SyncMode::Full => "Full"@,
            SyncMode::Normal => "Normal"@,
        }) + " cache_pages="@ + text::decimal(self.cache_pages as int) + " autockpt="@
            + text::decimal(self.autockpt as int) + " index="@ + text::flag_text(self.with_index)
            + " epochs="@ + text::decimal(self.epochs as int) + " txs="@ + text::decimal(
            self.txs_per_epoch as int,
        ) + " defer="@ + text::decimal(self.io_defer_permille as int) + " reorder="@ + text::flag_text(
            self.io_reorder,
        ) + " hold="@ + text::decimal(self.io_hold_back_permille as int) + " crash="@
            + text::decimal(self.crash_permille as int)
    }

    /// Shows the shape of a run.
    pub fn show(&self) -> (line: String)
        ensures
            line@ == self.shown(),
    {
        let mut line = "TURSO_DST_CONFIG sync=".to_owned();
        match self.sync_mode {
            SyncMode::Full => line.append("Full"),
            SyncMode::Normal => line.append("Normal"),
        }
        line.append(" cache_pages=");
        push_signed(&mut line, self.cache_pages);
        line.append(" autockpt=");
        push_signed(&mut line, self.autockpt);
        line.append(" index=");
        line.append(flag_word(self.with_index));
        line.append(" epochs=");
        push_unsigned(&mut line, self.epochs);
        line.append(" txs=");
        push_unsigned(&mut line, self.txs_per_epoch);
        line.append(" defer=");
        push_unsigned(&mut line, self.io_defer_permille);
        line.append(" reorder=");
        line.append(flag_word(self.io_reorder));
        line.append(" hold=");
        push_unsigned(&mut line, self.io_hold_back_permille);
        line.append(" crash=");
        push_unsigned(&mut line, self.crash_permille);
        line
    }

    /// The statements that set a fresh connection up.
    pub open spec fn pragmas(self) -> Seq<Seq<char>> {
        seq![
            "PRAGMA synchronous="@ + match self.sync_mode {
                SyncMode::Full => "FULL"@,
                SyncMode::Normal => "NORMAL"@,
            },
            "PRAGMA data_sync_retry=ON"@,
            "PRAGMA cache_size="@ + text::decimal(self.cache_pages as int),
            "PRAGMA wal_autocheckpoint="@ + text::decimal(self.autockpt as int),
        ]
    }

    /// The statements that set a fresh connection up, in order.
    ///
    /// Retrying a failed sync is switched on because an injected sync failure
    /// would otherwise be a by-design abort instead of an error that can be
    /// observed and recovered from.
    pub fn connection_pragmas(&self) -> (list: Vec<String>)
        ensures
            text::texts(list@) == self.pragmas(),
    {
        let mut list: Vec<String> = Vec::new();
        let mut sync = "PRAGMA synchronous=".to_owned();
        match self.sync_mode {
            SyncMode::Full => sync.append("FULL"),
            SyncMode::Normal => sync.append("NORMAL"),
        }
        list.push(sync);
        list.push("PRAGMA data_sync_retry=ON".to_owned());
        let mut cache = "PRAGMA cache_size=".to_owned();
        push_signed(&mut cache, self.cache_pages);
        list.push(cache);
        let mut ckpt = "PRAGMA wal_autocheckpoint=".to_owned();
        push_signed(&mut ckpt, self.autockpt);
        list.push(ckpt);
        proof {
            assert(text::texts(list@) =~= self.pragmas());
        }
        list
    }
}

/// Every setting that is drawn lies where it is drawn from; nothing is
/// reordered or held back where no I/O is deferred.
pub proof fn law_drawn_config_is_in_bounds(rng: u64)
    ensures
        ({
            let c = Config::drawn(rng);
            &&& seq![2i64, 5i64, 10i64, 50i64, 2000i64].contains(c.cache_pages)
            &&& seq![0i64, 5i64, 20i64, 100i64, 1000i64].contains(c.autockpt)
            &&& 2 <= c.epochs <= 5
            &&& 6 <= c.txs_per_epoch <= 24
            &&& 20 <= c.big_value_permille <= 150
            &&& 50 <= c.reader_window_permille <= 250
            &&& 50 <= c.checkpoint_permille <= 300
            &&& 30 <= c.integrity_permille <= 120
            &&& 300 <= c.crash_permille <= 900
            &&& 100 <= c.mid_tx_crash_permille <= 400
            &&& seq![0u64, 200u64, 500u64, 900u64].contains(c.io_defer_permille)
            &&& c.io_hold_back_permille <= 300
            &&& 300 <= c.bg_thread_permille <= 800
            &&& c.io_defer_permille == 0 ==> !c.io_reorder && c.io_hold_back_permille == 0
        }),
{
    let r = prng::prng_skip(rng, 13);
    prng::law_pick_in_range(prng::prng_skip(rng, 1), 0, 4);
    prng::law_pick_in_range(prng::prng_skip(rng, 2), 0, 4);
    prng::law_pick_in_range(prng::prng_skip(rng, 3), 0, 4);
    prng::law_pick_in_range(prng::prng_skip(rng, 5), 2, 5);
    prng::law_pick_in_range(prng::prng_skip(rng, 6), 6, 24);
    prng::law_pick_in_range(prng::prng_skip(rng, 7), 20, 150);
    prng::law_pick_in_range(prng::prng_skip(rng, 8), 50, 250);
    prng::law_pick_in_range(prng::prng_skip(rng, 9), 50, 300);
    prng::law_pick_in_range(prng::prng_skip(rng, 10), 30, 120);
    prng::law_pick_in_range(prng::prng_skip(rng, 11), 300, 900);
    prng::law_pick_in_range(prng::prng_skip(rng, 12), 100, 400);
    prng::law_pick_in_range(prng::prng_skip(r, 1), 0, 300);
    prng::law_pick_in_range(prng::prng_skip(r, 2), 300, 800);
    prng::law_pick_in_range(r, 300, 800);
    lemma_defer_choice(prng::prng_pick(prng::prng_skip(rng, 3), 0, 4) as int);
}

proof fn lemma_defer_choice(i: int)
    requires
        0 <= i <= 4,
    ensures
        seq![0u64, 200u64, 500u64, 900u64].contains(defer_choice(i)),
{
    let some = seq![0u64, 200u64, 500u64, 900u64];
    assert(some[0] == 0 && some[1] == 200 && some[2] == 500 && some[3] == 900);
    assert(defer_choice(i) == some[if i <= 1 {
        0
    } else {
        i - 1
    }]);
}

/// Each setting comes from a draw of its own, in a fixed order, and every value
/// of its range has the same share of that draw.
pub proof fn law_each_setting_has_its_own_draw(rng: u64)
    ensures
        ({
            let c = Config::drawn(rng);
            let d = |n: nat| prng::prng_draw(prng::prng_skip(rng, n)) as int;
            let deferring = c.io_defer_permille > 0;
            &&& c.sync_mode == (if d(0) % 1000 < 600 {
                SyncMode::Full
            } else {
                SyncMode::Normal
            })
            &&& c.cache_pages == seq![2i64, 5i64, 10i64, 50i64, 2000i64][d(1) % 5]
            &&& c.autockpt == seq![0i64, 5i64, 20i64, 100i64, 1000i64][d(2) % 5]
            &&& c.io_defer_permille == seq![0u64, 0u64, 200u64, 500u64, 900u64][d(3) % 5]
            &&& c.with_index <==> d(4) % 1000 < 500
            &&& c.epochs == 2 + d(5) % 4
            &&& c.txs_per_epoch == 6 + d(6) % 19
            &&& c.big_value_permille == 20 + d(7) % 131
            &&& c.reader_window_permille == 50 + d(8) % 201
            &&& c.checkpoint_permille == 50 + d(9) % 251
            &&& c.integrity_permille == 30 + d(10) % 91
            &&& c.crash_permille == 300 + d(11) % 601
            &&& c.mid_tx_crash_permille == 100 + d(12) % 301
            &&& c.io_reorder <==> deferring && d(13) % 1000 < 700
            &&& c.io_hold_back_permille == (if deferring {
                d(14) % 301
            } else {
                0
            })
            &&& c.bg_thread_permille == 300 + (if deferring {
                d(15)
            } else {
                d(13)
            }) % 501
            &&& Config::draws(rng) == (if deferring {
                16nat
            } else {
                14nat
            })
        }),
{
    reveal_with_fuel(prng::prng_skip, 17);
    assert(prng::prng_skip(rng, 0) == rng);
    assert(prng::prng_skip(prng::prng_skip(rng, 13), 1) == prng::prng_skip(rng, 14));
    assert(prng::prng_skip(prng::prng_skip(rng, 13), 2) == prng::prng_skip(rng, 15));
}

/// A fresh connection is set up as the configuration says: synchronisation,
/// retried syncs, page cache and automatic checkpoint, in that order.
pub proof fn law_connection_is_set_up_as_configured(c: Config)
    ensures
        c.pragmas().len() == 4,
        c.sync_mode == SyncMode::Full ==> c.pragmas()[0] == "PRAGMA synchronous="@ + "FULL"@,
        c.sync_mode == SyncMode::Normal ==> c.pragmas()[0] == "PRAGMA synchronous="@ + "NORMAL"@,
        c.pragmas()[1] == "PRAGMA data_sync_retry=ON"@,
        c.pragmas()[2] == "PRAGMA cache_size="@ + text::decimal(c.cache_pages as int),
        c.pragmas()[3] == "PRAGMA wal_autocheckpoint="@ + text::decimal(c.autockpt as int),
{
}

/// The line on a run names each setting after its own word.
pub proof fn law_configuration_is_shown(c: Config)
    ensures
        c.shown() == "TURSO_DST_CONFIG sync="@ + (if c.sync_mode == SyncMode::Full {
            "Full"@
        } else {
            "Normal"@
        }) + " cache_pages="@ + text::decimal(c.cache_pages as int) + " autockpt="@ + text::decimal(
            c.autockpt as int,
        ) + " index="@ + (if c.with_index {
            "true"@
        } else {
            "false"@
        }) + " epochs="@ + text::decimal(c.epochs as int) + " txs="@ + text::decimal(
            c.txs_per_epoch as int,
        ) + " defer="@ + text::decimal(c.io_defer_permille as int) + " reorder="@ + (
        if c.io_reorder {
            "true"@
        } else {
            "false"@
        }) + " hold="@ + text::decimal(c.io_hold_back_permille as int) + " crash="@
            + text::decimal(c.crash_permille as int),
{
}

} // verus!
