//! The durability and atomicity oracle.
//!
//! The oracle keeps the observed path of committed states as a list of digests
//! plus the "durable floor", and decides which states a reopened database may
//! legally show:
//!
//! - without a crash: only the last observed state (the filesystem kept every
//!   write, so nothing may be lost), plus the "shadow" state of the last commit
//!   attempt if that attempt's outcome was uncertain;
//! - after a crash (power loss: unsynced writes may be torn or lost): any state
//!   on the observed path at or after the durable floor, plus the shadow.
//!
//! The floor advances on every certain commit under `SyncMode::Full`, and on
//! every successful checkpoint under `SyncMode::Normal` (the checkpoint syncs
//! the log before backfilling, so everything committed before it is on stable
//! storage).

use crate::table;
use crate::table::{digest_model, row_count, Model, Table};
use crate::text::join2;
use std::sync::Arc;
use vstd::prelude::*;

verus! {

/// A state on the observed path.
#[derive(Debug)]
pub struct Snap {
    pub digest: u64,
    /// Whether the commit that led here was reported as done.
    pub certain: bool,
    pub what: String,
    pub rows: usize,
}

/// A state on the observed path, as a mathematical value.
#[verifier::ext_equal]
pub struct SnapView {
    pub digest: u64,
    pub certain: bool,
    pub what: Seq<char>,
    pub rows: nat,
}

impl View for Snap {
    type V = SnapView;

    open spec fn view(&self) -> SnapView {
        SnapView {
            digest: self.digest,
            certain: self.certain,
            what: self.what@,
            rows: self.rows as nat,
        }
    }
}

impl Clone for Snap {
    fn clone(&self) -> (out: Snap)
        ensures
            out@ == self@,
    {
        Snap {
            digest: self.digest,
            certain: self.certain,
            what: self.what.clone(),
            rows: self.rows,
        }
    }
}

/// The database's `synchronous` setting.
#[derive(Clone, Copy, Debug, PartialEq, Eq, Structural)]
pub enum SyncMode {
    Full,
    Normal,
}

/// The oracle, as a mathematical value.
#[verifier::ext_equal]
pub struct HistoryView {
    pub snaps: Seq<SnapView>,
    pub floor: nat,
    pub shadow: Option<SnapView>,
    pub sync_mode: SyncMode,
    pub table: Table,
}

/// A snapshot of a table.
pub open spec fn snap_of(t: Table, certain: bool, what: Seq<char>) -> SnapView {
    SnapView { digest: table::table_digest(t), certain, what, rows: t.len() }
}

impl HistoryView {
    /// Whether the parts fit: there is a state, the floor is one of them, and
    /// the table is the last of them.
    pub open spec fn wf(self) -> bool {
        &&& self.floor < self.snaps.len()
        &&& self.snaps.last().digest == table::table_digest(self.table)
    }

    /// The oracle when the database has just been opened on `t`.
    pub open spec fn opened(t: Table, sync_mode: SyncMode) -> Self {
        HistoryView {
            snaps: seq![snap_of(t, true, "open"@)],
            floor: 0,
            shadow: None,
            sync_mode,
            table: t,
        }
    }

    /// After a commit attempt that left `t` visible.
    pub open spec fn committed(self, t: Table, certain: bool, what: Seq<char>) -> Self {
        HistoryView {
            snaps: self.snaps.push(snap_of(t, certain, what)),
            floor: if certain && self.sync_mode == SyncMode::Full {
                self.snaps.len()
            } else {
                self.floor
            },
            shadow: None,
            table: t,
            ..self
        }
    }

    /// After a commit attempt to `t` whose outcome is unknown.
    pub open spec fn committed_uncertain(self, t: Table, what: Seq<char>) -> Self {
        HistoryView {
            shadow: Some(
                SnapView { certain: false, what: what + ":pre"@, ..self.snaps.last() },
            ),
            ..self.committed(t, false, what + ":applied"@)
        }
    }

    /// Whether a live connection may show `t`.
    pub open spec fn live(self, t: Table) -> bool {
        let d = table::table_digest(t);
        d == self.snaps.last().digest || (self.shadow is Some && d == self.shadow->0.digest)
    }

    /// After a live connection has shown `t`.
    pub open spec fn resolved(self, t: Table) -> Self {
        let d = table::table_digest(t);
        if d == self.snaps.last().digest || !self.live(t) {
            self
        } else {
            HistoryView {
                snaps: self.snaps.push(snap_of(t, false, self.shadow->0.what + ":live"@)),
                shadow: Some(self.snaps.last()),
                table: t,
                ..self
            }
        }
    }

    /// After a successful checkpoint.
    pub open spec fn checkpointed(self) -> Self {
        if self.sync_mode == SyncMode::Normal {
            HistoryView { floor: (self.snaps.len() - 1) as nat, ..self }
        } else {
            self
        }
    }

    /// The states that a reopened database may show.
    pub open spec fn acceptable(self, crashed: bool) -> Seq<SnapView> {
        let path = if crashed {
            self.snaps.skip(self.floor as int)
        } else {
            seq![self.snaps.last()]
        };
        if self.shadow is Some {
            path.push(self.shadow->0)
        } else {
            path
        }
    }

    /// Whether a reopened database may show `t`.
    pub open spec fn accepts(self, crashed: bool, t: Table) -> bool {
        exists|i: int|
            0 <= i < self.acceptable(crashed).len() && (#[trigger] self.acceptable(
                crashed,
            )[i]).digest == table::table_digest(t)
    }

    /// After a reopen without a crash has shown `t`.
    pub open spec fn adopted(self, t: Table) -> Self {
        HistoryView {
            snaps: if table::table_digest(t) != self.snaps.last().digest {
                self.snaps.push(snap_of(t, false, "reopen"@))
            } else {
                self.snaps
            },
            shadow: None,
            table: t,
            ..self
        }
    }

    /// After a reopen that followed a crash has shown `t`.
    pub open spec fn reset(self, t: Table) -> Self {
        HistoryView {
            snaps: seq![snap_of(t, true, "reopen"@)],
            floor: 0,
            shadow: None,
            table: t,
            ..self
        }
    }
}

/// The oracle.
pub struct History {
    /// Observed path of states; the first is the state at (re)open.
    pub snaps: Vec<Snap>,
    /// Index into `snaps` at or after which a post-crash state must fall.
    pub floor: usize,
    /// The "other" candidate state of the most recent commit attempt when its
    /// outcome was uncertain; cleared by the next commit attempt.
    pub shadow: Option<Snap>,
    pub sync_mode: SyncMode,
    /// Live model (what a SELECT on the writer connection must show when no
    /// transaction is open).
    pub model: Arc<Model>,
}

/// Snapshots as mathematical values.
pub open spec fn snap_views(snaps: Seq<Snap>) -> Seq<SnapView> {
    snaps.map_values(|s: Snap| s@)
}

/// A snapshot that may be missing, as a mathematical value.
pub open spec fn shadow_view(shadow: Option<Snap>) -> Option<SnapView> {
    match shadow {
        Some(s) => Some(s@),
        None => None,
    }
}

impl View for History {
    type V = HistoryView;

    open spec fn view(&self) -> HistoryView {
        HistoryView {
            snaps: snap_views(self.snaps@),
            floor: self.floor as nat,
            shadow: shadow_view(self.shadow),
            sync_mode: self.sync_mode,
            table: table::table(*self.model),
        }
    }
}

fn snap_model(model: &Model, certain: bool, what: String) -> (snap: Snap)
    ensures
        snap@ == snap_of(table::table(*model), certain, what@),
{
    let digest: u64 = digest_model(model);
    let rows: usize = row_count(model);
    Snap { digest, certain, what, rows }
}

impl History {
    /// The oracle for a database that has just been opened on `model`.
    pub fn new(model: Model, sync_mode: SyncMode) -> (h: Self)
        ensures
            h@ == HistoryView::opened(table::table(model), sync_mode),
            h@.wf(),
    {
        let snap = snap_model(&model, true, "open".to_owned());
        let mut snaps: Vec<Snap> = Vec::new();
        snaps.push(snap);
        let h = History { snaps, floor: 0, shadow: None, sync_mode, model: Arc::new(model) };
        proof {
            assert(h@.snaps =~= seq![snap_of(table::table(model), true, "open"@)]);
        }
        h
    }

    /// The last observed state.
    pub fn last(&self) -> (snap: &Snap)
        requires
            self@.snaps.len() > 0,
        ensures
            snap@ == self@.snaps.last(),
    {
        &self.snaps[self.snaps.len() - 1]
    }

    /// A commit attempt finished and left `applied` visible.
    pub fn commit_attempt(&mut self, applied: Model, certain: bool, what: &str)
        requires
            old(self)@.wf(),
        ensures
            final(self)@ == old(self)@.committed(table::table(applied), certain, what@),
            final(self)@.wf(),
    {
        let snap = snap_model(&applied, certain, what.to_owned());
        self.snaps.push(snap);
        self.model = Arc::new(applied);
        self.shadow = None;
        if certain && self.sync_mode == SyncMode::Full {
            self.floor = self.snaps.len() - 1;
        }
        proof {
            assert(self@.snaps =~= old(self)@.snaps.push(
                snap_of(table::table(applied), certain, what@),
            ));
        }
    }

    /// A commit attempt whose outcome is unknown (the commit reported an error,
    /// or the power went out inside it): the observed path tentatively takes
    /// the applied state, and the state before it stays as the shadow. Either
    /// may be what the engine shows next; `resolve_live` settles it.
    pub fn commit_attempt_uncertain(&mut self, applied: Model, what: &str)
        requires
            old(self)@.wf(),
        ensures
            final(self)@ == old(self)@.committed_uncertain(table::table(applied), what@),
            final(self)@.wf(),
    {
        let digest: u64 = self.last().digest;
        let rows: usize = self.last().rows;
        let pre = Snap { digest, certain: false, what: join2(what, ":pre"), rows };
        let label = join2(what, ":applied");
        self.commit_attempt(applied, false, label.as_str());
        self.shadow = Some(pre);
    }

    /// The live connection (no transaction open) shows `observed`. Tells
    /// whether that is a legal state (the last state or the shadow); when it
    /// is the shadow the two candidates swap, so the model tracks what the
    /// engine shows while the other stays reachable by a crash.
    pub fn resolve_live(&mut self, observed: Model) -> (legal: bool)
        requires
            old(self)@.wf(),
        ensures
            legal == old(self)@.live(table::table(observed)),
            final(self)@ == old(self)@.resolved(table::table(observed)),
            final(self)@.wf(),
    {
        let d: u64 = digest_model(&observed);
        if d == self.last().digest {
            return true;
        }
        let (shadow_digest, what) = match &self.shadow {
            None => {
                return false;
            },
            Some(shadow) => (shadow.digest, join2(shadow.what.as_str(), ":live")),
        };
        if d != shadow_digest {
            return false;
        }
        let previous = self.last().clone();
        let rows: usize = row_count(&observed);
        self.snaps.push(Snap { digest: d, certain: false, what, rows });
        self.model = Arc::new(observed);
        self.shadow = Some(previous);
        proof {
            let t = table::table(observed);
            assert(self@.snaps =~= old(self)@.snaps.push(
                snap_of(t, false, old(self)@.shadow->0.what + ":live"@),
            ));
        }
        true
    }

    /// Whether a live connection may show `observed`.
    pub fn may_show(&self, observed: &Model) -> (legal: bool)
        requires
            self@.wf(),
        ensures
            legal == self@.live(table::table(*observed)),
    {
        let d: u64 = digest_model(observed);
        d == self.last().digest || match &self.shadow {
            Some(shadow) => d == shadow.digest,
            None => false,
        }
    }

    /// A successful checkpoint under `SyncMode::Normal` makes everything
    /// committed so far durable.
    pub fn checkpoint_ok(&mut self)
        requires
            old(self)@.wf(),
        ensures
            final(self)@ == old(self)@.checkpointed(),
            final(self)@.wf(),
    {
        if self.sync_mode == SyncMode::Normal {
            self.floor = self.snaps.len() - 1;
        }
    }

    /// Which states may a reopened database show?
    pub fn acceptable(&self, crashed: bool) -> (out: Vec<Snap>)
        requires
            self@.wf(),
        ensures
            snap_views(out@) == self@.acceptable(crashed),
    {
        let mut out: Vec<Snap> = Vec::new();
        if crashed {
            let mut i: usize = self.floor;
            while i < self.snaps.len()
                invariant
                    self@.wf(),
                    self.floor <= i <= self.snaps.len(),
                    snap_views(out@) == self@.snaps.subrange(self.floor as int, i as int),
                decreases self.snaps.len() - i,
            {
                let ghost so_far = snap_views(out@);
                let snap = self.snaps[i].clone();
                out.push(snap);
                proof {
                    assert(snap_views(out@) =~= so_far.push(self@.snaps[i as int]));
                    assert(self@.snaps.subrange(self.floor as int, i + 1) =~= self@.snaps.subrange(
                        self.floor as int,
                        i as int,
                    ).push(self@.snaps[i as int]));
                }
                i += 1;
            }
        } else {
            out.push(self.last().clone());
            proof {
                assert(snap_views(out@) =~= seq![self@.snaps.last()]);
            }
        }
        let ghost path = snap_views(out@);
        if let Some(shadow) = &self.shadow {
            out.push(shadow.clone());
            proof {
                assert(snap_views(out@) =~= path.push(shadow@));
            }
        }
        out
    }

    /// A reopen without a crash showed `model` (verified to be the last state
    /// or the shadow): continue the observed path from it. The durable floor
    /// is kept: a plain restart makes nothing durable that was not already, so
    /// a later crash may still roll back to the floor.
    pub fn adopt(&mut self, model: Model)
        requires
            old(self)@.wf(),
        ensures
            final(self)@ == old(self)@.adopted(table::table(model)),
            final(self)@.wf(),
    {
        let snap = snap_model(&model, false, "reopen".to_owned());
        if snap.digest != self.last().digest {
            self.snaps.push(snap);
        }
        self.shadow = None;
        self.model = Arc::new(model);
        proof {
            assert(self@.snaps =~= old(self)@.adopted(table::table(model)).snaps);
        }
    }

    /// Restart the observed path from a verified post-crash state: the
    /// post-crash image is the new durable baseline.
    pub fn reset_from(&mut self, model: Model)
        ensures
            final(self)@ == old(self)@.reset(table::table(model)),
            final(self)@.wf(),
    {
        let snap = snap_model(&model, true, "reopen".to_owned());
        let mut snaps: Vec<Snap> = Vec::new();
        snaps.push(snap);
        self.snaps = snaps;
        self.floor = 0;
        self.shadow = None;
        self.model = Arc::new(model);
        proof {
            assert(self@.snaps =~= old(self)@.reset(table::table(model)).snaps);
        }
    }
}

/// Something that happens to the database between two crashes.
pub enum HistoryEvent {
    Commit { table: Table, certain: bool, what: Seq<char> },
    UncertainCommit { table: Table, what: Seq<char> },
    Live { table: Table },
    Checkpoint,
    CleanReopen { table: Table },
}

/// The oracle after an event.
pub open spec fn after_event(h: HistoryView, e: HistoryEvent) -> HistoryView {
    match e {
        HistoryEvent::Commit { table, certain, what } => h.committed(table, certain, what),
        HistoryEvent::UncertainCommit { table, what } => h.committed_uncertain(table, what),
        HistoryEvent::Live { table } => h.resolved(table),
        HistoryEvent::Checkpoint => h.checkpointed(),
        HistoryEvent::CleanReopen { table } => h.adopted(table),
    }
}

/// The oracle after a run of events.
pub open spec fn after_events(h: HistoryView, events: Seq<HistoryEvent>) -> HistoryView
    decreases events.len(),
{
    if events.len() == 0 {
        h
    } else {
        after_event(after_events(h, events.drop_last()), events.last())
    }
}

/// Until a crash is recovered from, the observed path only grows and the floor
/// only rises, whatever happens in whatever order; every state in between is
/// well formed.
pub proof fn law_path_grows_and_floor_rises(h: HistoryView, events: Seq<HistoryEvent>)
    requires
        h.wf(),
    ensures
        after_events(h, events).wf(),
        h.snaps.len() <= after_events(h, events).snaps.len(),
        after_events(h, events).snaps.take(h.snaps.len() as int) == h.snaps,
        h.floor <= after_events(h, events).floor,
        after_events(h, events).sync_mode == h.sync_mode,
    decreases events.len(),
{
    if events.len() == 0 {
        assert(h.snaps.take(h.snaps.len() as int) =~= h.snaps);
    } else {
        law_path_grows_and_floor_rises(h, events.drop_last());
        let mid = after_events(h, events.drop_last());
        let end = after_events(h, events);
        assert(end.snaps.take(h.snaps.len() as int) =~= mid.snaps.take(h.snaps.len() as int));
    }
}

/// A commit that was reported as done under `SyncMode::Full` is never lost: at
/// once it is the only state that any reopen may show, and after whatever
/// happens next up to a crash, a reopen may show only states observed from
/// that commit on, or the shadow of the latest uncertain commit.
pub proof fn law_certain_commit_under_full_is_durable(
    h: HistoryView,
    t: Table,
    what: Seq<char>,
    events: Seq<HistoryEvent>,
)
    requires
        h.wf(),
        h.sync_mode == SyncMode::Full,
    ensures
        h.committed(t, true, what).acceptable(true) == seq![snap_of(t, true, what)],
        h.committed(t, true, what).acceptable(false) == seq![snap_of(t, true, what)],
        ({
            let end = after_events(h.committed(t, true, what), events);
            &&& end.floor >= h.snaps.len()
            &&& end.snaps[h.snaps.len() as int] == snap_of(t, true, what)
            &&& forall|i: int|
                0 <= i < end.acceptable(true).len() ==> {
                    ||| h.snaps.len() <= end.floor + i < end.snaps.len()
                        && #[trigger] end.acceptable(true)[i] == end.snaps[end.floor + i]
                    ||| end.shadow == Some(end.acceptable(true)[i])
                }
        }),
{
    let c = h.committed(t, true, what);
    assert(c.acceptable(true) =~= seq![snap_of(t, true, what)]);
    assert(c.acceptable(false) =~= seq![snap_of(t, true, what)]);
    law_path_grows_and_floor_rises(c, events);
    let end = after_events(c, events);
    assert(end.snaps.take(c.snaps.len() as int)[h.snaps.len() as int] == c.snaps[h.snaps.len() as int]);
}

/// A successful checkpoint under `SyncMode::Normal` makes everything committed
/// so far durable: a crash may show nothing but the last state, or the shadow.
pub proof fn law_checkpoint_under_normal_is_durable(h: HistoryView)
    requires
        h.wf(),
        h.sync_mode == SyncMode::Normal,
    ensures
        h.checkpointed().acceptable(true) == h.acceptable(false),
{
    assert(h.snaps.skip(h.snaps.len() - 1) =~= seq![h.snaps.last()]);
}

/// A commit under `SyncMode::Normal` makes nothing durable: a crash may still
/// roll the database back to each state that it could roll back to before.
pub proof fn law_commit_under_normal_may_be_lost(
    h: HistoryView,
    t: Table,
    certain: bool,
    what: Seq<char>,
    i: int,
)
    requires
        h.wf(),
        h.sync_mode == SyncMode::Normal,
        h.floor <= i < h.snaps.len(),
    ensures
        h.committed(t, certain, what).acceptable(true).contains(h.snaps[i]),
{
    let c = h.committed(t, certain, what);
    assert(c.acceptable(true)[i - h.floor] == h.snaps[i]);
}

/// What a clean reopen may show, a reopen after a crash may show too.
pub proof fn law_clean_states_survive_a_crash(h: HistoryView, i: int)
    requires
        h.wf(),
        0 <= i < h.acceptable(false).len(),
    ensures
        h.acceptable(true).contains(h.acceptable(false)[i]),
{
    let tail = h.snaps.skip(h.floor as int);
    if i == 0 {
        assert(h.acceptable(true)[tail.len() - 1] == h.snaps.last());
    } else {
        assert(h.acceptable(true)[tail.len() as int] == h.shadow->0);
    }
}

/// After a commit whose outcome is unknown, the state before it and the state
/// it was to lead to are both legal, live and after a reopen.
pub proof fn law_uncertain_commit_allows_both(
    h: HistoryView,
    t: Table,
    what: Seq<char>,
    crashed: bool,
)
    requires
        h.wf(),
    ensures
        h.committed_uncertain(t, what).live(t),
        h.committed_uncertain(t, what).live(h.table),
        h.committed_uncertain(t, what).accepts(crashed, t),
        h.committed_uncertain(t, what).accepts(crashed, h.table),
{
    let u = h.committed_uncertain(t, what);
    let a = u.acceptable(crashed);
    assert(a.last().digest == table::table_digest(h.table));
    assert(a[a.len() - 2].digest == table::table_digest(t));
}

/// Settling what the live connection shows neither adds a state that a crash
/// may show nor takes one away; what was shown is then the last state, and
/// showing it again changes nothing.
pub proof fn law_resolving_keeps_both_reachable(h: HistoryView, t: Table, u: Table)
    requires
        h.wf(),
        h.live(t),
    ensures
        h.resolved(t).accepts(true, u) <==> h.accepts(true, u),
        h.resolved(t).snaps.last().digest == table::table_digest(t),
        h.resolved(t).resolved(t) == h.resolved(t),
{
    let r = h.resolved(t);
    let d = table::table_digest(u);
    let ha = h.acceptable(true);
    let ra = r.acceptable(true);
    let n = h.snaps.len() - h.floor;
    if r != h {
        if h.accepts(true, u) {
            let i = choose|i: int| 0 <= i < ha.len() && (#[trigger] ha[i]).digest == d;
            if i < n {
                assert(ra[i] == ha[i]);
            } else {
                assert(ra[n].digest == d);
            }
        }
        if r.accepts(true, u) {
            let i = choose|i: int| 0 <= i < ra.len() && (#[trigger] ra[i]).digest == d;
            if i < n {
                assert(ha[i] == ra[i]);
            } else if i == n {
                assert(ha[n].digest == d);
            } else {
                assert(ha[n - 1] == h.snaps.last());
            }
        }
    }
}

/// A plain restart keeps the floor, so a later crash may still roll back to it;
/// it leaves one legal state for the live connection.
pub proof fn law_clean_reopen_keeps_the_floor(h: HistoryView, t: Table)
    requires
        h.wf(),
    ensures
        h.adopted(t).floor == h.floor,
        h.adopted(t).acceptable(true).contains(h.snaps[h.floor as int]),
        h.adopted(t).acceptable(false) == seq![h.adopted(t).snaps.last()],
        h.adopted(t).live(t),
{
    assert(h.adopted(t).acceptable(true)[0] == h.snaps[h.floor as int]);
}

/// The state recovered from a crash is the new durable baseline: no reopen may
/// show anything else.
pub proof fn law_recovered_state_is_the_baseline(h: HistoryView, t: Table, crashed: bool)
    ensures
        h.reset(t).wf(),
        h.reset(t).acceptable(crashed) == seq![snap_of(t, true, "reopen"@)],
{
    assert(h.reset(t).acceptable(crashed) =~= seq![snap_of(t, true, "reopen"@)]);
}

} // verus!
