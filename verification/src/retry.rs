//! Trying again through injected faults, and telling a power cut from a fault.

use crate::exec::Fail;
use crate::report::{violation, Violation, ViolationView};
use vstd::prelude::*;

verus! {

/// How often the database is opened before it counts as lost.
pub const OPEN_ATTEMPTS: u64 = 40;

/// How long to wait before it is opened again, in milliseconds.
pub const OPEN_RETRY_MS: u64 = 20;

/// How often the sentinel file is created before the sentinel stays unarmed.
pub const ARM_ATTEMPTS: u64 = 20;

/// How long to wait before it is created again, in milliseconds.
pub const ARM_RETRY_MS: u64 = 5;

/// The error number of a descriptor that is no longer open.
pub const DEAD_DESCRIPTOR: i32 = 9;

/// What asking for the metadata of the sentinel file gave.
#[derive(Clone, Copy, Debug)]
pub enum SentinelProbe {
    /// There is no sentinel.
    Unarmed,
    /// The metadata was there.
    Alive,
    /// It failed, with this error number where there is one.
    Failed(Option<i32>),
}

/// Tells whether the power was cut since the sentinel was armed. A power cut
/// invalidates every open descriptor; an injected fault does not, and has
/// another error number.
pub fn sentinel_crashed(probe: SentinelProbe) -> (crashed: bool)
    ensures
        crashed == (probe == SentinelProbe::Failed(Some(DEAD_DESCRIPTOR))),
        crashed ==> probe == SentinelProbe::Failed(Some(9i32)),
        probe == SentinelProbe::Failed(Some(9i32)) ==> crashed,
{
    match probe {
        SentinelProbe::Failed(Some(errno)) => errno == DEAD_DESCRIPTOR,
        _ => false,
    }
}

/// An effort that is repeated until it succeeds or no attempt is left; after
/// every failed attempt there is a pause.
#[derive(Clone, Copy, Debug, PartialEq, Eq, Structural)]
pub struct Effort {
    /// How many attempts are left.
    pub left: u64,
}

impl Effort {
    /// An effort that has not begun.
    pub fn new(attempts: u64) -> (e: Effort)
        ensures
            e.left == attempts,
    {
        Effort { left: attempts }
    }

    /// Begins another attempt, if one is left.
    pub fn again(&mut self) -> (yes: bool)
        ensures
            yes == (old(self).left > 0),
            final(self).left == (if yes {
                old(self).left - 1
            } else {
                0
            }),
    {
        if self.left == 0 {
            false
        } else {
            self.left = self.left - 1;
            true
        }
    }
}

/// Opening the database until it succeeds or no attempt is left.
pub struct OpenRun {
    pub effort: Effort,
    /// How the last failure was worded.
    pub last: Option<String>,
}

impl OpenRun {
    /// How the last failure was worded, or nothing.
    pub open spec fn last_text(self) -> Seq<char> {
        match self.last {
            Some(s) => s@,
            None => Seq::empty(),
        }
    }

    /// Whether the attempt that is being made was one of those left.
    pub open spec fn wf(self) -> bool {
        self.effort.left < OPEN_ATTEMPTS
    }

    /// The first attempt.
    pub fn start() -> (run: OpenRun)
        ensures
            run.wf(),
            run.effort.left == OPEN_ATTEMPTS - 1,
            run.effort.left == 39,
            run.last is None,
    {
        OpenRun { effort: Effort { left: OPEN_ATTEMPTS - 1 }, last: None }
    }

    /// An attempt has succeeded.
    pub fn on_opened(&self) -> (retried: bool)
        requires
            self.wf(),
        ensures
            retried == (self.effort.left + 1 < OPEN_ATTEMPTS),
            retried == (self.effort.left < 39),
    {
        self.effort.left + 1 < OPEN_ATTEMPTS
    }

    /// An attempt has failed: there is a pause, and then another attempt where
    /// one is left.
    pub fn on_failed(&mut self, e: &Fail) -> (more: bool)
        requires
            old(self).wf(),
        ensures
            final(self).wf(),
            final(self).last is Some,
            final(self).last_text() == e@.wording(),
            more == (old(self).effort.left > 0),
            more ==> final(self).effort.left == old(self).effort.left - 1,
            !more ==> final(self).effort.left == 0,
    {
        self.last = Some(e.wording());
        self.effort.again()
    }

    /// No attempt has succeeded.
    pub fn gave_up(self) -> (v: Violation)
        ensures
            v@ == (ViolationView { label: "reopen-failed"@, detail: self.last_text() }),
    {
        let detail: String = match self.last {
            Some(s) => s,
            None => String::new(),
        };
        proof {
            if self.last is None {
                assert(detail@ =~= Seq::<char>::empty());
            }
        }
        violation("reopen-failed", detail)
    }
}

/// How often and how long things are tried again: the database is opened forty
/// times, twenty milliseconds apart, and the sentinel is created twenty times,
/// five milliseconds apart.
pub proof fn law_how_often_things_are_tried()
    ensures
        OPEN_ATTEMPTS == 40,
        OPEN_RETRY_MS == 20,
        ARM_ATTEMPTS == 20,
        ARM_RETRY_MS == 5,
{
}

} // verus!
