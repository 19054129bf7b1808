//! Crash points inside the engine: seeded power cuts that stay inert until the
//! driver enables them.

use vstd::prelude::*;

verus! {

/// Whether crash points are live, and how many power cuts they have made.
///
/// Crash points stay inert until the driver enables them (after its own
/// setup), so a high rate of them cannot starve a run of the schema it needs
/// before any transaction runs.
pub struct CrashPoints {
    pub enabled: bool,
    /// How many power cuts were made at crash points.
    pub fired: u64,
}

impl CrashPoints {
    /// Inert crash points that have made no power cut.
    pub fn new() -> (points: CrashPoints)
        ensures
            !points.enabled,
            points.fired == 0,
    {
        CrashPoints { enabled: false, fired: 0 }
    }
}

/// Makes crash points live, or inert again.
pub fn enable_crash_points(points: &mut CrashPoints, enabled: bool)
    ensures
        final(points).enabled == enabled,
        final(points).fired == old(points).fired,
{
    points.enabled = enabled;
}

/// Whether crash points are live.
pub fn crash_points_enabled(points: &CrashPoints) -> (enabled: bool)
    ensures
        enabled == points.enabled,
{
    points.enabled
}

/// Accounts for a power cut that is made now.
pub fn power_cut(points: &mut CrashPoints)
    ensures
        final(points).fired == old(points).fired.wrapping_add(1),
        final(points).enabled == old(points).enabled,
{
    points.fired = points.fired.wrapping_add(1);
}

/// Decides whether a crash point that is reached cuts the power, `drawn` being
/// what its seeded draw says. The cut is accounted for where it is made.
pub fn reach_crash_point(points: &CrashPoints, drawn: bool) -> (cut: bool)
    ensures
        cut == (points.enabled && drawn),
{
    crash_points_enabled(points) && drawn
}

} // verus!
