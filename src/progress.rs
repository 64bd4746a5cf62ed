//! Install progress as it is reported to listeners: stages map their own
//! completion into a band of the overall percentage, and batch callbacks
//! are throttled.

use vstd::prelude::*;

verus! {

/// The state carried by a progress event.
#[derive(Clone, Copy, Debug, PartialEq, Eq, Structural)]
pub enum InstallStatus {
    Progress,
    Complete,
    Failed,
}

/// One progress event of an install.
#[derive(Clone, Debug)]
pub struct ProgressEvent {
    pub profile_id: String,
    pub stage: String,
    pub message: String,
    /// Overall completion, 0 to 100.
    pub percent: u32,
    pub status: InstallStatus,
}

/// The overall percentage when `done` of `total` items of a stage that
/// spans `lo..hi` percent are finished.
pub open spec fn band_spec(done: int, total: int, lo: int, hi: int) -> int {
    lo + (done * (hi - lo)) / total
}

/// Maps a stage's progress into its band of the overall percentage.
pub fn band_percent(done: u64, total: u64, lo: u32, hi: u32) -> (r: u32)
    requires
        lo <= hi <= 100,
        0 < total,
        done <= total,
    ensures
        r == band_spec(done as int, total as int, lo as int, hi as int),
        lo <= r <= hi,
{
    let span = (hi - lo) as u128;
    proof {
        let (d, t, sp) = (done as int, total as int, span as int);
        assert(d * sp <= t * sp) by (nonlinear_arith)
            requires d <= t, 0 <= sp;
        assert(0 <= d * sp) by (nonlinear_arith)
            requires 0 <= d, 0 <= sp;
        assert((d * sp) / t <= sp) by (nonlinear_arith)
            requires d * sp <= t * sp, t > 0, 0 <= d * sp;
        assert(d * sp <= 0xffff_ffff_ffff_ffff_ffff_ffff_ffffu128) by (nonlinear_arith)
            requires 0 <= d <= 0xffff_ffff_ffff_ffffu64, 0 <= sp <= 100;
        assert(0 <= (d * sp) / t) by (nonlinear_arith)
            requires 0 <= d * sp, t > 0;
    }
    let scaled = (done as u128) * span / (total as u128);
    lo + scaled as u32
}

/// Whether a batch callback is forwarded: always for the last item,
/// otherwise only once at least 100 ms passed since the last forwarded one.
pub open spec fn emit_spec(now_ms: u64, last_ms: u64, done: u64, total: u64) -> bool {
    done == total || (now_ms >= last_ms && now_ms - last_ms >= 100)
}

pub fn should_emit(now_ms: u64, last_ms: u64, done: u64, total: u64) -> (r: bool)
    ensures
        r == emit_spec(now_ms, last_ms, done, total),
{
    done == total || (now_ms >= last_ms && now_ms - last_ms >= 100)
}

} // verus!
