//! Wall-clock readings and the time that passed between two of them, taken
//! from the `time` crate.

use vstd::prelude::*;

verus! {

/// A wall-clock reading: seconds and nanoseconds since the Unix epoch, as
/// the `time` crate's `Timespec` holds them.
#[derive(Clone, Copy, Debug, PartialEq, Eq, Structural)]
pub struct Timestamp {
    pub sec: i64,
    pub nsec: i32,
}

/// The widest span, in whole seconds, that `Duration::seconds` of the
/// `time` crate accepts: its `Duration` holds at most `i64::MAX`
/// milliseconds either way.
pub const MAX_SPAN_SECS: i64 = 9_223_372_036_854_775;

impl Timestamp {
    /// The nanosecond part lies in `[0, 10^9)`, as `Timespec::new` asserts.
    pub open spec fn valid(self) -> bool {
        0 <= self.nsec < 1_000_000_000
    }

    /// Whether the time from `earlier` to `self` can be measured by the
    /// `time` crate without a panic: the seconds apart must fit
    /// `Duration::seconds`, and the milliseconds apart must fit an `i64`,
    /// as `num_milliseconds` computes them.
    pub open spec fn span_fits(self, earlier: Timestamp) -> bool {
        &&& -MAX_SPAN_SECS <= self.sec - earlier.sec <= MAX_SPAN_SECS
        &&& i64::MIN <= millis_between(self, earlier) <= i64::MAX
    }

    /// Executable form of `span_fits`.
    pub fn span_fits_exec(&self, earlier: &Timestamp) -> (r: bool)
        ensures
            r == self.span_fits(*earlier),
    {
        let d: i128 = self.sec as i128 - earlier.sec as i128;
        if d < -(MAX_SPAN_SECS as i128) || d > MAX_SPAN_SECS as i128 {
            return false;
        }
        assert(-9_223_372_036_854_775_000_000_000 <= d * 1_000_000_000
            <= 9_223_372_036_854_775_000_000_000) by (nonlinear_arith)
            requires
                -9_223_372_036_854_775 <= d <= 9_223_372_036_854_775,
        ;
        let total: i128 = d * 1_000_000_000 + (self.nsec as i128 - earlier.nsec as i128);
        let ms: i128 = if total >= 0 {
            total / 1_000_000
        } else {
            -((-total) / 1_000_000)
        };
        i64::MIN as i128 <= ms && ms <= i64::MAX as i128
    }
}

/// Integer division rounded toward zero.
pub open spec fn trunc_div(a: int, b: int) -> int {
    if a >= 0 {
        a / b
    } else {
        -((-a) / b)
    }
}

/// The whole milliseconds from `earlier` to `later`, rounded toward zero.
pub open spec fn millis_between(later: Timestamp, earlier: Timestamp) -> int {
    trunc_div(
        (later.sec - earlier.sec) * 1_000_000_000 + (later.nsec - earlier.nsec),
        1_000_000,
    )
}

/// Reads the wall clock with `time::get_time`. The reading is whatever the
/// clock says; what is promised is only that the nanosecond part is in
/// range, which `Timespec::new` asserts before it returns.
#[verifier::external_body]
pub(crate) fn clock_now() -> (t: Timestamp)
    ensures
        t.valid(),
{
    let t = time::get_time();
    Timestamp { sec: t.sec, nsec: t.nsec }
}

/// Subtracts two readings as `time::Timespec` values and asks the resulting
/// `time::Duration` for `num_milliseconds`. The `time` crate builds the
/// duration from the second and nanosecond differences and rounds toward
/// zero; `span_fits` is exactly the set of readings on which neither its
/// bound check in `Duration::seconds` nor the arithmetic of
/// `num_milliseconds` can fail.
#[verifier::external_body]
pub(crate) fn elapsed_millis(later: Timestamp, earlier: Timestamp) -> (ms: i64)
    requires
        later.valid(),
        earlier.valid(),
        later.span_fits(earlier),
    ensures
        ms == millis_between(later, earlier),
{
    (time::Timespec::new(later.sec, later.nsec) - time::Timespec::new(
        earlier.sec,
        earlier.nsec,
    )).num_milliseconds()
}

} // verus!
