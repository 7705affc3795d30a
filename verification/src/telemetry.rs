//! The sampling step of the telemetry loop.
//!
//! The loop itself wakes on a timer; each wake-up hands the current request
//! total and the whole seconds elapsed since launch to [`TelemetryState::on_tick`],
//! which computes one sample. Rates are kept as exact count/seconds pairs so
//! that no division by a zero-length interval can ever occur; the caller
//! divides them for display.

use vstd::prelude::*;

verus! {

/// The baseline the telemetry loop carries from one tick to the next.
#[derive(Clone, Copy, Debug, PartialEq, Eq, Structural)]
pub struct TelemetryState {
    /// The request total read at the previous reported tick.
    pub prev_count: u64,
    /// Whole seconds elapsed since launch at the previous reported tick.
    pub prev_elapsed_secs: u64,
}

/// One telemetry report: the interval rate is
/// `interval_count / interval_secs` requests per second and the cumulative
/// rate is `total_count / total_secs`; both denominators are positive.
#[derive(Clone, Copy, Debug, PartialEq, Eq, Structural)]
pub struct TelemetrySample {
    /// Requests completed since the previous reported tick.
    pub interval_count: u64,
    /// Seconds between the previous reported tick and this one.
    pub interval_secs: u64,
    /// Requests completed since launch.
    pub total_count: u64,
    /// Seconds since launch.
    pub total_secs: u64,
}

impl TelemetryState {
    /// The baseline at launch: no requests, no elapsed time. The timer's
    /// immediate first tick is absorbed by this baseline and reports nothing.
    pub fn new() -> (r: TelemetryState)
        ensures
            r == (TelemetryState { prev_count: 0, prev_elapsed_secs: 0 }),
    {
        TelemetryState { prev_count: 0, prev_elapsed_secs: 0 }
    }

    /// One telemetry tick: `count` is the counter snapshot and
    /// `elapsed_secs` the whole seconds since launch. A tick that falls
    /// within the same second as the previous reported one would make the
    /// interval denominator zero, so it is skipped and changes nothing;
    /// every emitted sample has positive denominators.
    pub fn on_tick(&mut self, count: u64, elapsed_secs: u64) -> (r: Option<TelemetrySample>)
        requires
            old(self).prev_count <= count,
            old(self).prev_elapsed_secs <= elapsed_secs,
        ensures
            elapsed_secs > old(self).prev_elapsed_secs ==> r == Some(
                TelemetrySample {
                    interval_count: (count - old(self).prev_count) as u64,
                    interval_secs: (elapsed_secs - old(self).prev_elapsed_secs) as u64,
                    total_count: count,
                    total_secs: elapsed_secs,
                },
            ) && *final(self) == (TelemetryState {
                prev_count: count,
                prev_elapsed_secs: elapsed_secs,
            }),
            elapsed_secs == old(self).prev_elapsed_secs ==> r is None && *final(self) == *old(
                self,
            ),
            r matches Some(sample) ==> sample.interval_secs > 0 && sample.total_secs > 0,
    {
        if elapsed_secs == self.prev_elapsed_secs {
            None
        } else {
            let sample = TelemetrySample {
                interval_count: count - self.prev_count,
                interval_secs: elapsed_secs - self.prev_elapsed_secs,
                total_count: count,
                total_secs: elapsed_secs,
            };
            self.prev_count = count;
            self.prev_elapsed_secs = elapsed_secs;
            Some(sample)
        }
    }
}

} // verus!
