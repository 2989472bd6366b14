//! Stage timing diagnostics.
//!
//! A tracer records two reference points of the monotonic clock: the
//! start of the run and the latest recorded event. Recording an event
//! reports the nanoseconds elapsed since each; it never touches any
//! other state, so its presence cannot alter the pipeline's output.

use vstd::prelude::*;

verus! {

#[verifier::external_type_specification]
#[verifier::external_body]
pub struct ExInstant(std::time::Instant);

/// Relies on std::time::Instant::now: a reading of the monotonic clock.
#[verifier::external_body]
fn instant_now() -> std::time::Instant {
    std::time::Instant::now()
}

/// Relies on std::time::Instant::elapsed: the time since the reading.
#[verifier::external_body]
fn elapsed_of(t: &std::time::Instant) -> std::time::Duration {
    t.elapsed()
}

/// Relies on std::time::Duration::as_nanos: the duration in whole
/// nanoseconds, truncated to sixty-four bits.
#[verifier::external_body]
fn duration_nanos(d: &std::time::Duration) -> u64 {
    d.as_nanos() as u64
}

/// Timing diagnostics for one run.
pub struct Tracer {
    start: std::time::Instant,
    latest: std::time::Instant,
}

impl Tracer {
    /// The clock reading the trace started at.
    pub closed spec fn spec_start(&self) -> std::time::Instant {
        self.start
    }

    /// The clock reading of the latest recorded event.
    pub closed spec fn spec_latest(&self) -> std::time::Instant {
        self.latest
    }

    /// Starts a trace; both reference points are the moment of
    /// creation.
    pub fn new() -> (t: Tracer)
        ensures
            t.spec_start() == t.spec_latest(),
    {
        let now = instant_now();
        Tracer { start: now, latest: now }
    }

    /// Records an event: the nanoseconds since the previous record and
    /// since the start, in that order. The start reference is never
    /// moved; the latest-event reference moves to this record.
    pub fn log(&mut self) -> (elapsed: (u64, u64))
        ensures
            final(self).spec_start() == old(self).spec_start(),
    {
        let since_last = duration_nanos(&elapsed_of(&self.latest));
        let since_start = duration_nanos(&elapsed_of(&self.start));
        self.latest = instant_now();
        (since_last, since_start)
    }
}

} // verus!
