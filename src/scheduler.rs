//! The frame scheduler's decisions: when to tick, how long to wait, and when
//! to forward a brightness change. Times are nanoseconds on a monotonic clock.
use vstd::prelude::*;

verus! {

/// Nanoseconds per second.
pub const NANOS_PER_SECOND: u64 = 1_000_000_000;

/// Margin before a deadline below which the loop spins instead of sleeping.
pub const SPIN_MARGIN_NS: u64 = 1_000_000;

/// What the frame loop does on one iteration.
#[derive(Clone, Copy, PartialEq, Eq, Debug, Structural)]
pub enum FrameStep {
    /// Advance the game and render it.
    Tick,
    /// Sleep `sleep_ns`, then spin until the clock reaches `deadline_ns`.
    Wait { sleep_ns: u64, deadline_ns: u64 },
}

/// Pacing state of the frame loop.
pub struct FrameScheduler {
    /// Time between frames.
    pub period_ns: u64,
    /// Time at which the next frame is due.
    pub next_deadline_ns: u64,
    /// Brightness last forwarded to the driver.
    pub last_sent_brightness: u8,
}

/// The deadline after a tick at `now`: one period after the later of the
/// deadline and `now`, so that an overrun does not queue up frames (held at
/// the end of the clock's range).
pub open spec fn following_deadline(deadline: int, now: int, period: int) -> int {
    let d = (if deadline > now { deadline } else { now }) + period;
    if d > u64::MAX {
        u64::MAX as int
    } else {
        d
    }
}

impl FrameScheduler {
    /// A scheduler for `target_fps` frames per second whose first frame is
    /// due at `start_ns`, the brightness `brightness` having been sent.
    pub fn new(target_fps: u8, start_ns: u64, brightness: u8) -> (r: FrameScheduler)
        requires
            1 <= target_fps,
        ensures
            r.period_ns == NANOS_PER_SECOND / (target_fps as u64),
            r.next_deadline_ns == start_ns,
            r.last_sent_brightness == brightness,
    {
        FrameScheduler {
            period_ns: NANOS_PER_SECOND / (target_fps as u64),
            next_deadline_ns: start_ns,
            last_sent_brightness: brightness,
        }
    }

    /// Decides the iteration of the frame loop that starts at `now_ns`: a tick
    /// where the deadline has passed, which moves the deadline to
    /// `following_deadline`; otherwise a wait for the deadline, sleeping
    /// until `SPIN_MARGIN_NS` before it.
    pub fn poll(&mut self, now_ns: u64) -> (r: FrameStep)
        ensures
            final(self).period_ns == old(self).period_ns,
            final(self).last_sent_brightness == old(self).last_sent_brightness,
            now_ns >= old(self).next_deadline_ns ==> r == FrameStep::Tick && final(self).next_deadline_ns
                == following_deadline(old(self).next_deadline_ns as int, now_ns as int, old(self).period_ns as int),
            now_ns < old(self).next_deadline_ns ==> final(self).next_deadline_ns == old(self).next_deadline_ns && r
                == (FrameStep::Wait {
                sleep_ns: if old(self).next_deadline_ns - now_ns >= SPIN_MARGIN_NS {
                    (old(self).next_deadline_ns - now_ns - SPIN_MARGIN_NS) as u64
                } else {
                    0u64
                },
                deadline_ns: old(self).next_deadline_ns,
            }),
    {
        if now_ns >= self.next_deadline_ns {
            let base = if self.next_deadline_ns > now_ns { self.next_deadline_ns } else { now_ns };
            self.next_deadline_ns = base.saturating_add(self.period_ns);
            FrameStep::Tick
        } else {
            let remaining = self.next_deadline_ns - now_ns;
            let sleep_ns = if remaining >= SPIN_MARGIN_NS { remaining - SPIN_MARGIN_NS } else { 0 };
            FrameStep::Wait { sleep_ns, deadline_ns: self.next_deadline_ns }
        }
    }

    /// The brightness to forward to the driver, if `desired` differs from
    /// the last one forwarded; it is then recorded as forwarded.
    pub fn brightness_change(&mut self, desired: u8) -> (r: Option<u8>)
        ensures
            final(self).period_ns == old(self).period_ns,
            final(self).next_deadline_ns == old(self).next_deadline_ns,
            final(self).last_sent_brightness == desired,
            r == (if desired != old(self).last_sent_brightness { Some(desired) } else { None }),
    {
        if desired != self.last_sent_brightness {
            self.last_sent_brightness = desired;
            Some(desired)
        } else {
            None
        }
    }
}

/// A tick at `t1` moves the deadline to exactly one period after `t1`, however
/// late `t1` was: overruns do not accumulate. Any later poll at `t2` ticks only
/// if `t2` is at least one period after `t1` (or the clock is at the end of
/// its range); polls before that wait, and leave the deadline where it is.
pub proof fn lemma_no_backlog(deadline: u64, period: u64, t1: u64, t2: u64)
    requires
        t1 >= deadline,
    ensures
        t1 + period <= u64::MAX ==> following_deadline(deadline as int, t1 as int, period as int) == t1 + period,
        t2 >= following_deadline(deadline as int, t1 as int, period as int) ==> t2 >= t1 + period || t2 == u64::MAX,
{
}

} // verus!
