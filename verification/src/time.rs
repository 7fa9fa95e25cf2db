//! Frame delays and poll timeouts.

use vstd::prelude::*;

verus! {

/// Nanoseconds in one second.
pub const NANOS_PER_SEC: u32 = 1_000_000_000;

/// A frame that is due later than this is left for a later pass: one millisecond.
pub const DRAW_THRESHOLD_NANOS: u32 = 1_000_000;

/// How much earlier than the frame the poll has to return: half a millisecond.
pub const POLL_LEAD_NANOS: u32 = 500_000;

/// How precise a sleep of the operating system can be expected to be: 125 microseconds.
pub const SLEEP_ACCURACY_NANOS: u32 = 125_000;

/// A span of time: whole seconds, and the nanoseconds that remain.
#[derive(Clone, Copy, Debug, PartialEq, Eq, Structural)]
pub struct Span {
    pub secs: u64,
    pub nanos: u32,
}

/// A poll timeout, as the kernel takes it.
#[derive(Clone, Copy, Debug, PartialEq, Eq, Structural)]
pub struct Timespec {
    pub tv_sec: i64,
    pub tv_nsec: i64,
}

impl Span {
    /// The nanoseconds do not add up to another second.
    pub open spec fn wf(self) -> bool {
        self.nanos < NANOS_PER_SEC
    }

    /// The span in nanoseconds.
    pub open spec fn total_nanos(self) -> int {
        self.secs * NANOS_PER_SEC + self.nanos
    }

    /// Whether this span is longer than `nanos` nanoseconds.
    pub fn longer_than_nanos(&self, nanos: u32) -> (r: bool)
        requires
            nanos < NANOS_PER_SEC,
            self.wf(),
        ensures
            r == (self.total_nanos() > nanos),
    {
        self.secs > 0 || self.nanos > nanos
    }

    /// Whether no time is left.
    pub fn is_zero(&self) -> (r: bool)
        ensures
            r == (self.total_nanos() == 0),
    {
        self.secs == 0 && self.nanos == 0
    }

    /// Whether this span is shorter than `other`.
    pub fn shorter_than(&self, other: &Span) -> (r: bool)
        requires
            self.wf(),
            other.wf(),
        ensures
            r == (self.total_nanos() < other.total_nanos()),
    {
        self.secs < other.secs || (self.secs == other.secs && self.nanos < other.nanos)
    }
}

impl Timespec {
    /// The order of timeouts: by seconds, then by nanoseconds.
    pub open spec fn before(self, other: Timespec) -> bool {
        self.tv_sec < other.tv_sec || (self.tv_sec == other.tv_sec && self.tv_nsec < other.tv_nsec)
    }

    /// Whether this timeout runs out before `other` does.
    pub fn is_before(&self, other: &Timespec) -> (r: bool)
        ensures
            r == self.before(*other),
    {
        self.tv_sec < other.tv_sec || (self.tv_sec == other.tv_sec && self.tv_nsec < other.tv_nsec)
    }
}

/// The timeout with which to poll when a frame is due in `span`: its seconds, and its
/// nanoseconds less the lead, but never below zero. Seconds past `i64::MAX` wrap round.
pub open spec fn spec_poll_timeout(span: Span) -> Timespec {
    Timespec {
        tv_sec: span.secs as i64,
        tv_nsec: if span.nanos > POLL_LEAD_NANOS {
            (span.nanos - POLL_LEAD_NANOS) as i64
        } else {
            0
        },
    }
}

/// The timeout with which to poll when a frame is due in `span`.
pub fn poll_timeout(span: &Span) -> (t: Timespec)
    ensures
        t == spec_poll_timeout(*span),
{
    Timespec {
        tv_sec: #[verifier::truncate] (span.secs as i64),
        tv_nsec: span.nanos.saturating_sub(POLL_LEAD_NANOS) as i64,
    }
}

/// The earlier of a timeout that may already be set and a new one. Of two equal ones the first
/// stays, which cannot be told apart.
pub open spec fn earliest(current: Option<Timespec>, new: Timespec) -> Timespec {
    match current {
        None => new,
        Some(t) => if new.before(t) { new } else { t },
    }
}

/// How long to give the processor away before spinning on the clock, for a wait of `duration`:
/// all of it but the accuracy of a sleep, or not at all when it is no longer than that.
pub fn coarse_sleep(duration: &Span) -> (r: Option<Span>)
    requires
        duration.wf(),
    ensures
        r is Some <==> duration.total_nanos() > SLEEP_ACCURACY_NANOS,
        r is Some <==> duration.secs > 0 || duration.nanos > 125_000,
        r matches Some(s) ==> {
            &&& s.wf()
            &&& s.total_nanos() == duration.total_nanos() - SLEEP_ACCURACY_NANOS
            &&& s.nanos < 1_000_000_000
            &&& s.secs * 1_000_000_000 + s.nanos + 125_000 == duration.secs * 1_000_000_000
                + duration.nanos
        },
{
    if duration.longer_than_nanos(SLEEP_ACCURACY_NANOS) {
        if duration.nanos >= SLEEP_ACCURACY_NANOS {
            Some(Span { secs: duration.secs, nanos: duration.nanos - SLEEP_ACCURACY_NANOS })
        } else {
            Some(
                Span {
                    secs: duration.secs - 1,
                    nanos: duration.nanos + (NANOS_PER_SEC - SLEEP_ACCURACY_NANOS),
                },
            )
        }
    } else {
        None
    }
}

/// Whether to spin on when `elapsed` has passed of a wait of `duration`.
pub fn keep_spinning(elapsed: &Span, duration: &Span) -> (r: bool)
    requires
        elapsed.wf(),
        duration.wf(),
    ensures
        r == (elapsed.total_nanos() < duration.total_nanos()),
        r <==> elapsed.secs < duration.secs || elapsed.secs == duration.secs && elapsed.nanos
            < duration.nanos,
{
    elapsed.shorter_than(duration)
}

/// A span is as long as its seconds and nanoseconds together.
pub proof fn law_length_of_a_span(span: Span)
    ensures
        span.total_nanos() == span.secs * 1_000_000_000 + span.nanos,
        span.wf() <==> span.nanos < 1_000_000_000,
{
}

/// A poll that waits for a frame returns half a millisecond before it, or as early as its last
/// second begins where the frame comes sooner after that.
pub proof fn law_poll_returns_before_the_frame(span: Span)
    ensures
        ({
            let t = spec_poll_timeout(span);
            &&& t.tv_sec == span.secs as i64
            &&& span.nanos >= 500_000 ==> t.tv_nsec + 500_000 == span.nanos
            &&& span.nanos < 500_000 ==> t.tv_nsec == 0
        }),
{
}

/// A timeout comes before another if it is shorter.
pub proof fn law_shorter_timeouts_come_first(a: Timespec, b: Timespec)
    ensures
        a.before(b) <==> a.tv_sec < b.tv_sec || a.tv_sec == b.tv_sec && a.tv_nsec < b.tv_nsec,
        0 <= a.tv_nsec < 1_000_000_000 && 0 <= b.tv_nsec < 1_000_000_000 ==> (a.before(b)
            <==> a.tv_sec * 1_000_000_000 + a.tv_nsec < b.tv_sec * 1_000_000_000 + b.tv_nsec),
{
}

/// The earliest of two timeouts is one of them, and neither is shorter.
pub proof fn law_the_earliest_is_the_shortest(a: Timespec, b: Timespec)
    ensures
        earliest(None, b) == b,
        ({
            let e = earliest(Some(a), b);
            &&& e == a || e == b
            &&& e.tv_sec <= a.tv_sec && e.tv_sec <= b.tv_sec
            &&& e.tv_sec == a.tv_sec ==> e.tv_nsec <= a.tv_nsec
            &&& e.tv_sec == b.tv_sec ==> e.tv_nsec <= b.tv_nsec
        }),
{
}

} // verus!
