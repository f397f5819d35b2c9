//! Wall-clock instants and the elapsed-time metric.

use vstd::prelude::*;

verus! {

/// Nanoseconds in one second.
pub const NANOS_PER_SEC: u32 = 1_000_000_000;

/// Nanoseconds in one millisecond.
pub const NANOS_PER_MILLI: u32 = 1_000_000;

/// Milliseconds in one second.
pub const MILLIS_PER_SEC: i64 = 1_000;

/// Bound on the magnitude of the seconds of a valid instant.
pub const SECS_LIMIT: i64 = 0x1_0000_0000_0000;

/// A point in time: whole seconds since the Unix epoch and the nanoseconds
/// into that second.
#[derive(Clone, Copy, Debug, PartialEq, Eq, Structural)]
pub struct Instant {
    /// Whole non-leap seconds since 1970-01-01T00:00:00Z.
    pub secs: i64,
    /// Nanoseconds since the last second boundary.
    pub nanos: u32,
}

/// The integer quotient of `a` by a positive `b`, rounded toward zero.
pub open spec fn div_toward_zero(a: int, b: int) -> int {
    if a >= 0 {
        a / b
    } else {
        -((-a) / b)
    }
}

/// The nanoseconds between the epoch and an instant.
pub open spec fn nanos_since_epoch(t: Instant) -> int {
    t.secs * (NANOS_PER_SEC as int) + t.nanos
}

/// The nanoseconds that passed from `start` to `end`, negative where `end`
/// lies before `start`.
pub open spec fn nanos_between(start: Instant, end: Instant) -> int {
    nanos_since_epoch(end) - nanos_since_epoch(start)
}

/// The whole milliseconds that passed from `start` to `end`: the exact
/// difference with what is less than a millisecond cut off.
pub open spec fn whole_millis_between(start: Instant, end: Instant) -> int {
    div_toward_zero(nanos_between(start, end), NANOS_PER_MILLI as int)
}

/// The epoch itself.
pub open spec fn epoch() -> Instant {
    Instant { secs: 0, nanos: 0 }
}

impl Instant {
    /// An instant is valid when its seconds are within the supported range
    /// and its nanoseconds stay below one second.
    pub open spec fn wf(&self) -> bool {
        &&& -SECS_LIMIT < self.secs < SECS_LIMIT
        &&& self.nanos < NANOS_PER_SEC
    }

    /// Makes an instant from its parts, or `None` where they are out of range.
    pub fn new(secs: i64, nanos: u32) -> (t: Option<Instant>)
        ensures
            t is Some <==> (Instant { secs, nanos }).wf(),
            t is Some ==> t == Some(Instant { secs, nanos }),
    {
        if -SECS_LIMIT < secs && secs < SECS_LIMIT && nanos < NANOS_PER_SEC {
            Some(Instant { secs, nanos })
        } else {
            None
        }
    }

    /// The whole milliseconds that passed since `earlier`.
    pub fn whole_millis_since(&self, earlier: &Instant) -> (elapsed: i64)
        requires
            self.wf(),
            earlier.wf(),
        ensures
            elapsed == whole_millis_between(*earlier, *self),
    {
        let secs: i64 = self.secs - earlier.secs;
        let base: i64 = secs * MILLIS_PER_SEC;
        if self.nanos >= earlier.nanos {
            let ahead: u32 = self.nanos - earlier.nanos;
            let whole: i64 = (ahead / NANOS_PER_MILLI) as i64;
            proof {
                lemma_millis(secs as int, ahead as int);
            }
            if secs < 0 && ahead % NANOS_PER_MILLI != 0 {
                base + whole + 1
            } else {
                base + whole
            }
        } else {
            let behind: u32 = earlier.nanos - self.nanos;
            let whole: i64 = (behind / NANOS_PER_MILLI) as i64;
            proof {
                lemma_millis(-secs as int, behind as int);
            }
            if secs > 0 && behind % NANOS_PER_MILLI != 0 {
                base - whole - 1
            } else {
                base - whole
            }
        }
    }
}

/// How a span of whole seconds and a fraction of a second, taken with or
/// against it, counts in whole milliseconds.
proof fn lemma_millis(secs: int, nanos: int)
    requires
        0 <= nanos < NANOS_PER_SEC,
    ensures
        secs >= 0 ==> div_toward_zero(secs * NANOS_PER_SEC + nanos, NANOS_PER_MILLI as int) == secs
            * MILLIS_PER_SEC + nanos / (NANOS_PER_MILLI as int),
        secs < 0 ==> div_toward_zero(secs * NANOS_PER_SEC + nanos, NANOS_PER_MILLI as int) == secs
            * MILLIS_PER_SEC + nanos / (NANOS_PER_MILLI as int) + if nanos % (NANOS_PER_MILLI as int)
            != 0 {
            1int
        } else {
            0int
        },
{
    let unit = NANOS_PER_MILLI as int;
    let whole = nanos / unit;
    let rest = nanos % unit;
    assert(nanos == whole * unit + rest && 0 <= rest < unit) by (nonlinear_arith)
        requires
            whole == nanos / unit,
            rest == nanos % unit,
            unit > 0,
    ;
    let total = secs * NANOS_PER_SEC + nanos;
    let millis = secs * MILLIS_PER_SEC + whole;
    assert(total == millis * unit + rest) by (nonlinear_arith)
        requires
            total == secs * 1_000_000_000 + nanos,
            millis == secs * 1_000 + whole,
            nanos == whole * unit + rest,
            unit == 1_000_000,
    ;
    if secs >= 0 {
        assert(total / unit == millis) by (nonlinear_arith)
            requires
                total == millis * unit + rest,
                0 <= rest < unit,
        ;
    } else if rest == 0 {
        assert((-total) / unit == -millis) by (nonlinear_arith)
            requires
                -total == (-millis) * unit,
                unit > 0,
        ;
    } else {
        assert((-total) / unit == -millis - 1) by (nonlinear_arith)
            requires
                -total == (-millis - 1) * unit + (unit - rest),
                0 < unit - rest < unit,
        ;
    }
}

/// Reads the system clock without ever failing the caller. The time since
/// the epoch is taken from `std::time::SystemTime::elapsed`, and
/// `chrono::DateTime::from_timestamp` makes a date and time of it, which is
/// taken apart into the whole seconds since the epoch (`timestamp`) and the
/// nanoseconds into the second (`timestamp_subsec_nanos`).
///
/// Where the clock reads before the epoch, or beyond the years chrono can
/// tell, there is no instant. Nothing is claimed about which instant comes
/// back, only that it is valid: the nanoseconds of a duration are below one
/// second and chrono hands them back as it got them, and it computes a
/// timestamp as a 32-bit count of days times 86 400 plus the second of the
/// day, which in magnitude stays below `SECS_LIMIT`.
#[verifier::external_body]
fn now() -> (t: Option<Instant>)
    ensures
        t matches Some(at) ==> at.wf(),
{
    let since = std::time::UNIX_EPOCH.elapsed().ok()?;
    let secs = i64::try_from(since.as_secs()).ok()?;
    let at = chrono::DateTime::from_timestamp(secs, since.subsec_nanos())?;
    Some(Instant { secs: at.timestamp(), nanos: at.timestamp_subsec_nanos() })
}

/// The instant the system clock shows, or `None` where the clock cannot be
/// read as a valid instant.
pub fn read() -> (t: Option<Instant>)
    ensures
        t matches Some(at) ==> at.wf(),
{
    now()
}

} // verus!
