//! Points in time, and how long a process has been up.

use vstd::prelude::*;

use crate::text::{append_i64, decimal};

verus! {

/// The first second, counted from the Unix epoch, that a [`Timestamp`] can hold: the start of
/// the year -262143.
pub const MIN_SECONDS: i64 = -8_334_601_228_800;

/// The last second, counted from the Unix epoch, that a [`Timestamp`] can hold: the end of the
/// year 262142.
pub const MAX_SECONDS: i64 = 8_210_266_876_799;

/// A point in time: seconds since the Unix epoch, and nanoseconds after that second. Within a
/// leap second the nanoseconds go on counting from the second before it.
#[derive(Debug, Clone, Copy, PartialEq, Eq, Structural)]
pub struct Timestamp {
    seconds: i64,
    nanos: u32,
}

/// Whether seconds since the Unix epoch and nanoseconds after that second are a point in time:
/// within the range, and with more than a second of nanoseconds only at the end of a minute.
pub open spec fn is_point(seconds: int, nanos: int) -> bool {
    &&& MIN_SECONDS <= seconds <= MAX_SECONDS
    &&& 0 <= nanos < 2_000_000_000
    &&& nanos >= 1_000_000_000 ==> seconds % 60 == 59
}

impl Timestamp {
    #[verifier::type_invariant]
    spec fn valid(self) -> bool {
        is_point(self.seconds as int, self.nanos as int)
    }

    /// Seconds since the Unix epoch.
    pub closed spec fn second(self) -> int {
        self.seconds as int
    }

    /// Nanoseconds after that second.
    pub closed spec fn nanosecond(self) -> int {
        self.nanos as int
    }

    /// The point `nanos` after the second `seconds` after the Unix epoch, where there is one.
    pub fn new(seconds: i64, nanos: u32) -> (r: Option<Timestamp>)
        ensures
            r is Some <==> is_point(seconds as int, nanos as int),
            r matches Some(t) ==> t.second() == seconds && t.nanosecond() == nanos,
    {
        if seconds < MIN_SECONDS || seconds > MAX_SECONDS || nanos >= 2_000_000_000 {
            return None;
        }
        if nanos >= 1_000_000_000 && (seconds - MIN_SECONDS) % 60 != 59 {
            return None;
        }
        Some(Timestamp { seconds, nanos })
    }

    /// The current time.
    pub fn now() -> (r: Timestamp)
        ensures
            is_point(r.second(), r.nanosecond()),
            r.nanosecond() < 1_000_000_000,
    {
        let (seconds, nanos) = local_now();
        Timestamp { seconds, nanos }
    }

    /// Seconds since the Unix epoch.
    pub fn seconds(&self) -> (r: i64)
        ensures
            r == self.second(),
    {
        self.seconds
    }

    /// Nanoseconds after that second.
    pub fn nanos(&self) -> (r: u32)
        ensures
            r == self.nanosecond(),
    {
        self.nanos
    }
}

/// `chrono::Local::now`, taken apart by `timestamp` and `timestamp_subsec_nanos`: the seconds since
/// the Unix epoch, in the range of dates, and the nanoseconds after that second, of which a clock
/// gives less than a second. Left unsaid is which time that is: it depends on the clock alone. A
/// clock that is set to before the Unix epoch is an error that the call does not return from.
#[verifier::external_body]
fn local_now() -> (r: (i64, u32))
    ensures
        MIN_SECONDS <= r.0 <= MAX_SECONDS,
        r.1 < 1_000_000_000,
{
    let now = chrono::Local::now();
    (now.timestamp(), now.timestamp_subsec_nanos())
}

/// `a / b` rounded towards zero.
pub open spec fn truncated(a: int, b: int) -> int {
    if a < 0 {
        -((-a) / b)
    } else {
        a / b
    }
}

/// The leap second between two points in time that their seconds do not count: one that the
/// earlier time of day lies in.
pub open spec fn uncounted(start: int, start_nanos: int, now: int, now_nanos: int) -> int {
    if now % 86_400 > start % 86_400 && start_nanos >= 1_000_000_000 {
        1
    } else if now % 86_400 < start % 86_400 && now_nanos >= 1_000_000_000 {
        -1
    } else {
        0
    }
}

/// The nanoseconds between two points in time, given by their seconds and nanoseconds.
pub open spec fn between(start: int, start_nanos: int, now: int, now_nanos: int) -> int {
    (now - start + uncounted(start, start_nanos, now, now_nanos)) * 1_000_000_000 + now_nanos
        - start_nanos
}

/// The nanoseconds from `start` to `now`.
pub open spec fn elapsed(start: Timestamp, now: Timestamp) -> int {
    between(start.second(), start.nanosecond(), now.second(), now.nanosecond())
}

/// The whole seconds from `start` to `now`.
pub open spec fn whole_seconds(start: Timestamp, now: Timestamp) -> int {
    truncated(elapsed(start, now), 1_000_000_000)
}

/// The whole minutes from `start` to `now`.
pub open spec fn whole_minutes(start: Timestamp, now: Timestamp) -> int {
    truncated(elapsed(start, now), 60_000_000_000)
}

/// `chrono::TimeDelta::num_seconds` on the difference of two `chrono::DateTime<Utc>`: the number
/// of whole seconds between them, rounded towards zero. Of leap seconds the difference counts the
/// one that the earlier time of day lies in.
#[verifier::external_body]
fn num_seconds(start_seconds: i64, start_nanos: u32, now_seconds: i64, now_nanos: u32) -> (r: i64)
    requires
        is_point(start_seconds as int, start_nanos as int),
        is_point(now_seconds as int, now_nanos as int),
    ensures
        r == truncated(
            between(
                start_seconds as int,
                start_nanos as int,
                now_seconds as int,
                now_nanos as int,
            ),
            1_000_000_000,
        ),
{
    let start = chrono::DateTime::from_timestamp(start_seconds, start_nanos).unwrap();
    let now = chrono::DateTime::from_timestamp(now_seconds, now_nanos).unwrap();
    (now - start).num_seconds()
}

/// `chrono::TimeDelta::num_minutes` on the difference of two `chrono::DateTime<Utc>`: the number
/// of whole minutes between them, rounded towards zero, with leap seconds as in `num_seconds`.
#[verifier::external_body]
fn num_minutes(start_seconds: i64, start_nanos: u32, now_seconds: i64, now_nanos: u32) -> (r: i64)
    requires
        is_point(start_seconds as int, start_nanos as int),
        is_point(now_seconds as int, now_nanos as int),
    ensures
        r == truncated(
            between(
                start_seconds as int,
                start_nanos as int,
                now_seconds as int,
                now_nanos as int,
            ),
            60_000_000_000,
        ),
{
    let start = chrono::DateTime::from_timestamp(start_seconds, start_nanos).unwrap();
    let now = chrono::DateTime::from_timestamp(now_seconds, now_nanos).unwrap();
    (now - start).num_minutes()
}

/// How a time is told: in minutes once there is a whole one, in seconds before.
pub open spec fn uptime_text(
    start: Timestamp,
    now: Timestamp,
    minutes: Seq<char>,
    seconds: Seq<char>,
) -> Seq<char> {
    if whole_minutes(start, now) > 0 {
        decimal(whole_minutes(start, now)) + minutes
    } else {
        decimal(whole_seconds(start, now)) + seconds
    }
}

/// Appends the time from `start` to `now`, with the given units.
pub fn append_uptime(
    out: &mut String,
    start: Timestamp,
    now: Timestamp,
    minutes: &str,
    seconds: &str,
)
    ensures
        final(out)@ == old(out)@ + uptime_text(start, now, minutes@, seconds@),
{
    proof {
        use_type_invariant(&start);
        use_type_invariant(&now);
    }
    let whole = num_minutes(start.seconds, start.nanos, now.seconds, now.nanos);
    if whole > 0 {
        append_i64(out, whole);
        out.append(minutes);
    } else {
        append_i64(out, num_seconds(start.seconds, start.nanos, now.seconds, now.nanos));
        out.append(seconds);
    }
    assert(out@ =~= old(out)@ + uptime_text(start, now, minutes@, seconds@));
}

/// The minutes told are the seconds told, divided by sixty.
pub proof fn lemma_minutes_from_seconds(start: Timestamp, now: Timestamp)
    ensures
        whole_minutes(start, now) == truncated(whole_seconds(start, now), 60),
{
    let d = elapsed(start, now);
    let a = if d < 0 { -d } else { d };
    assert(a / 60_000_000_000 == (a / 1_000_000_000) / 60) by (nonlinear_arith)
        requires
            a >= 0,
    ;
}

/// A process that has started is never up for a negative time, and outside of leap seconds the
/// time told is the difference of the two points in time.
pub proof fn lemma_uptime(start: Timestamp, now: Timestamp)
    requires
        is_point(start.second(), start.nanosecond()),
        is_point(now.second(), now.nanosecond()),
    ensures
        start.second() < now.second() || (start.second() == now.second() && start.nanosecond()
            <= now.nanosecond()) ==> whole_seconds(start, now) >= 0 && whole_minutes(start, now)
            >= 0,
        start.nanosecond() < 1_000_000_000 && now.nanosecond() < 1_000_000_000 ==> elapsed(
            start,
            now,
        ) == (now.second() * 1_000_000_000 + now.nanosecond()) - (start.second() * 1_000_000_000
            + start.nanosecond()),
{
}

/// Outside of leap seconds a process that is up for less than a minute is told by its whole
/// seconds, and from a minute on by its whole minutes. One that seems to start in the future is
/// told by the whole seconds until then, with a minus.
pub proof fn lemma_uptime_told(
    start: Timestamp,
    now: Timestamp,
    minutes: Seq<char>,
    seconds: Seq<char>,
    whole: int,
    nanos: int,
)
    requires
        0 <= start.nanosecond() < 1_000_000_000,
        0 <= now.nanosecond() < 1_000_000_000,
        0 <= whole,
        0 <= nanos < 1_000_000_000,
    ensures
        ({
            let from = start.second() * 1_000_000_000 + start.nanosecond();
            let to = now.second() * 1_000_000_000 + now.nanosecond();
            let passed = whole * 1_000_000_000 + nanos;
            &&& to == from + passed && whole < 60 ==> uptime_text(start, now, minutes, seconds)
                == decimal(whole) + seconds
            &&& to == from + passed && whole >= 60 ==> uptime_text(start, now, minutes, seconds)
                == decimal(whole / 60) + minutes
            &&& from == to + passed ==> uptime_text(start, now, minutes, seconds) == decimal(
                -whole,
            ) + seconds
        }),
{
    let d = elapsed(start, now);
    let passed = whole * 1_000_000_000 + nanos;
    assert(passed / 1_000_000_000 == whole) by (nonlinear_arith)
        requires
            passed == whole * 1_000_000_000 + nanos,
            0 <= nanos < 1_000_000_000,
    ;
    assert(passed / 60_000_000_000 == (passed / 1_000_000_000) / 60) by (nonlinear_arith)
        requires
            passed >= 0,
    ;
}

} // verus!
