//! Points in time and signed spans between them, as plain integers.

use vstd::prelude::*;

verus! {

/// Nanoseconds in one second.
pub const NANOS_PER_SEC: u32 = 1_000_000_000;

/// Earliest second a [`Timestamp`] can hold, in the first days of year -262143.
pub const MIN_TIMESTAMP_SECS: i64 = -8_334_601_228_800;

/// Latest second a [`Timestamp`] can hold (last second of year 262142).
pub const MAX_TIMESTAMP_SECS: i64 = 8_210_266_876_799;

/// The longest span, in nanoseconds, between two [`Timestamp`]s.
pub open spec fn max_timestamp_gap() -> int {
    16_544_868_105_600_000_000_000
}

/// A point on the UTC time line: whole seconds since the Unix epoch plus the
/// nanoseconds elapsed within that second.
#[derive(Clone, Copy, Debug, PartialEq, Eq, Structural)]
pub struct Timestamp {
    secs: i64,
    nanos: u32,
}

impl Timestamp {
    #[verifier::type_invariant]
    spec fn valid(self) -> bool {
        &&& MIN_TIMESTAMP_SECS <= self.secs <= MAX_TIMESTAMP_SECS
        &&& self.nanos < NANOS_PER_SEC
    }

    /// Whether `secs` and `nanos` name a representable point in time.
    pub open spec fn in_range(secs: int, nanos: int) -> bool {
        &&& MIN_TIMESTAMP_SECS <= secs <= MAX_TIMESTAMP_SECS
        &&& 0 <= nanos < NANOS_PER_SEC
    }

    /// Seconds since the epoch, rounded towards negative infinity.
    pub closed spec fn spec_secs(self) -> int {
        self.secs as int
    }

    /// Nanoseconds since the last whole second.
    pub closed spec fn spec_subsec_nanos(self) -> int {
        self.nanos as int
    }

    /// The instant as a count of nanoseconds since the epoch.
    pub open spec fn as_nanos(self) -> int {
        self.spec_secs() * 1_000_000_000 + self.spec_subsec_nanos()
    }

    /// Builds a timestamp, or `None` when the pair is out of range.
    pub fn new(secs: i64, nanos: u32) -> (r: Option<Timestamp>)
        ensures
            r.is_some() <==> Self::in_range(secs as int, nanos as int),
            r matches Some(t) ==> t.spec_secs() == secs && t.spec_subsec_nanos() == nanos,
    {
        if MIN_TIMESTAMP_SECS <= secs && secs <= MAX_TIMESTAMP_SECS && nanos < NANOS_PER_SEC {
            Some(Timestamp { secs, nanos })
        } else {
            None
        }
    }

    /// The moment the system clock shows: some point in time, about which
    /// nothing more is known.
    pub fn now() -> (r: Timestamp)
        ensures
            Self::in_range(r.spec_secs(), r.spec_subsec_nanos()),
    {
        now()
    }

    /// Seconds since the epoch.
    pub fn secs(&self) -> (r: i64)
        ensures
            r == self.spec_secs(),
            Self::in_range(self.spec_secs(), self.spec_subsec_nanos()),
    {
        proof {
            use_type_invariant(self);
        }
        self.secs
    }

    /// Nanoseconds since the last whole second.
    pub fn subsec_nanos(&self) -> (r: u32)
        ensures
            r == self.spec_subsec_nanos(),
            r < NANOS_PER_SEC,
    {
        proof {
            use_type_invariant(self);
        }
        self.nanos
    }

    /// Whether `self` is strictly earlier than `other`.
    pub fn is_before(&self, other: &Timestamp) -> (r: bool)
        ensures
            r == (self.as_nanos() < other.as_nanos()),
    {
        proof {
            use_type_invariant(self);
            use_type_invariant(other);
        }
        self.secs < other.secs || (self.secs == other.secs && self.nanos < other.nanos)
    }

    /// The signed span from `earlier` to `self`; negative when `self` comes first.
    pub fn signed_duration_since(&self, earlier: &Timestamp) -> (r: Duration)
        ensures
            r.as_nanos() == self.as_nanos() - earlier.as_nanos(),
            -max_timestamp_gap() < r.as_nanos() < max_timestamp_gap(),
    {
        proof {
            use_type_invariant(self);
            use_type_invariant(earlier);
        }
        let secs: i128 = self.secs as i128 - earlier.secs as i128;
        if self.nanos >= earlier.nanos {
            Duration { secs, nanos: self.nanos - earlier.nanos }
        } else {
            Duration { secs: secs - 1, nanos: NANOS_PER_SEC - (earlier.nanos - self.nanos) }
        }
    }
}

/// Reads the system clock with `chrono::Utc::now` and keeps the seconds and
/// nanoseconds of the instant it reports. Nothing is claimed about which instant
/// that is, only that `chrono` reports instants inside its own range and takes the
/// nanoseconds from `std::time::Duration::subsec_nanos`, which stays below one
/// second. On a machine whose clock is set before 1970 `chrono` panics.
#[verifier::external_body]
pub(crate) fn now() -> (r: Timestamp)
    ensures
        Timestamp::in_range(r.spec_secs(), r.spec_subsec_nanos()),
{
    let t = chrono::Utc::now();
    Timestamp { secs: t.timestamp(), nanos: t.timestamp_subsec_nanos() }
}

/// The text that `chrono` writes for the instant `secs` seconds and `nanos`
/// nanoseconds after the epoch, in UTC, with the format `%a, %d %b %Y at %H:%M`.
pub uninterp spec fn formatted_date(secs: int, nanos: int) -> Seq<char>;

/// Writes an instant with `chrono`: `DateTime::from_timestamp`, then `format`
/// with `%a, %d %b %Y at %H:%M`, as in `Tue, 06 Feb 2024 at 15:04`. The text
/// depends on the instant alone; names of days and months are the English ones.
/// Every [`Timestamp`] is an instant that `chrono` can represent.
#[verifier::external_body]
fn format_date(date: &Timestamp) -> (r: String)
    ensures
        r@ == formatted_date(date.spec_secs(), date.spec_subsec_nanos()),
{
    match chrono::DateTime::from_timestamp(date.secs, date.nanos) {
        Some(instant) => instant.format("%a, %d %b %Y at %H:%M").to_string(),
        None => String::new(),
    }
}

/// An instant as shown to the user, such as `Tue, 06 Feb 2024 at 15:04`.
pub open spec fn date_text(date: Timestamp) -> Seq<char> {
    formatted_date(date.spec_secs(), date.spec_subsec_nanos())
}

/// Writes an instant as shown to the user.
pub fn date_time_to_string(date: &Timestamp) -> (r: String)
    ensures
        r@ == date_text(*date),
{
    format_date(date)
}

/// Largest number of whole seconds, in either direction, a [`Duration`] can hold.
pub const MAX_DURATION_SECS: i128 = 0x4000_0000_0000_0000_0000_0000_0000;

/// A signed span of time with nanosecond precision.
///
/// The span is `secs` whole seconds plus `nanos` nanoseconds, `nanos` always
/// counting forward: minus half a second is `secs == -1`, `nanos == 500_000_000`.
#[derive(Clone, Copy, Debug, PartialEq, Eq, Structural)]
pub struct Duration {
    secs: i128,
    nanos: u32,
}

/// `a / b` rounded towards zero, for a positive `b`.
pub open spec fn div_towards_zero(a: int, b: int) -> int {
    if a >= 0 {
        a / b
    } else {
        -((-a) / b)
    }
}

/// Whole seconds in a span of `nanos` nanoseconds, rounded towards zero.
pub open spec fn whole_seconds(nanos: int) -> int {
    div_towards_zero(nanos, 1_000_000_000)
}

/// Whole minutes in a span of `nanos` nanoseconds, rounded towards zero.
pub open spec fn whole_minutes(nanos: int) -> int {
    div_towards_zero(whole_seconds(nanos), 60)
}

/// Whole hours in a span of `nanos` nanoseconds, rounded towards zero.
pub open spec fn whole_hours(nanos: int) -> int {
    div_towards_zero(whole_seconds(nanos), 3600)
}

/// Whole days in a span of `nanos` nanoseconds, rounded towards zero.
pub open spec fn whole_days(nanos: int) -> int {
    div_towards_zero(whole_seconds(nanos), 86400)
}

/// Whole weeks in a span of `nanos` nanoseconds, rounded towards zero.
pub open spec fn whole_weeks(nanos: int) -> int {
    div_towards_zero(whole_days(nanos), 7)
}

impl Duration {
    #[verifier::type_invariant]
    spec fn valid(self) -> bool {
        &&& -MAX_DURATION_SECS <= self.secs <= MAX_DURATION_SECS
        &&& self.nanos < NANOS_PER_SEC
    }

    /// The span as a signed count of nanoseconds.
    pub closed spec fn as_nanos(self) -> int {
        self.secs * 1_000_000_000 + self.nanos
    }

    /// Whether a span of `nanos` nanoseconds is representable.
    pub open spec fn representable(nanos: int) -> bool {
        -MAX_DURATION_SECS * 1_000_000_000 <= nanos < (MAX_DURATION_SECS + 1) * 1_000_000_000
    }

    /// The empty span.
    pub fn zero() -> (r: Duration)
        ensures
            r.as_nanos() == 0,
    {
        Duration { secs: 0, nanos: 0 }
    }

    /// A span of `secs` whole seconds.
    pub fn seconds(secs: i64) -> (r: Duration)
        ensures
            r.as_nanos() == secs * 1_000_000_000,
    {
        Duration { secs: secs as i128, nanos: 0 }
    }

    /// A span of `minutes` whole minutes.
    pub fn minutes(minutes: i64) -> (r: Duration)
        ensures
            r.as_nanos() == minutes * 60 * 1_000_000_000,
    {
        Duration { secs: minutes as i128 * 60, nanos: 0 }
    }

    /// A span of `secs` seconds and `nanos` nanoseconds, or `None` when `nanos`
    /// is a whole second or more.
    pub fn new(secs: i64, nanos: u32) -> (r: Option<Duration>)
        ensures
            r.is_some() <==> nanos < NANOS_PER_SEC,
            r matches Some(d) ==> d.as_nanos() == secs * 1_000_000_000 + nanos,
    {
        if nanos < NANOS_PER_SEC {
            Some(Duration { secs: secs as i128, nanos })
        } else {
            None
        }
    }

    /// Whether the span is empty.
    pub fn is_zero(&self) -> (r: bool)
        ensures
            r == (self.as_nanos() == 0),
    {
        proof {
            use_type_invariant(self);
        }
        self.secs == 0 && self.nanos == 0
    }

    /// Whether the span runs backwards.
    pub fn is_negative(&self) -> (r: bool)
        ensures
            r == (self.as_nanos() < 0),
    {
        proof {
            use_type_invariant(self);
        }
        self.secs < 0
    }

    /// Whether `self` is strictly shorter than `other` (more negative counts as shorter).
    pub fn is_less_than(&self, other: &Duration) -> (r: bool)
        ensures
            r == (self.as_nanos() < other.as_nanos()),
    {
        proof {
            use_type_invariant(self);
            use_type_invariant(other);
        }
        self.secs < other.secs || (self.secs == other.secs && self.nanos < other.nanos)
    }

    /// The sum of the two spans, or `None` when it is not representable.
    pub fn checked_add(&self, other: &Duration) -> (r: Option<Duration>)
        ensures
            r.is_some() <==> Self::representable(self.as_nanos() + other.as_nanos()),
            r matches Some(d) ==> d.as_nanos() == self.as_nanos() + other.as_nanos(),
    {
        proof {
            use_type_invariant(self);
            use_type_invariant(other);
        }
        let mut secs: i128 = self.secs + other.secs;
        let mut nanos: u32 = self.nanos + other.nanos;
        if nanos >= NANOS_PER_SEC {
            nanos = nanos - NANOS_PER_SEC;
            secs = secs + 1;
        }
        if -MAX_DURATION_SECS <= secs && secs <= MAX_DURATION_SECS {
            Some(Duration { secs, nanos })
        } else {
            None
        }
    }

    /// Whole seconds in the span, rounded towards zero.
    pub fn num_seconds(&self) -> (r: i128)
        ensures
            r == whole_seconds(self.as_nanos()),
            -MAX_DURATION_SECS <= r <= MAX_DURATION_SECS,
    {
        proof {
            use_type_invariant(self);
        }
        if self.secs < 0 && self.nanos > 0 {
            self.secs + 1
        } else {
            self.secs
        }
    }

    /// Whole minutes in the span, rounded towards zero.
    pub fn num_minutes(&self) -> (r: i128)
        ensures
            r == whole_minutes(self.as_nanos()),
    {
        self.num_seconds() / 60
    }

    /// Whole hours in the span, rounded towards zero.
    pub fn num_hours(&self) -> (r: i128)
        ensures
            r == whole_hours(self.as_nanos()),
    {
        self.num_seconds() / 3600
    }

    /// Whole days in the span, rounded towards zero.
    pub fn num_days(&self) -> (r: i128)
        ensures
            r == whole_days(self.as_nanos()),
    {
        self.num_seconds() / 86400
    }

    /// Whole weeks in the span, rounded towards zero.
    pub fn num_weeks(&self) -> (r: i128)
        ensures
            r == whole_weeks(self.as_nanos()),
    {
        self.num_days() / 7
    }
}

} // verus!
