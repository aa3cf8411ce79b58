//! How current the data is.
use vstd::prelude::*;

use crate::domain::{iso_day, iso_day_text};

verus! {

/// So many nanoseconds make a second.
pub const NANOS: u64 = 1_000_000_000;

/// A point in time, counted from 1970-01-01T00:00:00Z.
#[derive(Debug, Clone, Copy, PartialEq, Eq)]
pub struct Timestamp {
    secs: i64,
    nanos: u32,
}

impl View for Timestamp {
    type V = int;

    /// Nanoseconds since the epoch.
    closed spec fn view(&self) -> int {
        self.secs * NANOS + self.nanos
    }
}

impl Timestamp {
    #[verifier::type_invariant]
    closed spec fn valid(self) -> bool {
        self.nanos < NANOS
    }

    /// A point in time from whole seconds and the nanoseconds after them.
    pub fn new(secs: i64, nanos: u32) -> (r: Option<Self>)
        ensures
            match r {
                Some(t) => nanos < NANOS && t@ == secs * NANOS + nanos,
                None => nanos >= NANOS,
            },
    {
        if (nanos as u64) < NANOS {
            Some(Timestamp { secs, nanos })
        } else {
            None
        }
    }

    /// A whole number of seconds after the epoch, or before it.
    pub fn at(secs: i64) -> (r: Self)
        ensures
            r@ == secs * NANOS,
    {
        Timestamp { secs, nanos: 0 }
    }

    /// The time from another point to this one, unless the other comes later.
    pub fn duration_since(self, earlier: Self) -> (r: Option<Span>)
        ensures
            match r {
                Some(span) => self@ >= earlier@ && span@ == self@ - earlier@,
                None => self@ < earlier@,
            },
    {
        proof {
            use_type_invariant(&self);
            use_type_invariant(&earlier);
        }
        if self.secs < earlier.secs || (self.secs == earlier.secs && self.nanos < earlier.nanos) {
            return None;
        }
        let whole: i128 = self.secs as i128 - earlier.secs as i128;
        if self.nanos >= earlier.nanos {
            Some(Span { secs: whole as u64, nanos: self.nanos - earlier.nanos })
        } else {
            Some(
                Span {
                    secs: (whole - 1) as u64,
                    nanos: (self.nanos as u64 + NANOS - earlier.nanos as u64) as u32,
                },
            )
        }
    }

    /// Whole seconds since the epoch; a time before it counts as the epoch.
    pub fn epoch_secs(self) -> (r: u64)
        ensures
            r == epoch_seconds(self@),
            r <= i64::MAX,
    {
        proof {
            use_type_invariant(&self);
        }
        if self.secs >= 0 {
            self.secs as u64
        } else {
            0
        }
    }
}

/// Whole seconds since the epoch; a time before it counts as the epoch.
pub open spec fn epoch_seconds(t: int) -> int {
    if t < 0 {
        0
    } else {
        t / (NANOS as int)
    }
}

/// A length of time.
#[derive(Debug, Clone, Copy, PartialEq, Eq)]
pub struct Span {
    secs: u64,
    nanos: u32,
}

impl View for Span {
    type V = int;

    /// Nanoseconds.
    closed spec fn view(&self) -> int {
        self.secs * NANOS + self.nanos
    }
}

impl Span {
    #[verifier::type_invariant]
    closed spec fn valid(self) -> bool {
        self.nanos < NANOS
    }

    pub fn from_secs(secs: u64) -> (r: Self)
        ensures
            r@ == secs * NANOS,
    {
        Span { secs, nanos: 0 }
    }

    /// Whole seconds.
    pub fn as_secs(self) -> (r: u64)
        ensures
            r == self@ / (NANOS as int),
            self@ >= 0,
    {
        proof {
            use_type_invariant(&self);
        }
        self.secs
    }

    /// Whether this is as long as another span, or longer.
    pub fn at_least(self, other: Self) -> (r: bool)
        ensures
            r == (self@ >= other@),
    {
        proof {
            use_type_invariant(&self);
            use_type_invariant(&other);
        }
        self.secs > other.secs || (self.secs == other.secs && self.nanos >= other.nanos)
    }
}

/// What the server knows about how current its data is.
///
/// The two timestamps answer different questions: `last_retrieval` is when we
/// last pulled from the Actual server, which we control; the newest transaction
/// date is the only available proxy for when transactions were last imported
/// from banks, which the user controls.
#[derive(Debug, Clone, Copy, PartialEq)]
pub struct Freshness {
    pub last_retrieval: Option<Timestamp>,
    /// `YYYYMMDD` as Actual stores it, e.g. 20260903.
    pub newest_transaction: Option<u32>,
}

/// The time since the last retrieval. None at all, and one in the future,
/// count as no time.
pub open spec fn elapsed(last: Option<int>, now: int) -> int {
    match last {
        Some(then) => if now >= then {
            now - then
        } else {
            0
        },
        None => 0,
    }
}

/// Whether it is time to retrieve again: nothing was ever retrieved, or the
/// last time is as long ago as `ttl`. A retrieval in the future (clock skew) is
/// not stale.
pub open spec fn stale(last: Option<int>, now: int, ttl: int) -> bool {
    match last {
        Some(then) => now >= then && now - then >= ttl,
        None => true,
    }
}

/// An optional point in time by its contents.
pub open spec fn moment(t: Option<Timestamp>) -> Option<int> {
    match t {
        Some(t) => Some(t@),
        None => None,
    }
}

/// Pure: `now` is a parameter, so no clock injection is needed to test this.
pub fn is_stale(last: Option<Timestamp>, now: Timestamp, ttl: Span) -> (r: bool)
    ensures
        r == stale(moment(last), now@, ttl@),
{
    match last {
        None => true,
        Some(last) => match now.duration_since(last) {
            Some(age) => age.at_least(ttl),
            None => false,
        },
    }
}

pub fn age(last: Option<Timestamp>, now: Timestamp) -> (r: Span)
    ensures
        r@ == elapsed(moment(last), now@),
{
    match last {
        Some(last) => match now.duration_since(last) {
            Some(age) => age,
            None => Span::from_secs(0),
        },
        None => Span::from_secs(0),
    }
}

/// Actual stores dates as integers: 20260903 -> "2026-09-03".
pub fn iso_date(yyyymmdd: u32) -> (r: String)
    ensures
        r@ == iso_day(yyyymmdd as nat),
{
    iso_day_text(yyyymmdd)
}

// ----------------------------------------------------------------- laws -----
/// The whole seconds of a point in time fit a `u64`, and no second is lost.
pub proof fn whole_seconds_fit(t: Timestamp)
    ensures
        0 <= epoch_seconds(t@) <= u64::MAX,
        t@ >= 0 ==> epoch_seconds(t@) * NANOS <= t@ < (epoch_seconds(t@) + 1) * NANOS,
{
}

/// Clock skew never makes the data look stale, nor old.
pub proof fn a_future_retrieval_is_fresh(then: int, now: int, ttl: int)
    requires
        now < then,
    ensures
        !stale(Some(then), now, ttl),
        elapsed(Some(then), now) == 0,
{
}

/// Data that has gone stale stays stale until it is retrieved again.
pub proof fn stale_data_stays_stale(last: Option<int>, now: int, later: int, ttl: int)
    requires
        stale(last, now, ttl),
        now <= later,
    ensures
        stale(last, later, ttl),
{
}

/// Data is stale exactly when its age has reached the limit, apart from data
/// that was never retrieved or that seems to come from the future.
pub proof fn staleness_is_an_age(then: int, now: int, ttl: int)
    requires
        then <= now,
    ensures
        stale(Some(then), now, ttl) <==> elapsed(Some(then), now) >= ttl,
{
}

/// The age of data is the time between its retrieval and now, and data that was
/// never retrieved is always due.
pub proof fn an_age_is_the_time_in_between(then: int, now: int, ttl: int)
    requires
        then <= now,
    ensures
        then + elapsed(Some(then), now) == now,
        stale(Some(then), now, now - then),
        !stale(Some(then), now, now - then + 1),
        stale(None, now, ttl),
{
}

/// Points in time lie as far apart as the time between them, and times are counted
/// in whole seconds.
pub proof fn times_are_measured(
    later: Timestamp,
    earlier: Timestamp,
    between: Option<Span>,
    secs: u64,
    span: Span,
    seconds: u64,
)
    requires
        call_ensures(Timestamp::duration_since, (later, earlier), between),
        call_ensures(Span::from_secs, (secs,), span),
        call_ensures(Span::as_secs, (span,), seconds),
    ensures
        between is Some <==> earlier@ <= later@,
        between matches Some(time) ==> earlier@ + time@ == later@,
        span@ == secs * 1_000_000_000,
        seconds == secs,
{
}

} // verus!
