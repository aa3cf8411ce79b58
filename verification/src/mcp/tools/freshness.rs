//! `get_data_freshness`
use vstd::prelude::*;

use crate::domain::{a_day_reads_back, is_date, iso_day, iso_day_value, LAST_DAY};
use crate::store::freshness::{
    age, elapsed, iso_date, moment, stale, Freshness, Span, Timestamp, NANOS,
};
use crate::store::sql::text_if_any;

verus! {

pub const NAME: &'static str = "get_data_freshness";

pub const DESCRIPTION: &'static str = "Reports how current the budget data is. Two different things can be out of date: this server's copy of the budget (refreshed automatically, see last_retrieval_age_seconds) and the budget itself, which only gains new transactions when the user runs a bank import in Actual (see newest_transaction_date). Check this before stating that recent activity is complete.";

pub struct GetDataFreshness;

/// No parameters.
#[derive(Debug)]
pub struct Input {}

#[derive(Debug, PartialEq)]
pub struct Output {
    /// Date of the most recent transaction, ISO 8601. This is the best
    /// available proxy for when transactions were last imported from banks, an
    /// import the user runs manually in the Actual app.
    pub newest_transaction_date: Option<String>,
    /// How long ago this server last pulled changes from the Actual server.
    /// Absent if it has not managed to pull at all yet.
    pub last_retrieval_age_seconds: Option<u64>,
    /// True when the cached copy is older than the refresh interval. Data is
    /// still served when stale; this says how much to trust it.
    pub is_stale: bool,
    /// How often this server refreshes from Actual.
    pub refresh_interval_seconds: u64,
}

impl GetDataFreshness {
    pub fn name() -> (r: &'static str)
        ensures
            r@ == NAME@,
    {
        NAME
    }

    pub fn description() -> (r: &'static str)
        ensures
            r@ == DESCRIPTION@,
    {
        DESCRIPTION
    }

    /// What the tool answers, given how current the data is.
    pub fn invoke(current: &Freshness, now: Timestamp, ttl: Span) -> (r: Output)
        ensures
            text_if_any(r.newest_transaction_date) == (match current.newest_transaction {
                Some(n) => Some(iso_day(n as nat)),
                None => None,
            }),
            match (moment(current.last_retrieval), r.last_retrieval_age_seconds) {
                (Some(then), Some(seconds)) => seconds == elapsed(Some(then), now@) / (NANOS as int),
                (None, None) => true,
                _ => false,
            },
            r.is_stale == stale(moment(current.last_retrieval), now@, ttl@),
            r.refresh_interval_seconds == ttl@ / (NANOS as int),
    {
        Output {
            newest_transaction_date: match current.newest_transaction {
                Some(n) => Some(iso_date(n)),
                None => None,
            },
            last_retrieval_age_seconds: match current.last_retrieval {
                Some(_) => Some(age(current.last_retrieval, now).as_secs()),
                None => None,
            },
            is_stale: crate::store::freshness::is_stale(current.last_retrieval, now, ttl),
            refresh_interval_seconds: ttl.as_secs(),
        }
    }
}

// ----------------------------------------------------------------- laws -----
/// The age that is told is the time since the last retrieval in whole seconds,
/// the data is stale once that time has reached the refresh interval, and the
/// newest day is told as a text that reads back.
pub proof fn ages_are_told_in_whole_seconds(
    current: Freshness,
    now: Timestamp,
    ttl: Span,
    out: Output,
)
    requires
        call_ensures(GetDataFreshness::invoke, (&current, now, ttl), out),
    ensures
        current.last_retrieval is None ==> out.last_retrieval_age_seconds is None && out.is_stale,
        current.last_retrieval matches Some(then) ==> {
            &&& out.last_retrieval_age_seconds matches Some(seconds)
            &&& then@ <= now@ ==> seconds * 1_000_000_000 <= now@ - then@ < (seconds + 1)
                * 1_000_000_000
            &&& then@ > now@ ==> seconds == 0 && !out.is_stale
            &&& then@ <= now@ ==> (out.is_stale <==> now@ - then@ >= ttl@)
        },
        out.refresh_interval_seconds * 1_000_000_000 <= ttl@ < (out.refresh_interval_seconds + 1)
            * 1_000_000_000,
        current.newest_transaction is None <==> out.newest_transaction_date is None,
        (current.newest_transaction matches Some(day) && is_date(day as nat) && day <= LAST_DAY)
            ==> (out.newest_transaction_date matches Some(text) && iso_day_value(text@) == Some(
            current.newest_transaction->0 as nat,
        )),
{
    if let Some(day) = current.newest_transaction {
        if is_date(day as nat) && day <= LAST_DAY {
            a_day_reads_back(day as nat);
        }
    }
}

} // verus!
