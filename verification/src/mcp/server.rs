//! The server's state: a budget, its local copy, and when to refresh it.
use rusqlite::types::Value;
use rusqlite::Connection;
use vstd::prelude::*;

use crate::actual::error::ActualError;
use crate::actual::messages::{Edit, SyncMessage};
use crate::actual::model::UserFile;
use crate::config::Config;
use crate::error::{StartupError, ToolError};
use crate::mcp::tools::freshness::GetDataFreshness;
use crate::mcp::tools::list_accounts::ListAccounts;
use crate::mcp::tools::list_categories::ListCategories;
use crate::mcp::tools::monthly_budget::GetMonthlyBudget;
use crate::mcp::tools::query_transactions::QueryTransactions;
use crate::mcp::tools::spending_by_category::SpendingByCategory;
use crate::store::error::StoreError;
use crate::store::apply::{has_tables, in_order, planned, Shape};
use crate::store::freshness::{
    epoch_seconds, is_stale, moment, stale, Freshness, Span, Timestamp, NANOS,
};
use crate::store::replica::{
    a_recorded_retrieval_reads_back, applied, batch, clock_found, freshness_found, recorded,
    retrieved, the_clock_moves_with_its_batch, Replica,
};
use crate::store::sql::{views, Statement};
use crate::text::{less, text_less, text_order_is_total, text_order_is_transitive};

verus! {

/// What the server says of itself.
pub const INSTRUCTIONS: &'static str = "Read-only access to a self-hosted Actual Budget. Amounts are in dollars; negative values are outflows. Transaction data is only as current as the last bank import, which the user performs manually \u{2014} call get_data_freshness before making claims about recent activity.";

/// A tool as it is announced.
#[derive(Debug, PartialEq)]
pub struct ToolText {
    pub name: &'static str,
    pub description: &'static str,
}

/// The contents of a [`ToolText`].
pub struct Announced {
    pub name: Seq<char>,
    pub description: Seq<char>,
}

impl View for ToolText {
    type V = Announced;

    open spec fn view(&self) -> Announced {
        Announced { name: self.name@, description: self.description@ }
    }
}

/// The tools that there are. Their descriptions are the *only* documentation
/// the model gets.
pub open spec fn announced() -> Seq<Announced> {
    seq![
        Announced {
            name: crate::mcp::tools::freshness::NAME@,
            description: crate::mcp::tools::freshness::DESCRIPTION@,
        },
        Announced {
            name: crate::mcp::tools::spending_by_category::NAME@,
            description: crate::mcp::tools::spending_by_category::DESCRIPTION@,
        },
        Announced {
            name: crate::mcp::tools::monthly_budget::NAME@,
            description: crate::mcp::tools::monthly_budget::DESCRIPTION@,
        },
        Announced {
            name: crate::mcp::tools::list_accounts::NAME@,
            description: crate::mcp::tools::list_accounts::DESCRIPTION@,
        },
        Announced {
            name: crate::mcp::tools::list_categories::NAME@,
            description: crate::mcp::tools::list_categories::DESCRIPTION@,
        },
        Announced {
            name: crate::mcp::tools::query_transactions::NAME@,
            description: crate::mcp::tools::query_transactions::DESCRIPTION@,
        },
    ]
}

// ----------------------------------------------------------------- clock -----
/// The newest timestamp of some edits.
pub open spec fn newest(messages: Seq<Edit>) -> Seq<char>
    recommends
        messages.len() > 0,
    decreases messages.len(),
{
    if messages.len() <= 1 {
        messages[0].timestamp
    } else {
        let earlier = newest(messages.drop_last());
        if text_less(messages.last().timestamp, earlier) {
            earlier
        } else {
            messages.last().timestamp
        }
    }
}

/// The clock after some edits came: the newest timestamp we actually received.
/// With no edits the clock stands still.
pub open spec fn clock_after(since: Seq<char>, messages: Seq<Edit>) -> Seq<char> {
    if messages.len() == 0 {
        since
    } else {
        newest(messages)
    }
}

/// The clock after some edits came.
pub fn next_clock(since: &str, messages: &[SyncMessage]) -> (r: String)
    ensures
        r@ == clock_after(since@, views(messages@)),
{
    if messages.len() == 0 {
        return since.to_owned();
    }
    let ghost all = views(messages@);
    let mut clock = messages[0].timestamp.clone();
    let mut i: usize = 1;
    assert(all.take(1)[0] == messages@[0]@);
    while i < messages.len()
        invariant
            1 <= i <= messages@.len(),
            all == views(messages@),
            clock@ == newest(all.take(i as int)),
        decreases messages@.len() - i,
    {
        assert(all.take(i + 1).drop_last() =~= all.take(i as int));
        assert(all.take(i + 1).last() == messages@[i as int]@);
        if !less(messages[i].timestamp.as_str(), clock.as_str()) {
            clock = messages[i].timestamp.clone();
        }
        i += 1;
    }
    assert(all.take(i as int) =~= all);
    clock
}

/// The group id of the budget that was chosen. It must come from the file
/// listing: a reset-clock snapshot carries none in its own metadata.
pub fn group_id_of(file: &UserFile) -> (r: Result<String, StartupError>)
    ensures
        match file.group_id {
            Some(id) => r matches Ok(found) && found@ == id@,
            None => r matches Err(StartupError::NoGroupId),
        },
{
    match &file.group_id {
        Some(id) => Ok(id.clone()),
        None => Err(StartupError::NoGroupId),
    }
}

// ---------------------------------------------------------------- server -----
/// What to do before a tool answers.
#[derive(Debug)]
pub enum Refresh {
    /// The copy is current enough.
    Serve,
    /// Ask the server for everything since a clock.
    Fetch { since: String },
    /// It is time to refresh, but that cannot even begin. The copy is served
    /// as it is.
    Failed(ToolError),
}

/// The server's state.
pub struct BudgetServer {
    pub config: Config,
    /// Holds both ids: `file_id` for downloads, `group_id` for message fetches.
    pub file: UserFile,
    pub replica: Replica,
}

/// What to do before a tool answers is this.
pub open spec fn decides(conn: &Connection, now: int, ttl: int, r: Result<Refresh, ToolError>) -> bool {
    exists|current: Result<Freshness, StoreError>| #[trigger]
        freshness_found(conn, current) && match current {
            Err(e) => r == Err::<Refresh, ToolError>(ToolError::Replica(e)),
            Ok(found) => if stale(moment(found.last_retrieval), now, ttl) {
                exists|clock: Result<String, StoreError>| #[trigger]
                    clock_found(conn, clock) && match clock {
                        Ok(since) => r == Ok::<Refresh, ToolError>(Refresh::Fetch { since }),
                        Err(e) => r == Ok::<Refresh, ToolError>(
                            Refresh::Failed(ToolError::Replica(e)),
                        ),
                    }
            } else {
                r == Ok::<Refresh, ToolError>(Refresh::Serve)
            },
        }
}

/// What came of a refresh is this, given what was fetched.
pub open spec fn refreshed<R: Fn(u64) -> Value>(
    before: Replica,
    after: Replica,
    since: Seq<char>,
    fetched: Result<Vec<SyncMessage>, ActualError>,
    now: int,
    as_real: R,
    r: Result<usize, ToolError>,
) -> bool {
    match fetched {
        Err(e) => after == before && r == Err::<usize, ToolError>(ToolError::Unavailable(e)),
        Ok(messages) => exists|done: Result<usize, StoreError>| #[trigger]
            applied(
                before,
                after,
                views(messages@),
                clock_after(since, views(messages@)),
                now,
                as_real,
                done,
            ) && match done {
                Ok(n) => r == Ok::<usize, ToolError>(n),
                Err(e) => r == Err::<usize, ToolError>(ToolError::Replica(e)),
            },
    }
}

impl BudgetServer {
    /// The tools, in the order in which they are announced.
    pub fn tools() -> (r: Vec<ToolText>)
        ensures
            views(r@) == announced(),
    {
        let mut out: Vec<ToolText> = Vec::new();
        out.push(
            ToolText {
                name: GetDataFreshness::name(),
                description: GetDataFreshness::description(),
            },
        );
        out.push(
            ToolText {
                name: SpendingByCategory::name(),
                description: SpendingByCategory::description(),
            },
        );
        out.push(
            ToolText {
                name: GetMonthlyBudget::name(),
                description: GetMonthlyBudget::description(),
            },
        );
        out.push(
            ToolText { name: ListAccounts::name(), description: ListAccounts::description() },
        );
        out.push(
            ToolText { name: ListCategories::name(), description: ListCategories::description() },
        );
        out.push(
            ToolText {
                name: QueryTransactions::name(),
                description: QueryTransactions::description(),
            },
        );
        assert(views(out@) =~= announced());
        out
    }

    pub fn refresh_interval(&self) -> (r: Span)
        ensures
            r == self.config.ttl,
    {
        self.config.ttl
    }

    /// How current the local copy is.
    pub fn freshness(&self) -> (r: Result<Freshness, ToolError>)
        ensures
            exists|found: Result<Freshness, StoreError>| #[trigger]
                freshness_found(&self.replica.database(), found) && r == (match found {
                    Ok(f) => Ok(f),
                    Err(e) => Err(ToolError::Replica(e)),
                }),
    {
        match self.replica.freshness() {
            Ok(found) => {
                let ghost asked: Result<Freshness, StoreError> = Ok(found);
                assert(freshness_found(&self.replica.database(), asked));
                Ok(found)
            },
            Err(e) => {
                let ghost asked: Result<Freshness, StoreError> = Err(e);
                assert(freshness_found(&self.replica.database(), asked));
                Err(ToolError::Replica(e))
            },
        }
    }

    /// What to do before a tool answers: pull anything new, where the last time
    /// was long enough ago.
    pub fn check(&self, now: Timestamp) -> (r: Result<Refresh, ToolError>)
        ensures
            decides(&self.replica.database(), now@, self.config.ttl@, r),
    {
        let current = match self.replica.freshness() {
            Ok(found) => {
                let ghost asked: Result<Freshness, StoreError> = Ok(found);
                assert(freshness_found(&self.replica.database(), asked));
                found
            },
            Err(e) => {
                let ghost asked: Result<Freshness, StoreError> = Err(e);
                assert(freshness_found(&self.replica.database(), asked));
                return Err(ToolError::Replica(e));
            },
        };
        if !is_stale(current.last_retrieval, now, self.config.ttl) {
            return Ok(Refresh::Serve);
        }
        match self.replica.clock() {
            Ok(since) => {
                let ghost clock: Result<String, StoreError> = Ok(since);
                assert(clock_found(&self.replica.database(), clock));
                Ok(Refresh::Fetch { since })
            },
            Err(e) => {
                let ghost clock: Result<String, StoreError> = Err(e);
                assert(clock_found(&self.replica.database(), clock));
                Ok(Refresh::Failed(ToolError::Replica(e)))
            },
        }
    }

    /// Completes a refresh, given what was fetched since a clock.
    ///
    /// A failure leaves the copy as it was: serving slightly stale data beats
    /// failing the call outright.
    pub fn finish<R: Fn(u64) -> Value>(
        &mut self,
        since: &str,
        fetched: Result<Vec<SyncMessage>, ActualError>,
        now: Timestamp,
        as_real: &R,
    ) -> (r: Result<usize, ToolError>)
        requires
            forall|bits: u64| call_requires(*as_real, (bits,)),
        ensures
            final(self).config == old(self).config,
            final(self).file == old(self).file,
            refreshed(
                old(self).replica,
                final(self).replica,
                since@,
                fetched,
                now@,
                *as_real,
                r,
            ),
    {
        let messages = match fetched {
            Ok(messages) => messages,
            Err(e) => {
                return Err(ToolError::Unavailable(e));
            },
        };
        let clock = next_clock(since, messages.as_slice());
        let ghost (before, all) = (self.replica, views(messages@));
        let done = self.replica.apply(messages.as_slice(), clock.as_str(), now, as_real);
        let ghost result = done;
        assert(applied(
            before,
            self.replica,
            all,
            clock_after(since@, all),
            now@,
            *as_real,
            result,
        ));
        match done {
            Ok(n) => Ok(n),
            Err(e) => Err(ToolError::Replica(e)),
        }
    }
}

// ----------------------------------------------------------------- laws -----
/// The clock is the timestamp of one of the edits that came, and none of them
/// is newer.
pub proof fn the_clock_is_the_newest_timestamp(messages: Seq<Edit>)
    requires
        messages.len() > 0,
    ensures
        exists|i: int| 0 <= i < messages.len() && (#[trigger] messages[i]).timestamp == newest(messages),
        forall|i: int|
            0 <= i < messages.len() ==> !text_less(
                newest(messages),
                (#[trigger] messages[i]).timestamp,
            ),
    decreases messages.len(),
{
    let last = messages.last();
    if messages.len() == 1 {
        text_order_is_total(last.timestamp, last.timestamp);
        assert(messages[0].timestamp == newest(messages));
    } else {
        let rest = messages.drop_last();
        the_clock_is_the_newest_timestamp(rest);
        let earlier = newest(rest);
        let k = choose|k: int| 0 <= k < rest.len() && (#[trigger] rest[k]).timestamp == earlier;
        text_order_is_total(last.timestamp, earlier);
        text_order_is_total(last.timestamp, last.timestamp);
        if text_less(last.timestamp, earlier) {
            assert(messages[k].timestamp == newest(messages));
        } else {
            assert(messages[messages.len() - 1].timestamp == newest(messages));
        }
        assert forall|i: int| 0 <= i < messages.len() implies !text_less(
            newest(messages),
            (#[trigger] messages[i]).timestamp,
        ) by {
            if i < rest.len() {
                assert(rest[i] == messages[i]);
                if !text_less(last.timestamp, earlier) && text_less(
                    last.timestamp,
                    rest[i].timestamp,
                ) {
                    if last.timestamp != earlier {
                        text_order_is_transitive(earlier, last.timestamp, rest[i].timestamp);
                    }
                }
            }
        }
    }
}

/// The clock never goes back, as long as the server sends only what is newer
/// than it; and with nothing new it stands still.
pub proof fn the_clock_never_goes_back(since: Seq<char>, messages: Seq<Edit>)
    requires
        forall|i: int|
            0 <= i < messages.len() ==> text_less(since, (#[trigger] messages[i]).timestamp),
    ensures
        !text_less(clock_after(since, messages), since),
        messages.len() == 0 ==> clock_after(since, messages) == since,
        messages.len() > 0 ==> text_less(since, clock_after(since, messages)),
{
    text_order_is_total(since, since);
    if messages.len() > 0 {
        the_clock_is_the_newest_timestamp(messages);
        text_order_is_total(since, newest(messages));
    }
}

/// A refresh that fails changes nothing that is served.
pub proof fn a_failed_refresh_changes_nothing<R: Fn(u64) -> Value>(
    before: Replica,
    after: Replica,
    since: Seq<char>,
    fetched: Result<Vec<SyncMessage>, ActualError>,
    now: int,
    as_real: R,
    r: Result<usize, ToolError>,
)
    requires
        refreshed(before, after, since, fetched, now, as_real, r),
        r is Err,
    ensures
        after.history() == before.history(),
{
}

/// A refresh that succeeds records, in one transaction, everything that came,
/// how far it came, and when: the clock is that of the newest edit, or stands
/// still where there was none, and the time of the retrieval reads back to the
/// second.
pub proof fn a_refresh_records_how_far_it_came<R: Fn(u64) -> Value>(
    before: Replica,
    after: Replica,
    since: Seq<char>,
    messages: Vec<SyncMessage>,
    now: Timestamp,
    as_real: R,
    n: usize,
)
    requires
        refreshed(before, after, since, Ok(messages), now@, as_real, Ok(n)),
    ensures
        after.history().len() == before.history().len() + 1,
        after.history().drop_last() == before.history(),
        messages@.len() == 0 ==> recorded(after.history(), "clock"@) == Some(since),
        messages@.len() > 0 ==> {
            &&& recorded(after.history(), "clock"@) matches Some(clock)
            &&& exists|i: int|
                0 <= i < messages@.len() && (#[trigger] messages@[i])@.timestamp == clock
            &&& forall|i: int|
                0 <= i < messages@.len() ==> !text_less(
                    clock,
                    (#[trigger] messages@[i])@.timestamp,
                )
        },
        retrieved(recorded(after.history(), "last_retrieval"@)) == Some(
            epoch_seconds(now@) * NANOS,
        ),
        now@ >= 0 ==> epoch_seconds(now@) * NANOS <= now@ < (epoch_seconds(now@) + 1) * NANOS,
{
    let edits = views(messages@);
    let clock = clock_after(since, edits);
    let done = choose|done: Result<usize, StoreError>| #[trigger]
        applied(before, after, edits, clock, now@, as_real, done) && match done {
            Ok(m) => Ok::<usize, ToolError>(n) == Ok::<usize, ToolError>(m),
            Err(e) => Ok::<usize, ToolError>(n) == Err::<usize, ToolError>(ToolError::Replica(e)),
        };
    assert(done is Ok);
    let (tables, statements) = choose|tables: Seq<Shape>, statements: Seq<Statement>|
        has_tables(&before.database(), tables) && #[trigger] planned(
            tables,
            in_order(edits),
            as_real,
            statements,
        ) && done->Ok_0 == statements.len() && after.history() == before.history().push(
            batch(statements, clock, now@),
        );
    the_clock_moves_with_its_batch(before.history(), statements, clock, now@);
    a_recorded_retrieval_reads_back(before.history(), statements, clock, now);
    assert(after.history().drop_last() =~= before.history());
    if messages@.len() > 0 {
        the_clock_is_the_newest_timestamp(edits);
        let i = choose|i: int| 0 <= i < edits.len() && (#[trigger] edits[i]).timestamp == clock;
        assert(messages@[i]@.timestamp == clock);
        assert forall|i: int| 0 <= i < messages@.len() implies !text_less(
            clock,
            (#[trigger] messages@[i])@.timestamp,
        ) by {
            assert(edits[i] == messages@[i]@);
        }
    }
}

/// Where the last retrieval is known, a tool asks for news exactly when that is
/// as long ago as the refresh interval, and always where there was none.
pub proof fn news_are_asked_for_when_they_are_due(
    conn: &Connection,
    now: int,
    ttl: int,
    last: Option<int>,
    r: Result<Refresh, ToolError>,
)
    requires
        decides(conn, now, ttl, r),
        forall|found: Result<Freshness, StoreError>| #[trigger]
            freshness_found(conn, found) ==> (found matches Ok(f) && moment(f.last_retrieval)
                == last),
    ensures
        match last {
            None => r matches Ok(next) && !(next is Serve),
            Some(then) => if now - then >= ttl && now >= then {
                r matches Ok(next) && !(next is Serve)
            } else {
                r == Ok::<Refresh, ToolError>(Refresh::Serve)
            },
        },
        r matches Ok(Refresh::Fetch { since }) ==> clock_found(conn, Ok(since)),
{
}

/// There are six tools, under these names.
pub proof fn the_tools_have_their_names()
    ensures
        announced().map_values(|t: Announced| t.name) == seq![
            "get_data_freshness"@,
            "spending_by_category"@,
            "get_monthly_budget"@,
            "list_accounts"@,
            "list_categories"@,
            "query_transactions"@,
        ],
{
    assert(announced().map_values(|t: Announced| t.name) =~= seq![
        "get_data_freshness"@,
        "spending_by_category"@,
        "get_monthly_budget"@,
        "list_accounts"@,
        "list_categories"@,
        "query_transactions"@,
    ]);
}

/// A budget is synced under the group id that the server lists it with, and one
/// without a group id cannot be.
pub proof fn a_budget_is_synced_under_its_group(
    file: &UserFile,
    r: Result<String, StartupError>,
)
    requires
        call_ensures(group_id_of, (file,), r),
    ensures
        r is Ok <==> file.group_id is Some,
        r matches Ok(id) ==> id@ == file.group_id->0@,
        r matches Err(e) ==> e is NoGroupId,
{
}

} // verus!
