//! Which transactions count, in one place.
//!
//! Summing every transaction is not the same as summing spending, and on a
//! budget that holds investment accounts the two can differ by more than an
//! order of magnitude.
use vstd::prelude::*;

use crate::store::language::{
    all_hold, tables_text, tests_text, Join, Row, Sign, Source, Term, Test,
};
use crate::store::sql::Cell;
use crate::text::{decimal, join, joined, texts};

verus! {

/// The `FROM` clause every scoped query must use.
///
/// The aliases are part of the contract. [`TxScope::where_sql`] emits
/// predicates against:
///
/// - `t`: the transaction (`v_transactions`, tombstones already filtered)
/// - `a`: the account it sits on; a transaction always has one
/// - `ta`: for a transfer, the account on the *other* side, reached through
///   the transfer payee. Null for anything that is not a transfer.
pub const FROM: &'static str = "v_transactions t JOIN accounts a ON a.id = t.account LEFT JOIN payees tp ON tp.id = t.payee LEFT JOIN accounts ta ON ta.id = tp.transfer_acct";

/// What the rules read of a joined row; `None` where a column is null.
pub struct Activity {
    /// `t.is_parent`
    pub is_parent: Option<int>,
    /// `t.starting_balance_flag`
    pub opening_balance: Option<int>,
    /// `t.transfer_id IS NOT NULL`
    pub is_transfer: bool,
    /// `ta.offbudget`
    pub other_side_offbudget: Option<int>,
    /// `a.offbudget`
    pub offbudget: Option<int>,
    /// `a.closed`
    pub closed: Option<int>,
}

/// A rule that a row may have to meet.
pub enum Rule {
    /// Split parents duplicate the amounts of their children.
    NotASplitParent,
    /// Opening balances are bookkeeping, not activity.
    NotAnOpeningBalance,
    /// Moving money between two on-budget accounts changes nothing the budget
    /// cares about; moving it to an off-budget account is money leaving it.
    NotAnInternalTransfer,
    /// The account is governed by the budget.
    OnBudget,
    /// The account is open.
    Open,
}

impl Rule {
    /// The rule as a SQL predicate.
    pub open spec fn sql(self) -> Seq<char> {
        match self {
            Rule::NotASplitParent => "t.is_parent = 0"@,
            Rule::NotAnOpeningBalance => "t.starting_balance_flag = 0"@,
            Rule::NotAnInternalTransfer => "(t.transfer_id IS NULL OR ta.offbudget = 1)"@,
            Rule::OnBudget => "a.offbudget = 0"@,
            Rule::Open => "a.closed = 0"@,
        }
    }

    /// What the predicate says of a row: a comparison with null is not true.
    pub open spec fn holds(self, row: Activity) -> bool {
        match self {
            Rule::NotASplitParent => row.is_parent == Some(0int),
            Rule::NotAnOpeningBalance => row.opening_balance == Some(0int),
            Rule::NotAnInternalTransfer => !row.is_transfer || row.other_side_offbudget == Some(
                1int,
            ),
            Rule::OnBudget => row.offbudget == Some(0int),
            Rule::Open => row.closed == Some(0int),
        }
    }
}

/// Which rows a query is allowed to see.
#[derive(Debug, Clone, Copy, PartialEq, Eq)]
pub struct TxScope {
    transfers: bool,
    offbudget: bool,
    closed_accounts: bool,
}

/// The contents of a [`TxScope`].
pub struct Scope {
    pub transfers: bool,
    pub offbudget: bool,
    pub closed_accounts: bool,
}

impl View for TxScope {
    type V = Scope;

    closed spec fn view(&self) -> Scope {
        Scope {
            transfers: self.transfers,
            offbudget: self.offbudget,
            closed_accounts: self.closed_accounts,
        }
    }
}

impl Scope {
    /// The scope of money that actually entered or left the budget.
    pub open spec fn spending() -> Scope {
        Scope { transfers: false, offbudget: false, closed_accounts: false }
    }

    /// The scope of an account register.
    pub open spec fn listing() -> Scope {
        Scope { transfers: true, offbudget: true, closed_accounts: false }
    }

    /// The rules of this scope, in a stable order.
    pub open spec fn rules(self) -> Seq<Rule> {
        seq![Rule::NotASplitParent, Rule::NotAnOpeningBalance] + (if self.transfers {
            Seq::empty()
        } else {
            seq![Rule::NotAnInternalTransfer]
        }) + (if self.offbudget {
            Seq::empty()
        } else {
            seq![Rule::OnBudget]
        }) + (if self.closed_accounts {
            Seq::empty()
        } else {
            seq![Rule::Open]
        })
    }

    /// The SQL predicates of this scope, in a stable order.
    pub open spec fn predicates(self) -> Seq<Seq<char>> {
        self.rules().map_values(|rule: Rule| rule.sql())
    }

    /// The predicates as a single `AND`-joined SQL fragment.
    pub open spec fn where_sql(self) -> Seq<char> {
        joined(self.predicates(), " AND "@)
    }

    /// A row that meets every rule.
    pub open spec fn admits(self, row: Activity) -> bool {
        forall|i: int| 0 <= i < self.rules().len() ==> (#[trigger] self.rules()[i]).holds(row)
    }
}

impl TxScope {
    /// Aggregation: money that actually entered or left the budget.
    pub fn spending() -> (r: Self)
        ensures
            r@ == Scope::spending(),
    {
        TxScope { transfers: false, offbudget: false, closed_accounts: false }
    }

    /// Listing: show the user their transactions, transfers included so the
    /// account register reconciles.
    pub fn listing() -> (r: Self)
        ensures
            r@ == Scope::listing(),
    {
        TxScope { transfers: true, offbudget: true, closed_accounts: false }
    }

    /// Closed accounts are hidden unless asked for.
    pub fn with_closed_accounts(self, include_closed: bool) -> (r: Self)
        ensures
            r@ == (Scope { closed_accounts: include_closed, ..self@ }),
    {
        TxScope { closed_accounts: include_closed, ..self }
    }

    pub fn with_transfers(self, keep: bool) -> (r: Self)
        ensures
            r@ == (Scope { transfers: keep, ..self@ }),
    {
        TxScope { transfers: keep, ..self }
    }

    pub fn with_offbudget(self, keep: bool) -> (r: Self)
        ensures
            r@ == (Scope { offbudget: keep, ..self@ }),
    {
        TxScope { offbudget: keep, ..self }
    }

    pub fn includes_transfers(&self) -> (r: bool)
        ensures
            r == self@.transfers,
    {
        self.transfers
    }

    /// The predicates for this scope, in a stable order.
    pub fn predicates(&self) -> (r: Vec<&'static str>)
        ensures
            r@.map_values(|s: &'static str| s@) == self@.predicates(),
    {
        let mut p: Vec<&'static str> = Vec::with_capacity(5);
        // Tombstones need no predicate: the view already leaves them out.
        p.push("t.is_parent = 0");
        p.push("t.starting_balance_flag = 0");
        if !self.transfers {
            p.push("(t.transfer_id IS NULL OR ta.offbudget = 1)");
        }
        if !self.offbudget {
            p.push("a.offbudget = 0");
        }
        if !self.closed_accounts {
            p.push("a.closed = 0");
        }
        assert(p@.map_values(|s: &'static str| s@) =~= self@.predicates());
        p
    }

    /// The predicates as a single `AND`-joined SQL fragment.
    ///
    /// Never empty, so callers can always write `WHERE {scope} AND ...`.
    pub fn where_sql(&self) -> (r: String)
        ensures
            r@ == self@.where_sql(),
    {
        let predicates = self.predicates();
        let mut parts: Vec<String> = Vec::new();
        let ghost wanted = self@.predicates();
        let mut i: usize = 0;
        while i < predicates.len()
            invariant
                i <= predicates@.len(),
                predicates@.map_values(|s: &'static str| s@) == wanted,
                texts(parts@) == wanted.take(i as int),
            decreases predicates@.len() - i,
        {
            let ghost before = texts(parts@);
            assert(wanted[i as int] == predicates@[i as int]@);
            parts.push(predicates[i].to_owned());
            assert(texts(parts@) =~= before.push(wanted[i as int]));
            i += 1;
            assert(texts(parts@) =~= wanted.take(i as int));
        }
        assert(wanted.len() == predicates@.len());
        assert(texts(parts@) =~= wanted);
        join(&parts, " AND ")
    }
}

// ----------------------------------------------------------------- laws -----
/// What spending counts: rows on an open on-budget account that are neither a
/// split parent nor an opening balance, transfers only where the money goes to
/// or comes from an off-budget account.
pub proof fn spending_is_money_that_moves_in_or_out(row: Activity)
    ensures
        Scope::spending().admits(row) <==> {
            &&& row.is_parent == Some(0int)
            &&& row.opening_balance == Some(0int)
            &&& row.is_transfer ==> row.other_side_offbudget == Some(1int)
            &&& row.offbudget == Some(0int)
            &&& row.closed == Some(0int)
        },
{
    let rules = Scope::spending().rules();
    if Scope::spending().admits(row) {
        assert(rules[0].holds(row));
        assert(rules[1].holds(row));
        assert(rules[2].holds(row));
        assert(rules[3].holds(row));
        assert(rules[4].holds(row));
    }
}

/// What a register lists: rows on an open account, transfers and off-budget
/// accounts included, that are neither a split parent nor an opening balance.
pub proof fn a_register_keeps_transfers(row: Activity)
    ensures
        Scope::listing().admits(row) <==> {
            &&& row.is_parent == Some(0int)
            &&& row.opening_balance == Some(0int)
            &&& row.closed == Some(0int)
        },
{
    let rules = Scope::listing().rules();
    if Scope::listing().admits(row) {
        assert(rules[0].holds(row));
        assert(rules[1].holds(row));
        assert(rules[2].holds(row));
    }
}

/// No scope counts a split parent, whose children carry the same amounts, and
/// none counts an opening balance.
pub proof fn no_scope_counts_twice(scope: Scope, row: Activity)
    requires
        scope.admits(row),
    ensures
        row.is_parent == Some(0int),
        row.opening_balance == Some(0int),
{
    assert(scope.rules()[0].holds(row));
    assert(scope.rules()[1].holds(row));
}

/// Asking a scope for more never loses a row.
pub proof fn a_wider_scope_keeps_every_row(narrow: Scope, wide: Scope, row: Activity)
    requires
        narrow.admits(row),
        narrow.transfers ==> wide.transfers,
        narrow.offbudget ==> wide.offbudget,
        narrow.closed_accounts ==> wide.closed_accounts,
    ensures
        wide.admits(row),
{
    assert forall|i: int| 0 <= i < wide.rules().len() implies (#[trigger] wide.rules()[i]).holds(
        row,
    ) by {
        let rule = wide.rules()[i];
        let j = if i < 2 {
            i
        } else if rule is NotAnInternalTransfer {
            2
        } else if rule is OnBudget {
            if narrow.transfers {
                2
            } else {
                3
            }
        } else {
            narrow.rules().len() - 1
        };
        assert(narrow.rules()[j] == rule);
    }
}

/// The fragment is never empty.
pub proof fn where_sql_is_never_empty(scope: Scope)
    ensures
        scope.where_sql().len() > 0,
{
    let predicates = scope.predicates();
    reveal_strlit(" AND ");
    assert(predicates.len() >= 2);
    let shorter = joined(predicates.drop_last(), " AND "@);
    assert(scope.where_sql().len() == shorter.len() + " AND "@.len() + predicates.last().len());
}

// --------------------------------------------------------------- meaning -----
/// The comparison of a column with a number.
pub open spec fn column_is(column: Seq<char>, n: nat) -> Test {
    Test::Compare(Term::Column(column), Sign::Equal, Term::Number(n))
}

/// A rule as a test of a joined row.
pub open spec fn rule_test(rule: Rule) -> Test {
    match rule {
        Rule::NotASplitParent => column_is("t.is_parent"@, 0),
        Rule::NotAnOpeningBalance => column_is("t.starting_balance_flag"@, 0),
        Rule::NotAnInternalTransfer => Test::Either(
            Box::new(Test::IsNull(Term::Column("t.transfer_id"@))),
            Box::new(column_is("ta.offbudget"@, 1)),
        ),
        Rule::OnBudget => column_is("a.offbudget"@, 0),
        Rule::Open => column_is("a.closed"@, 0),
    }
}

/// The rules of a scope as tests of a joined row.
pub open spec fn scope_tests(scope: Scope) -> Seq<Test> {
    scope.rules().map_values(|rule: Rule| rule_test(rule))
}

/// The joined row counts in the scope: it is neither a split parent nor an
/// opening balance; a transfer counts where the scope keeps transfers or the
/// other side is off budget; an off-budget account, and a closed one, count
/// where the scope keeps them.
pub open spec fn counts(scope: Scope, row: Row) -> bool {
    &&& row("t.is_parent"@) == Cell::Integer(0)
    &&& row("t.starting_balance_flag"@) == Cell::Integer(0)
    &&& scope.transfers || row("t.transfer_id"@) is Null || row("ta.offbudget"@) == Cell::Integer(1)
    &&& scope.offbudget || row("a.offbudget"@) == Cell::Integer(0)
    &&& scope.closed_accounts || row("a.closed"@) == Cell::Integer(0)
}

/// The fragment of a scope, read as SQL, holds of exactly the rows that count.
pub proof fn a_scope_keeps_the_rows_that_count(scope: Scope)
    ensures
        scope.where_sql() == tests_text(scope_tests(scope)),
        forall|row: Row, params: Seq<Cell>|
            #[trigger] all_hold(scope_tests(scope), row, params) <==> counts(scope, row),
{
    reveal_with_fuel(Test::holds, 2);
    rules_are_written_out();
    let tests = scope_tests(scope);
    let rules = scope.rules();
    assert(tests.map_values(|test: Test| test.text()) =~= scope.predicates());
    assert forall|row: Row, params: Seq<Cell>|
        #[trigger] all_hold(tests, row, params) <==> counts(scope, row) by {
        let at = 2 + (if scope.transfers {
            0int
        } else {
            1
        });
        let end = at + (if scope.offbudget {
            0int
        } else {
            1
        });
        if all_hold(tests, row, params) {
            assert(tests[0].holds(row, params));
            assert(tests[1].holds(row, params));
            if !scope.transfers {
                assert(rules[2] is NotAnInternalTransfer);
                assert(tests[2].holds(row, params));
            }
            if !scope.offbudget {
                assert(rules[at] is OnBudget);
                assert(tests[at].holds(row, params));
            }
            if !scope.closed_accounts {
                assert(rules[end] is Open);
                assert(tests[end].holds(row, params));
            }
        }
        if counts(scope, row) {
            assert forall|i: int| 0 <= i < tests.len() implies (#[trigger] tests[i]).holds(
                row,
                params,
            ) by {
                assert(tests[i] == rule_test(rules[i]));
            }
        }
    }
}

/// What the rules read of a joined row.
pub open spec fn activity(row: Row) -> Activity {
    let number = |column: Seq<char>|
        match row(column) {
            Cell::Integer(n) => Some(n),
            _ => None,
        };
    Activity {
        is_parent: number("t.is_parent"@),
        opening_balance: number("t.starting_balance_flag"@),
        is_transfer: !(row("t.transfer_id"@) is Null),
        other_side_offbudget: number("ta.offbudget"@),
        offbudget: number("a.offbudget"@),
        closed: number("a.closed"@),
    }
}

/// The rules admit exactly the rows that count.
pub proof fn the_rules_admit_what_counts(scope: Scope, row: Row)
    ensures
        scope.admits(activity(row)) <==> counts(scope, row),
{
    reveal_with_fuel(Test::holds, 2);
    a_scope_keeps_the_rows_that_count(scope);
    let tests = scope_tests(scope);
    let none = Seq::<Cell>::empty();
    assert(all_hold(tests, row, none) <==> counts(scope, row));
    assert forall|rule: Rule| #[trigger] rule.holds(activity(row)) <==> rule_test(rule).holds(
        row,
        none,
    ) by {}
    if scope.admits(activity(row)) {
        assert forall|i: int| 0 <= i < tests.len() implies (#[trigger] tests[i]).holds(
            row,
            none,
        ) by {
            assert(scope.rules()[i].holds(activity(row)));
        }
    }
    if all_hold(tests, row, none) {
        assert forall|i: int| 0 <= i < scope.rules().len() implies (
        #[trigger] scope.rules()[i]).holds(activity(row)) by {
            assert(tests[i].holds(row, none));
        }
    }
}

proof fn rules_are_written_out()
    ensures
        forall|rule: Rule| #[trigger] rule_test(rule).text() == rule.sql(),
{
    reveal_strlit(" = ");
    reveal_strlit(" IS NULL");
    reveal_strlit("(");
    reveal_strlit(" OR ");
    reveal_strlit(")");
    reveal_strlit("t.is_parent");
    reveal_strlit("t.is_parent = 0");
    reveal_strlit("t.starting_balance_flag");
    reveal_strlit("t.starting_balance_flag = 0");
    reveal_strlit("t.transfer_id");
    reveal_strlit("ta.offbudget");
    reveal_strlit("(t.transfer_id IS NULL OR ta.offbudget = 1)");
    reveal_strlit("a.offbudget");
    reveal_strlit("a.offbudget = 0");
    reveal_strlit("a.closed");
    reveal_strlit("a.closed = 0");
    assert(decimal(0) =~= seq!['0']);
    assert(decimal(1) =~= seq!['1']);
    assert(column_is("t.is_parent"@, 0).text() =~= "t.is_parent = 0"@);
    assert(column_is("t.starting_balance_flag"@, 0).text() =~= "t.starting_balance_flag = 0"@);
    assert(column_is("a.offbudget"@, 0).text() =~= "a.offbudget = 0"@);
    assert(column_is("a.closed"@, 0).text() =~= "a.closed = 0"@);
    let null = Test::IsNull(Term::Column("t.transfer_id"@));
    assert(null.text() =~= "t.transfer_id"@ + " IS NULL"@);
    let off = column_is("ta.offbudget"@, 1);
    assert(off.text() =~= "ta.offbudget"@ + " = "@ + seq!['1']);
    assert(rule_test(Rule::NotAnInternalTransfer).text() == "("@ + null.text() + " OR "@
        + off.text() + ")"@);
    assert(rule_test(Rule::NotAnInternalTransfer).text()
        =~= "(t.transfer_id IS NULL OR ta.offbudget = 1)"@);
}

/// A table under another name.
pub open spec fn named(table: Seq<char>, alias: Seq<char>) -> Source {
    Source { table, alias: Some(alias) }
}

/// The test that two columns hold the same.
pub open spec fn same(a: Seq<char>, b: Seq<char>) -> Test {
    Test::Compare(Term::Column(a), Sign::Equal, Term::Column(b))
}

/// The tables of a scoped query: each transaction with its account, and where
/// it is a transfer with the account on the other side.
pub open spec fn scoped_joins() -> Seq<Join> {
    seq![
        Join {
            loosely: false,
            source: named("accounts"@, "a"@),
            on: seq![same("a.id"@, "t.account"@)],
        },
        Join {
            loosely: true,
            source: named("payees"@, "tp"@),
            on: seq![same("tp.id"@, "t.payee"@)],
        },
        Join {
            loosely: true,
            source: named("accounts"@, "ta"@),
            on: seq![same("ta.id"@, "tp.transfer_acct"@)],
        },
    ]
}

/// Every transaction is joined with its account, and a transfer, loosely, with
/// the account on the other side.
pub proof fn a_scoped_query_joins_both_sides()
    ensures
        FROM@ == tables_text(named("v_transactions"@, "t"@), scoped_joins()),
{
    let first = named("v_transactions"@, "t"@);
    let joins = scoped_joins();
    assert(tables_text(first, joins) == first.text() + joins[0].text() + joins[1].text()
        + joins[2].text()) by {
        reveal_with_fuel(tables_text, 4);
        assert(joins.drop_last().drop_last().drop_last() =~= Seq::empty());
    }
    one_test_is_written_out(same("a.id"@, "t.account"@));
    one_test_is_written_out(same("tp.id"@, "t.payee"@));
    one_test_is_written_out(same("ta.id"@, "tp.transfer_acct"@));
    reveal_strlit(" = ");
    reveal_strlit(" ");
    reveal_strlit(" ON ");
    reveal_strlit(" JOIN ");
    reveal_strlit(" LEFT JOIN ");
    reveal_strlit("v_transactions");
    reveal_strlit("t");
    reveal_strlit("accounts");
    reveal_strlit("a");
    reveal_strlit("a.id");
    reveal_strlit("t.account");
    reveal_strlit("payees");
    reveal_strlit("tp");
    reveal_strlit("tp.id");
    reveal_strlit("t.payee");
    reveal_strlit("ta");
    reveal_strlit("ta.id");
    reveal_strlit("tp.transfer_acct");
    reveal_strlit(
        "v_transactions t JOIN accounts a ON a.id = t.account LEFT JOIN payees tp ON tp.id = t.payee LEFT JOIN accounts ta ON ta.id = tp.transfer_acct",
    );
    assert(FROM@ =~= tables_text(first, joins));
}

/// A single test stands for itself.
pub proof fn one_test_is_written_out(test: Test)
    ensures
        tests_text(seq![test]) == test.text(),
{
    assert(seq![test].map_values(|t: Test| t.text()) =~= seq![test.text()]);
}

/// A scope keeps what it is asked to keep, and asking for one thing leaves the
/// others as they are.
pub proof fn scopes_change_one_thing_at_a_time(
    scope: TxScope,
    keep: bool,
    closed: TxScope,
    transfers: TxScope,
    offbudget: TxScope,
    told: bool,
)
    requires
        call_ensures(TxScope::with_closed_accounts, (scope, keep), closed),
        call_ensures(TxScope::with_transfers, (scope, keep), transfers),
        call_ensures(TxScope::with_offbudget, (scope, keep), offbudget),
        call_ensures(TxScope::includes_transfers, (&scope,), told),
    ensures
        closed@.closed_accounts == keep,
        closed@.transfers == scope@.transfers,
        closed@.offbudget == scope@.offbudget,
        transfers@.transfers == keep,
        transfers@.offbudget == scope@.offbudget,
        transfers@.closed_accounts == scope@.closed_accounts,
        offbudget@.offbudget == keep,
        offbudget@.transfers == scope@.transfers,
        offbudget@.closed_accounts == scope@.closed_accounts,
        told == scope@.transfers,
{
}

} // verus!
