//! The statements about other things than transactions, read as SQL: which rows
//! they keep, and what they read of them.
use vstd::prelude::*;

use crate::queries::accounts::flag;
use crate::queries::budget::{flows_sql, up_to, BUDGETS, TRACKING};
use crate::queries::rows::{column, column_and, column_or, one_more_holds, one_more_test, output_as};
use crate::queries::scope::{
    a_scope_keeps_the_rows_that_count, a_scoped_query_joins_both_sides, column_is, counts, named,
    one_test_is_written_out, same, scope_tests, scoped_joins, Scope, FROM,
};
use crate::store::apply::TABLES;
use crate::store::language::{
    all_hold, tables_text, tests_text, Join, Order, Output, Row, Select, Sign, Source, Term, Test,
};
use crate::store::replica::{keyed, set_state, FIND_STATE, GET_STATE, NEWEST};
use crate::store::sql::Cell;
use crate::text::{decimal, joined};

verus! {

// ----------------------------------------------------------------- pieces -----
proof fn joined_two(a: Seq<char>, b: Seq<char>, s: Seq<char>)
    ensures
        joined(seq![a, b], s) == a + s + b,
{
    reveal_with_fuel(joined, 2);
    assert(seq![a, b].drop_last() =~= seq![a]);
}

proof fn joined_three(a: Seq<char>, b: Seq<char>, c: Seq<char>, s: Seq<char>)
    ensures
        joined(seq![a, b, c], s) == a + s + b + s + c,
{
    joined_two(a, b, s);
    assert(seq![a, b, c].drop_last() =~= seq![a, b]);
}

proof fn joined_four(a: Seq<char>, b: Seq<char>, c: Seq<char>, d: Seq<char>, s: Seq<char>)
    ensures
        joined(seq![a, b, c, d], s) == a + s + b + s + c + s + d,
{
    joined_three(a, b, c, s);
    assert(seq![a, b, c, d].drop_last() =~= seq![a, b, c]);
}

proof fn joined_five(
    a: Seq<char>,
    b: Seq<char>,
    c: Seq<char>,
    d: Seq<char>,
    e: Seq<char>,
    s: Seq<char>,
)
    ensures
        joined(seq![a, b, c, d, e], s) == a + s + b + s + c + s + d + s + e,
{
    joined_four(a, b, c, d, s);
    assert(seq![a, b, c, d, e].drop_last() =~= seq![a, b, c, d]);
}

proof fn two_tests_are_written_out(a: Test, b: Test)
    ensures
        tests_text(seq![a, b]) == a.text() + " AND "@ + b.text(),
{
    joined_two(a.text(), b.text(), " AND "@);
    assert(seq![a, b].map_values(|t: Test| t.text()) =~= seq![a.text(), b.text()]);
}

proof fn both_of_two_hold(a: Test, b: Test, row: Row, params: Seq<Cell>)
    ensures
        all_hold(seq![a, b], row, params) <==> a.holds(row, params) && b.holds(row, params),
{
    let tests = seq![a, b];
    if all_hold(tests, row, params) {
        assert(tests[0].holds(row, params));
        assert(tests[1].holds(row, params));
    }
}

proof fn the_only_one_holds(a: Test, row: Row, params: Seq<Cell>)
    ensures
        all_hold(seq![a], row, params) <==> a.holds(row, params),
{
    let tests = seq![a];
    if all_hold(tests, row, params) {
        assert(tests[0].holds(row, params));
    }
}

/// A statement that reads columns of a table, as they are and in no order.
pub open spec fn reads(outputs: Seq<Output>, table: Seq<char>, tests: Seq<Test>) -> Select {
    Select {
        outputs,
        first: Source { table, alias: None },
        joins: Seq::empty(),
        tests,
        groups: Seq::empty(),
        order: Seq::empty(),
        limit: None,
    }
}

// ------------------------------------------------------------------ names -----
/// The question for the names of what is in a table or view and not deleted.
pub open spec fn names_select(table: Seq<char>) -> Select {
    Select {
        order: seq![Order { by: "name"@, descending: None }],
        ..reads(seq![column("id"@), column("name"@)], table, seq![column_is("tombstone"@, 0)])
    }
}

/// Names are looked for among all that is not deleted: accounts, closed ones
/// among them, categories, hidden ones among them, and payees.
pub proof fn names_are_of_what_is_not_deleted(row: Row)
    ensures
        crate::queries::resolve::ACCOUNTS@ == names_select("accounts"@).text(),
        crate::queries::resolve::CATEGORIES@ == names_select("v_categories"@).text(),
        crate::queries::resolve::PAYEES@ == names_select("v_payees"@).text(),
        forall|table: Seq<char>|
            all_hold(#[trigger] names_select(table).tests, row, Seq::empty()) <==> row(
                "tombstone"@,
            ) == Cell::Integer(0),
{
    names_are_asked_for("accounts"@);
    names_are_asked_for("v_categories"@);
    names_are_asked_for("v_payees"@);
    reveal_strlit("accounts");
    reveal_strlit("v_categories");
    reveal_strlit("v_payees");
    reveal_strlit("SELECT id, name FROM ");
    reveal_strlit(" WHERE tombstone = 0 ORDER BY name");
    reveal_strlit("SELECT id, name FROM accounts WHERE tombstone = 0 ORDER BY name");
    reveal_strlit("SELECT id, name FROM v_categories WHERE tombstone = 0 ORDER BY name");
    reveal_strlit("SELECT id, name FROM v_payees WHERE tombstone = 0 ORDER BY name");
    assert(crate::queries::resolve::ACCOUNTS@ =~= names_select("accounts"@).text());
    assert(crate::queries::resolve::CATEGORIES@ =~= names_select("v_categories"@).text());
    assert(crate::queries::resolve::PAYEES@ =~= names_select("v_payees"@).text());
    assert forall|table: Seq<char>|
        all_hold(#[trigger] names_select(table).tests, row, Seq::empty()) <==> row("tombstone"@)
            == Cell::Integer(0) by {
        the_only_one_holds(column_is("tombstone"@, 0), row, Seq::empty());
    }
}

proof fn names_are_asked_for(table: Seq<char>)
    ensures
        names_select(table).text() == "SELECT id, name FROM "@ + table
            + " WHERE tombstone = 0 ORDER BY name"@,
{
    let s = names_select(table);
    joined_two("id"@, "name"@, ", "@);
    assert(s.outputs.map_values(|o: Output| o.text()) =~= seq!["id"@, "name"@]);
    one_test_is_written_out(column_is("tombstone"@, 0));
    assert(s.order.map_values(|o: Order| o.text()) =~= seq!["name"@]);
    assert(decimal(0) =~= seq!['0']);
    let front = "SELECT "@ + ("id"@ + ", "@ + "name"@) + " FROM "@;
    let end = " WHERE "@ + ("tombstone"@ + " = "@ + seq!['0']) + (" ORDER BY "@ + "name"@);
    assert(front =~= "SELECT id, name FROM "@) by {
        reveal_strlit("SELECT ");
        reveal_strlit("id");
        reveal_strlit(", ");
        reveal_strlit("name");
        reveal_strlit(" FROM ");
        reveal_strlit("SELECT id, name FROM ");
    }
    assert(end =~= " WHERE tombstone = 0 ORDER BY name"@) by {
        reveal_strlit(" WHERE ");
        reveal_strlit("tombstone");
        reveal_strlit(" = ");
        reveal_strlit(" ORDER BY ");
        reveal_strlit("name");
        reveal_strlit(" WHERE tombstone = 0 ORDER BY name");
    }
    assert(s.text() =~= front + table + end);
}

// --------------------------------------------------------------- accounts -----
/// The question for what moved in an account: everything but split parents,
/// whose children carry the same amounts.
pub open spec fn balance_select() -> Select {
    Select {
        first: named("v_transactions"@, "t"@),
        ..reads(
            seq![Output::Sum(Term::Column("t.amount"@))],
            Seq::empty(),
            seq![same("t.account"@, "a.id"@), column_is("t.is_parent"@, 0)],
        )
    }
}

/// That sum, or nothing where nothing moved.
pub open spec fn balance_output() -> Output {
    output_as(column("COALESCE(("@ + balance_select().text() + "), 0)"@), "balance"@)
}

/// The question for accounts.
pub open spec fn accounts_select() -> Select {
    Select {
        first: named("accounts"@, "a"@),
        order: seq![
            Order { by: "a.offbudget"@, descending: None },
            Order { by: "a.sort_order"@, descending: None },
            Order { by: "a.name"@, descending: None },
        ],
        ..reads(
            seq![
                column("a.name"@),
                balance_output(),
                column("a.offbudget"@),
                column("a.closed"@),
                Output::Plain(
                    Term::Nullif(
                        Box::new(
                            Term::Coalesce(
                                Box::new(Term::Column("a.type"@)),
                                Box::new(Term::Text(Seq::empty())),
                            ),
                        ),
                        Box::new(Term::Text(Seq::empty())),
                    ),
                ),
            ],
            Seq::empty(),
            seq![
                column_is("a.tombstone"@, 0),
                Test::Either(
                    Box::new(Test::Holds(Term::Param(1))),
                    Box::new(column_is("a.closed"@, 0)),
                ),
            ],
        )
    }
}

/// The accounts that are listed are those that are not deleted, the closed ones
/// among them only where they are asked for. The balance of one is over every
/// movement in it, transfers and opening balances among them.
pub proof fn accounts_are_listed_with_all_their_money(include_closed: bool, row: Row)
    ensures
        crate::queries::accounts::LIST@ == accounts_select().text(),
        all_hold(accounts_select().tests, row, flag(include_closed)) <==> row("a.tombstone"@)
            == Cell::Integer(0) && (include_closed || row("a.closed"@) == Cell::Integer(0)),
        all_hold(balance_select().tests, row, Seq::empty()) <==> Sign::Equal.compares(
            row("t.account"@),
            row("a.id"@),
        ) && row("t.is_parent"@) == Cell::Integer(0),
{
    both_of_two_hold(
        same("t.account"@, "a.id"@),
        column_is("t.is_parent"@, 0),
        row,
        Seq::empty(),
    );
    let open = Test::Either(
        Box::new(Test::Holds(Term::Param(1))),
        Box::new(column_is("a.closed"@, 0)),
    );
    both_of_two_hold(column_is("a.tombstone"@, 0), open, row, flag(include_closed));
    reveal_with_fuel(Test::holds, 2);
    accounts_are_asked_for();
}

proof fn an_ordered_text(
    s: Select,
    outputs: Seq<char>,
    tables: Seq<char>,
    tests: Seq<char>,
    order: Seq<char>,
)
    requires
        s.tests.len() > 0,
        s.groups.len() == 0,
        s.order.len() > 0,
        s.limit is None,
        joined(s.outputs.map_values(|o: Output| o.text()), ", "@) == outputs,
        tables_text(s.first, s.joins) == tables,
        tests_text(s.tests) == tests,
        joined(s.order.map_values(|o: Order| o.text()), ", "@) == order,
    ensures
        s.text() == "SELECT "@ + outputs + " FROM "@ + tables + " WHERE "@ + tests + " ORDER BY "@
            + order,
{
    assert(s.text() =~= "SELECT "@ + outputs + " FROM "@ + tables + " WHERE "@ + tests
        + " ORDER BY "@ + order);
}

proof fn a_plain_text(s: Select, outputs: Seq<char>, tables: Seq<char>, tests: Seq<char>)
    requires
        s.tests.len() > 0,
        s.groups.len() == 0,
        s.order.len() == 0,
        s.limit is None,
        joined(s.outputs.map_values(|o: Output| o.text()), ", "@) == outputs,
        tables_text(s.first, s.joins) == tables,
        tests_text(s.tests) == tests,
    ensures
        s.text() == "SELECT "@ + outputs + " FROM "@ + tables + " WHERE "@ + tests,
{
    assert(s.text() =~= "SELECT "@ + outputs + " FROM "@ + tables + " WHERE "@ + tests);
}

proof fn accounts_are_asked_for()
    ensures
        crate::queries::accounts::LIST@ == accounts_select().text(),
{
    let s = accounts_select();
    account_outputs();
    account_tests();
    account_order();
    the_account_table();
    an_ordered_text(
        s,
        "a.name, COALESCE(("@ + balance_select().text()
            + "), 0) AS balance, a.offbudget, a.closed, NULLIF(COALESCE(a.type, ''), '')"@,
        "accounts a"@,
        "a.tombstone = 0 AND (?1 OR a.closed = 0)"@,
        "a.offbudget, a.sort_order, a.name"@,
    );
    balances_are_asked_for();
    accounts_in_full();
}

proof fn the_account_table()
    ensures
        tables_text(accounts_select().first, accounts_select().joins) == "accounts a"@,
{
    accounts_named();
}

proof fn account_outputs()
    ensures
        joined(accounts_select().outputs.map_values(|o: Output| o.text()), ", "@)
            == "a.name, COALESCE(("@ + balance_select().text()
            + "), 0) AS balance, a.offbudget, a.closed, NULLIF(COALESCE(a.type, ''), '')"@,
{
    let s = accounts_select();
    let inner = balance_select().text();
    let balance = "COALESCE(("@ + inner + "), 0)"@ + " AS "@ + "balance"@;
    let kind = "NULLIF("@ + ("COALESCE("@ + "a.type"@ + ", "@ + ("'"@ + Seq::<char>::empty() + "'"@) + ")"@) + ", "@ + ("'"@ + Seq::<char>::empty() + "'"@) + ")"@;
    assert(s.outputs.map_values(|o: Output| o.text()) =~= seq![
        "a.name"@,
        balance,
        "a.offbudget"@,
        "a.closed"@,
        kind,
    ]) by {
        reveal_with_fuel(Output::text, 2);
        reveal_with_fuel(Term::text, 3);
    }
    joined_five("a.name"@, balance, "a.offbudget"@, "a.closed"@, kind, ", "@);
    account_head();
    account_tail();
    let tail = "), 0)"@ + " AS "@ + "balance"@ + ", "@ + "a.offbudget"@ + ", "@ + "a.closed"@ + ", "@
        + kind;
    assert("a.name"@ + ", "@ + balance + ", "@ + "a.offbudget"@ + ", "@ + "a.closed"@ + ", "@ + kind
        =~= ("a.name"@ + ", "@ + "COALESCE(("@) + inner + tail);
}

proof fn account_head()
    ensures
        "a.name"@ + ", "@ + "COALESCE(("@
            == "a.name, COALESCE(("@,
{
    reveal_strlit("a.name");
    reveal_strlit(", ");
    reveal_strlit("COALESCE((");
    reveal_strlit("a.name, COALESCE((");
    assert("a.name"@ + ", "@ + "COALESCE(("@
        =~= "a.name, COALESCE(("@);
}

proof fn account_tail()
    ensures
        "), 0)"@ + " AS "@ + "balance"@ + ", "@ + "a.offbudget"@ + ", "@ + "a.closed"@ + ", "@ + ("NULLIF("@ + ("COALESCE("@ + "a.type"@ + ", "@ + ("'"@ + Seq::<char>::empty() + "'"@) + ")"@) + ", "@ + ("'"@ + Seq::<char>::empty() + "'"@) + ")"@)
            == "), 0) AS balance, a.offbudget, a.closed, NULLIF(COALESCE(a.type, ''), '')"@,
{
    reveal_strlit("), 0)");
    reveal_strlit(" AS ");
    reveal_strlit("balance");
    reveal_strlit(", ");
    reveal_strlit("a.offbudget");
    reveal_strlit("a.closed");
    reveal_strlit("NULLIF(");
    reveal_strlit("COALESCE(");
    reveal_strlit("a.type");
    reveal_strlit("'");
    reveal_strlit(")");
    reveal_strlit("), 0) AS balance, a.offbudget, a.closed, NULLIF(COALESCE(a.type, ''), '')");
    assert("), 0)"@ + " AS "@ + "balance"@ + ", "@ + "a.offbudget"@ + ", "@ + "a.closed"@ + ", "@ + ("NULLIF("@ + ("COALESCE("@ + "a.type"@ + ", "@ + ("'"@ + Seq::<char>::empty() + "'"@) + ")"@) + ", "@ + ("'"@ + Seq::<char>::empty() + "'"@) + ")"@)
        =~= "), 0) AS balance, a.offbudget, a.closed, NULLIF(COALESCE(a.type, ''), '')"@);
}

proof fn accounts_named()
    ensures
        "accounts"@ + " "@ + "a"@
            == "accounts a"@,
{
    reveal_strlit("accounts");
    reveal_strlit(" ");
    reveal_strlit("a");
    reveal_strlit("accounts a");
    assert("accounts"@ + " "@ + "a"@
        =~= "accounts a"@);
}

proof fn account_tests()
    ensures
        tests_text(accounts_select().tests) == "a.tombstone = 0 AND (?1 OR a.closed = 0)"@,
{
    let open = Test::Either(
        Box::new(Test::Holds(Term::Param(1))),
        Box::new(column_is("a.closed"@, 0)),
    );
    two_tests_are_written_out(column_is("a.tombstone"@, 0), open);
    assert(decimal(0) =~= seq!['0']);
    assert(decimal(1) =~= seq!['1']);
    assert(open.text() =~= "("@ + ("?"@ + seq!['1']) + " OR "@ + ("a.closed"@ + " = "@ + seq!['0'])
        + ")"@) by {
        reveal_with_fuel(Test::text, 2);
    }
    account_tests_in_full();
}

proof fn account_tests_in_full()
    ensures
        "a.tombstone"@ + " = "@ + seq!['0'] + " AND "@ + ("("@ + ("?"@ + seq!['1']) + " OR "@ + ("a.closed"@ + " = "@ + seq!['0']) + ")"@)
            == "a.tombstone = 0 AND (?1 OR a.closed = 0)"@,
{
    reveal_strlit("a.tombstone");
    reveal_strlit(" = ");
    reveal_strlit(" AND ");
    reveal_strlit("(");
    reveal_strlit("?");
    reveal_strlit(" OR ");
    reveal_strlit("a.closed");
    reveal_strlit(")");
    reveal_strlit("a.tombstone = 0 AND (?1 OR a.closed = 0)");
    assert("a.tombstone"@ + " = "@ + seq!['0'] + " AND "@ + ("("@ + ("?"@ + seq!['1']) + " OR "@ + ("a.closed"@ + " = "@ + seq!['0']) + ")"@)
        =~= "a.tombstone = 0 AND (?1 OR a.closed = 0)"@);
}

proof fn account_order()
    ensures
        joined(accounts_select().order.map_values(|o: Order| o.text()), ", "@) == "a.offbudget, a.sort_order, a.name"@,
{
    assert(accounts_select().order.map_values(|o: Order| o.text()) =~= seq![
        "a.offbudget"@,
        "a.sort_order"@,
        "a.name"@,
    ]);
    joined_three("a.offbudget"@, "a.sort_order"@, "a.name"@, ", "@);
    account_order_in_full();
}

proof fn account_order_in_full()
    ensures
        "a.offbudget"@ + ", "@ + "a.sort_order"@ + ", "@ + "a.name"@
            == "a.offbudget, a.sort_order, a.name"@,
{
    reveal_strlit("a.offbudget");
    reveal_strlit(", ");
    reveal_strlit("a.sort_order");
    reveal_strlit("a.name");
    reveal_strlit("a.offbudget, a.sort_order, a.name");
    assert("a.offbudget"@ + ", "@ + "a.sort_order"@ + ", "@ + "a.name"@
        =~= "a.offbudget, a.sort_order, a.name"@);
}

proof fn accounts_in_full()
    ensures
        crate::queries::accounts::LIST@ == "SELECT "@ + ("a.name, COALESCE(("@
            + "SELECT SUM(t.amount) FROM v_transactions t WHERE t.account = a.id AND t.is_parent = 0"@
            + "), 0) AS balance, a.offbudget, a.closed, NULLIF(COALESCE(a.type, ''), '')"@)
            + " FROM "@ + "accounts a"@ + " WHERE "@ + "a.tombstone = 0 AND (?1 OR a.closed = 0)"@
            + " ORDER BY "@ + "a.offbudget, a.sort_order, a.name"@,
{
    reveal_strlit("SELECT ");
    reveal_strlit("a.name, COALESCE((");
    reveal_strlit("SELECT SUM(t.amount) FROM v_transactions t WHERE t.account = a.id AND t.is_parent = 0");
    reveal_strlit("), 0) AS balance, a.offbudget, a.closed, NULLIF(COALESCE(a.type, ''), '')");
    reveal_strlit(" FROM ");
    reveal_strlit("accounts a");
    reveal_strlit(" WHERE ");
    reveal_strlit("a.tombstone = 0 AND (?1 OR a.closed = 0)");
    reveal_strlit(" ORDER BY ");
    reveal_strlit("a.offbudget, a.sort_order, a.name");
    reveal_strlit("SELECT a.name, COALESCE((SELECT SUM(t.amount) FROM v_transactions t WHERE t.account = a.id AND t.is_parent = 0), 0) AS balance, a.offbudget, a.closed, NULLIF(COALESCE(a.type, ''), '') FROM accounts a WHERE a.tombstone = 0 AND (?1 OR a.closed = 0) ORDER BY a.offbudget, a.sort_order, a.name");
    assert(crate::queries::accounts::LIST@ =~= "SELECT "@ + ("a.name, COALESCE(("@
        + "SELECT SUM(t.amount) FROM v_transactions t WHERE t.account = a.id AND t.is_parent = 0"@
        + "), 0) AS balance, a.offbudget, a.closed, NULLIF(COALESCE(a.type, ''), '')"@)
        + " FROM "@ + "accounts a"@ + " WHERE "@ + "a.tombstone = 0 AND (?1 OR a.closed = 0)"@
        + " ORDER BY "@ + "a.offbudget, a.sort_order, a.name"@);
}

proof fn balances_are_asked_for()
    ensures
        balance_select().text()
            == "SELECT SUM(t.amount) FROM v_transactions t WHERE t.account = a.id AND t.is_parent = 0"@,
{
    let s = balance_select();
    let sum = "SUM("@ + "t.amount"@ + ")"@;
    assert(s.outputs.map_values(|o: Output| o.text()) =~= seq![sum]);
    assert(joined(seq![sum], ", "@) == sum);
    two_tests_are_written_out(same("t.account"@, "a.id"@), column_is("t.is_parent"@, 0));
    assert(decimal(0) =~= seq!['0']);
    reveal_strlit("SELECT ");
    reveal_strlit("SUM(");
    reveal_strlit("t.amount");
    reveal_strlit(")");
    reveal_strlit(" FROM ");
    reveal_strlit("v_transactions");
    reveal_strlit(" ");
    reveal_strlit("t");
    reveal_strlit(" WHERE ");
    reveal_strlit("t.account");
    reveal_strlit(" = ");
    reveal_strlit("a.id");
    reveal_strlit(" AND ");
    reveal_strlit("t.is_parent");
    reveal_strlit(
        "SELECT SUM(t.amount) FROM v_transactions t WHERE t.account = a.id AND t.is_parent = 0",
    );
    let whole = "SELECT "@ + sum + " FROM "@ + ("v_transactions"@ + " "@ + "t"@) + (" WHERE "@ + (
    "t.account"@ + " = "@ + "a.id"@ + " AND "@ + ("t.is_parent"@ + " = "@ + seq!['0'])));
    assert(s.text() =~= whole);
    assert(whole
        =~= "SELECT SUM(t.amount) FROM v_transactions t WHERE t.account = a.id AND t.is_parent = 0"@);
}

proof fn a_bare_text(s: Select, outputs: Seq<char>, tables: Seq<char>)
    requires
        s.tests.len() == 0,
        s.groups.len() == 0,
        s.order.len() == 0,
        s.limit is None,
        joined(s.outputs.map_values(|o: Output| o.text()), ", "@) == outputs,
        tables_text(s.first, s.joins) == tables,
    ensures
        s.text() == "SELECT "@ + outputs + " FROM "@ + tables,
{
    assert(s.text() =~= "SELECT "@ + outputs + " FROM "@ + tables);
}

// ------------------------------------------------------------- categories -----
/// The name of a category's group, or nothing where it has none.
pub open spec fn group_name() -> Output {
    column_or("g.name"@, Term::Text(Seq::empty()))
}

/// Neither a category nor its group is hidden.
pub open spec fn in_view() -> Test {
    Test::Both(
        Box::new(column_is("c.hidden"@, 0)),
        Box::new(
            Test::Compare(
                Term::Coalesce(Box::new(Term::Column("g.hidden"@)), Box::new(Term::Number(0))),
                Sign::Equal,
                Term::Number(0),
            ),
        ),
    )
}

/// The question for categories.
pub open spec fn categories_select() -> Select {
    Select {
        first: named("categories"@, "c"@),
        joins: seq![
            Join {
                loosely: true,
                source: named("category_groups"@, "g"@),
                on: seq![same("g.id"@, "c.cat_group"@), column_is("g.tombstone"@, 0)],
            },
        ],
        order: seq![
            Order { by: "g.sort_order"@, descending: None },
            Order { by: "g.name"@, descending: None },
            Order { by: "c.sort_order"@, descending: None },
            Order { by: "c.name"@, descending: None },
        ],
        ..reads(
            seq![column("c.name"@), group_name(), column("c.is_income"@), column("c.hidden"@)],
            Seq::empty(),
            seq![
                column_is("c.tombstone"@, 0),
                Test::Either(Box::new(Test::Holds(Term::Param(1))), Box::new(in_view())),
            ],
        )
    }
}

/// The categories that are listed are those that are not deleted. One that is
/// hidden, or whose group is, is among them only where it is asked for.
pub proof fn categories_are_listed_with_their_groups(include_hidden: bool, row: Row)
    ensures
        crate::queries::categories::LIST@ == categories_select().text(),
        all_hold(categories_select().tests, row, flag(include_hidden)) <==> row("c.tombstone"@)
            == Cell::Integer(0) && (include_hidden || (row("c.hidden"@) == Cell::Integer(0) && (row(
            "g.hidden"@,
        ) is Null || row("g.hidden"@) == Cell::Integer(0)))),
{
    categories_are_asked_for();
    both_of_two_hold(
        column_is("c.tombstone"@, 0),
        Test::Either(Box::new(Test::Holds(Term::Param(1))), Box::new(in_view())),
        row,
        flag(include_hidden),
    );
    reveal_with_fuel(Test::holds, 3);
    reveal_with_fuel(Term::value, 2);
}

proof fn categories_outputs()
    ensures
        joined(categories_select().outputs.map_values(|o: Output| o.text()), ", "@)
            == "c.name, COALESCE(g.name, ''), c.is_income, c.hidden"@,
{
    assert(categories_select().outputs.map_values(|o: Output| o.text()) =~= seq!["c.name"@, ("COALESCE("@ + "g.name"@ + ", "@ + ("'"@ + Seq::<char>::empty() + "'"@) + ")"@), "c.is_income"@, "c.hidden"@]) by {
        reveal_with_fuel(Term::text, 2);
    }
    joined_four("c.name"@, ("COALESCE("@ + "g.name"@ + ", "@ + ("'"@ + Seq::<char>::empty() + "'"@) + ")"@), "c.is_income"@, "c.hidden"@, ", "@);
    categories_outputs_in_full();
}

proof fn categories_outputs_in_full()
    ensures
        "c.name"@ + ", "@ + ("COALESCE("@ + "g.name"@ + ", "@ + ("'"@ + Seq::<char>::empty() + "'"@) + ")"@) + ", "@ + "c.is_income"@ + ", "@ + "c.hidden"@
            == "c.name, COALESCE(g.name, ''), c.is_income, c.hidden"@,
{
    reveal_strlit("c.name");
    reveal_strlit(", ");
    reveal_strlit("COALESCE(");
    reveal_strlit("g.name");
    reveal_strlit("'");
    reveal_strlit(")");
    reveal_strlit("c.is_income");
    reveal_strlit("c.hidden");
    reveal_strlit("c.name, COALESCE(g.name, ''), c.is_income, c.hidden");
    assert("c.name"@ + ", "@ + ("COALESCE("@ + "g.name"@ + ", "@ + ("'"@ + Seq::<char>::empty() + "'"@) + ")"@) + ", "@ + "c.is_income"@ + ", "@ + "c.hidden"@
        =~= "c.name, COALESCE(g.name, ''), c.is_income, c.hidden"@);
}

proof fn categories_tables()
    ensures
        tables_text(categories_select().first, categories_select().joins)
            == "categories c LEFT JOIN category_groups g ON g.id = c.cat_group AND g.tombstone = 0"@,
{
    let s = categories_select();
    two_tests_are_written_out(same("g.id"@, "c.cat_group"@), column_is("g.tombstone"@, 0));
    assert(decimal(0) =~= seq!['0']);
    assert(s.joins.drop_last() =~= Seq::empty());
    assert(tables_text(s.first, s.joins) == s.first.text() + s.joins[0].text()) by {
        reveal_with_fuel(tables_text, 2);
    }
    categories_tables_in_full();
}

proof fn categories_tables_in_full()
    ensures
        "categories"@ + " "@ + "c"@ + (" LEFT JOIN "@ + ("category_groups"@ + " "@ + "g"@) + " ON "@ + ("g.id"@ + " = "@ + "c.cat_group"@ + " AND "@ + ("g.tombstone"@ + " = "@ + seq!['0'])))
            == "categories c LEFT JOIN category_groups g ON g.id = c.cat_group AND g.tombstone = 0"@,
{
    reveal_strlit("categories");
    reveal_strlit(" ");
    reveal_strlit("c");
    reveal_strlit(" LEFT JOIN ");
    reveal_strlit("category_groups");
    reveal_strlit("g");
    reveal_strlit(" ON ");
    reveal_strlit("g.id");
    reveal_strlit(" = ");
    reveal_strlit("c.cat_group");
    reveal_strlit(" AND ");
    reveal_strlit("g.tombstone");
    reveal_strlit("categories c LEFT JOIN category_groups g ON g.id = c.cat_group AND g.tombstone = 0");
    assert("categories"@ + " "@ + "c"@ + (" LEFT JOIN "@ + ("category_groups"@ + " "@ + "g"@) + " ON "@ + ("g.id"@ + " = "@ + "c.cat_group"@ + " AND "@ + ("g.tombstone"@ + " = "@ + seq!['0'])))
        =~= "categories c LEFT JOIN category_groups g ON g.id = c.cat_group AND g.tombstone = 0"@);
}

proof fn categories_tests()
    ensures
        tests_text(categories_select().tests)
            == "c.tombstone = 0 AND (?1 OR (c.hidden = 0 AND COALESCE(g.hidden, 0) = 0))"@,
{
    let shown = Test::Either(Box::new(Test::Holds(Term::Param(1))), Box::new(in_view()));
    two_tests_are_written_out(column_is("c.tombstone"@, 0), shown);
    assert(decimal(0) =~= seq!['0']);
    assert(decimal(1) =~= seq!['1']);
    assert(shown.text() =~= "("@ + ("?"@ + seq!['1']) + " OR "@ + ("("@ + ("c.hidden"@ + " = "@
        + seq!['0']) + " AND "@ + ("COALESCE("@ + "g.hidden"@ + ", "@ + seq!['0'] + ")"@ + " = "@
        + seq!['0']) + ")"@) + ")"@) by {
        reveal_with_fuel(Test::text, 3);
        reveal_with_fuel(Term::text, 2);
    }
    categories_tests_in_full();
}

proof fn categories_tests_in_full()
    ensures
        "c.tombstone"@ + " = "@ + seq!['0'] + " AND "@ + ("("@ + ("?"@ + seq!['1']) + " OR "@ + ("("@ + ("c.hidden"@ + " = "@ + seq!['0']) + " AND "@ + ("COALESCE("@ + "g.hidden"@ + ", "@ + seq!['0'] + ")"@ + " = "@ + seq!['0']) + ")"@) + ")"@)
            == "c.tombstone = 0 AND (?1 OR (c.hidden = 0 AND COALESCE(g.hidden, 0) = 0))"@,
{
    reveal_strlit("c.tombstone");
    reveal_strlit(" = ");
    reveal_strlit(" AND ");
    reveal_strlit("(");
    reveal_strlit("?");
    reveal_strlit(" OR ");
    reveal_strlit("c.hidden");
    reveal_strlit("COALESCE(");
    reveal_strlit("g.hidden");
    reveal_strlit(", ");
    reveal_strlit(")");
    reveal_strlit("c.tombstone = 0 AND (?1 OR (c.hidden = 0 AND COALESCE(g.hidden, 0) = 0))");
    assert("c.tombstone"@ + " = "@ + seq!['0'] + " AND "@ + ("("@ + ("?"@ + seq!['1']) + " OR "@ + ("("@ + ("c.hidden"@ + " = "@ + seq!['0']) + " AND "@ + ("COALESCE("@ + "g.hidden"@ + ", "@ + seq!['0'] + ")"@ + " = "@ + seq!['0']) + ")"@) + ")"@)
        =~= "c.tombstone = 0 AND (?1 OR (c.hidden = 0 AND COALESCE(g.hidden, 0) = 0))"@);
}

proof fn categories_order()
    ensures
        joined(categories_select().order.map_values(|o: Order| o.text()), ", "@)
            == "g.sort_order, g.name, c.sort_order, c.name"@,
{
    assert(categories_select().order.map_values(|o: Order| o.text()) =~= seq!["g.sort_order"@, "g.name"@, "c.sort_order"@, "c.name"@]) by {
    }
    joined_four("g.sort_order"@, "g.name"@, "c.sort_order"@, "c.name"@, ", "@);
    categories_order_in_full();
}

proof fn categories_order_in_full()
    ensures
        "g.sort_order"@ + ", "@ + "g.name"@ + ", "@ + "c.sort_order"@ + ", "@ + "c.name"@
            == "g.sort_order, g.name, c.sort_order, c.name"@,
{
    reveal_strlit("g.sort_order");
    reveal_strlit(", ");
    reveal_strlit("g.name");
    reveal_strlit("c.sort_order");
    reveal_strlit("c.name");
    reveal_strlit("g.sort_order, g.name, c.sort_order, c.name");
    assert("g.sort_order"@ + ", "@ + "g.name"@ + ", "@ + "c.sort_order"@ + ", "@ + "c.name"@
        =~= "g.sort_order, g.name, c.sort_order, c.name"@);
}

proof fn categories_are_asked_for()
    ensures
        crate::queries::categories::LIST@ == categories_select().text(),
{
    categories_outputs();
    categories_tables();
    categories_tests();
    categories_order();
    an_ordered_text(categories_select(), "c.name, COALESCE(g.name, ''), c.is_income, c.hidden"@, "categories c LEFT JOIN category_groups g ON g.id = c.cat_group AND g.tombstone = 0"@, "c.tombstone = 0 AND (?1 OR (c.hidden = 0 AND COALESCE(g.hidden, 0) = 0))"@, "g.sort_order, g.name, c.sort_order, c.name"@);
    categories_in_full();
}

proof fn categories_in_full()
    ensures
        "SELECT "@ + "c.name, COALESCE(g.name, ''), c.is_income, c.hidden"@ + " FROM "@ + "categories c LEFT JOIN category_groups g ON g.id = c.cat_group AND g.tombstone = 0"@ + " WHERE "@ + "c.tombstone = 0 AND (?1 OR (c.hidden = 0 AND COALESCE(g.hidden, 0) = 0))"@ + " ORDER BY "@ + "g.sort_order, g.name, c.sort_order, c.name"@
            == "SELECT c.name, COALESCE(g.name, ''), c.is_income, c.hidden FROM categories c LEFT JOIN category_groups g ON g.id = c.cat_group AND g.tombstone = 0 WHERE c.tombstone = 0 AND (?1 OR (c.hidden = 0 AND COALESCE(g.hidden, 0) = 0)) ORDER BY g.sort_order, g.name, c.sort_order, c.name"@,
{
    reveal_strlit("SELECT ");
    reveal_strlit("c.name, COALESCE(g.name, ''), c.is_income, c.hidden");
    reveal_strlit(" FROM ");
    reveal_strlit("categories c LEFT JOIN category_groups g ON g.id = c.cat_group AND g.tombstone = 0");
    reveal_strlit(" WHERE ");
    reveal_strlit("c.tombstone = 0 AND (?1 OR (c.hidden = 0 AND COALESCE(g.hidden, 0) = 0))");
    reveal_strlit(" ORDER BY ");
    reveal_strlit("g.sort_order, g.name, c.sort_order, c.name");
    reveal_strlit("SELECT c.name, COALESCE(g.name, ''), c.is_income, c.hidden FROM categories c LEFT JOIN category_groups g ON g.id = c.cat_group AND g.tombstone = 0 WHERE c.tombstone = 0 AND (?1 OR (c.hidden = 0 AND COALESCE(g.hidden, 0) = 0)) ORDER BY g.sort_order, g.name, c.sort_order, c.name");
    assert("SELECT "@ + "c.name, COALESCE(g.name, ''), c.is_income, c.hidden"@ + " FROM "@ + "categories c LEFT JOIN category_groups g ON g.id = c.cat_group AND g.tombstone = 0"@ + " WHERE "@ + "c.tombstone = 0 AND (?1 OR (c.hidden = 0 AND COALESCE(g.hidden, 0) = 0))"@ + " ORDER BY "@ + "g.sort_order, g.name, c.sort_order, c.name"@
        =~= "SELECT c.name, COALESCE(g.name, ''), c.is_income, c.hidden FROM categories c LEFT JOIN category_groups g ON g.id = c.cat_group AND g.tombstone = 0 WHERE c.tombstone = 0 AND (?1 OR (c.hidden = 0 AND COALESCE(g.hidden, 0) = 0)) ORDER BY g.sort_order, g.name, c.sort_order, c.name"@);
}

// ---------------------------------------------------------------- budgets -----
/// The question for what a budget is about.
pub open spec fn headings_select() -> Select {
    Select {
        first: named("categories"@, "c"@),
        joins: seq![
            Join {
                loosely: true,
                source: named("category_groups"@, "g"@),
                on: seq![same("g.id"@, "c.cat_group"@)],
            },
        ],
        ..reads(
            seq![column("c.id"@), column("c.name"@), group_name(), column("c.is_income"@)],
            Seq::empty(),
            seq![column_is("c.tombstone"@, 0)],
        )
    }
}

/// The question for what was set aside.
pub open spec fn allotments_select() -> Select {
    reads(
        seq![column("category"@), column("month"@), column("amount"@), column("carryover"@)],
        "zero_budgets"@,
        seq![column_and("month"@, Sign::AtMost, 1)],
    )
}

/// The question whether a budget only tracks.
pub open spec fn tracking_select() -> Select {
    reads(seq![Output::Tally], "reflect_budgets"@, Seq::empty())
}

/// A budget is about every category that is not deleted, hidden ones among
/// them. It goes by everything that was set aside in a month up to the one that
/// is asked for, and only tracks where it has such entries.
pub proof fn a_budget_goes_by_what_was_set_aside(row: Row, month: nat)
    ensures
        crate::queries::budget::CATEGORIES@ == headings_select().text(),
        BUDGETS@ == allotments_select().text(),
        TRACKING@ == tracking_select().text(),
        all_hold(headings_select().tests, row, Seq::empty()) <==> row("c.tombstone"@)
            == Cell::Integer(0),
        all_hold(allotments_select().tests, row, up_to(month)) <==> (row(
            "month"@,
        ) matches Cell::Integer(m) && m <= month),
        all_hold(tracking_select().tests, row, Seq::empty()),
{
    headings_are_asked_for();
    allotments_are_asked_for();
    entries_are_asked_for();
    the_only_one_holds(column_is("c.tombstone"@, 0), row, Seq::empty());
    the_only_one_holds(column_and("month"@, Sign::AtMost, 1), row, up_to(month));
}

proof fn headings_outputs()
    ensures
        joined(headings_select().outputs.map_values(|o: Output| o.text()), ", "@)
            == "c.id, c.name, COALESCE(g.name, ''), c.is_income"@,
{
    assert(headings_select().outputs.map_values(|o: Output| o.text()) =~= seq!["c.id"@, "c.name"@, ("COALESCE("@ + "g.name"@ + ", "@ + ("'"@ + Seq::<char>::empty() + "'"@) + ")"@), "c.is_income"@]) by {
        reveal_with_fuel(Term::text, 2);
    }
    joined_four("c.id"@, "c.name"@, ("COALESCE("@ + "g.name"@ + ", "@ + ("'"@ + Seq::<char>::empty() + "'"@) + ")"@), "c.is_income"@, ", "@);
    headings_outputs_in_full();
}

proof fn headings_outputs_in_full()
    ensures
        "c.id"@ + ", "@ + "c.name"@ + ", "@ + ("COALESCE("@ + "g.name"@ + ", "@ + ("'"@ + Seq::<char>::empty() + "'"@) + ")"@) + ", "@ + "c.is_income"@
            == "c.id, c.name, COALESCE(g.name, ''), c.is_income"@,
{
    reveal_strlit("c.id");
    reveal_strlit(", ");
    reveal_strlit("c.name");
    reveal_strlit("COALESCE(");
    reveal_strlit("g.name");
    reveal_strlit("'");
    reveal_strlit(")");
    reveal_strlit("c.is_income");
    reveal_strlit("c.id, c.name, COALESCE(g.name, ''), c.is_income");
    assert("c.id"@ + ", "@ + "c.name"@ + ", "@ + ("COALESCE("@ + "g.name"@ + ", "@ + ("'"@ + Seq::<char>::empty() + "'"@) + ")"@) + ", "@ + "c.is_income"@
        =~= "c.id, c.name, COALESCE(g.name, ''), c.is_income"@);
}

proof fn headings_tables()
    ensures
        tables_text(headings_select().first, headings_select().joins)
            == "categories c LEFT JOIN category_groups g ON g.id = c.cat_group"@,
{
    let s = headings_select();
    one_test_is_written_out(same("g.id"@, "c.cat_group"@));
    assert(s.joins.drop_last() =~= Seq::empty());
    assert(tables_text(s.first, s.joins) == s.first.text() + s.joins[0].text()) by {
        reveal_with_fuel(tables_text, 2);
    }
    headings_tables_in_full();
}

proof fn headings_tables_in_full()
    ensures
        "categories"@ + " "@ + "c"@ + (" LEFT JOIN "@ + ("category_groups"@ + " "@ + "g"@) + " ON "@ + ("g.id"@ + " = "@ + "c.cat_group"@))
            == "categories c LEFT JOIN category_groups g ON g.id = c.cat_group"@,
{
    reveal_strlit("categories");
    reveal_strlit(" ");
    reveal_strlit("c");
    reveal_strlit(" LEFT JOIN ");
    reveal_strlit("category_groups");
    reveal_strlit("g");
    reveal_strlit(" ON ");
    reveal_strlit("g.id");
    reveal_strlit(" = ");
    reveal_strlit("c.cat_group");
    reveal_strlit("categories c LEFT JOIN category_groups g ON g.id = c.cat_group");
    assert("categories"@ + " "@ + "c"@ + (" LEFT JOIN "@ + ("category_groups"@ + " "@ + "g"@) + " ON "@ + ("g.id"@ + " = "@ + "c.cat_group"@))
        =~= "categories c LEFT JOIN category_groups g ON g.id = c.cat_group"@);
}

proof fn headings_tests()
    ensures
        tests_text(headings_select().tests)
            == "c.tombstone = 0"@,
{
    one_test_is_written_out(column_is("c.tombstone"@, 0));
    assert(decimal(0) =~= seq!['0']);
    headings_tests_in_full();
}

proof fn headings_tests_in_full()
    ensures
        "c.tombstone"@ + " = "@ + seq!['0']
            == "c.tombstone = 0"@,
{
    reveal_strlit("c.tombstone");
    reveal_strlit(" = ");
    reveal_strlit("c.tombstone = 0");
    assert("c.tombstone"@ + " = "@ + seq!['0']
        =~= "c.tombstone = 0"@);
}

proof fn headings_are_asked_for()
    ensures
        crate::queries::budget::CATEGORIES@ == headings_select().text(),
{
    headings_outputs();
    headings_tables();
    headings_tests();
    a_plain_text(headings_select(), "c.id, c.name, COALESCE(g.name, ''), c.is_income"@, "categories c LEFT JOIN category_groups g ON g.id = c.cat_group"@, "c.tombstone = 0"@);
    headings_in_full();
}

proof fn headings_in_full()
    ensures
        "SELECT "@ + "c.id, c.name, COALESCE(g.name, ''), c.is_income"@ + " FROM "@ + "categories c LEFT JOIN category_groups g ON g.id = c.cat_group"@ + " WHERE "@ + "c.tombstone = 0"@
            == "SELECT c.id, c.name, COALESCE(g.name, ''), c.is_income FROM categories c LEFT JOIN category_groups g ON g.id = c.cat_group WHERE c.tombstone = 0"@,
{
    reveal_strlit("SELECT ");
    reveal_strlit("c.id, c.name, COALESCE(g.name, ''), c.is_income");
    reveal_strlit(" FROM ");
    reveal_strlit("categories c LEFT JOIN category_groups g ON g.id = c.cat_group");
    reveal_strlit(" WHERE ");
    reveal_strlit("c.tombstone = 0");
    reveal_strlit("SELECT c.id, c.name, COALESCE(g.name, ''), c.is_income FROM categories c LEFT JOIN category_groups g ON g.id = c.cat_group WHERE c.tombstone = 0");
    assert("SELECT "@ + "c.id, c.name, COALESCE(g.name, ''), c.is_income"@ + " FROM "@ + "categories c LEFT JOIN category_groups g ON g.id = c.cat_group"@ + " WHERE "@ + "c.tombstone = 0"@
        =~= "SELECT c.id, c.name, COALESCE(g.name, ''), c.is_income FROM categories c LEFT JOIN category_groups g ON g.id = c.cat_group WHERE c.tombstone = 0"@);
}

proof fn allotments_outputs()
    ensures
        joined(allotments_select().outputs.map_values(|o: Output| o.text()), ", "@)
            == "category, month, amount, carryover"@,
{
    assert(allotments_select().outputs.map_values(|o: Output| o.text()) =~= seq!["category"@, "month"@, "amount"@, "carryover"@]) by {
    }
    joined_four("category"@, "month"@, "amount"@, "carryover"@, ", "@);
    allotments_outputs_in_full();
}

proof fn allotments_outputs_in_full()
    ensures
        "category"@ + ", "@ + "month"@ + ", "@ + "amount"@ + ", "@ + "carryover"@
            == "category, month, amount, carryover"@,
{
    reveal_strlit("category");
    reveal_strlit(", ");
    reveal_strlit("month");
    reveal_strlit("amount");
    reveal_strlit("carryover");
    reveal_strlit("category, month, amount, carryover");
    assert("category"@ + ", "@ + "month"@ + ", "@ + "amount"@ + ", "@ + "carryover"@
        =~= "category, month, amount, carryover"@);
}

proof fn allotments_tables()
    ensures
        tables_text(allotments_select().first, allotments_select().joins)
            == "zero_budgets"@,
{
}

proof fn allotments_tests()
    ensures
        tests_text(allotments_select().tests)
            == "month <= ?1"@,
{
    one_test_is_written_out(column_and("month"@, Sign::AtMost, 1));
    assert(decimal(1) =~= seq!['1']);
    allotments_tests_in_full();
}

proof fn allotments_tests_in_full()
    ensures
        "month"@ + " <= "@ + ("?"@ + seq!['1'])
            == "month <= ?1"@,
{
    reveal_strlit("month");
    reveal_strlit(" <= ");
    reveal_strlit("?");
    reveal_strlit("month <= ?1");
    assert("month"@ + " <= "@ + ("?"@ + seq!['1'])
        =~= "month <= ?1"@);
}

proof fn allotments_are_asked_for()
    ensures
        BUDGETS@ == allotments_select().text(),
{
    allotments_outputs();
    allotments_tables();
    allotments_tests();
    a_plain_text(allotments_select(), "category, month, amount, carryover"@, "zero_budgets"@, "month <= ?1"@);
    allotments_in_full();
}

proof fn allotments_in_full()
    ensures
        "SELECT "@ + "category, month, amount, carryover"@ + " FROM "@ + "zero_budgets"@ + " WHERE "@ + "month <= ?1"@
            == "SELECT category, month, amount, carryover FROM zero_budgets WHERE month <= ?1"@,
{
    reveal_strlit("SELECT ");
    reveal_strlit("category, month, amount, carryover");
    reveal_strlit(" FROM ");
    reveal_strlit("zero_budgets");
    reveal_strlit(" WHERE ");
    reveal_strlit("month <= ?1");
    reveal_strlit("SELECT category, month, amount, carryover FROM zero_budgets WHERE month <= ?1");
    assert("SELECT "@ + "category, month, amount, carryover"@ + " FROM "@ + "zero_budgets"@ + " WHERE "@ + "month <= ?1"@
        =~= "SELECT category, month, amount, carryover FROM zero_budgets WHERE month <= ?1"@);
}

proof fn entries_outputs()
    ensures
        joined(tracking_select().outputs.map_values(|o: Output| o.text()), ", "@)
            == "count(*)"@,
{
    assert(tracking_select().outputs.map_values(|o: Output| o.text()) =~= seq!["count(*)"@]) by {
    }
    assert(joined(seq!["count(*)"@], ", "@) == "count(*)"@);
}

proof fn entries_tables()
    ensures
        tables_text(tracking_select().first, tracking_select().joins)
            == "reflect_budgets"@,
{
}

proof fn entries_are_asked_for()
    ensures
        TRACKING@ == tracking_select().text(),
{
    entries_outputs();
    entries_tables();
    a_bare_text(tracking_select(), "count(*)"@, "reflect_budgets"@);
    entries_in_full();
}

proof fn entries_in_full()
    ensures
        "SELECT "@ + "count(*)"@ + " FROM "@ + "reflect_budgets"@
            == "SELECT count(*) FROM reflect_budgets"@,
{
    reveal_strlit("SELECT ");
    reveal_strlit("count(*)");
    reveal_strlit(" FROM ");
    reveal_strlit("reflect_budgets");
    reveal_strlit("SELECT count(*) FROM reflect_budgets");
    assert("SELECT "@ + "count(*)"@ + " FROM "@ + "reflect_budgets"@
        =~= "SELECT count(*) FROM reflect_budgets"@);
}

// ------------------------------------------------------------------ state -----
/// The question for the tables of a database.
pub open spec fn tables_select() -> Select {
    reads(
        seq![column("name"@)],
        "sqlite_master"@,
        seq![Test::Compare(Term::Column("type"@), Sign::Equal, Term::Text("table"@))],
    )
}

/// The question whether the library keeps a table of its own in a database.
pub open spec fn kept_select() -> Select {
    reads(
        seq![Output::Tally],
        "sqlite_master"@,
        seq![
            Test::Compare(Term::Column("type"@), Sign::Equal, Term::Text("table"@)),
            Test::Compare(Term::Column("name"@), Sign::Equal, Term::Text("mcp_state"@)),
        ],
    )
}

/// The question for what is kept under a key.
pub open spec fn value_select() -> Select {
    reads(seq![column("value"@)], "mcp_state"@, seq![column_and("key"@, Sign::Equal, 1)])
}

/// The question for the day of the newest transaction.
pub open spec fn newest_select() -> Select {
    reads(
        seq![Output::Greatest(Term::Column("date"@))],
        "transactions"@,
        seq![column_is("tombstone"@, 0)],
    )
}

/// What is kept is found by its key, and the newest transaction is the newest
/// of those that are not deleted.
pub proof fn what_is_kept_is_found_by_its_key(row: Row, key: Seq<char>)
    ensures
        TABLES@ == tables_select().text(),
        FIND_STATE@ == kept_select().text(),
        GET_STATE@ == value_select().text(),
        NEWEST@ == newest_select().text(),
        all_hold(tables_select().tests, row, Seq::empty()) <==> row("type"@) == Cell::Text(
            "table"@,
        ),
        all_hold(kept_select().tests, row, Seq::empty()) <==> row("type"@) == Cell::Text("table"@)
            && row("name"@) == Cell::Text("mcp_state"@),
        all_hold(value_select().tests, row, keyed(key)) <==> row("key"@) == Cell::Text(key),
        all_hold(newest_select().tests, row, Seq::empty()) <==> row("tombstone"@)
            == Cell::Integer(0),
{
    names_of_tables_are_asked_for();
    kept_tables_are_asked_for();
    kept_values_are_asked_for();
    newest_days_are_asked_for();
    let is_table = Test::Compare(Term::Column("type"@), Sign::Equal, Term::Text("table"@));
    let is_ours = Test::Compare(Term::Column("name"@), Sign::Equal, Term::Text("mcp_state"@));
    the_only_one_holds(is_table, row, Seq::empty());
    both_of_two_hold(is_table, is_ours, row, Seq::empty());
    the_only_one_holds(column_and("key"@, Sign::Equal, 1), row, keyed(key));
    the_only_one_holds(column_is("tombstone"@, 0), row, Seq::empty());
}

proof fn names_of_tables_outputs()
    ensures
        joined(tables_select().outputs.map_values(|o: Output| o.text()), ", "@)
            == "name"@,
{
    assert(tables_select().outputs.map_values(|o: Output| o.text()) =~= seq!["name"@]) by {
    }
    assert(joined(seq!["name"@], ", "@) == "name"@);
}

proof fn names_of_tables_tables()
    ensures
        tables_text(tables_select().first, tables_select().joins)
            == "sqlite_master"@,
{
}

proof fn names_of_tables_tests()
    ensures
        tests_text(tables_select().tests)
            == "type = 'table'"@,
{
    one_test_is_written_out(Test::Compare(Term::Column("type"@), Sign::Equal, Term::Text("table"@)));
    names_of_tables_tests_in_full();
}

proof fn names_of_tables_tests_in_full()
    ensures
        "type"@ + " = "@ + ("'"@ + "table"@ + "'"@)
            == "type = 'table'"@,
{
    reveal_strlit("type");
    reveal_strlit(" = ");
    reveal_strlit("'");
    reveal_strlit("table");
    reveal_strlit("type = 'table'");
    assert("type"@ + " = "@ + ("'"@ + "table"@ + "'"@)
        =~= "type = 'table'"@);
}

proof fn names_of_tables_are_asked_for()
    ensures
        TABLES@ == tables_select().text(),
{
    names_of_tables_outputs();
    names_of_tables_tables();
    names_of_tables_tests();
    a_plain_text(tables_select(), "name"@, "sqlite_master"@, "type = 'table'"@);
    names_of_tables_in_full();
}

proof fn names_of_tables_in_full()
    ensures
        "SELECT "@ + "name"@ + " FROM "@ + "sqlite_master"@ + " WHERE "@ + "type = 'table'"@
            == "SELECT name FROM sqlite_master WHERE type = 'table'"@,
{
    reveal_strlit("SELECT ");
    reveal_strlit("name");
    reveal_strlit(" FROM ");
    reveal_strlit("sqlite_master");
    reveal_strlit(" WHERE ");
    reveal_strlit("type = 'table'");
    reveal_strlit("SELECT name FROM sqlite_master WHERE type = 'table'");
    assert("SELECT "@ + "name"@ + " FROM "@ + "sqlite_master"@ + " WHERE "@ + "type = 'table'"@
        =~= "SELECT name FROM sqlite_master WHERE type = 'table'"@);
}

proof fn kept_tables_outputs()
    ensures
        joined(kept_select().outputs.map_values(|o: Output| o.text()), ", "@)
            == "count(*)"@,
{
    assert(kept_select().outputs.map_values(|o: Output| o.text()) =~= seq!["count(*)"@]) by {
    }
    assert(joined(seq!["count(*)"@], ", "@) == "count(*)"@);
}

proof fn kept_tables_tables()
    ensures
        tables_text(kept_select().first, kept_select().joins)
            == "sqlite_master"@,
{
}

proof fn kept_tables_tests()
    ensures
        tests_text(kept_select().tests)
            == "type = 'table' AND name = 'mcp_state'"@,
{
    two_tests_are_written_out(Test::Compare(Term::Column("type"@), Sign::Equal, Term::Text("table"@)), Test::Compare(Term::Column("name"@), Sign::Equal, Term::Text("mcp_state"@)));
    kept_tables_tests_in_full();
}

proof fn kept_tables_tests_in_full()
    ensures
        "type"@ + " = "@ + ("'"@ + "table"@ + "'"@) + " AND "@ + ("name"@ + " = "@ + ("'"@ + "mcp_state"@ + "'"@))
            == "type = 'table' AND name = 'mcp_state'"@,
{
    reveal_strlit("type");
    reveal_strlit(" = ");
    reveal_strlit("'");
    reveal_strlit("table");
    reveal_strlit(" AND ");
    reveal_strlit("name");
    reveal_strlit("mcp_state");
    reveal_strlit("type = 'table' AND name = 'mcp_state'");
    assert("type"@ + " = "@ + ("'"@ + "table"@ + "'"@) + " AND "@ + ("name"@ + " = "@ + ("'"@ + "mcp_state"@ + "'"@))
        =~= "type = 'table' AND name = 'mcp_state'"@);
}

proof fn kept_tables_are_asked_for()
    ensures
        FIND_STATE@ == kept_select().text(),
{
    kept_tables_outputs();
    kept_tables_tables();
    kept_tables_tests();
    a_plain_text(kept_select(), "count(*)"@, "sqlite_master"@, "type = 'table' AND name = 'mcp_state'"@);
    kept_tables_in_full();
}

proof fn kept_tables_in_full()
    ensures
        "SELECT "@ + "count(*)"@ + " FROM "@ + "sqlite_master"@ + " WHERE "@ + "type = 'table' AND name = 'mcp_state'"@
            == "SELECT count(*) FROM sqlite_master WHERE type = 'table' AND name = 'mcp_state'"@,
{
    reveal_strlit("SELECT ");
    reveal_strlit("count(*)");
    reveal_strlit(" FROM ");
    reveal_strlit("sqlite_master");
    reveal_strlit(" WHERE ");
    reveal_strlit("type = 'table' AND name = 'mcp_state'");
    reveal_strlit("SELECT count(*) FROM sqlite_master WHERE type = 'table' AND name = 'mcp_state'");
    assert("SELECT "@ + "count(*)"@ + " FROM "@ + "sqlite_master"@ + " WHERE "@ + "type = 'table' AND name = 'mcp_state'"@
        =~= "SELECT count(*) FROM sqlite_master WHERE type = 'table' AND name = 'mcp_state'"@);
}

proof fn kept_values_outputs()
    ensures
        joined(value_select().outputs.map_values(|o: Output| o.text()), ", "@)
            == "value"@,
{
    assert(value_select().outputs.map_values(|o: Output| o.text()) =~= seq!["value"@]) by {
    }
    assert(joined(seq!["value"@], ", "@) == "value"@);
}

proof fn kept_values_tables()
    ensures
        tables_text(value_select().first, value_select().joins)
            == "mcp_state"@,
{
}

proof fn kept_values_tests()
    ensures
        tests_text(value_select().tests)
            == "key = ?1"@,
{
    one_test_is_written_out(column_and("key"@, Sign::Equal, 1));
    assert(decimal(1) =~= seq!['1']);
    kept_values_tests_in_full();
}

proof fn kept_values_tests_in_full()
    ensures
        "key"@ + " = "@ + ("?"@ + seq!['1'])
            == "key = ?1"@,
{
    reveal_strlit("key");
    reveal_strlit(" = ");
    reveal_strlit("?");
    reveal_strlit("key = ?1");
    assert("key"@ + " = "@ + ("?"@ + seq!['1'])
        =~= "key = ?1"@);
}

proof fn kept_values_are_asked_for()
    ensures
        GET_STATE@ == value_select().text(),
{
    kept_values_outputs();
    kept_values_tables();
    kept_values_tests();
    a_plain_text(value_select(), "value"@, "mcp_state"@, "key = ?1"@);
    kept_values_in_full();
}

proof fn kept_values_in_full()
    ensures
        "SELECT "@ + "value"@ + " FROM "@ + "mcp_state"@ + " WHERE "@ + "key = ?1"@
            == "SELECT value FROM mcp_state WHERE key = ?1"@,
{
    reveal_strlit("SELECT ");
    reveal_strlit("value");
    reveal_strlit(" FROM ");
    reveal_strlit("mcp_state");
    reveal_strlit(" WHERE ");
    reveal_strlit("key = ?1");
    reveal_strlit("SELECT value FROM mcp_state WHERE key = ?1");
    assert("SELECT "@ + "value"@ + " FROM "@ + "mcp_state"@ + " WHERE "@ + "key = ?1"@
        =~= "SELECT value FROM mcp_state WHERE key = ?1"@);
}

proof fn newest_days_outputs()
    ensures
        joined(newest_select().outputs.map_values(|o: Output| o.text()), ", "@)
            == "max(date)"@,
{
    assert(newest_select().outputs.map_values(|o: Output| o.text()) =~= seq![("max("@ + "date"@ + ")"@)]) by {
    }
    assert(joined(seq![("max("@ + "date"@ + ")"@)], ", "@) == ("max("@ + "date"@ + ")"@));
    newest_days_outputs_in_full();
}

proof fn newest_days_outputs_in_full()
    ensures
        ("max("@ + "date"@ + ")"@)
            == "max(date)"@,
{
    reveal_strlit("max(");
    reveal_strlit("date");
    reveal_strlit(")");
    reveal_strlit("max(date)");
    assert(("max("@ + "date"@ + ")"@)
        =~= "max(date)"@);
}

proof fn newest_days_tables()
    ensures
        tables_text(newest_select().first, newest_select().joins)
            == "transactions"@,
{
}

proof fn newest_days_tests()
    ensures
        tests_text(newest_select().tests)
            == "tombstone = 0"@,
{
    one_test_is_written_out(column_is("tombstone"@, 0));
    assert(decimal(0) =~= seq!['0']);
    newest_days_tests_in_full();
}

proof fn newest_days_tests_in_full()
    ensures
        "tombstone"@ + " = "@ + seq!['0']
            == "tombstone = 0"@,
{
    reveal_strlit("tombstone");
    reveal_strlit(" = ");
    reveal_strlit("tombstone = 0");
    assert("tombstone"@ + " = "@ + seq!['0']
        =~= "tombstone = 0"@);
}

proof fn newest_days_are_asked_for()
    ensures
        NEWEST@ == newest_select().text(),
{
    newest_days_outputs();
    newest_days_tables();
    newest_days_tests();
    a_plain_text(newest_select(), "max(date)"@, "transactions"@, "tombstone = 0"@);
    newest_days_in_full();
}

proof fn newest_days_in_full()
    ensures
        "SELECT "@ + "max(date)"@ + " FROM "@ + "transactions"@ + " WHERE "@ + "tombstone = 0"@
            == "SELECT max(date) FROM transactions WHERE tombstone = 0"@,
{
    reveal_strlit("SELECT ");
    reveal_strlit("max(date)");
    reveal_strlit(" FROM ");
    reveal_strlit("transactions");
    reveal_strlit(" WHERE ");
    reveal_strlit("tombstone = 0");
    reveal_strlit("SELECT max(date) FROM transactions WHERE tombstone = 0");
    assert("SELECT "@ + "max(date)"@ + " FROM "@ + "transactions"@ + " WHERE "@ + "tombstone = 0"@
        =~= "SELECT max(date) FROM transactions WHERE tombstone = 0"@);
}

// ------------------------------------------------------------------ flows -----
/// The month of a transaction, from its day.
pub open spec fn month_of_day() -> Term {
    Term::Quotient(Box::new(Term::Column("t.date"@)), 100)
}

/// The question for what flowed in and out of categories, month by month.
pub open spec fn flows_select(scope: Scope) -> Select {
    Select {
        outputs: seq![
            column("t.category"@),
            output_as(Output::Plain(month_of_day()), "mo"@),
            Output::Sum(Term::Column("t.amount"@)),
        ],
        first: named("v_transactions"@, "t"@),
        joins: scoped_joins(),
        tests: scope_tests(scope).push(Test::IsNotNull(Term::Column("t.category"@))).push(
            Test::Compare(month_of_day(), Sign::AtMost, Term::Param(1)),
        ),
        groups: seq!["t.category"@, "mo"@],
        order: Seq::empty(),
        limit: None,
    }
}

/// What flows is every transaction that counts in the scope and has a category,
/// in the month that is asked for or before it, whichever way the money went.
pub proof fn flows_are_of_every_row_that_counts(scope: Scope, row: Row, month: nat, day: nat)
    requires
        row("t.date"@) == Cell::Integer(day as int),
    ensures
        flows_sql(scope) == flows_select(scope).text(),
        all_hold(flows_select(scope).tests, row, up_to(month)) <==> counts(scope, row) && !(row(
            "t.category"@,
        ) is Null) && day / 100 <= month,
{
    flows_are_asked_for(scope);
    a_scope_keeps_the_rows_that_count(scope);
    let rules = scope_tests(scope);
    let has_category = Test::IsNotNull(Term::Column("t.category"@));
    let in_time = Test::Compare(month_of_day(), Sign::AtMost, Term::Param(1));
    let params = up_to(month);
    one_more_holds(rules, has_category, row, params);
    one_more_holds(rules.push(has_category), in_time, row, params);
    assert(month_of_day().value(row, params) == Cell::Integer((day / 100) as int)) by {
        reveal_with_fuel(Term::value, 2);
    }
    assert(Term::Param(1).value(row, params) == Cell::Integer(month as int));
    assert(all_hold(rules, row, params) <==> counts(scope, row));
}

proof fn flows_are_asked_for(scope: Scope)
    ensures
        flows_sql(scope) == flows_select(scope).text(),
{
    let s = flows_select(scope);
    a_scope_keeps_the_rows_that_count(scope);
    a_scoped_query_joins_both_sides();
    flow_outputs(scope);
    flow_groups();
    let rules = scope_tests(scope);
    let has_category = Test::IsNotNull(Term::Column("t.category"@));
    let in_time = Test::Compare(month_of_day(), Sign::AtMost, Term::Param(1));
    assert(rules.len() >= 2);
    one_more_test(rules, has_category);
    one_more_test(rules.push(has_category), in_time);
    assert(decimal(100) =~= seq!['1', '0', '0']) by {
        reveal_with_fuel(decimal, 3);
    }
    assert(decimal(1) =~= seq!['1']);
    assert(in_time.text() =~= "t.date"@ + " / "@ + seq!['1', '0', '0'] + " <= "@ + ("?"@
        + seq!['1'])) by {
        reveal_with_fuel(Term::text, 2);
    }
    let outputs = "t.category, t.date / 100 AS mo, SUM(t.amount)"@;
    let end = " AND "@ + has_category.text() + " AND "@ + in_time.text();
    let groups = "t.category, mo"@;
    assert(s.text() =~= ("SELECT "@ + outputs + " FROM "@) + FROM@ + " WHERE "@ + scope.where_sql()
        + (end + (" GROUP BY "@ + groups)));
    flow_head();
    flow_end();
}

proof fn flow_groups()
    ensures
        joined(seq!["t.category"@, "mo"@], ", "@) == "t.category, mo"@,
{
    joined_two("t.category"@, "mo"@, ", "@);
    flow_groups_in_full();
}

proof fn flow_outputs(scope: Scope)
    ensures
        joined(flows_select(scope).outputs.map_values(|o: Output| o.text()), ", "@)
            == "t.category, t.date / 100 AS mo, SUM(t.amount)"@,
{
    let month = "t.date"@ + " / "@ + seq!['1', '0', '0'] + " AS "@ + "mo"@;
    let sum = "SUM("@ + "t.amount"@ + ")"@;
    assert(decimal(100) =~= seq!['1', '0', '0']) by {
        reveal_with_fuel(decimal, 3);
    }
    assert(flows_select(scope).outputs.map_values(|o: Output| o.text()) =~= seq![
        "t.category"@,
        month,
        sum,
    ]) by {
        reveal_with_fuel(Output::text, 2);
        reveal_with_fuel(Term::text, 2);
    }
    joined_three("t.category"@, month, sum, ", "@);
    flow_outputs_in_full();
}

proof fn flow_groups_in_full()
    ensures
        "t.category"@ + ", "@ + "mo"@
            == "t.category, mo"@,
{
    reveal_strlit("t.category");
    reveal_strlit(", ");
    reveal_strlit("mo");
    reveal_strlit("t.category, mo");
    assert("t.category"@ + ", "@ + "mo"@
        =~= "t.category, mo"@);
}

proof fn flow_outputs_in_full()
    ensures
        "t.category"@ + ", "@ + ("t.date"@ + " / "@ + seq!['1', '0', '0'] + " AS "@ + "mo"@) + ", "@ + ("SUM("@ + "t.amount"@ + ")"@)
            == "t.category, t.date / 100 AS mo, SUM(t.amount)"@,
{
    reveal_strlit("t.category");
    reveal_strlit(", ");
    reveal_strlit("t.date");
    reveal_strlit(" / ");
    reveal_strlit(" AS ");
    reveal_strlit("mo");
    reveal_strlit("SUM(");
    reveal_strlit("t.amount");
    reveal_strlit(")");
    reveal_strlit("t.category, t.date / 100 AS mo, SUM(t.amount)");
    assert("t.category"@ + ", "@ + ("t.date"@ + " / "@ + seq!['1', '0', '0'] + " AS "@ + "mo"@) + ", "@ + ("SUM("@ + "t.amount"@ + ")"@)
        =~= "t.category, t.date / 100 AS mo, SUM(t.amount)"@);
}

proof fn flow_head()
    ensures
        "SELECT "@ + "t.category, t.date / 100 AS mo, SUM(t.amount)"@ + " FROM "@
            == "SELECT t.category, t.date / 100 AS mo, SUM(t.amount) FROM "@,
{
    reveal_strlit("SELECT ");
    reveal_strlit("t.category, t.date / 100 AS mo, SUM(t.amount)");
    reveal_strlit(" FROM ");
    reveal_strlit("SELECT t.category, t.date / 100 AS mo, SUM(t.amount) FROM ");
    assert("SELECT "@ + "t.category, t.date / 100 AS mo, SUM(t.amount)"@ + " FROM "@
        =~= "SELECT t.category, t.date / 100 AS mo, SUM(t.amount) FROM "@);
}

proof fn flow_end()
    ensures
        " AND "@ + ("t.category"@ + " IS NOT NULL"@) + " AND "@ + ("t.date"@ + " / "@ + seq!['1', '0', '0'] + " <= "@ + ("?"@ + seq!['1'])) + (" GROUP BY "@ + "t.category, mo"@)
            == " AND t.category IS NOT NULL AND t.date / 100 <= ?1 GROUP BY t.category, mo"@,
{
    reveal_strlit(" AND ");
    reveal_strlit("t.category");
    reveal_strlit(" IS NOT NULL");
    reveal_strlit("t.date");
    reveal_strlit(" / ");
    reveal_strlit(" <= ");
    reveal_strlit("?");
    reveal_strlit(" GROUP BY ");
    reveal_strlit("t.category, mo");
    reveal_strlit(" AND t.category IS NOT NULL AND t.date / 100 <= ?1 GROUP BY t.category, mo");
    assert(" AND "@ + ("t.category"@ + " IS NOT NULL"@) + " AND "@ + ("t.date"@ + " / "@ + seq!['1', '0', '0'] + " <= "@ + ("?"@ + seq!['1'])) + (" GROUP BY "@ + "t.category, mo"@)
        =~= " AND t.category IS NOT NULL AND t.date / 100 <= ?1 GROUP BY t.category, mo"@);
}

// ---------------------------------------------------------------- keeping -----
/// What is kept, by its key.
pub type Kept = spec_fn(Seq<char>) -> Option<Cell>;

/// A statement that keeps the value that is bound second under the key that is
/// bound first, and `value` where something is kept there already.
pub struct Keep {
    pub table: Seq<char>,
    pub key: Seq<char>,
    pub column: Seq<char>,
    pub value: Term,
}

impl Keep {
    pub open spec fn text(self) -> Seq<char> {
        "INSERT INTO "@ + self.table + " ("@ + self.key + ", "@ + self.column
            + ") VALUES (?1, ?2) ON CONFLICT("@ + self.key + ") DO UPDATE SET "@ + self.column
            + " = "@ + self.value.text()
    }

    /// What is kept once the statement has run.
    pub open spec fn leaves(self, before: Kept, params: Seq<Cell>) -> Kept {
        |key: Seq<char>|
            if Cell::Text(key) == params[0] {
                Some(
                    match before(key) {
                        Some(value) => self.value.value(
                            |column: Seq<char>|
                                if column == self.column {
                                    value
                                } else {
                                    params[0]
                                },
                            params,
                        ),
                        None => params[1],
                    },
                )
            } else {
                before(key)
            }
    }
}

/// What a statement that keeps something leaves is what it was given last, and
/// everything else as it was.
pub proof fn what_is_kept_last_stays(key: Seq<char>, value: Seq<char>, before: Kept)
    ensures
        exists|keep: Keep| #[trigger]
            keep.text() == set_state(key, value).sql && {
                let after = keep.leaves(before, set_state(key, value).params);
                &&& keep.table == "mcp_state"@
                &&& after(key) == Some(Cell::Text(value))
                &&& forall|other: Seq<char>| other != key ==> #[trigger] after(other) == before(
                    other,
                )
            },
{
    let keep = Keep {
        table: "mcp_state"@,
        key: "key"@,
        column: "value"@,
        value: Term::Param(2),
    };
    assert(decimal(2) =~= seq!['2']);
    keeping_in_full();
    assert(keep.text() == set_state(key, value).sql);
    let params = set_state(key, value).params;
    let after = keep.leaves(before, params);
    assert(after(key) == Some(Cell::Text(value)));
    assert forall|other: Seq<char>| other != key implies #[trigger] after(other) == before(
        other,
    ) by {}
}

proof fn keeping_in_full()
    ensures
        "INSERT INTO "@ + "mcp_state"@ + " ("@ + "key"@ + ", "@ + "value"@ + ") VALUES (?1, ?2) ON CONFLICT("@ + "key"@ + ") DO UPDATE SET "@ + "value"@ + " = "@ + ("?"@ + seq!['2'])
            == "INSERT INTO mcp_state (key, value) VALUES (?1, ?2) ON CONFLICT(key) DO UPDATE SET value = ?2"@,
{
    reveal_strlit("INSERT INTO ");
    reveal_strlit("mcp_state");
    reveal_strlit(" (");
    reveal_strlit("key");
    reveal_strlit(", ");
    reveal_strlit("value");
    reveal_strlit(") VALUES (?1, ?2) ON CONFLICT(");
    reveal_strlit(") DO UPDATE SET ");
    reveal_strlit(" = ");
    reveal_strlit("?");
    reveal_strlit("INSERT INTO mcp_state (key, value) VALUES (?1, ?2) ON CONFLICT(key) DO UPDATE SET value = ?2");
    assert("INSERT INTO "@ + "mcp_state"@ + " ("@ + "key"@ + ", "@ + "value"@ + ") VALUES (?1, ?2) ON CONFLICT("@ + "key"@ + ") DO UPDATE SET "@ + "value"@ + " = "@ + ("?"@ + seq!['2'])
        =~= "INSERT INTO mcp_state (key, value) VALUES (?1, ?2) ON CONFLICT(key) DO UPDATE SET value = ?2"@);
}

} // verus!
