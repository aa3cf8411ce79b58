//! Which transactions a question is about.
//!
//! The statements about transactions, read as SQL: which of the joined rows
//! they keep, and what they make of them.
use vstd::prelude::*;

use crate::queries::scope::{
    a_scope_keeps_the_rows_that_count, a_scoped_query_joins_both_sides, counts, named,
    one_test_is_written_out, same, scope_tests, scoped_joins, Scope, FROM,
};
use crate::queries::transactions::{
    bound, category_sum, conditions, count_sql, escape, escaped, listing_from, listing_where,
    numbered, page_sql, period, spending_sql, Condition, Filters, UNCATEGORISED,
};
use crate::store::language::{
    all_hold, answers_groups, answers_rows, folded, grouped, groups_make_the_whole, like,
    may_precede, mentioned, same_but_for_case, sorts_before, sum, sum_of_groups, tables_text,
    tests_text, with_key, Join, Order, Output, Row, Select, Sign, Source, Term, Test,
};
use crate::store::sql::Cell;
use crate::text::{decimal, joined, text_order_is_total};

verus! {

// -------------------------------------------------------------- spending -----
/// The join with the category of a transaction.
pub open spec fn with_category() -> Join {
    Join {
        loosely: true,
        source: named("categories"@, "cat"@),
        on: seq![same("cat.id"@, "t.category"@)],
    }
}

/// Something under another name.
pub open spec fn output_as(output: Output, name: Seq<char>) -> Output {
    Output::Named(Box::new(output), name)
}

/// A value of a column, or another where it is null.
pub open spec fn column_or(column: Seq<char>, other: Term) -> Output {
    Output::Plain(Term::Coalesce(Box::new(Term::Column(column)), Box::new(other)))
}

/// The question for totals per category.
pub open spec fn spending_select(scope: Scope) -> Select {
    Select {
        outputs: seq![
            output_as(column_or("cat.name"@, Term::Text("Uncategorised"@)), "category"@),
            output_as(column_or("cat.is_income"@, Term::Number(0)), "is_income"@),
            output_as(Output::Sum(Term::Column("t.amount"@)), "total"@),
            output_as(Output::Count, "n"@),
        ],
        first: named("v_transactions"@, "t"@),
        joins: scoped_joins().push(with_category()),
        tests: scope_tests(scope).push(
            Test::Between(Term::Column("t.date"@), Term::Param(1), Term::Param(2)),
        ),
        groups: seq!["cat.id"@],
        order: seq![Order { by: "total"@, descending: Some(false) }],
        limit: None,
    }
}

/// The row's date lies in the period, its ends among it.
pub open spec fn in_period(row: Row, from: nat, to: nat) -> bool {
    row("t.date"@) matches Cell::Integer(date) && from <= date <= to
}

/// Those of the joined rows that count in the scope and lie in the period,
/// whatever their amount or category.
pub open spec fn counted(rows: Seq<Row>, scope: Scope, from: nat, to: nat) -> Seq<Row> {
    rows.filter(|row: Row| counts(scope, row) && in_period(row, from, to))
}

/// The amounts of some rows, together.
pub open spec fn amounts(rows: Seq<Row>) -> int {
    sum(rows, Term::Column("t.amount"@), Seq::empty())
}

/// The statement for totals is this question, word for word.
pub proof fn the_totals_are_asked_for(scope: Scope)
    ensures
        spending_sql(scope) == spending_select(scope).text(),
{
    a_scope_keeps_the_rows_that_count(scope);
    a_scoped_query_joins_both_sides();
    let s = spending_select(scope);
    outputs_of_the_totals(s.outputs);
    tests_of_the_totals(scope, s.tests);
    tables_of_the_totals(s.first, s.joins);
    assert(joined(s.groups, ", "@) == "cat.id"@);
    assert(s.order.map_values(|o: Order| o.text()) =~= seq!["total"@ + " ASC"@]);
    assert(joined(seq!["total"@ + " ASC"@], ", "@) == "total"@ + " ASC"@);
    the_end_of_the_totals();
    let outputs = "SELECT "@ + joined(s.outputs.map_values(|o: Output| o.text()), ", "@)
        + " FROM "@;
    let between = "t.date"@ + " BETWEEN "@ + "?1"@ + " AND "@ + "?2"@;
    let (groups, order) = (" GROUP BY "@ + "cat.id"@, " ORDER BY "@ + ("total"@ + " ASC"@));
    regrouped(
        outputs,
        tables_text(s.first, s.joins),
        " WHERE "@,
        scope.where_sql(),
        " AND "@,
        between,
        groups,
        order,
    );
    assert(s.tests.len() > 0);
    assert(spending_sql(scope) == outputs + (tables_text(s.first, s.joins) + " WHERE "@)
        + scope.where_sql() + (" AND "@ + between + groups + order)) by {
        let tables = tables_text(s.first, s.joins);
        assert(outputs + (tables + " WHERE "@) =~= outputs + FROM@
            + " LEFT JOIN categories cat ON cat.id = t.category WHERE "@);
    }
}

proof fn regrouped(
    a: Seq<char>,
    b: Seq<char>,
    c: Seq<char>,
    d: Seq<char>,
    e: Seq<char>,
    f: Seq<char>,
    g: Seq<char>,
    h: Seq<char>,
)
    ensures
        a + b + (c + (d + e + f)) + g + h + Seq::<char>::empty() == a + (b + c) + d + (e + f + g
            + h),
{
    assert(a + b + (c + (d + e + f)) + g + h + Seq::<char>::empty() =~= a + (b + c) + d + (e + f
        + g + h));
}

proof fn outputs_of_the_totals(outputs: Seq<Output>)
    requires
        outputs == spending_select(Scope::spending()).outputs,
    ensures
        "SELECT "@ + joined(outputs.map_values(|o: Output| o.text()), ", "@) + " FROM "@
            == "SELECT COALESCE(cat.name, '"@ + UNCATEGORISED@
            + "') AS category, COALESCE(cat.is_income, 0) AS is_income, SUM(t.amount) AS total, COUNT(*) AS n FROM "@,
{
    reveal_with_fuel(Output::text, 3);
    reveal_with_fuel(Term::text, 3);
    reveal_with_fuel(joined, 5);
    let texts = outputs.map_values(|o: Output| o.text());
    reveal_strlit("SELECT ");
    reveal_strlit(" FROM ");
    reveal_strlit(", ");
    reveal_strlit("'");
    reveal_strlit("COALESCE(");
    reveal_strlit(")");
    reveal_strlit(" AS ");
    reveal_strlit("SUM(");
    reveal_strlit("COUNT(*)");
    reveal_strlit("cat.name");
    reveal_strlit("Uncategorised");
    reveal_strlit("category");
    reveal_strlit("cat.is_income");
    reveal_strlit("is_income");
    reveal_strlit("t.amount");
    reveal_strlit("total");
    reveal_strlit("n");
    reveal_strlit("SELECT COALESCE(cat.name, '");
    reveal_strlit(
        "') AS category, COALESCE(cat.is_income, 0) AS is_income, SUM(t.amount) AS total, COUNT(*) AS n FROM ",
    );
    assert(decimal(0) =~= seq!['0']);
    let a = "COALESCE("@ + "cat.name"@ + ", "@ + ("'"@ + "Uncategorised"@ + "'"@) + ")"@ + " AS "@
        + "category"@;
    let b = "COALESCE("@ + "cat.is_income"@ + ", "@ + seq!['0'] + ")"@ + " AS "@ + "is_income"@;
    let c = "SUM("@ + "t.amount"@ + ")"@ + " AS "@ + "total"@;
    let d = "COUNT(*)"@ + " AS "@ + "n"@;
    assert(texts[0] =~= a);
    assert(texts[1] =~= b);
    assert(texts[2] =~= c);
    assert(texts[3] =~= d);
    assert(texts =~= seq![a, b, c, d]);
    let all = seq![a, b, c, d];
    assert(all.drop_last() =~= seq![a, b, c]);
    assert(seq![a, b, c].drop_last() =~= seq![a, b]);
    assert(seq![a, b].drop_last() =~= seq![a]);
    assert(joined(all, ", "@) =~= a + ", "@ + b + ", "@ + c + ", "@ + d);
    assert("SELECT "@ + a =~= "SELECT COALESCE(cat.name, '"@ + "Uncategorised"@
        + "') AS category"@) by {
        reveal_strlit("') AS category");
    }
    assert(", "@ + b =~= ", COALESCE(cat.is_income, 0) AS is_income"@) by {
        reveal_strlit(", COALESCE(cat.is_income, 0) AS is_income");
    }
    assert("') AS category"@ + ", COALESCE(cat.is_income, 0) AS is_income"@ + ", "@ + c + ", "@ + d
        + " FROM "@
        =~= "') AS category, COALESCE(cat.is_income, 0) AS is_income, SUM(t.amount) AS total, COUNT(*) AS n FROM "@)
        by {
        reveal_strlit("') AS category");
        reveal_strlit(", COALESCE(cat.is_income, 0) AS is_income");
    }
    let left = "SELECT "@ + joined(all, ", "@) + " FROM "@;
    assert(left =~= ("SELECT "@ + a) + (", "@ + b) + ", "@ + c + ", "@ + d + " FROM "@);
}

proof fn tests_of_the_totals(scope: Scope, tests: Seq<Test>)
    requires
        tests == spending_select(scope).tests,
    ensures
        tests_text(tests) == scope.where_sql() + " AND "@ + ("t.date"@ + " BETWEEN "@ + "?1"@
            + " AND "@ + "?2"@),
{
    a_scope_keeps_the_rows_that_count(scope);
    reveal_strlit("?");
    reveal_strlit("?1");
    reveal_strlit("?2");
    assert(decimal(1) =~= seq!['1']);
    assert(decimal(2) =~= seq!['2']);
    assert("?"@ + decimal(1) =~= "?1"@);
    assert("?"@ + decimal(2) =~= "?2"@);
    let rules = scope_tests(scope);
    let last = Test::Between(Term::Column("t.date"@), Term::Param(1), Term::Param(2));
    assert(last.text() =~= "t.date"@ + " BETWEEN "@ + "?1"@ + " AND "@ + "?2"@);
    one_more_test(rules, last);
}

/// A test more is joined with `AND`.
pub proof fn one_more_test(tests: Seq<Test>, test: Test)
    requires
        tests.len() > 0,
    ensures
        tests_text(tests.push(test)) == tests_text(tests) + " AND "@ + test.text(),
{
    let texts = tests.map_values(|t: Test| t.text());
    let more = tests.push(test).map_values(|t: Test| t.text());
    assert(more =~= texts.push(test.text()));
    assert(more.drop_last() =~= texts);
}

proof fn tables_of_the_totals(first: Source, joins: Seq<Join>)
    requires
        first == named("v_transactions"@, "t"@),
        joins == scoped_joins().push(with_category()),
    ensures
        tables_text(first, joins) + " WHERE "@ == FROM@
            + " LEFT JOIN categories cat ON cat.id = t.category WHERE "@,
{
    a_scoped_query_joins_both_sides();
    assert(joins.drop_last() =~= scoped_joins());
    assert(tables_text(first, joins) == FROM@ + with_category().text());
    one_test_is_written_out(same("cat.id"@, "t.category"@));
    reveal_strlit(" LEFT JOIN ");
    reveal_strlit("categories");
    reveal_strlit(" ");
    reveal_strlit("cat");
    reveal_strlit(" ON ");
    reveal_strlit("cat.id");
    reveal_strlit(" = ");
    reveal_strlit("t.category");
    reveal_strlit(" WHERE ");
    reveal_strlit(" LEFT JOIN categories cat ON cat.id = t.category WHERE ");
    assert(with_category().text() + " WHERE "@
        =~= " LEFT JOIN categories cat ON cat.id = t.category WHERE "@);
    assert(tables_text(first, joins) + " WHERE "@ =~= FROM@ + (with_category().text() + " WHERE "@));
}

proof fn the_end_of_the_totals()
    ensures
        " AND "@ + ("t.date"@ + " BETWEEN "@ + "?1"@ + " AND "@ + "?2"@) + (" GROUP BY "@
            + "cat.id"@) + (" ORDER BY "@ + ("total"@ + " ASC"@))
            == " AND t.date BETWEEN ?1 AND ?2 GROUP BY cat.id ORDER BY total ASC"@,
{
    reveal_strlit(" AND ");
    reveal_strlit("t.date");
    reveal_strlit(" BETWEEN ");
    reveal_strlit("?1");
    reveal_strlit("?2");
    reveal_strlit(" GROUP BY ");
    reveal_strlit("cat.id");
    reveal_strlit(" ORDER BY ");
    reveal_strlit("total");
    reveal_strlit(" ASC");
    reveal_strlit(" AND t.date BETWEEN ?1 AND ?2 GROUP BY cat.id ORDER BY total ASC");
    assert(" AND "@ + ("t.date"@ + " BETWEEN "@ + "?1"@ + " AND "@ + "?2"@) + (" GROUP BY "@
        + "cat.id"@) + (" ORDER BY "@ + ("total"@ + " ASC"@))
        =~= " AND t.date BETWEEN ?1 AND ?2 GROUP BY cat.id ORDER BY total ASC"@);
}

/// The numbers in a column of an answer, together.
pub open spec fn column_sum(answer: Seq<Seq<Cell>>, column: int) -> int
    decreases answer.len(),
{
    if answer.len() == 0 {
        0
    } else {
        column_sum(answer.drop_last(), column) + match answer.last()[column] {
            Cell::Integer(n) => n,
            _ => 0,
        }
    }
}

/// What a line of totals says of a group of rows: the category they have, or
/// that they have none, the sum of their amounts and how many they are.
pub open spec fn totals(line: Seq<Cell>, group: Seq<Row>) -> bool {
    &&& group.len() > 0
    &&& line.len() == 4
    &&& line[0] == (if group[0]("cat.name"@) is Null {
        Cell::Text("Uncategorised"@)
    } else {
        group[0]("cat.name"@)
    })
    &&& line[1] == (if group[0]("cat.is_income"@) is Null {
        Cell::Integer(0)
    } else {
        group[0]("cat.is_income"@)
    })
    &&& line[2] == Cell::Integer(amounts(group))
    &&& line[3] == Cell::Integer(group.len() as int)
}

/// Which rows the totals are over: a row counts towards the total of its
/// category exactly where it counts in the scope and lies in the period,
/// whatever its amount, and so does one without a category. No row counts
/// twice, and the totals together are the amounts of all such rows.
pub proof fn totals_are_over_every_row_that_counts(
    scope: Scope,
    from: nat,
    to: nat,
    rows: Seq<Row>,
    keys: Seq<Cell>,
    answer: Seq<Seq<Cell>>,
)
    requires
        answers_groups(spending_select(scope), rows, period(from, to), keys, answer),
    ensures
        grouped(counted(rows, scope, from, to), "cat.id"@, keys),
        answer.len() == keys.len(),
        forall|i: int|
            0 <= i < keys.len() ==> totals(
                #[trigger] answer[i],
                with_key(counted(rows, scope, from, to), "cat.id"@, keys[i]),
            ),
        column_sum(answer, 2) == amounts(counted(rows, scope, from, to)),
{
    let select = spending_select(scope);
    let params = period(from, to);
    let kept = select.kept(rows, params);
    the_totals_keep_what_counts(scope, from, to, rows);
    let amount = Term::Column("t.amount"@);
    assert forall|i: int| 0 <= i < keys.len() implies totals(
        #[trigger] answer[i],
        with_key(kept, "cat.id"@, keys[i]),
    ) by {
        let group = with_key(kept, "cat.id"@, keys[i]);
        assert(answer[i] == select.put_out(group, params));
        reveal_with_fuel(Output::of, 2);
        reveal_with_fuel(Term::value, 2);
        columns_need_no_params(group, "t.amount"@, params);
        assert(select.put_out(group, params)[0] == select.outputs[0].of(group, params));
        assert(select.put_out(group, params)[1] == select.outputs[1].of(group, params));
        assert(select.put_out(group, params)[2] == select.outputs[2].of(group, params));
        assert(select.put_out(group, params)[3] == select.outputs[3].of(group, params));
    }
    groups_make_the_whole(kept, "cat.id"@, keys, amount, Seq::empty());
    totals_add_up(kept, keys, answer);
}

proof fn the_totals_keep_what_counts(scope: Scope, from: nat, to: nat, rows: Seq<Row>)
    ensures
        spending_select(scope).kept(rows, period(from, to)) == counted(rows, scope, from, to),
{
    a_scope_keeps_the_rows_that_count(scope);
    let tests = spending_select(scope).tests;
    let params = period(from, to);
    let rules = scope_tests(scope);
    let between = Test::Between(Term::Column("t.date"@), Term::Param(1), Term::Param(2));
    let kept = |row: Row| all_hold(tests, row, params);
    let wanted = |row: Row| counts(scope, row) && in_period(row, from, to);
    assert forall|row: Row| #[trigger] kept(row) == wanted(row) by {
        one_more_holds(rules, between, row, params);
        assert(between.holds(row, params) <==> in_period(row, from, to));
    }
    assert(kept =~= wanted);
}

/// A test more holds with the others where it holds too.
pub proof fn one_more_holds(tests: Seq<Test>, test: Test, row: Row, params: Seq<Cell>)
    ensures
        all_hold(tests.push(test), row, params) <==> all_hold(tests, row, params) && test.holds(
            row,
            params,
        ),
{
    let more = tests.push(test);
    if all_hold(more, row, params) {
        assert(more[tests.len() as int].holds(row, params));
        assert forall|i: int| 0 <= i < tests.len() implies (#[trigger] tests[i]).holds(
            row,
            params,
        ) by {
            assert(more[i].holds(row, params));
        }
    }
}

proof fn columns_need_no_params(rows: Seq<Row>, column: Seq<char>, params: Seq<Cell>)
    ensures
        sum(rows, Term::Column(column), params) == sum(rows, Term::Column(column), Seq::empty()),
    decreases rows.len(),
{
    if rows.len() > 0 {
        columns_need_no_params(rows.drop_last(), column, params);
    }
}

proof fn totals_add_up(kept: Seq<Row>, keys: Seq<Cell>, answer: Seq<Seq<Cell>>)
    requires
        answer.len() == keys.len(),
        forall|i: int|
            0 <= i < keys.len() ==> totals(
                #[trigger] answer[i],
                with_key(kept, "cat.id"@, keys[i]),
            ),
    ensures
        column_sum(answer, 2) == sum_of_groups(
            kept,
            "cat.id"@,
            keys,
            Term::Column("t.amount"@),
            Seq::empty(),
        ),
    decreases keys.len(),
{
    if keys.len() > 0 {
        assert forall|i: int| 0 <= i < keys.drop_last().len() implies totals(
            #[trigger] answer.drop_last()[i],
            with_key(kept, "cat.id"@, keys.drop_last()[i]),
        ) by {
            assert(answer.drop_last()[i] == answer[i]);
        }
        totals_add_up(kept, keys.drop_last(), answer.drop_last());
        assert(totals(answer[keys.len() - 1], with_key(kept, "cat.id"@, keys[keys.len() - 1])));
    }
}

// --------------------------------------------------------------- listing -----
/// The comparison of a column with a parameter.
pub open spec fn column_and(column: Seq<char>, sign: Sign, n: nat) -> Test {
    Test::Compare(Term::Column(column), sign, Term::Param(n))
}

/// The test whether a column, or nothing where it is null, fits the pattern in
/// a parameter.
pub open spec fn column_like(column: Seq<char>, n: nat) -> Test {
    Test::Like(
        Term::Coalesce(Box::new(Term::Column(column)), Box::new(Term::Text(Seq::empty()))),
        Term::Param(n),
    )
}

/// A condition as a test of a joined row, with its value in parameter `n`.
pub open spec fn condition_test(condition: Condition, n: nat) -> Test {
    match condition {
        Condition::From(_) => column_and("t.date"@, Sign::AtLeast, n),
        Condition::To(_) => column_and("t.date"@, Sign::AtMost, n),
        Condition::Account(_) => column_and("t.account"@, Sign::Equal, n),
        Condition::Category(_) => column_and("t.category"@, Sign::Equal, n),
        Condition::Payee(_) => column_and("t.payee"@, Sign::Equal, n),
        Condition::AtLeast(_) => column_and("t.amount"@, Sign::AtLeast, n),
        Condition::AtMost(_) => column_and("t.amount"@, Sign::AtMost, n),
        Condition::Mentions(_) => Test::Either(
            Box::new(column_like("t.notes"@, n)),
            Box::new(column_like("vp.name"@, n)),
        ),
    }
}

/// Conditions as tests of a joined row; each has its value in the parameter of
/// its own place.
pub open spec fn condition_tests(wanted: Seq<Condition>) -> Seq<Test> {
    Seq::new(wanted.len(), |i: int| condition_test(wanted[i], (i + 1) as nat))
}

/// A text, or nothing where it is null, mentions another, in whatever case.
pub open spec fn cell_mentions(cell: Cell, text: Seq<char>) -> bool {
    match cell {
        Cell::Text(held) => mentioned(held, text),
        Cell::Null => text.len() == 0,
        _ => false,
    }
}

/// The joined row meets the filters: every one that is set, and there is no
/// other.
pub open spec fn meets(filters: Filters, row: Row) -> bool {
    &&& filters.from matches Some(from) ==> (row("t.date"@) matches Cell::Integer(date) && date
        >= from)
    &&& filters.to matches Some(to) ==> (row("t.date"@) matches Cell::Integer(date) && date <= to)
    &&& filters.account_id matches Some(id) ==> row("t.account"@) == Cell::Text(id)
    &&& filters.category_id matches Some(id) ==> row("t.category"@) == Cell::Text(id)
    &&& filters.payee_id matches Some(id) ==> row("t.payee"@) == Cell::Text(id)
    &&& filters.min_amount matches Some(min) ==> (row("t.amount"@) matches Cell::Integer(amount)
        && amount >= min)
    &&& filters.max_amount matches Some(max) ==> (row("t.amount"@) matches Cell::Integer(amount)
        && amount <= max)
    &&& filters.notes_contains matches Some(text) ==> cell_mentions(row("t.notes"@), text)
        || cell_mentions(row("vp.name"@), text)
}

/// The tests that a listing puts to a joined row.
pub open spec fn listing_tests(filters: Filters, scope: Scope) -> Seq<Test> {
    scope_tests(scope) + condition_tests(conditions(filters))
}

/// Every filter that is set is asked for, and nothing else: a listing keeps
/// exactly the joined rows that count in the scope and meet the filters.
pub proof fn a_listing_keeps_what_meets_the_filters(filters: Filters, scope: Scope)
    ensures
        listing_where(conditions(filters), scope) == tests_text(listing_tests(filters, scope)),
        forall|row: Row|
            #[trigger] all_hold(listing_tests(filters, scope), row, bound(conditions(filters)))
                <==> counts(scope, row) && meets(filters, row),
{
    let wanted = conditions(filters);
    let (rules, more) = (scope_tests(scope), condition_tests(wanted));
    let params = bound(wanted);
    a_scope_keeps_the_rows_that_count(scope);
    let (a, b) = (
        rules.map_values(|t: Test| t.text()),
        more.map_values(|t: Test| t.text()),
    );
    assert(b =~= numbered(wanted)) by {
        assert forall|i: int| 0 <= i < wanted.len() implies b[i] == numbered(wanted)[i] by {
            conditions_are_written_out(wanted[i], (i + 1) as nat);
        }
    }
    joined_in_parts(a, b, " AND "@);
    assert((rules + more).map_values(|t: Test| t.text()) =~= a + b);
    assert forall|row: Row|
        #[trigger] all_hold(listing_tests(filters, scope), row, params) <==> counts(scope, row)
            && meets(filters, row) by {
        both_hold(rules, more, row, params);
        conditions_mean_the_filters(filters, row);
        assert forall|i: int| 0 <= i < wanted.len() implies (#[trigger] more[i].holds(row, params)
            <==> is_met(wanted[i], row)) by {
            assert(params[i] == wanted[i].value());
            a_condition_asks_for_what_it_says(wanted[i], (i + 1) as nat, row, params);
        }
        if all_met(wanted, row) {
            assert forall|i: int| 0 <= i < more.len() implies (#[trigger] more[i]).holds(
                row,
                params,
            ) by {
                assert(is_met(wanted[i], row));
            }
        }
        if all_hold(more, row, params) {
            assert forall|i: int| 0 <= i < wanted.len() implies is_met(
                #[trigger] wanted[i],
                row,
            ) by {
                assert(more[i].holds(row, params));
            }
        }
    }
}

/// What a condition says of a joined row.
spec fn is_met(condition: Condition, row: Row) -> bool {
    match condition {
        Condition::From(from) => row("t.date"@) matches Cell::Integer(date) && date >= from,
        Condition::To(to) => row("t.date"@) matches Cell::Integer(date) && date <= to,
        Condition::Account(id) => row("t.account"@) == Cell::Text(id),
        Condition::Category(id) => row("t.category"@) == Cell::Text(id),
        Condition::Payee(id) => row("t.payee"@) == Cell::Text(id),
        Condition::AtLeast(min) => row("t.amount"@) matches Cell::Integer(amount) && amount >= min,
        Condition::AtMost(max) => row("t.amount"@) matches Cell::Integer(amount) && amount <= max,
        Condition::Mentions(text) => cell_mentions(row("t.notes"@), text) || cell_mentions(
            row("vp.name"@),
            text,
        ),
    }
}

spec fn all_met(wanted: Seq<Condition>, row: Row) -> bool {
    forall|i: int| 0 <= i < wanted.len() ==> is_met(#[trigger] wanted[i], row)
}

proof fn one_more_is_met(wanted: Seq<Condition>, condition: Condition, row: Row)
    ensures
        all_met(wanted.push(condition), row) <==> all_met(wanted, row) && is_met(condition, row),
{
    let more = wanted.push(condition);
    if all_met(more, row) {
        assert(is_met(more[wanted.len() as int], row));
        assert forall|i: int| 0 <= i < wanted.len() implies is_met(#[trigger] wanted[i], row) by {
            assert(is_met(more[i], row));
        }
    }
}

spec fn pushed_if_any(wanted: Seq<Condition>, condition: Option<Condition>) -> Seq<Condition> {
    match condition {
        Some(condition) => wanted.push(condition),
        None => wanted,
    }
}

proof fn conditions_mean_the_filters(filters: Filters, row: Row)
    ensures
        all_met(conditions(filters), row) <==> meets(filters, row),
{
    let none = Seq::<Condition>::empty();
    let a = pushed_if_any(
        none,
        match filters.from {
            Some(d) => Some(Condition::From(d)),
            None => None,
        },
    );
    let b = pushed_if_any(
        a,
        match filters.to {
            Some(d) => Some(Condition::To(d)),
            None => None,
        },
    );
    let c = pushed_if_any(
        b,
        match filters.account_id {
            Some(id) => Some(Condition::Account(id)),
            None => None,
        },
    );
    let d = pushed_if_any(
        c,
        match filters.category_id {
            Some(id) => Some(Condition::Category(id)),
            None => None,
        },
    );
    let e = pushed_if_any(
        d,
        match filters.payee_id {
            Some(id) => Some(Condition::Payee(id)),
            None => None,
        },
    );
    let f = pushed_if_any(
        e,
        match filters.min_amount {
            Some(m) => Some(Condition::AtLeast(m)),
            None => None,
        },
    );
    let g = pushed_if_any(
        f,
        match filters.max_amount {
            Some(m) => Some(Condition::AtMost(m)),
            None => None,
        },
    );
    let h = pushed_if_any(
        g,
        match filters.notes_contains {
            Some(t) => Some(Condition::Mentions(t)),
            None => None,
        },
    );
    assert(conditions(filters) == h);
    if let Some(x) = filters.from {
        one_more_is_met(none, Condition::From(x), row);
    }
    if let Some(x) = filters.to {
        one_more_is_met(a, Condition::To(x), row);
    }
    if let Some(x) = filters.account_id {
        one_more_is_met(b, Condition::Account(x), row);
    }
    if let Some(x) = filters.category_id {
        one_more_is_met(c, Condition::Category(x), row);
    }
    if let Some(x) = filters.payee_id {
        one_more_is_met(d, Condition::Payee(x), row);
    }
    if let Some(x) = filters.min_amount {
        one_more_is_met(e, Condition::AtLeast(x), row);
    }
    if let Some(x) = filters.max_amount {
        one_more_is_met(f, Condition::AtMost(x), row);
    }
    if let Some(x) = filters.notes_contains {
        one_more_is_met(g, Condition::Mentions(x), row);
    }
}

proof fn both_hold(a: Seq<Test>, b: Seq<Test>, row: Row, params: Seq<Cell>)
    ensures
        all_hold(a + b, row, params) <==> all_hold(a, row, params) && all_hold(b, row, params),
{
    let both = a + b;
    if all_hold(both, row, params) {
        assert forall|i: int| 0 <= i < a.len() implies (#[trigger] a[i]).holds(row, params) by {
            assert(both[i].holds(row, params));
        }
        assert forall|i: int| 0 <= i < b.len() implies (#[trigger] b[i]).holds(row, params) by {
            assert(both[a.len() + i].holds(row, params));
        }
    }
    if all_hold(a, row, params) && all_hold(b, row, params) {
        assert forall|i: int| 0 <= i < both.len() implies (#[trigger] both[i]).holds(
            row,
            params,
        ) by {
            if i < a.len() {
                assert(a[i].holds(row, params));
            } else {
                assert(b[i - a.len()].holds(row, params));
            }
        }
    }
}

/// Joining some parts, and then the rest to them, joins them all.
proof fn joined_in_parts(a: Seq<Seq<char>>, b: Seq<Seq<char>>, separator: Seq<char>)
    requires
        a.len() > 0,
    ensures
        joined(seq![joined(a, separator)] + b, separator) == joined(a + b, separator),
    decreases b.len(),
{
    let first = seq![joined(a, separator)];
    if b.len() == 0 {
        assert(first + b =~= first);
        assert(a + b =~= a);
    } else {
        joined_in_parts(a, b.drop_last(), separator);
        assert((first + b).drop_last() =~= first + b.drop_last());
        assert((a + b).drop_last() =~= a + b.drop_last());
    }
}

proof fn conditions_are_written_out(condition: Condition, n: nat)
    ensures
        condition_test(condition, n).text() == condition.sql(n),
{
    reveal_strlit("?");
    reveal_strlit(" = ");
    reveal_strlit(" >= ");
    reveal_strlit(" <= ");
    let number = decimal(n);
    match condition {
        Condition::From(_) => {
            reveal_strlit("t.date");
            reveal_strlit("t.date >= ?");
            assert("t.date"@ + " >= "@ + "?"@ =~= "t.date >= ?"@);
            assert(condition_test(condition, n).text() =~= "t.date"@ + " >= "@ + "?"@ + number);
        },
        Condition::To(_) => {
            reveal_strlit("t.date");
            reveal_strlit("t.date <= ?");
            assert("t.date"@ + " <= "@ + "?"@ =~= "t.date <= ?"@);
            assert(condition_test(condition, n).text() =~= "t.date"@ + " <= "@ + "?"@ + number);
        },
        Condition::Account(_) => {
            reveal_strlit("t.account");
            reveal_strlit("t.account = ?");
            assert("t.account"@ + " = "@ + "?"@ =~= "t.account = ?"@);
            assert(condition_test(condition, n).text() =~= "t.account"@ + " = "@ + "?"@ + number);
        },
        Condition::Category(_) => {
            reveal_strlit("t.category");
            reveal_strlit("t.category = ?");
            assert("t.category"@ + " = "@ + "?"@ =~= "t.category = ?"@);
            assert(condition_test(condition, n).text() =~= "t.category"@ + " = "@ + "?"@ + number);
        },
        Condition::Payee(_) => {
            reveal_strlit("t.payee");
            reveal_strlit("t.payee = ?");
            assert("t.payee"@ + " = "@ + "?"@ =~= "t.payee = ?"@);
            assert(condition_test(condition, n).text() =~= "t.payee"@ + " = "@ + "?"@ + number);
        },
        Condition::AtLeast(_) => {
            reveal_strlit("t.amount");
            reveal_strlit("t.amount >= ?");
            assert("t.amount"@ + " >= "@ + "?"@ =~= "t.amount >= ?"@);
            assert(condition_test(condition, n).text() =~= "t.amount"@ + " >= "@ + "?"@ + number);
        },
        Condition::AtMost(_) => {
            reveal_strlit("t.amount");
            reveal_strlit("t.amount <= ?");
            assert("t.amount"@ + " <= "@ + "?"@ =~= "t.amount <= ?"@);
            assert(condition_test(condition, n).text() =~= "t.amount"@ + " <= "@ + "?"@ + number);
        },
        Condition::Mentions(_) => {
            mentions_are_written_out(n);
        },
    }
}

proof fn mentions_are_written_out(n: nat)
    ensures
        Test::Either(
            Box::new(column_like("t.notes"@, n)),
            Box::new(column_like("vp.name"@, n)),
        ).text() == "(COALESCE(t.notes, '') LIKE ?"@ + decimal(n)
            + " ESCAPE '\\' OR COALESCE(vp.name, '') LIKE ?"@ + decimal(n) + " ESCAPE '\\')"@,
{
    reveal_with_fuel(Test::text, 2);
    reveal_with_fuel(Term::text, 2);
    reveal_strlit("?");
    reveal_strlit("'");
    reveal_strlit("(");
    reveal_strlit(")");
    reveal_strlit(", ");
    reveal_strlit("COALESCE(");
    reveal_strlit(" LIKE ");
    reveal_strlit(" ESCAPE '\\'");
    reveal_strlit(" OR ");
    reveal_strlit("t.notes");
    reveal_strlit("vp.name");
    reveal_strlit("(COALESCE(t.notes, '') LIKE ?");
    reveal_strlit(" ESCAPE '\\' OR COALESCE(vp.name, '') LIKE ?");
    reveal_strlit(" ESCAPE '\\')");
    let number = decimal(n);
    let nothing = "'"@ + Seq::<char>::empty() + "'"@;
    let notes = column_like("t.notes"@, n);
    let name = column_like("vp.name"@, n);
    assert(notes.text() =~= "COALESCE("@ + "t.notes"@ + ", "@ + nothing + ")"@ + " LIKE "@ + "?"@
        + number + " ESCAPE '\\'"@);
    assert(name.text() =~= "COALESCE("@ + "vp.name"@ + ", "@ + nothing + ")"@ + " LIKE "@ + "?"@
        + number + " ESCAPE '\\'"@);
    let front = "("@ + ("COALESCE("@ + "t.notes"@ + ", "@ + nothing + ")"@ + " LIKE "@ + "?"@);
    let middle = " ESCAPE '\\'"@ + " OR "@ + ("COALESCE("@ + "vp.name"@ + ", "@ + nothing + ")"@
        + " LIKE "@ + "?"@);
    let end = " ESCAPE '\\'"@ + ")"@;
    assert(front =~= "(COALESCE(t.notes, '') LIKE ?"@);
    assert(middle =~= " ESCAPE '\\' OR COALESCE(vp.name, '') LIKE ?"@);
    assert(end =~= " ESCAPE '\\')"@);
    let all = Test::Either(Box::new(notes), Box::new(name));
    assert(all.text() == "("@ + notes.text() + " OR "@ + name.text() + ")"@);
    assert(all.text() =~= front + number + middle + number + end);
}

proof fn a_condition_asks_for_what_it_says(
    condition: Condition,
    n: nat,
    row: Row,
    params: Seq<Cell>,
)
    requires
        1 <= n <= params.len(),
        params[n - 1] == condition.value(),
    ensures
        condition_test(condition, n).holds(row, params) <==> is_met(condition, row),
{
    reveal_with_fuel(Test::holds, 2);
    reveal_with_fuel(Term::value, 2);
    if let Condition::Mentions(text) = condition {
        let pattern = "%"@ + escaped(text) + "%"@;
        assert(params[n - 1] == Cell::Text(pattern));
        assert forall|held: Seq<char>| #[trigger] like(pattern, held) <==> mentioned(held, text) by {
            a_pattern_finds_its_text(text, held);
        }
        let nothing = Seq::<char>::empty();
        assert(like(pattern, nothing) <==> mentioned(nothing, text));
        assert(mentioned(nothing, text) <==> text.len() == 0) by {
            if text.len() == 0 {
                assert(same_but_for_case(nothing.subrange(0, 0int + text.len()), text));
            }
        }
        assert(column_like("t.notes"@, n).holds(row, params) <==> cell_mentions(
            row("t.notes"@),
            text,
        ));
        assert(column_like("vp.name"@, n).holds(row, params) <==> cell_mentions(
            row("vp.name"@),
            text,
        ));
    }
}

/// The pattern that is bound for a text fits exactly what mentions the text, in
/// whatever case: nothing in it is a wildcard but its ends.
pub proof fn a_pattern_finds_its_text(text: Seq<char>, held: Seq<char>)
    ensures
        like("%"@ + escaped(text) + "%"@, held) <==> mentioned(held, text),
{
    reveal_strlit("%");
    let end = "%"@;
    let inner = escaped(text) + end;
    let pattern = "%"@ + escaped(text) + "%"@;
    assert(pattern.skip(1) =~= inner);
    assert(pattern[0] == '%');
    assert forall|k: int| 0 <= k <= held.len() implies (#[trigger] like(inner, held.skip(k))
        <==> k + text.len() <= held.len() && same_but_for_case(
        held.subrange(k, k + text.len()),
        text,
    )) by {
        let rest = held.skip(k);
        a_literal_fits_itself(text, end, rest);
        if k + text.len() <= held.len() {
            assert(rest.take(text.len() as int) =~= held.subrange(k, k + text.len()));
            assert(end =~= seq!['%']);
            a_last_wildcard_fits_the_rest(rest.skip(text.len() as int));
        }
    }
    a_wildcard_fits_anywhere(inner, held);
    assert(pattern =~= seq!['%'] + inner);
    if mentioned(held, text) {
        let at = choose|at: int|
            0 <= at <= held.len() - text.len() && same_but_for_case(
                #[trigger] held.subrange(at, at + text.len()),
                text,
            );
        assert(like(inner, held.skip(at)));
    }
    if like(pattern, held) {
        let k = choose|k: int| 0 <= k <= held.len() && #[trigger] like(inner, held.skip(k));
        assert(same_but_for_case(held.subrange(k, k + text.len()), text));
    }
}

proof fn a_wildcard_fits_anywhere(pattern: Seq<char>, held: Seq<char>)
    ensures
        like(seq!['%'] + pattern, held) <==> exists|k: int|
            0 <= k <= held.len() && #[trigger] like(pattern, held.skip(k)),
    decreases held.len(),
{
    let all = seq!['%'] + pattern;
    assert(all.skip(1) =~= pattern);
    assert(all[0] == '%');
    assert(held.skip(0) =~= held);
    if like(pattern, held) {
        assert(like(pattern, held.skip(0)));
    }
    assert(like(all, held) <==> like(pattern, held) || (held.len() > 0 && like(all, held.skip(1))));
    if held.len() > 0 {
        let rest = held.skip(1);
        a_wildcard_fits_anywhere(pattern, rest);
        if like(all, rest) {
            let k = choose|k: int| 0 <= k <= rest.len() && #[trigger] like(pattern, rest.skip(k));
            assert(rest.skip(k) =~= held.skip(k + 1));
            assert(like(pattern, held.skip(k + 1)));
        }
        if exists|k: int| 0 <= k <= held.len() && #[trigger] like(pattern, held.skip(k)) {
            let k = choose|k: int| 0 <= k <= held.len() && #[trigger] like(pattern, held.skip(k));
            if k > 0 {
                assert(rest.skip(k - 1) =~= held.skip(k));
                assert(like(pattern, rest.skip(k - 1)));
            } else {
                assert(like(pattern, held));
            }
        }
    } else {
        if exists|k: int| 0 <= k <= held.len() && #[trigger] like(pattern, held.skip(k)) {
            let k = choose|k: int| 0 <= k <= held.len() && #[trigger] like(pattern, held.skip(k));
            assert(k == 0);
        }
    }
}

/// A wildcard at the end fits whatever is left.
proof fn a_last_wildcard_fits_the_rest(held: Seq<char>)
    ensures
        like(seq!['%'], held),
{
    let nothing = Seq::<char>::empty();
    a_wildcard_fits_anywhere(nothing, held);
    assert(seq!['%'] + nothing =~= seq!['%']);
    assert(held.skip(held.len() as int) =~= nothing);
    assert(like(nothing, held.skip(held.len() as int)));
}

proof fn a_literal_fits_itself(text: Seq<char>, rest: Seq<char>, held: Seq<char>)
    ensures
        like(escaped(text) + rest, held) <==> text.len() <= held.len() && same_but_for_case(
            held.take(text.len() as int),
            text,
        ) && like(rest, held.skip(text.len() as int)),
    decreases text.len(),
{
    let pattern = escaped(text) + rest;
    if text.len() == 0 {
        assert(pattern =~= rest);
        assert(held.skip(0) =~= held);
        assert(same_but_for_case(held.take(0), text));
    } else {
        let c = text[0];
        let more = text.skip(1);
        escaped_from_the_front(text);
        assert(pattern =~= escape(c) + (escaped(more) + rest));
        assert(pattern.skip(escape(c).len() as int) =~= escaped(more) + rest);
        if held.len() > 0 {
            a_literal_fits_itself(more, rest, held.skip(1));
            if text.len() <= held.len() {
                assert(held.skip(1).skip(more.len() as int) =~= held.skip(text.len() as int));
                let (a, b) = (held.take(text.len() as int), held.skip(1).take(more.len() as int));
                if same_but_for_case(a, text) {
                    assert(folded(a[0]) == folded(text[0]));
                    assert forall|i: int| 0 <= i < b.len() implies folded(#[trigger] b[i])
                        == folded(more[i]) by {
                        assert(folded(a[i + 1]) == folded(text[i + 1]));
                    }
                }
                if same_but_for_case(b, more) && folded(held[0]) == folded(c) {
                    assert forall|i: int| 0 <= i < a.len() implies folded(#[trigger] a[i])
                        == folded(text[i]) by {
                        if i > 0 {
                            assert(folded(b[i - 1]) == folded(more[i - 1]));
                        }
                    }
                }
            }
        }
    }
}

proof fn escaped_from_the_front(text: Seq<char>)
    requires
        text.len() > 0,
    ensures
        escaped(text) == escape(text[0]) + escaped(text.skip(1)),
    decreases text.len(),
{
    let more = text.skip(1);
    if text.len() == 1 {
        assert(text.drop_last() =~= Seq::empty());
        assert(more =~= Seq::empty());
        assert(escaped(text) =~= escape(text[0]) + escaped(more));
    } else {
        escaped_from_the_front(text.drop_last());
        assert(text.drop_last().skip(1) =~= more.drop_last());
        assert(escaped(text) =~= escape(text[0]) + escaped(more));
    }
}

/// The tables of a listing: each transaction with both its accounts, the name
/// of its payee and its category.
pub open spec fn listing_joins() -> Seq<Join> {
    scoped_joins().push(
        Join {
            loosely: true,
            source: named("v_payees"@, "vp"@),
            on: seq![same("vp.id"@, "t.payee"@)],
        },
    ).push(with_category())
}

/// The question how many transactions match.
pub open spec fn count_select(filters: Filters, scope: Scope) -> Select {
    Select {
        outputs: seq![Output::Count],
        first: named("v_transactions"@, "t"@),
        joins: listing_joins(),
        tests: listing_tests(filters, scope),
        groups: Seq::empty(),
        order: Seq::empty(),
        limit: None,
    }
}

/// A column as it is.
pub open spec fn column(name: Seq<char>) -> Output {
    Output::Plain(Term::Column(name))
}

/// The question for the newest of the transactions that match, a thousand of
/// them at most.
pub open spec fn page_select(filters: Filters, scope: Scope, limit: nat) -> Select {
    Select {
        outputs: seq![
            column("t.date"@),
            column("vp.name"@),
            column("cat.name"@),
            column("a.name"@),
            column("t.amount"@),
            column("t.notes"@),
            column("t.cleared"@),
            Output::NotNull(Term::Column("t.transfer_id"@)),
        ],
        first: named("v_transactions"@, "t"@),
        joins: listing_joins(),
        tests: listing_tests(filters, scope),
        groups: Seq::empty(),
        order: seq![
            Order { by: "t.date"@, descending: Some(true) },
            Order { by: "t.sort_order"@, descending: Some(true) },
        ],
        limit: Some(
            if limit <= 1000 {
                limit
            } else {
                1000
            },
        ),
    }
}

/// The statements of a listing are these questions, word for word.
pub proof fn the_listing_is_asked_for(filters: Filters, scope: Scope, limit: nat)
    ensures
        count_sql(conditions(filters), scope) == count_select(filters, scope).text(),
        page_sql(conditions(filters), scope, limit) == page_select(filters, scope, limit).text(),
{
    a_listing_keeps_what_meets_the_filters(filters, scope);
    tables_of_the_listing();
    let count = count_select(filters, scope);
    let page = page_select(filters, scope, limit);
    let (tables, tests) = (listing_from(), listing_where(conditions(filters), scope));
    assert(scope_tests(scope).len() >= 2);
    assert(count.outputs.map_values(|o: Output| o.text()) =~= seq!["COUNT(*)"@]);
    assert(joined(seq!["COUNT(*)"@], ", "@) == "COUNT(*)"@);
    assert("SELECT "@ + "COUNT(*)"@ + " FROM "@ =~= "SELECT COUNT(*) FROM "@) by {
        reveal_strlit("SELECT ");
        reveal_strlit("COUNT(*)");
        reveal_strlit(" FROM ");
        reveal_strlit("SELECT COUNT(*) FROM ");
    }
    assert(count.text() =~= ("SELECT "@ + "COUNT(*)"@ + " FROM "@) + tables + (" WHERE "@ + tests));
    assert(count_sql(conditions(filters), scope) =~= "SELECT COUNT(*) FROM "@ + tables + (" WHERE "@
        + tests));
    outputs_of_a_page(page.outputs);
    order_of_a_page(page.order);
    let outputs = "SELECT "@ + joined(page.outputs.map_values(|o: Output| o.text()), ", "@)
        + " FROM "@;
    let order = " ORDER BY "@ + joined(page.order.map_values(|o: Order| o.text()), ", "@);
    let most = decimal(page.limit->0);
    assert(page.text() =~= outputs + tables + (" WHERE "@ + tests) + (order + " LIMIT "@) + most);
    assert(page_sql(conditions(filters), scope, limit) =~= outputs + tables + (" WHERE "@ + tests)
        + (order + " LIMIT "@) + most);
}

proof fn tables_of_the_listing()
    ensures
        tables_text(named("v_transactions"@, "t"@), listing_joins()) == listing_from(),
{
    a_scoped_query_joins_both_sides();
    let first = named("v_transactions"@, "t"@);
    let joins = listing_joins();
    let payees = joins[joins.len() - 2];
    assert(joins.last() == with_category());
    assert(joins.drop_last().last() == payees);
    assert(joins.drop_last().drop_last() =~= scoped_joins());
    reveal_with_fuel(tables_text, 2);
    assert(tables_text(first, joins) == FROM@ + payees.text() + with_category().text());
    one_test_is_written_out(same("cat.id"@, "t.category"@));
    one_test_is_written_out(same("vp.id"@, "t.payee"@));
    reveal_strlit(" LEFT JOIN ");
    reveal_strlit("categories");
    reveal_strlit("v_payees");
    reveal_strlit(" ");
    reveal_strlit("cat");
    reveal_strlit("vp");
    reveal_strlit(" ON ");
    reveal_strlit("cat.id");
    reveal_strlit("vp.id");
    reveal_strlit(" = ");
    reveal_strlit("t.category");
    reveal_strlit("t.payee");
    reveal_strlit(
        " LEFT JOIN v_payees vp ON vp.id = t.payee LEFT JOIN categories cat ON cat.id = t.category",
    );
    assert(payees.text() + with_category().text()
        =~= " LEFT JOIN v_payees vp ON vp.id = t.payee LEFT JOIN categories cat ON cat.id = t.category"@);
    assert(tables_text(first, joins) =~= FROM@ + (payees.text() + with_category().text()));
}

proof fn outputs_of_a_page(outputs: Seq<Output>)
    requires
        outputs == page_select(
            (Filters {
                from: None,
                to: None,
                account_id: None,
                category_id: None,
                payee_id: None,
                min_amount: None,
                max_amount: None,
                notes_contains: None,
            }),
            Scope::listing(),
            0,
        ).outputs,
    ensures
        "SELECT "@ + joined(outputs.map_values(|o: Output| o.text()), ", "@) + " FROM "@
            == "SELECT t.date, vp.name, cat.name, a.name, t.amount, t.notes, t.cleared, t.transfer_id IS NOT NULL FROM "@,
{
    let texts = outputs.map_values(|o: Output| o.text());
    let last = "t.transfer_id"@ + " IS NOT NULL"@;
    let all = seq![
        "t.date"@,
        "vp.name"@,
        "cat.name"@,
        "a.name"@,
        "t.amount"@,
        "t.notes"@,
        "t.cleared"@,
        last,
    ];
    assert(texts =~= all);
    let g = all.drop_last();
    let f = g.drop_last();
    let e = f.drop_last();
    let d = e.drop_last();
    let c = d.drop_last();
    let b = c.drop_last();
    let a = b.drop_last();
    let comma = ", "@;
    assert(joined(a, comma) == "t.date"@);
    assert(joined(b, comma) == "t.date"@ + comma + "vp.name"@);
    assert(joined(c, comma) == joined(b, comma) + comma + "cat.name"@);
    assert(joined(d, comma) == joined(c, comma) + comma + "a.name"@);
    assert(joined(e, comma) == joined(d, comma) + comma + "t.amount"@);
    assert(joined(f, comma) == joined(e, comma) + comma + "t.notes"@);
    assert(joined(g, comma) == joined(f, comma) + comma + "t.cleared"@);
    assert(joined(all, comma) == joined(g, comma) + comma + last);
    reveal_strlit("SELECT ");
    reveal_strlit(" FROM ");
    reveal_strlit(", ");
    reveal_strlit("t.date");
    reveal_strlit("vp.name");
    reveal_strlit("cat.name");
    reveal_strlit("a.name");
    reveal_strlit("t.amount");
    reveal_strlit("t.notes");
    reveal_strlit("t.cleared");
    reveal_strlit("t.transfer_id");
    reveal_strlit(" IS NOT NULL");
    reveal_strlit(
        "SELECT t.date, vp.name, cat.name, a.name, t.amount, t.notes, t.cleared, t.transfer_id IS NOT NULL FROM ",
    );
    assert("SELECT "@ + joined(all, comma) + " FROM "@
        =~= "SELECT t.date, vp.name, cat.name, a.name, t.amount, t.notes, t.cleared, t.transfer_id IS NOT NULL FROM "@);
}

proof fn order_of_a_page(order: Seq<Order>)
    requires
        order == seq![
            (Order { by: "t.date"@, descending: Some(true) }),
            (Order { by: "t.sort_order"@, descending: Some(true) }),
        ],
    ensures
        " ORDER BY "@ + joined(order.map_values(|o: Order| o.text()), ", "@) + " LIMIT "@
            == " ORDER BY t.date DESC, t.sort_order DESC LIMIT "@,
{
    let (a, b) = ("t.date"@ + " DESC"@, "t.sort_order"@ + " DESC"@);
    assert(order.map_values(|o: Order| o.text()) =~= seq![a, b]);
    assert(seq![a, b].drop_last() =~= seq![a]);
    reveal_with_fuel(joined, 2);
    assert(joined(seq![a, b], ", "@) == a + ", "@ + b);
    reveal_strlit(" ORDER BY ");
    reveal_strlit(", ");
    reveal_strlit(" DESC");
    reveal_strlit("t.date");
    reveal_strlit("t.sort_order");
    reveal_strlit(" LIMIT ");
    reveal_strlit(" ORDER BY t.date DESC, t.sort_order DESC LIMIT ");
    assert(" ORDER BY "@ + (a + ", "@ + b) + " LIMIT "@
        =~= " ORDER BY t.date DESC, t.sort_order DESC LIMIT "@);
}

/// Those of the joined rows that count in the scope and meet the filters.
pub open spec fn matching(rows: Seq<Row>, filters: Filters, scope: Scope) -> Seq<Row> {
    rows.filter(|row: Row| counts(scope, row) && meets(filters, row))
}

/// What a line of a page says of a row.
pub open spec fn tells_of(line: Seq<Cell>, row: Row) -> bool {
    line == seq![
        row("t.date"@),
        row("vp.name"@),
        row("cat.name"@),
        row("a.name"@),
        row("t.amount"@),
        row("t.notes"@),
        row("t.cleared"@),
        Cell::Integer(
            if row("t.transfer_id"@) is Null {
                0
            } else {
                1
            },
        ),
    ]
}

/// A page holds nothing but transactions that match, the newest of them first,
/// and of those as many as the limit allows. The number that is reported is that
/// of all that match.
pub proof fn a_page_holds_the_newest_that_match(
    filters: Filters,
    scope: Scope,
    limit: nat,
    rows: Seq<Row>,
    picked: Seq<Row>,
    answer: Seq<Seq<Cell>>,
)
    requires
        answers_rows(
            page_select(filters, scope, limit),
            rows,
            bound(conditions(filters)),
            picked,
            answer,
        ),
    ensures
        picked.to_multiset() == matching(rows, filters, scope).to_multiset(),
        answer.len() <= limit,
        answer.len() <= 1000,
        answer.len() <= picked.len(),
        answer.len() < picked.len() ==> answer.len() == limit || answer.len() == 1000,
        forall|i: int| 0 <= i < answer.len() ==> tells_of(#[trigger] answer[i], picked[i]),
        forall|i: int, j: int|
            0 <= i < j < picked.len() ==> !sorts_before(
                (#[trigger] picked[i])("t.date"@),
                (#[trigger] picked[j])("t.date"@),
            ),
        count_select(filters, scope).kept(rows, bound(conditions(filters))) == matching(
            rows,
            filters,
            scope,
        ),
{
    a_listing_keeps_what_meets_the_filters(filters, scope);
    let params = bound(conditions(filters));
    let page = page_select(filters, scope, limit);
    let tests = listing_tests(filters, scope);
    let kept = |row: Row| all_hold(tests, row, params);
    let wanted = |row: Row| counts(scope, row) && meets(filters, row);
    assert forall|row: Row| #[trigger] kept(row) == wanted(row) by {
        assert(all_hold(tests, row, params) <==> counts(scope, row) && meets(filters, row));
    }
    assert(kept =~= wanted);
    assert forall|i: int| 0 <= i < answer.len() implies tells_of(
        #[trigger] answer[i],
        picked[i],
    ) by {
        let row = picked[i];
        let one = seq![row];
        assert(answer[i] == page.put_out(one, params));
        assert(one[0] == row);
        assert(page.put_out(one, params) =~= seq![
            row("t.date"@),
            row("vp.name"@),
            row("cat.name"@),
            row("a.name"@),
            row("t.amount"@),
            row("t.notes"@),
            row("t.cleared"@),
            Cell::Integer(
                if row("t.transfer_id"@) is Null {
                    0
                } else {
                    1
                },
            ),
        ]);
    }
    assert forall|i: int, j: int| 0 <= i < j < picked.len() implies !sorts_before(
        (#[trigger] picked[i])("t.date"@),
        (#[trigger] picked[j])("t.date"@),
    ) by {
        let (x, y) = (picked[i]("t.date"@), picked[j]("t.date"@));
        assert(may_precede(page.order, picked[i], picked[j]));
        assert(page.order[0].by == "t.date"@);
        before_is_one_sided(y, x);
    }
}

proof fn before_is_one_sided(a: Cell, b: Cell)
    ensures
        !(sorts_before(a, b) && sorts_before(b, a)),
{
    if let (Cell::Text(x), Cell::Text(y)) = (a, b) {
        text_order_is_total(x, y);
    }
}

} // verus!
