//! The part of SQL that the library's statements are written in, and what it
//! means: which rows a statement keeps, what it makes of them, and what a write
//! leaves behind.
use vstd::prelude::*;

use crate::store::sql::Cell;
use crate::text::{decimal, joined, text_less};

verus! {

// ----------------------------------------------------------------- terms -----
/// The values of a row by the names of its columns.
pub type Row = spec_fn(Seq<char>) -> Cell;

/// Something that has a value in a row.
pub enum Term {
    Column(Seq<char>),
    /// The value bound to a parameter; the first is number one.
    Param(nat),
    Number(nat),
    /// A text without quotes in it.
    Text(Seq<char>),
    /// A whole number divided by another, without what is left over.
    Quotient(Box<Term>, nat),
    /// The first of two values, or the second where the first is null.
    Coalesce(Box<Term>, Box<Term>),
    /// The first of two values, or null where it equals the second.
    Nullif(Box<Term>, Box<Term>),
}

impl Term {
    pub open spec fn text(self) -> Seq<char>
        decreases self,
    {
        match self {
            Term::Column(name) => name,
            Term::Param(n) => "?"@ + decimal(n),
            Term::Number(n) => decimal(n),
            Term::Text(text) => "'"@ + text + "'"@,
            Term::Quotient(term, n) => term.text() + " / "@ + decimal(n),
            Term::Coalesce(a, b) => "COALESCE("@ + a.text() + ", "@ + b.text() + ")"@,
            Term::Nullif(a, b) => "NULLIF("@ + a.text() + ", "@ + b.text() + ")"@,
        }
    }

    pub open spec fn value(self, row: Row, params: Seq<Cell>) -> Cell
        decreases self,
    {
        match self {
            Term::Column(name) => row(name),
            Term::Param(n) => if 1 <= n <= params.len() {
                params[n - 1]
            } else {
                Cell::Null
            },
            Term::Number(n) => Cell::Integer(n as int),
            Term::Text(text) => Cell::Text(text),
            Term::Quotient(term, n) => match term.value(row, params) {
                Cell::Integer(x) => Cell::Integer(
                    if x >= 0 {
                        x / (n as int)
                    } else {
                        -((-x) / (n as int))
                    },
                ),
                _ => Cell::Null,
            },
            Term::Coalesce(a, b) => if a.value(row, params) is Null {
                b.value(row, params)
            } else {
                a.value(row, params)
            },
            Term::Nullif(a, b) => if a.value(row, params) == b.value(row, params) {
                Cell::Null
            } else {
                a.value(row, params)
            },
        }
    }
}

// ----------------------------------------------------------------- tests -----
/// How two values are compared.
pub enum Sign {
    Equal,
    AtLeast,
    AtMost,
}

impl Sign {
    pub open spec fn text(self) -> Seq<char> {
        match self {
            Sign::Equal => " = "@,
            Sign::AtLeast => " >= "@,
            Sign::AtMost => " <= "@,
        }
    }

    /// What the comparison says of two numbers or two texts. Null compares with
    /// nothing.
    pub open spec fn compares(self, a: Cell, b: Cell) -> bool {
        match (a, b) {
            (Cell::Integer(x), Cell::Integer(y)) => match self {
                Sign::Equal => x == y,
                Sign::AtLeast => x >= y,
                Sign::AtMost => x <= y,
            },
            (Cell::Text(x), Cell::Text(y)) => match self {
                Sign::Equal => x == y,
                Sign::AtLeast => !text_less(x, y),
                Sign::AtMost => !text_less(y, x),
            },
            _ => false,
        }
    }
}

/// The small letter for a capital of the ASCII letters; any other character
/// stays.
pub open spec fn folded(c: char) -> char {
    if 'A' <= c && c <= 'Z' {
        ((c as u32) + 32) as char
    } else {
        c
    }
}

/// The text fits the pattern of a `LIKE` with `\` as the escape character: `%`
/// stands for any characters, `_` for any one, and the ASCII letters for
/// themselves in either case.
pub open spec fn like(pattern: Seq<char>, text: Seq<char>) -> bool
    decreases pattern.len() + text.len(),
{
    if pattern.len() == 0 {
        text.len() == 0
    } else if pattern[0] == '%' {
        like(pattern.skip(1), text) || (text.len() > 0 && like(pattern, text.skip(1)))
    } else if pattern[0] == '\\' && pattern.len() > 1 {
        text.len() > 0 && folded(pattern[1]) == folded(text[0]) && like(
            pattern.skip(2),
            text.skip(1),
        )
    } else if pattern[0] == '_' {
        text.len() > 0 && like(pattern.skip(1), text.skip(1))
    } else {
        text.len() > 0 && folded(pattern[0]) == folded(text[0]) && like(
            pattern.skip(1),
            text.skip(1),
        )
    }
}

/// Something that holds of a row or not.
pub enum Test {
    Compare(Term, Sign, Term),
    IsNull(Term),
    IsNotNull(Term),
    Between(Term, Term, Term),
    Like(Term, Term),
    /// The value is a number other than zero.
    Holds(Term),
    Either(Box<Test>, Box<Test>),
    Both(Box<Test>, Box<Test>),
}

impl Test {
    pub open spec fn text(self) -> Seq<char>
        decreases self,
    {
        match self {
            Test::Compare(a, sign, b) => a.text() + sign.text() + b.text(),
            Test::IsNull(term) => term.text() + " IS NULL"@,
            Test::IsNotNull(term) => term.text() + " IS NOT NULL"@,
            Test::Between(term, low, high) => term.text() + " BETWEEN "@ + low.text() + " AND "@
                + high.text(),
            Test::Like(term, pattern) => term.text() + " LIKE "@ + pattern.text()
                + " ESCAPE '\\'"@,
            Test::Holds(term) => term.text(),
            Test::Either(a, b) => "("@ + a.text() + " OR "@ + b.text() + ")"@,
            Test::Both(a, b) => "("@ + a.text() + " AND "@ + b.text() + ")"@,
        }
    }

    pub open spec fn holds(self, row: Row, params: Seq<Cell>) -> bool
        decreases self,
    {
        match self {
            Test::Compare(a, sign, b) => sign.compares(a.value(row, params), b.value(row, params)),
            Test::IsNull(term) => term.value(row, params) is Null,
            Test::IsNotNull(term) => !(term.value(row, params) is Null),
            Test::Between(term, low, high) => Sign::AtLeast.compares(
                term.value(row, params),
                low.value(row, params),
            ) && Sign::AtMost.compares(term.value(row, params), high.value(row, params)),
            Test::Like(term, pattern) => match (
                term.value(row, params),
                pattern.value(row, params),
            ) {
                (Cell::Text(text), Cell::Text(p)) => like(p, text),
                _ => false,
            },
            Test::Holds(term) => term.value(row, params) matches Cell::Integer(n) && n != 0,
            Test::Either(a, b) => a.holds(row, params) || b.holds(row, params),
            Test::Both(a, b) => a.holds(row, params) && b.holds(row, params),
        }
    }
}

/// Tests as they stand behind `WHERE` or `ON`.
pub open spec fn tests_text(tests: Seq<Test>) -> Seq<char> {
    joined(tests.map_values(|test: Test| test.text()), " AND "@)
}

/// Every test holds of the row.
pub open spec fn all_hold(tests: Seq<Test>, row: Row, params: Seq<Cell>) -> bool {
    forall|i: int| 0 <= i < tests.len() ==> (#[trigger] tests[i]).holds(row, params)
}

// ------------------------------------------------------------- selecting -----
/// A table or view, under another name where it has one.
pub struct Source {
    pub table: Seq<char>,
    pub alias: Option<Seq<char>>,
}

impl Source {
    pub open spec fn text(self) -> Seq<char> {
        match self.alias {
            Some(alias) => self.table + " "@ + alias,
            None => self.table,
        }
    }
}

/// A table that is joined to those before it. One that is joined loosely leaves
/// a row without a partner in, with nulls for its columns.
pub struct Join {
    pub loosely: bool,
    pub source: Source,
    pub on: Seq<Test>,
}

impl Join {
    pub open spec fn text(self) -> Seq<char> {
        (if self.loosely {
            " LEFT JOIN "@
        } else {
            " JOIN "@
        }) + self.source.text() + " ON "@ + tests_text(self.on)
    }
}

/// Tables as they stand behind `FROM`.
pub open spec fn tables_text(first: Source, joins: Seq<Join>) -> Seq<char>
    decreases joins.len(),
{
    if joins.len() == 0 {
        first.text()
    } else {
        tables_text(first, joins.drop_last()) + joins.last().text()
    }
}

/// What a statement puts out for a row, or for a group of rows.
pub enum Output {
    Plain(Term),
    NotNull(Term),
    Sum(Term),
    Count,
    /// The same as a count, in small letters.
    Tally,
    /// The greatest of the numbers, or null where there is none.
    Greatest(Term),
    /// Another name for what is put out.
    Named(Box<Output>, Seq<char>),
}

impl Output {
    pub open spec fn text(self) -> Seq<char>
        decreases self,
    {
        match self {
            Output::Plain(term) => term.text(),
            Output::NotNull(term) => term.text() + " IS NOT NULL"@,
            Output::Sum(term) => "SUM("@ + term.text() + ")"@,
            Output::Count => "COUNT(*)"@,
            Output::Tally => "count(*)"@,
            Output::Greatest(term) => "max("@ + term.text() + ")"@,
            Output::Named(output, name) => output.text() + " AS "@ + name,
        }
    }

    /// What is put out for some rows, of which there is at least one. Of a
    /// plain value it is the one of the first row.
    pub open spec fn of(self, rows: Seq<Row>, params: Seq<Cell>) -> Cell
        decreases self,
    {
        match self {
            Output::Plain(term) => term.value(rows[0], params),
            Output::NotNull(term) => Cell::Integer(
                if term.value(rows[0], params) is Null {
                    0
                } else {
                    1
                },
            ),
            Output::Sum(term) => Cell::Integer(sum(rows, term, params)),
            Output::Count => Cell::Integer(rows.len() as int),
            Output::Tally => Cell::Integer(rows.len() as int),
            Output::Greatest(term) => match greatest(rows, term, params) {
                Some(n) => Cell::Integer(n),
                None => Cell::Null,
            },
            Output::Named(output, _) => output.of(rows, params),
        }
    }
}

/// The number that a term says in a row; what is no number counts for nothing.
pub open spec fn amount(row: Row, term: Term, params: Seq<Cell>) -> int {
    match term.value(row, params) {
        Cell::Integer(n) => n,
        _ => 0,
    }
}

/// The sum of a term over some rows.
pub open spec fn sum(rows: Seq<Row>, term: Term, params: Seq<Cell>) -> int
    decreases rows.len(),
{
    if rows.len() == 0 {
        0
    } else {
        sum(rows.drop_last(), term, params) + amount(rows.last(), term, params)
    }
}

/// The greatest of the numbers that a term says in some rows.
pub open spec fn greatest(rows: Seq<Row>, term: Term, params: Seq<Cell>) -> Option<int>
    decreases rows.len(),
{
    if rows.len() == 0 {
        None
    } else {
        let before = greatest(rows.drop_last(), term, params);
        match term.value(rows.last(), params) {
            Cell::Integer(n) => match before {
                Some(most) => Some(
                    if n > most {
                        n
                    } else {
                        most
                    },
                ),
                None => Some(n),
            },
            _ => before,
        }
    }
}

/// What rows are ordered by, and in which direction, where one is given.
pub struct Order {
    pub by: Seq<char>,
    pub descending: Option<bool>,
}

impl Order {
    pub open spec fn text(self) -> Seq<char> {
        match self.descending {
            Some(true) => self.by + " DESC"@,
            Some(false) => self.by + " ASC"@,
            None => self.by,
        }
    }
}

/// A statement that reads.
pub struct Select {
    pub outputs: Seq<Output>,
    pub first: Source,
    pub joins: Seq<Join>,
    pub tests: Seq<Test>,
    pub groups: Seq<Seq<char>>,
    pub order: Seq<Order>,
    pub limit: Option<nat>,
}

impl Select {
    pub open spec fn text(self) -> Seq<char> {
        "SELECT "@ + joined(self.outputs.map_values(|o: Output| o.text()), ", "@) + " FROM "@
            + tables_text(self.first, self.joins) + (if self.tests.len() == 0 {
            Seq::empty()
        } else {
            " WHERE "@ + tests_text(self.tests)
        }) + (if self.groups.len() == 0 {
            Seq::empty()
        } else {
            " GROUP BY "@ + joined(self.groups, ", "@)
        }) + (if self.order.len() == 0 {
            Seq::empty()
        } else {
            " ORDER BY "@ + joined(self.order.map_values(|o: Order| o.text()), ", "@)
        }) + (match self.limit {
            None => Seq::empty(),
            Some(n) => " LIMIT "@ + decimal(n),
        })
    }

    /// Those of the joined rows that the statement keeps.
    pub open spec fn kept(self, rows: Seq<Row>, params: Seq<Cell>) -> Seq<Row> {
        rows.filter(|row: Row| all_hold(self.tests, row, params))
    }

    /// What the statement puts out for a group of rows.
    pub open spec fn put_out(self, rows: Seq<Row>, params: Seq<Cell>) -> Seq<Cell> {
        self.outputs.map_values(|o: Output| o.of(rows, params))
    }
}

/// Those of some rows that have this value in a column.
pub open spec fn with_key(rows: Seq<Row>, column: Seq<char>, key: Cell) -> Seq<Row> {
    rows.filter(|row: Row| row(column) == key)
}

/// These are the groups of a statement that groups rows by one column, each by
/// what it has in that column: no group comes twice, none is empty, and no row
/// is without one.
pub open spec fn grouped(rows: Seq<Row>, column: Seq<char>, keys: Seq<Cell>) -> bool {
    &&& forall|i: int, j: int| 0 <= i < j < keys.len() ==> #[trigger] keys[i] != #[trigger] keys[j]
    &&& forall|i: int|
        0 <= i < keys.len() ==> with_key(rows, column, #[trigger] keys[i]).len() > 0
    &&& forall|i: int| 0 <= i < rows.len() ==> keys.contains((#[trigger] rows[i])(column))
}

/// A statement that groups by one column is answered with one line for each of
/// its groups.
pub open spec fn answers_groups(
    select: Select,
    rows: Seq<Row>,
    params: Seq<Cell>,
    keys: Seq<Cell>,
    answer: Seq<Seq<Cell>>,
) -> bool {
    let kept = select.kept(rows, params);
    &&& select.groups.len() == 1
    &&& grouped(kept, select.groups[0], keys)
    &&& answer.len() == keys.len()
    &&& forall|i: int|
        0 <= i < keys.len() ==> #[trigger] answer[i] == select.put_out(
            with_key(kept, select.groups[0], keys[i]),
            params,
        )
}

/// A value sorts before another: null before numbers, and those before texts.
pub open spec fn sorts_before(a: Cell, b: Cell) -> bool {
    match (a, b) {
        (Cell::Null, Cell::Null) => false,
        (Cell::Null, _) => true,
        (Cell::Integer(x), Cell::Integer(y)) => x < y,
        (Cell::Integer(_), Cell::Text(_)) => true,
        (Cell::Text(x), Cell::Text(y)) => text_less(x, y),
        _ => false,
    }
}

/// A row may stand before another in this order. What is named first decides
/// first.
pub open spec fn may_precede(order: Seq<Order>, a: Row, b: Row) -> bool
    decreases order.len(),
{
    if order.len() == 0 {
        true
    } else {
        let (x, y) = (a(order[0].by), b(order[0].by));
        let (sooner, later) = if order[0].descending == Some(true) {
            (sorts_before(y, x), sorts_before(x, y))
        } else {
            (sorts_before(x, y), sorts_before(y, x))
        };
        sooner || (!later && may_precede(order.skip(1), a, b))
    }
}

/// A statement that does not group is answered with a line for each row that it
/// keeps, in order, up to its limit.
pub open spec fn answers_rows(
    select: Select,
    rows: Seq<Row>,
    params: Seq<Cell>,
    picked: Seq<Row>,
    answer: Seq<Seq<Cell>>,
) -> bool {
    &&& select.groups.len() == 0
    &&& picked.to_multiset() == select.kept(rows, params).to_multiset()
    &&& forall|i: int, j: int|
        0 <= i < j < picked.len() ==> may_precede(
            select.order,
            #[trigger] picked[i],
            #[trigger] picked[j],
        )
    &&& answer.len() == (match select.limit {
        Some(n) => if n < picked.len() {
            n
        } else {
            picked.len()
        },
        None => picked.len(),
    })
    &&& forall|i: int|
        0 <= i < answer.len() ==> #[trigger] answer[i] == select.put_out(seq![picked[i]], params)
}

// --------------------------------------------------------------- writing -----
/// The rows of the tables, by the names of the tables and the ids of the rows.
pub type Contents = spec_fn(Seq<char>, Seq<char>) -> Option<Row>;

/// What a column of a table holds in a row that was made without it.
pub type Defaults = spec_fn(Seq<char>, Seq<char>) -> Cell;

/// A statement that writes one column of the row with the id that is bound
/// first: with the value that is bound second where there is no such row yet,
/// and with `value` where there is.
pub struct Upsert {
    pub table: Seq<char>,
    pub column: Seq<char>,
    pub value: Term,
}

impl Upsert {
    pub open spec fn text(self) -> Seq<char> {
        "INSERT INTO \""@ + self.table + "\" (id, \""@ + self.column
            + "\") VALUES (?1, ?2) ON CONFLICT(id) DO UPDATE SET \""@ + self.column + "\" = "@
            + self.value.text()
    }

    /// The row that the statement leaves.
    pub open spec fn row(self, before: Option<Row>, params: Seq<Cell>, defaults: Defaults) -> Row {
        match before {
            Some(row) => |column: Seq<char>|
                if column == self.column {
                    self.value.value(row, params)
                } else {
                    row(column)
                },
            None => |column: Seq<char>|
                if column == self.column {
                    params[1]
                } else if column == "id"@ {
                    params[0]
                } else {
                    defaults(self.table, column)
                },
        }
    }

    /// What the tables hold once the statement has run.
    pub open spec fn leaves(
        self,
        before: Contents,
        params: Seq<Cell>,
        defaults: Defaults,
    ) -> Contents {
        |table: Seq<char>, id: Seq<char>|
            if table == self.table && Cell::Text(id) == params[0] {
                Some(self.row(before(table, id), params, defaults))
            } else {
                before(table, id)
            }
    }
}

// ----------------------------------------------------------------- laws -----
/// The sums of a term over groups of rows, together.
pub open spec fn sum_of_groups(
    rows: Seq<Row>,
    column: Seq<char>,
    keys: Seq<Cell>,
    term: Term,
    params: Seq<Cell>,
) -> int
    decreases keys.len(),
{
    if keys.len() == 0 {
        0
    } else {
        sum_of_groups(rows, column, keys.drop_last(), term, params) + sum(
            with_key(rows, column, keys.last()),
            term,
            params,
        )
    }
}

/// Grouping loses nothing and counts nothing twice: the sums of the groups
/// together are the sum over all rows.
pub proof fn groups_make_the_whole(
    rows: Seq<Row>,
    column: Seq<char>,
    keys: Seq<Cell>,
    term: Term,
    params: Seq<Cell>,
)
    requires
        forall|i: int, j: int|
            0 <= i < j < keys.len() ==> #[trigger] keys[i] != #[trigger] keys[j],
        forall|i: int| 0 <= i < rows.len() ==> keys.contains((#[trigger] rows[i])(column)),
    ensures
        sum_of_groups(rows, column, keys, term, params) == sum(rows, term, params),
    decreases keys.len(),
{
    if keys.len() == 0 {
        if rows.len() > 0 {
            assert(keys.contains(rows[0](column)));
        }
    } else {
        broadcast use {Seq::lemma_filter_contains_rev, Seq::lemma_filter_pred};

        let key = keys.last();
        let fewer = keys.drop_last();
        let others = rows.filter(|row: Row| row(column) != key);
        assert forall|i: int| 0 <= i < others.len() implies fewer.contains(
            (#[trigger] others[i])(column),
        ) by {
            let pred = |row: Row| row(column) != key;
            assert(pred(rows.filter(pred)[i]));
            assert(others.contains(others[i]));
            let p = choose|p: int| 0 <= p < rows.len() && rows[p] == others[i];
            assert(keys.contains(rows[p](column)));
            let k = choose|k: int| 0 <= k < keys.len() && keys[k] == rows[p](column);
            assert(fewer[k] == keys[k]);
        }
        groups_make_the_whole(others, column, fewer, term, params);
        assert forall|i: int| 0 <= i < fewer.len() implies #[trigger] fewer[i] != key by {
            assert(keys[i] != keys[keys.len() - 1]);
        }
        other_groups_stay(rows, column, fewer, key, term, params);
        both_parts_make_the_whole(rows, column, key, term, params);
    }
}

proof fn both_parts_make_the_whole(
    rows: Seq<Row>,
    column: Seq<char>,
    key: Cell,
    term: Term,
    params: Seq<Cell>,
)
    ensures
        sum(with_key(rows, column, key), term, params) + sum(
            rows.filter(|row: Row| row(column) != key),
            term,
            params,
        ) == sum(rows, term, params),
    decreases rows.len(),
{
    reveal(Seq::filter);
    if rows.len() > 0 {
        let before = rows.drop_last();
        both_parts_make_the_whole(before, column, key, term, params);
        let (a, b) = (
            with_key(before, column, key),
            before.filter(|row: Row| row(column) != key),
        );
        assert(a.push(rows.last()).drop_last() =~= a);
        assert(b.push(rows.last()).drop_last() =~= b);
    }
}

proof fn other_groups_stay(
    rows: Seq<Row>,
    column: Seq<char>,
    keys: Seq<Cell>,
    key: Cell,
    term: Term,
    params: Seq<Cell>,
)
    requires
        forall|i: int| 0 <= i < keys.len() ==> #[trigger] keys[i] != key,
    ensures
        sum_of_groups(rows.filter(|row: Row| row(column) != key), column, keys, term, params)
            == sum_of_groups(rows, column, keys, term, params),
    decreases keys.len(),
{
    if keys.len() > 0 {
        assert forall|i: int| 0 <= i < keys.drop_last().len() implies #[trigger] keys.drop_last()[i]
            != key by {
            assert(keys.drop_last()[i] == keys[i]);
        }
        other_groups_stay(rows, column, keys.drop_last(), key, term, params);
        assert(keys[keys.len() - 1] != key);
        another_group_stays(rows, column, keys.last(), key);
    }
}

proof fn another_group_stays(rows: Seq<Row>, column: Seq<char>, kept: Cell, key: Cell)
    requires
        kept != key,
    ensures
        with_key(rows.filter(|row: Row| row(column) != key), column, kept) == with_key(
            rows,
            column,
            kept,
        ),
    decreases rows.len(),
{
    reveal(Seq::filter);
    if rows.len() > 0 {
        let before = rows.drop_last();
        another_group_stays(before, column, kept, key);
        let others = before.filter(|row: Row| row(column) != key);
        assert(others.push(rows.last()).drop_last() =~= others);
    }
}

/// Two texts are the same but for the case of their ASCII letters.
pub open spec fn same_but_for_case(a: Seq<char>, b: Seq<char>) -> bool {
    a.len() == b.len() && forall|i: int|
        0 <= i < a.len() ==> folded(#[trigger] a[i]) == folded(b[i])
}

/// A text stands somewhere in another, in whatever case.
pub open spec fn mentioned(text: Seq<char>, needle: Seq<char>) -> bool {
    exists|at: int|
        0 <= at <= text.len() - needle.len() && same_but_for_case(
            #[trigger] text.subrange(at, at + needle.len()),
            needle,
        )
}

} // verus!
