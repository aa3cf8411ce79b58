//! What is read out of an answer is what its rows hold.
use vstd::prelude::*;

use crate::domain::{is_date, is_month};
use crate::queries::accounts::{account, flag};
use crate::queries::budget::{allotted, flowed, heading, up_to};
use crate::queries::categories::category;
use crate::queries::resolve::entry;
use crate::queries::rows::{page_select, spending_select};
use crate::queries::scope::Scope;
use crate::queries::statements::{
    accounts_select, allotments_select, balance_output, balance_select, categories_select,
    flows_select, headings_select, names_select,
};
use crate::queries::transactions::{bound, category_sum, conditions, line, period, Filters};
use crate::store::language::{sum, Output, Row, Term};
use crate::store::sql::{decoded, Cell};

verus! {

/// A text, or null where there is none.
pub open spec fn text_or_null(text: Option<Seq<char>>) -> Cell {
    match text {
        Some(chars) => Cell::Text(chars),
        None => Cell::Null,
    }
}

/// A value is a text or null.
pub open spec fn is_text_or_null(cell: Cell) -> bool {
    cell is Text || cell is Null
}

/// A value is yes, which is any number but zero.
pub open spec fn yes(cell: Cell) -> bool {
    cell is Integer && cell != Cell::Integer(0)
}

/// Every row of an answer is read, in order, or none is.
pub proof fn every_row_is_read<V>(
    rows: Seq<Seq<Cell>>,
    one: spec_fn(Seq<Cell>) -> Result<V, nat>,
)
    ensures
        decoded(rows, one) is Ok <==> forall|i: int|
            0 <= i < rows.len() ==> one(#[trigger] rows[i]) is Ok,
        decoded(rows, one) matches Ok(items) ==> items.len() == rows.len() && forall|i: int|
            0 <= i < rows.len() ==> one(#[trigger] rows[i]) == Ok::<V, nat>(items[i]),
        decoded(rows, one) matches Err(column) ==> exists|i: int|
            0 <= i < rows.len() && one(#[trigger] rows[i]) == Err::<V, nat>(column) && forall|j: int|
                0 <= j < i ==> one(#[trigger] rows[j]) is Ok,
    decreases rows.len(),
{
    if rows.len() > 0 {
        let before = rows.drop_last();
        every_row_is_read(before, one);
        assert forall|i: int| 0 <= i < before.len() implies #[trigger] before[i] == rows[i] by {}
        let last = rows.len() - 1;
        assert(rows.last() == rows[last]);
        match decoded(before, one) {
            Ok(items) => {
                assert forall|i: int| 0 <= i < last implies one(#[trigger] rows[i]) == Ok::<V, nat>(
                    items[i],
                ) by {
                    assert(before[i] == rows[i]);
                }
            },
            Err(column) => {
                let i = choose|i: int|
                    0 <= i < before.len() && one(#[trigger] before[i]) == Err::<V, nat>(column)
                        && forall|j: int| 0 <= j < i ==> one(#[trigger] before[j]) is Ok;
                assert(one(rows[i]) == Err::<V, nat>(column));
                assert forall|j: int| 0 <= j < i implies one(#[trigger] rows[j]) is Ok by {
                    assert(before[j] == rows[j]);
                }
            },
        }
    }
}

/// A transaction is read as its row has it.
pub proof fn a_transaction_is_read_as_it_stands(
    filters: Filters,
    scope: Scope,
    limit: nat,
    row: Row,
    day: u32,
)
    requires
        row("t.date"@) == Cell::Integer(day as int),
        is_text_or_null(row("vp.name"@)),
        is_text_or_null(row("cat.name"@)),
        row("a.name"@) is Text,
        row("t.amount"@) is Integer,
        is_text_or_null(row("t.notes"@)),
        row("t.cleared"@) is Integer,
    ensures
        line(
            page_select(filters, scope, limit).put_out(seq![row], bound(conditions(filters))),
        ) matches Ok(l) && {
            &&& is_date(day as nat) ==> l.date == day
            &&& !is_date(day as nat) ==> l.date == 1970_01_01
            &&& text_or_null(l.payee) == row("vp.name"@)
            &&& text_or_null(l.category) == row("cat.name"@)
            &&& Cell::Text(l.account) == row("a.name"@)
            &&& Cell::Integer(l.amount) == row("t.amount"@)
            &&& text_or_null(l.notes) == row("t.notes"@)
            &&& l.cleared <==> yes(row("t.cleared"@))
            &&& l.is_transfer <==> !(row("t.transfer_id"@) is Null)
        },
{
    let select = page_select(filters, scope, limit);
    let params = bound(conditions(filters));
    let cells = select.put_out(seq![row], params);
    let outputs = select.outputs;
    assert(cells =~= seq![
        outputs[0].of(seq![row], params),
        outputs[1].of(seq![row], params),
        outputs[2].of(seq![row], params),
        outputs[3].of(seq![row], params),
        outputs[4].of(seq![row], params),
        outputs[5].of(seq![row], params),
        outputs[6].of(seq![row], params),
        outputs[7].of(seq![row], params),
    ]);
}

/// The total of a category is read as the rows of its group have it.
pub proof fn a_total_is_read_as_its_rows_stand(scope: Scope, rows: Seq<Row>, from: nat, to: nat)
    requires
        0 < rows.len() <= usize::MAX,
        rows.len() <= i64::MAX,
        is_text_or_null(rows[0]("cat.name"@)),
        rows[0]("cat.is_income"@) is Integer || rows[0]("cat.is_income"@) is Null,
    ensures
        category_sum(spending_select(scope).put_out(rows, period(from, to))) matches Ok(total) && {
            &&& rows[0]("cat.name"@) matches Cell::Text(name) ==> total.category == name
            &&& rows[0]("cat.name"@) is Null ==> total.category == "Uncategorised"@
            &&& total.is_income <==> yes(rows[0]("cat.is_income"@))
            &&& total.total == sum(rows, Term::Column("t.amount"@), period(from, to))
            &&& total.transaction_count == rows.len()
        },
{
    let select = spending_select(scope);
    let params = period(from, to);
    let cells = select.put_out(rows, params);
    let outputs = select.outputs;
    reveal_with_fuel(Output::of, 2);
    reveal_with_fuel(Term::value, 2);
    assert(cells =~= seq![
        outputs[0].of(rows, params),
        outputs[1].of(rows, params),
        outputs[2].of(rows, params),
        outputs[3].of(rows, params),
    ]);
}

/// Every movement in an account but split parents, together.
pub open spec fn moved(movements: Seq<Row>, id: Cell) -> int
    decreases movements.len(),
{
    if movements.len() == 0 {
        0
    } else {
        let last = movements.last();
        moved(movements.drop_last(), id) + match last("t.amount"@) {
            Cell::Integer(cents) => if last("t.account"@) == id && last("t.is_parent"@)
                == Cell::Integer(0) {
                cents
            } else {
                0
            },
            _ => 0,
        }
    }
}

/// The rows of all movements, as they stand beside an account.
pub open spec fn beside(movements: Seq<Row>, id: Cell) -> Seq<Row> {
    movements.map_values(
        |movement: Row|
            |column: Seq<char>|
                if column == "a.id"@ {
                    id
                } else {
                    movement(column)
                },
    )
}

/// An account is read as its row has it, and its balance is everything that
/// moved in it.
pub proof fn an_account_is_read_with_all_its_money(
    row: Row,
    movements: Seq<Row>,
    id: Seq<char>,
    include_closed: bool,
)
    requires
        row("a.name"@) is Text,
        row("a.offbudget"@) is Integer,
        row("a.closed"@) is Integer,
        is_text_or_null(row("a.type"@)),
        balance_output().of(seq![row], flag(include_closed)) == Cell::Integer(
            sum(
                balance_select().kept(beside(movements, Cell::Text(id)), Seq::empty()),
                Term::Column("t.amount"@),
                Seq::empty(),
            ),
        ),
    ensures
        account(accounts_select().put_out(seq![row], flag(include_closed))) matches Ok(a) && {
            &&& Cell::Text(a.name) == row("a.name"@)
            &&& a.balance == moved(movements, Cell::Text(id))
            &&& a.on_budget <==> row("a.offbudget"@) == Cell::Integer(0)
            &&& a.closed <==> yes(row("a.closed"@))
            &&& a.account_type is None <==> row("a.type"@) is Null || row("a.type"@) == Cell::Text(
                Seq::empty(),
            )
            &&& a.account_type matches Some(kind) ==> row("a.type"@) == Cell::Text(kind)
        },
{
    let select = accounts_select();
    let params = flag(include_closed);
    let cells = select.put_out(seq![row], params);
    let outputs = select.outputs;
    assert(outputs[4].of(seq![row], params) == (if row("a.type"@) is Null || row("a.type"@)
        == Cell::Text(Seq::empty()) {
        Cell::Null
    } else {
        row("a.type"@)
    })) by {
        reveal_with_fuel(Term::value, 3);
    }
    assert(cells =~= seq![
        outputs[0].of(seq![row], params),
        outputs[1].of(seq![row], params),
        outputs[2].of(seq![row], params),
        outputs[3].of(seq![row], params),
        outputs[4].of(seq![row], params),
    ]);
    what_moved_is_summed(movements, id);
}

proof fn what_moved_is_summed(movements: Seq<Row>, id: Seq<char>)
    ensures
        sum(
            balance_select().kept(beside(movements, Cell::Text(id)), Seq::empty()),
            Term::Column("t.amount"@),
            Seq::empty(),
        ) == moved(movements, Cell::Text(id)),
    decreases movements.len(),
{
    reveal(Seq::filter);
    let own = Cell::Text(id);
    let all = beside(movements, own);
    let select = balance_select();
    if movements.len() > 0 {
        what_moved_is_summed(movements.drop_last(), id);
        assert(all.drop_last() =~= beside(movements.drop_last(), own));
        let last = movements.last();
        crate::queries::statements::accounts_are_listed_with_all_their_money(true, all.last());
        reveal_strlit("a.id");
        reveal_strlit("t.account");
        reveal_strlit("t.is_parent");
        reveal_strlit("t.amount");
        assert("t.account"@.len() != "a.id"@.len());
        assert("t.is_parent"@.len() != "a.id"@.len());
        assert("t.amount"@.len() != "a.id"@.len());
        let before = select.kept(all.drop_last(), Seq::empty());
        assert(before.push(all.last()).drop_last() =~= before);
    } else {
        assert(select.kept(all, Seq::empty()) =~= Seq::empty());
    }
}

/// A category is read as its row has it.
pub proof fn a_category_is_read_as_it_stands(row: Row, include_hidden: bool)
    requires
        row("c.name"@) is Text,
        is_text_or_null(row("g.name"@)),
        row("c.is_income"@) is Integer,
        row("c.hidden"@) is Integer,
    ensures
        category(categories_select().put_out(seq![row], flag(include_hidden))) matches Ok(c) && {
            &&& Cell::Text(c.name) == row("c.name"@)
            &&& row("g.name"@) matches Cell::Text(group) ==> c.group == group
            &&& row("g.name"@) is Null ==> c.group == Seq::<char>::empty()
            &&& c.is_income <==> yes(row("c.is_income"@))
            &&& c.hidden <==> yes(row("c.hidden"@))
        },
{
    let select = categories_select();
    let params = flag(include_hidden);
    let outputs = select.outputs;
    reveal_with_fuel(Term::value, 2);
    assert(select.put_out(seq![row], params) =~= seq![
        outputs[0].of(seq![row], params),
        outputs[1].of(seq![row], params),
        outputs[2].of(seq![row], params),
        outputs[3].of(seq![row], params),
    ]);
}

/// A category of a budget is read as its row has it.
pub proof fn a_heading_is_read_as_it_stands(row: Row)
    requires
        row("c.id"@) is Text,
        row("c.name"@) is Text,
        is_text_or_null(row("g.name"@)),
        row("c.is_income"@) is Integer,
    ensures
        heading(headings_select().put_out(seq![row], Seq::empty())) matches Ok(c) && {
            &&& Cell::Text(c.id) == row("c.id"@)
            &&& Cell::Text(c.name) == row("c.name"@)
            &&& row("g.name"@) matches Cell::Text(group) ==> c.group == group
            &&& row("g.name"@) is Null ==> c.group == Seq::<char>::empty()
            &&& c.is_income <==> yes(row("c.is_income"@))
        },
{
    let select = headings_select();
    let params = Seq::<Cell>::empty();
    let outputs = select.outputs;
    reveal_with_fuel(Term::value, 2);
    assert(select.put_out(seq![row], params) =~= seq![
        outputs[0].of(seq![row], params),
        outputs[1].of(seq![row], params),
        outputs[2].of(seq![row], params),
        outputs[3].of(seq![row], params),
    ]);
}

/// What was set aside is read as its row has it.
pub proof fn an_allotment_is_read_as_it_stands(row: Row, asked: nat, month: u32)
    requires
        row("category"@) is Text,
        row("month"@) == Cell::Integer(month as int),
        is_month(month as nat),
        row("amount"@) is Integer,
        row("carryover"@) is Integer,
    ensures
        allotted(allotments_select().put_out(seq![row], up_to(asked)), asked) matches Ok(a) && {
            &&& Cell::Text(a.category) == row("category"@)
            &&& a.month == month
            &&& Cell::Integer(a.amount) == row("amount"@)
            &&& a.carryover <==> yes(row("carryover"@))
        },
{
    let select = allotments_select();
    let params = up_to(asked);
    let outputs = select.outputs;
    assert(select.put_out(seq![row], params) =~= seq![
        outputs[0].of(seq![row], params),
        outputs[1].of(seq![row], params),
        outputs[2].of(seq![row], params),
        outputs[3].of(seq![row], params),
    ]);
}

/// What flowed in a month is read as the rows of its group have it.
pub proof fn a_flow_is_read_as_its_rows_stand(scope: Scope, rows: Seq<Row>, asked: nat, day: u32)
    requires
        rows.len() > 0,
        rows[0]("t.category"@) is Text,
        rows[0]("t.date"@) == Cell::Integer(day as int),
        is_month(day as nat / 100),
    ensures
        flowed(flows_select(scope).put_out(rows, up_to(asked)), asked) matches Ok(f) && {
            &&& Cell::Text(f.category) == rows[0]("t.category"@)
            &&& f.month == day as nat / 100
            &&& f.amount == sum(rows, Term::Column("t.amount"@), up_to(asked))
        },
{
    let select = flows_select(scope);
    let params = up_to(asked);
    let outputs = select.outputs;
    reveal_with_fuel(Output::of, 2);
    reveal_with_fuel(Term::value, 2);
    assert(select.put_out(rows, params) =~= seq![
        outputs[0].of(rows, params),
        outputs[1].of(rows, params),
        outputs[2].of(rows, params),
    ]);
}

/// A name is read as its row has it.
pub proof fn a_name_is_read_as_it_stands(row: Row, table: Seq<char>)
    requires
        row("id"@) is Text,
        row("name"@) is Text,
    ensures
        entry(names_select(table).put_out(seq![row], Seq::empty())) matches Ok(e) && Cell::Text(e.id)
            == row("id"@) && Cell::Text(e.name) == row("name"@),
{
    let select = names_select(table);
    let params = Seq::<Cell>::empty();
    let outputs = select.outputs;
    assert(select.put_out(seq![row], params) =~= seq![
        outputs[0].of(seq![row], params),
        outputs[1].of(seq![row], params),
    ]);
}

} // verus!
