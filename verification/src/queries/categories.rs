//! The category list, as the budget organises it.
use rusqlite::Connection;
use vstd::prelude::*;

use crate::queries::accounts::{flag, flag_param};
use crate::store::sql::{
    agree, agrees, answered, cells, decode_rows, decoded, get_integer, get_text, integer_in, query,
    refused, table, text_in, Cell, QueryError, SqlCell,
};

verus! {

#[derive(Debug, Clone, PartialEq)]
pub struct CategoryInfo {
    pub name: String,
    /// The group it sits under, e.g. "Regular Expense".
    pub group: String,
    /// Income categories are never budgeted; they record money coming in.
    pub is_income: bool,
    /// Hidden categories are kept out of Actual's budget view, usually because
    /// they are no longer used. Historical transactions still reference them.
    pub hidden: bool,
}

/// The contents of a [`CategoryInfo`].
pub struct Category {
    pub name: Seq<char>,
    pub group: Seq<char>,
    pub is_income: bool,
    pub hidden: bool,
}

impl View for CategoryInfo {
    type V = Category;

    open spec fn view(&self) -> Category {
        Category {
            name: self.name@,
            group: self.group@,
            is_income: self.is_income,
            hidden: self.hidden,
        }
    }
}

/// The statement that lists the categories.
pub const LIST: &'static str = "SELECT c.name, COALESCE(g.name, ''), c.is_income, c.hidden FROM categories c LEFT JOIN category_groups g ON g.id = c.cat_group AND g.tombstone = 0 WHERE c.tombstone = 0 AND (?1 OR (c.hidden = 0 AND COALESCE(g.hidden, 0) = 0)) ORDER BY g.sort_order, g.name, c.sort_order, c.name";

/// What a row of the list stands for.
pub open spec fn category(row: Seq<Cell>) -> Result<Category, nat> {
    match text_in(row, 0) {
        None => Err(0),
        Some(name) => match text_in(row, 1) {
            None => Err(1),
            Some(group) => match integer_in(row, 2) {
                None => Err(2),
                Some(income) => match integer_in(row, 3) {
                    None => Err(3),
                    Some(hidden) => Ok(
                        Category { name, group, is_income: income != 0, hidden: hidden != 0 },
                    ),
                },
            },
        },
    }
}

fn read_category(row: &Vec<SqlCell>) -> (r: Result<CategoryInfo, QueryError>)
    ensures
        agrees(r, category(cells(row@))),
{
    match get_text(row, 0) {
        Err(e) => Err(e),
        Ok(name) => match get_text(row, 1) {
            Err(e) => Err(e),
            Ok(group) => match get_integer(row, 2) {
                Err(e) => Err(e),
                Ok(income) => match get_integer(row, 3) {
                    Err(e) => Err(e),
                    Ok(hidden) => Ok(
                        CategoryInfo { name, group, is_income: income != 0, hidden: hidden != 0 },
                    ),
                },
            },
        },
    }
}

/// Reads categories out of the rows of an answer.
pub fn read_categories(rows: &Vec<Vec<SqlCell>>) -> (r: Result<Vec<CategoryInfo>, QueryError>)
    ensures
        agree(r, decoded(table(rows@), |row: Seq<Cell>| category(row))),
{
    decode_rows(rows, read_category, Ghost(|row: Seq<Cell>| category(row)))
}

/// The result is what the database answers to the question for categories.
pub open spec fn categories_found(
    conn: &Connection,
    include_hidden: bool,
    r: Result<Vec<CategoryInfo>, QueryError>,
) -> bool {
    match r {
        Err(QueryError::Sqlite(e)) => refused(conn, LIST@, flag(include_hidden), e),
        _ => exists|rows: Seq<Seq<Cell>>| #[trigger]
            answered(conn, LIST@, flag(include_hidden), rows) && agree(
                r,
                decoded(rows, |row: Seq<Cell>| category(row)),
            ),
    }
}

/// List categories in budget order: groups as the user arranged them, and
/// categories in their order within each group.
pub fn list(conn: &Connection, include_hidden: bool) -> (r: Result<Vec<CategoryInfo>, QueryError>)
    ensures
        categories_found(conn, include_hidden, r),
{
    match query(conn, LIST, &flag_param(include_hidden), 4) {
        Err(e) => Err(QueryError::Sqlite(e)),
        Ok(rows) => read_categories(&rows),
    }
}

} // verus!
