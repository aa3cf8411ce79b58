//! `list_categories`
use rusqlite::Connection;
use vstd::prelude::*;

use crate::error::ToolError;
use crate::mcp::tools::{failed, passes_on};
use crate::queries::categories::{categories_found, category, list, Category, CategoryInfo};
use crate::queries::statements::{categories_are_listed_with_their_groups, categories_select};
use crate::store::sql::{answered, decoded, views, Cell, QueryError};

verus! {

pub const NAME: &'static str = "list_categories";

pub const DESCRIPTION: &'static str = "Lists the budget's categories and the groups they belong to. Useful for discovering the exact category names that other tools accept. Income categories record money coming in and are never budgeted against.";

pub struct ListCategories;

#[derive(Debug)]
pub struct Input {
    /// Whether to list categories the user has hidden, usually ones no longer
    /// in use. Historical transactions may still reference them.
    pub include_hidden: bool,
}

#[derive(Debug)]
pub struct Output {
    /// In budget order: groups as the user arranged them, categories in their
    /// order within each group.
    pub categories: Vec<CategoryInfo>,
}

/// The result is the one for what the query found.
pub open spec fn answers(
    found: Result<Vec<CategoryInfo>, QueryError>,
    r: Result<Output, ToolError>,
) -> bool {
    match found {
        Err(cause) => r matches Err(e) && passes_on(e, cause),
        Ok(categories) => r matches Ok(out) && out.categories == categories,
    }
}

impl ListCategories {
    pub fn name() -> (r: &'static str)
        ensures
            r@ == NAME@,
    {
        NAME
    }

    pub fn description() -> (r: &'static str)
        ensures
            r@ == DESCRIPTION@,
    {
        DESCRIPTION
    }

    /// What the tool answers from the local copy.
    pub fn invoke(conn: &Connection, param: &Input) -> (r: Result<Output, ToolError>)
        ensures
            exists|found: Result<Vec<CategoryInfo>, QueryError>| #[trigger]
                categories_found(conn, param.include_hidden, found) && answers(found, r),
    {
        let found = list(conn, param.include_hidden);
        let ghost asked = found;
        assert(categories_found(conn, param.include_hidden, asked));
        match found {
            Err(cause) => Err(failed(cause)),
            Ok(categories) => Ok(Output { categories }),
        }
    }
}

// ----------------------------------------------------------------- laws -----
/// What is listed is every category that the database answers with, hidden ones
/// only where they are asked for.
pub proof fn every_category_found_is_listed(conn: &Connection, param: &Input, out: Output)
    requires
        call_ensures(ListCategories::invoke, (conn, param), Ok(out)),
    ensures
        exists|hidden: Seq<Cell>, rows: Seq<Seq<Cell>>| #[trigger]
            answered(conn, categories_select().text(), hidden, rows) && hidden == seq![
                Cell::Integer(
                    if param.include_hidden {
                        1
                    } else {
                        0
                    },
                ),
            ] && decoded(rows, |row: Seq<Cell>| category(row)) == Ok::<Seq<Category>, nat>(
                views(out.categories@),
            ),
{
    categories_are_listed_with_their_groups(
        param.include_hidden,
        |column: Seq<char>| Cell::Null,
    );
}

} // verus!
