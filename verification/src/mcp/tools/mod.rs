//! What the tools take and what they answer.
//!
//! Each tool answers from the local copy; bringing that up to date beforehand
//! is the server's part.
use vstd::prelude::*;

use crate::error::ToolError;
use crate::store::error::StoreError;
use crate::store::sql::QueryError;

pub mod freshness;
pub mod list_accounts;
pub mod list_categories;
pub mod monthly_budget;
pub mod query_transactions;
pub mod spending_by_category;

verus! {

/// The detail given where a sum of amounts cannot be represented.
pub const OUT_OF_RANGE: &'static str = "a sum of amounts leaves the range of an i64";

/// The error is the one for a total that cannot be represented.
pub open spec fn out_of_range(e: ToolError) -> bool {
    e matches ToolError::Internal(detail) && detail@ == OUT_OF_RANGE@
}

/// The error is the one for a query that has no answer.
pub open spec fn passes_on(e: ToolError, cause: QueryError) -> bool {
    if cause is Overflow {
        out_of_range(e)
    } else {
        e == ToolError::Replica(StoreError::Sqlite(cause))
    }
}

/// The error for a total that cannot be represented.
pub(crate) fn too_large() -> (r: ToolError)
    ensures
        out_of_range(r),
{
    ToolError::Internal(OUT_OF_RANGE.to_owned())
}

/// The error for a query that has no answer.
pub(crate) fn failed(cause: QueryError) -> (r: ToolError)
    ensures
        passes_on(r, cause),
{
    match cause {
        QueryError::Overflow => too_large(),
        other => ToolError::Replica(StoreError::Sqlite(other)),
    }
}

} // verus!
