//! Questions put to the local copy of the budget.
pub mod accounts;
pub mod budget;
pub mod categories;
pub mod edit;
pub mod reading;
pub mod resolve;
pub mod rows;
pub mod scope;
pub mod statements;
pub mod transactions;
