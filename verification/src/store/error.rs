//! What can go wrong with the local copy.
use vstd::prelude::*;

use crate::actual::number::Oddity;
use crate::store::sql::QueryError;
use crate::text::{a_part_is_contained, contains_text, quote, quoted};

verus! {

/// The replica layer speaks SQLite and the filesystem, a different vocabulary
/// from `ActualError`, so it gets its own enum.
#[derive(Debug)]
pub enum StoreError {
    CacheDir { path: String, cause: String },
    Write { path: String, cause: String },
    Sqlite(QueryError),
    UnknownTable { timestamp: String, dataset: String },
    UnknownColumn { timestamp: String, dataset: String, column: String },
    RewritesPrimaryKey { timestamp: String, dataset: String },
    UnrepresentableNumber { timestamp: String, value: Oddity },
    NoClock,
    Join(String),
}

impl StoreError {
    /// The error in words.
    pub open spec fn text(self) -> Seq<char> {
        match self {
            StoreError::CacheDir { path, .. } => "could not create the cache directory "@ + path@,
            StoreError::Write { path, .. } => "could not write the replica at "@ + path@,
            StoreError::Sqlite(_) => "replica database error"@,
            StoreError::UnknownTable { timestamp, dataset } => "sync message "@ + timestamp@
                + " targets unknown table "@ + quoted(dataset@),
            StoreError::UnknownColumn { timestamp, dataset, column } => "sync message "@
                + timestamp@ + " targets unknown column "@ + quoted(column@) + " on table "@
                + dataset@,
            StoreError::RewritesPrimaryKey { timestamp, dataset } => "sync message "@ + timestamp@
                + " tries to rewrite the primary key of "@ + dataset@,
            StoreError::UnrepresentableNumber { timestamp, value } => "sync message "@ + timestamp@
                + " carries a number that cannot be stored: "@ + value.text(),
            StoreError::NoClock =>
                "the replica has no stored clock; it may be corrupt \u{2014} delete the cache directory"@,
            StoreError::Join(_) => "replica task failed"@,
        }
    }

    /// The error in words.
    pub fn message(&self) -> (r: String)
        ensures
            r@ == self.text(),
    {
        let mut out = String::new();
        match self {
            StoreError::CacheDir { path, .. } => {
                out.append("could not create the cache directory ");
                out.append(path.as_str());
            },
            StoreError::Write { path, .. } => {
                out.append("could not write the replica at ");
                out.append(path.as_str());
            },
            StoreError::Sqlite(_) => {
                out.append("replica database error");
            },
            StoreError::UnknownTable { timestamp, dataset } => {
                out.append("sync message ");
                out.append(timestamp.as_str());
                out.append(" targets unknown table ");
                out.append(quote(dataset.as_str()).as_str());
            },
            StoreError::UnknownColumn { timestamp, dataset, column } => {
                out.append("sync message ");
                out.append(timestamp.as_str());
                out.append(" targets unknown column ");
                out.append(quote(column.as_str()).as_str());
                out.append(" on table ");
                out.append(dataset.as_str());
            },
            StoreError::RewritesPrimaryKey { timestamp, dataset } => {
                out.append("sync message ");
                out.append(timestamp.as_str());
                out.append(" tries to rewrite the primary key of ");
                out.append(dataset.as_str());
            },
            StoreError::UnrepresentableNumber { timestamp, value } => {
                out.append("sync message ");
                out.append(timestamp.as_str());
                out.append(" carries a number that cannot be stored: ");
                out.append(value.message().as_str());
            },
            StoreError::NoClock => {
                out.append(
                    "the replica has no stored clock; it may be corrupt \u{2014} delete the cache directory",
                );
            },
            StoreError::Join(_) => {
                out.append("replica task failed");
            },
        }
        assert(out@ =~= self.text());
        out
    }
}

// ----------------------------------------------------------------- laws -----
/// An error about a message names the message by its time, and the table or the
/// column that is not there.
pub proof fn errors_name_their_message(e: StoreError)
    ensures
        e matches StoreError::UnknownTable { timestamp, dataset } ==> contains_text(
            e.text(),
            timestamp@,
        ) && contains_text(e.text(), quoted(dataset@)),
        e matches StoreError::UnknownColumn { timestamp, dataset, column } ==> contains_text(
            e.text(),
            timestamp@,
        ) && contains_text(e.text(), dataset@) && contains_text(e.text(), quoted(column@)),
        e matches StoreError::RewritesPrimaryKey { timestamp, dataset } ==> contains_text(
            e.text(),
            timestamp@,
        ) && contains_text(e.text(), dataset@),
        e matches StoreError::UnrepresentableNumber { timestamp, value } ==> contains_text(
            e.text(),
            timestamp@,
        ) && contains_text(e.text(), value.text()),
{
    let none = Seq::<char>::empty();
    let whole = e.text();
    let start = "sync message "@;
    match e {
        StoreError::UnknownTable { timestamp, dataset } => {
            let between = " targets unknown table "@;
            assert(whole =~= start + timestamp@ + (between + quoted(dataset@)));
            a_part_is_contained(start, timestamp@, between + quoted(dataset@));
            let before = start + timestamp@ + between;
            assert(whole =~= before + quoted(dataset@) + none);
            a_part_is_contained(before, quoted(dataset@), none);
        },
        StoreError::UnknownColumn { timestamp, dataset, column } => {
            let rest = " targets unknown column "@ + quoted(column@) + " on table "@ + dataset@;
            assert(whole =~= start + timestamp@ + rest);
            a_part_is_contained(start, timestamp@, rest);
            let before = start + timestamp@ + " targets unknown column "@;
            assert(whole =~= before + quoted(column@) + (" on table "@ + dataset@));
            a_part_is_contained(before, quoted(column@), " on table "@ + dataset@);
            let more = before + quoted(column@) + " on table "@;
            assert(whole =~= more + dataset@ + none);
            a_part_is_contained(more, dataset@, none);
        },
        StoreError::RewritesPrimaryKey { timestamp, dataset } => {
            let between = " tries to rewrite the primary key of "@;
            assert(whole =~= start + timestamp@ + (between + dataset@));
            a_part_is_contained(start, timestamp@, between + dataset@);
            let before = start + timestamp@ + between;
            assert(whole =~= before + dataset@ + none);
            a_part_is_contained(before, dataset@, none);
        },
        StoreError::UnrepresentableNumber { timestamp, value } => {
            let between = " carries a number that cannot be stored: "@;
            assert(whole =~= start + timestamp@ + (between + value.text()));
            a_part_is_contained(start, timestamp@, between + value.text());
            let before = start + timestamp@ + between;
            assert(whole =~= before + value.text() + none);
            a_part_is_contained(before, value.text(), none);
        },
        _ => {},
    }
}

} // verus!
