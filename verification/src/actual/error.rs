//! What can go wrong between here and the Actual server.
use prost::DecodeError;
use vstd::prelude::*;

use crate::config::ACTUAL_SYNC_ID;
use crate::text::{
    a_part_is_contained, contains_text, decimal, decimal_text, join, joined, parts_are_contained,
    texts,
};

verus! {

#[derive(Debug)]
pub enum ActualError {
    Transport { url: String, cause: String },
    /// The reason is the server's own.
    Auth(String),
    Api { status: u16, reason: String },
    Decode { endpoint: &'static str, cause: String },
    /// The chosen budget has an encryption key.
    Encrypted { name: String },
    NoBudget,
    AmbiguousBudget { names: Vec<String> },
    BudgetNotFound { sync_id: String, available: Vec<String> },
    BadSnapshot { reason: String },
    BadMessage { timestamp: String, reason: String },
    BadSyncResponse(DecodeError),
}

impl ActualError {
    /// The error in words.
    pub open spec fn text(self) -> Seq<char> {
        match self {
            ActualError::Transport { url, .. } => "could not reach the Actual server at "@ + url@,
            ActualError::Auth(reason) => "authentication failed: "@ + reason@,
            ActualError::Api { status, reason } => "Actual server returned "@ + decimal(
                status as nat,
            ) + ": "@ + reason@,
            ActualError::Decode { endpoint, .. } => "unexpected response from "@ + endpoint@,
            ActualError::Encrypted { name } => "budget '"@ + name@
                + "' is end-to-end encrypted, which is not supported"@,
            ActualError::NoBudget => "no budget file found on the Actual server"@,
            ActualError::AmbiguousBudget { names } => "multiple budgets found; set '"@
                + ACTUAL_SYNC_ID@ + "' to one of: "@ + joined(texts(names@), ", "@),
            ActualError::BudgetNotFound { sync_id, available } => "no budget with sync id '"@
                + sync_id@ + "' found; available: "@ + joined(texts(available@), ", "@),
            ActualError::BadSnapshot { reason } => "could not read the budget snapshot: "@
                + reason@,
            ActualError::BadMessage { timestamp, reason } => "sync message "@ + timestamp@
                + " is unusable: "@ + reason@,
            ActualError::BadSyncResponse(_) => "could not decode the sync response"@,
        }
    }

    /// The error in words.
    pub fn message(&self) -> (r: String)
        ensures
            r@ == self.text(),
    {
        let mut out = String::new();
        match self {
            ActualError::Transport { url, .. } => {
                out.append("could not reach the Actual server at ");
                out.append(url.as_str());
            },
            ActualError::Auth(reason) => {
                out.append("authentication failed: ");
                out.append(reason.as_str());
            },
            ActualError::Api { status, reason } => {
                out.append("Actual server returned ");
                out.append(decimal_text(*status as u64).as_str());
                out.append(": ");
                out.append(reason.as_str());
            },
            ActualError::Decode { endpoint, .. } => {
                out.append("unexpected response from ");
                out.append(endpoint);
            },
            ActualError::Encrypted { name } => {
                out.append("budget '");
                out.append(name.as_str());
                out.append("' is end-to-end encrypted, which is not supported");
            },
            ActualError::NoBudget => {
                out.append("no budget file found on the Actual server");
            },
            ActualError::AmbiguousBudget { names } => {
                out.append("multiple budgets found; set '");
                out.append(ACTUAL_SYNC_ID);
                out.append("' to one of: ");
                out.append(join(names, ", ").as_str());
            },
            ActualError::BudgetNotFound { sync_id, available } => {
                out.append("no budget with sync id '");
                out.append(sync_id.as_str());
                out.append("' found; available: ");
                out.append(join(available, ", ").as_str());
            },
            ActualError::BadSnapshot { reason } => {
                out.append("could not read the budget snapshot: ");
                out.append(reason.as_str());
            },
            ActualError::BadMessage { timestamp, reason } => {
                out.append("sync message ");
                out.append(timestamp.as_str());
                out.append(" is unusable: ");
                out.append(reason.as_str());
            },
            ActualError::BadSyncResponse(_) => {
                out.append("could not decode the sync response");
            },
        }
        assert(out@ =~= self.text());
        out
    }
}

// ----------------------------------------------------------------- laws -----
/// An error in words names what it is about: the address, the server's reason, the
/// budget or the budgets, the message.
pub proof fn errors_name_their_subject(e: ActualError, i: int)
    ensures
        e matches ActualError::Transport { url, .. } ==> contains_text(e.text(), url@),
        e matches ActualError::Auth(reason) ==> contains_text(e.text(), reason@),
        e matches ActualError::Api { status, reason } ==> contains_text(e.text(), reason@)
            && contains_text(e.text(), decimal(status as nat)),
        e matches ActualError::Decode { endpoint, .. } ==> contains_text(e.text(), endpoint@),
        e matches ActualError::Encrypted { name } ==> contains_text(e.text(), name@),
        e matches ActualError::AmbiguousBudget { names } ==> (0 <= i < names@.len()
            ==> contains_text(e.text(), names@[i]@)),
        e matches ActualError::BudgetNotFound { sync_id, available } ==> contains_text(
            e.text(),
            sync_id@,
        ) && (0 <= i < available@.len() ==> contains_text(e.text(), available@[i]@)),
        e matches ActualError::BadSnapshot { reason } ==> contains_text(e.text(), reason@),
        e matches ActualError::BadMessage { timestamp, reason } ==> contains_text(
            e.text(),
            timestamp@,
        ) && contains_text(e.text(), reason@),
{
    let whole = e.text();
    match e {
        ActualError::Transport { url, .. } => {
            ends_with_it(whole, "could not reach the Actual server at "@, url@);
        },
        ActualError::Auth(reason) => {
            ends_with_it(whole, "authentication failed: "@, reason@);
        },
        ActualError::Api { status, reason } => {
            let (start, code) = ("Actual server returned "@, decimal(status as nat));
            ends_with_it(whole, start + code + ": "@, reason@);
            assert(whole =~= start + code + (": "@ + reason@));
            a_part_is_contained(start, code, ": "@ + reason@);
        },
        ActualError::Decode { endpoint, .. } => {
            ends_with_it(whole, "unexpected response from "@, endpoint@);
        },
        ActualError::Encrypted { name } => {
            a_part_is_contained(
                "budget '"@,
                name@,
                "' is end-to-end encrypted, which is not supported"@,
            );
        },
        ActualError::AmbiguousBudget { names } => {
            let start = "multiple budgets found; set '"@ + ACTUAL_SYNC_ID@ + "' to one of: "@;
            if 0 <= i < names@.len() {
                lists_it(whole, start, texts(names@), i);
            }
        },
        ActualError::BudgetNotFound { sync_id, available } => {
            let start = "no budget with sync id '"@;
            let all = joined(texts(available@), ", "@);
            assert(whole =~= start + sync_id@ + ("' found; available: "@ + all));
            a_part_is_contained(start, sync_id@, "' found; available: "@ + all);
            if 0 <= i < available@.len() {
                lists_it(
                    whole,
                    start + sync_id@ + "' found; available: "@,
                    texts(available@),
                    i,
                );
            }
        },
        ActualError::BadSnapshot { reason } => {
            ends_with_it(whole, "could not read the budget snapshot: "@, reason@);
        },
        ActualError::BadMessage { timestamp, reason } => {
            let start = "sync message "@;
            ends_with_it(whole, start + timestamp@ + " is unusable: "@, reason@);
            assert(whole =~= start + timestamp@ + (" is unusable: "@ + reason@));
            a_part_is_contained(start, timestamp@, " is unusable: "@ + reason@);
        },
        _ => {},
    }
}

proof fn ends_with_it(whole: Seq<char>, before: Seq<char>, text: Seq<char>)
    requires
        whole == before + text,
    ensures
        contains_text(whole, text),
{
    let none = Seq::<char>::empty();
    assert(whole =~= before + text + none);
    a_part_is_contained(before, text, none);
}

proof fn lists_it(whole: Seq<char>, before: Seq<char>, parts: Seq<Seq<char>>, i: int)
    requires
        whole == before + joined(parts, ", "@),
        0 <= i < parts.len(),
    ensures
        contains_text(whole, parts[i]),
{
    parts_are_contained(parts, ", "@, i);
    let (a, b) = choose|a: Seq<char>, b: Seq<char>|
        joined(parts, ", "@) == #[trigger] (a + parts[i] + b);
    assert(whole =~= (before + a) + parts[i] + b);
    a_part_is_contained(before + a, parts[i], b);
}

} // verus!
