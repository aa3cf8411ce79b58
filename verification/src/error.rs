//! What can go wrong, as a person or a model gets to see it.
use vstd::prelude::*;

use crate::actual::error::ActualError;
use crate::store::error::StoreError;

verus! {

#[derive(Debug)]
pub enum ConfigError {
    Missing(&'static str),
    Invalid { var: &'static str, reason: String },
    NoCacheDir,
}

impl ConfigError {
    /// The error in words.
    pub open spec fn text(self) -> Seq<char> {
        match self {
            ConfigError::Missing(var) => var@ + " is not set"@,
            ConfigError::Invalid { var, reason } => var@ + " is invalid: "@ + reason@,
            ConfigError::NoCacheDir =>
                "could not determine a cache directory; set ACTUAL_CACHE_DIR"@,
        }
    }

    /// The error in words.
    pub fn message(&self) -> (r: String)
        ensures
            r@ == self.text(),
    {
        let mut out = String::new();
        match self {
            ConfigError::Missing(var) => {
                out.append(var);
                out.append(" is not set");
            },
            ConfigError::Invalid { var, reason } => {
                out.append(var);
                out.append(" is invalid: ");
                out.append(reason.as_str());
            },
            ConfigError::NoCacheDir => {
                out.append("could not determine a cache directory; set ACTUAL_CACHE_DIR");
            },
        }
        assert(out@ =~= self.text());
        out
    }
}

#[derive(Debug)]
pub enum ToolError {
    /// The call was malformed in a way the model can correct.
    BadArgument(String),
    /// The budget could not be reached or read at all.
    Unavailable(ActualError),
    /// The local replica could not be read or written.
    Replica(StoreError),
    /// Unexpected; the model can do nothing with the detail.
    Internal(String),
}

/// The JSON-RPC code of a call with bad parameters.
pub const INVALID_PARAMS: i32 = -32602;

/// The JSON-RPC code of a call that failed on this side.
pub const INTERNAL_ERROR: i32 = -32603;

/// What a caller is answered instead of a result.
#[derive(Debug, PartialEq)]
pub struct Reply {
    pub code: i32,
    pub message: String,
}

impl ToolError {
    /// The error in words.
    pub open spec fn text(self) -> Seq<char> {
        match self {
            ToolError::BadArgument(message) => message@,
            ToolError::Unavailable(e) => "budget data is unavailable: "@ + e.text(),
            ToolError::Replica(e) => "budget data is unavailable: "@ + e.text(),
            ToolError::Internal(_) => "internal error"@,
        }
    }

    /// The error in words.
    pub fn message(&self) -> (r: String)
        ensures
            r@ == self.text(),
    {
        let mut out = String::new();
        match self {
            ToolError::BadArgument(message) => {
                out.append(message.as_str());
            },
            ToolError::Unavailable(e) => {
                out.append("budget data is unavailable: ");
                out.append(e.message().as_str());
            },
            ToolError::Replica(e) => {
                out.append("budget data is unavailable: ");
                out.append(e.message().as_str());
            },
            ToolError::Internal(_) => {
                out.append("internal error");
            },
        }
        assert(out@ =~= self.text());
        out
    }

    /// The code that the caller is answered with.
    pub open spec fn code(self) -> i32 {
        match self {
            ToolError::BadArgument(_) => INVALID_PARAMS,
            _ => INTERNAL_ERROR,
        }
    }

    /// The words that the caller is answered with. Details of the local copy,
    /// and of what was not expected, stay on this side.
    pub open spec fn answer(self) -> Seq<char> {
        match self {
            ToolError::BadArgument(message) => message@,
            ToolError::Unavailable(e) => "Budget data is unavailable: "@ + e.text(),
            ToolError::Replica(_) =>
                "Budget data is unavailable: the local cache could not be read"@,
            ToolError::Internal(_) => "internal error"@,
        }
    }

    /// What the caller is answered.
    pub fn reply(&self) -> (r: Reply)
        ensures
            r.code == self.code(),
            r.message@ == self.answer(),
    {
        match self {
            ToolError::BadArgument(message) => Reply {
                code: INVALID_PARAMS,
                message: message.clone(),
            },
            ToolError::Unavailable(e) => {
                let mut out = String::new();
                out.append("Budget data is unavailable: ");
                out.append(e.message().as_str());
                assert(out@ =~= self.answer());
                Reply { code: INTERNAL_ERROR, message: out }
            },
            ToolError::Replica(_) => Reply {
                code: INTERNAL_ERROR,
                message:
                    "Budget data is unavailable: the local cache could not be read".to_owned(),
            },
            ToolError::Internal(_) => Reply {
                code: INTERNAL_ERROR,
                message: "internal error".to_owned(),
            },
        }
    }
}

/// Everything that can go wrong bringing the server up. Reported once, to
/// stderr, before the process exits.
#[derive(Debug)]
pub enum StartupError {
    Config(ConfigError),
    Actual(ActualError),
    Replica(StoreError),
    NoGroupId,
}

impl StartupError {
    /// The error in words.
    pub open spec fn text(self) -> Seq<char> {
        match self {
            StartupError::Config(e) => e.text(),
            StartupError::Actual(e) => e.text(),
            StartupError::Replica(e) => e.text(),
            StartupError::NoGroupId =>
                "the selected budget has no group id; it may never have been synced"@,
        }
    }

    /// The error in words.
    pub fn message(&self) -> (r: String)
        ensures
            r@ == self.text(),
    {
        match self {
            StartupError::Config(e) => e.message(),
            StartupError::Actual(e) => e.message(),
            StartupError::Replica(e) => e.message(),
            StartupError::NoGroupId =>
                "the selected budget has no group id; it may never have been synced".to_owned(),
        }
    }
}

// ----------------------------------------------------------------- laws -----
/// Two failures of the local copy are answered alike, and so are two failures
/// that nobody expected: no detail of either reaches the caller.
pub proof fn details_stay_on_this_side(a: StoreError, b: StoreError, c: String, d: String)
    ensures
        ToolError::Replica(a).answer() == ToolError::Replica(b).answer(),
        ToolError::Internal(c).answer() == ToolError::Internal(d).answer(),
{
}

/// A bad argument is the caller's fault and is told as it is; everything else is
/// ours. Where the budget cannot be reached the reply ends in the reason.
pub proof fn a_reply_tells_whose_fault_it_is(e: ToolError, r: Reply)
    requires
        call_ensures(ToolError::reply, (&e,), r),
    ensures
        r.code == -32602i32 <==> e is BadArgument,
        r.code == -32602i32 || r.code == -32603i32,
        e matches ToolError::BadArgument(message) ==> r.message@ == message@,
        e matches ToolError::Unavailable(cause) ==> exists|before: Seq<char>|
            r.message@ == #[trigger] (before + cause.text()),
        e matches ToolError::Internal(detail) ==> r.message@ == "internal error"@,
{
}

} // verus!
