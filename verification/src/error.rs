//! The failures of the ingestion pipeline and the reply sent for a message.

use vstd::prelude::*;
use vstd::string::StringExecFns;
use crate::text::same_text;

verus! {

/// Why a message could not be ingested. Each variant carries the text that
/// describes the failure.
#[derive(Debug, Clone)]
pub enum Error {
    /// The storage layer failed a query or a transaction.
    Database(String),
    /// No storage connection could be had.
    Pool(String),
    /// The message is malformed or names an unknown parameter.
    Parse(String),
    /// The check scheduler failed.
    Qc(String),
    /// The data window for the checks could not be fetched.
    Connector(String),
    /// The shared permit tables were left in a broken state.
    Lock(String),
    /// A setting was missing from the environment.
    Env(String),
}

impl Error {
    /// The text carried by the failure.
    pub open spec fn text(&self) -> Seq<char> {
        match self {
            Error::Database(m) => m@,
            Error::Pool(m) => m@,
            Error::Parse(m) => m@,
            Error::Qc(m) => m@,
            Error::Connector(m) => m@,
            Error::Lock(m) => m@,
            Error::Env(m) => m@,
        }
    }

    /// What introduces the carried text in the rendered failure.
    pub open spec fn prefix(&self) -> Seq<char> {
        match self {
            Error::Database(_) => "postgres returned an error: "@,
            Error::Pool(_) => "database pool could not return a connection: "@,
            Error::Parse(_) => "parse error: "@,
            Error::Qc(_) => "qc system returned an error: "@,
            Error::Connector(_) => "rove connector returned an error: "@,
            Error::Lock(_) => "RwLock was poisoned: "@,
            Error::Env(_) => "Could not read environment variable: "@,
        }
    }

    /// Sending the same message again cannot help exactly when it failed to
    /// parse.
    pub open spec fn spec_retryable(&self) -> bool {
        !(self is Parse)
    }

    /// Whether the sender should send the message again.
    #[verifier::when_used_as_spec(spec_retryable)]
    pub fn retryable(&self) -> (r: bool)
        ensures
            r == self.spec_retryable(),
    {
        match self {
            Error::Parse(_) => false,
            _ => true,
        }
    }

    /// The failure rendered for a reader.
    pub fn message(&self) -> (r: String)
        ensures
            r@ == self.prefix() + self.text(),
    {
        match self {
            Error::Database(m) => String::from_str("postgres returned an error: ").concat(
                m.as_str(),
            ),
            Error::Pool(m) => String::from_str(
                "database pool could not return a connection: ",
            ).concat(m.as_str()),
            Error::Parse(m) => String::from_str("parse error: ").concat(m.as_str()),
            Error::Qc(m) => String::from_str("qc system returned an error: ").concat(m.as_str()),
            Error::Connector(m) => String::from_str("rove connector returned an error: ").concat(
                m.as_str(),
            ),
            Error::Lock(m) => String::from_str("RwLock was poisoned: ").concat(m.as_str()),
            Error::Env(m) => String::from_str("Could not read environment variable: ").concat(
                m.as_str(),
            ),
        }
    }
}

impl PartialEq for Error {
    fn eq(&self, other: &Self) -> (r: bool) {
        match (self, other) {
            (Error::Database(a), Error::Database(b)) => same_text(a.as_str(), b.as_str()),
            (Error::Pool(a), Error::Pool(b)) => same_text(a.as_str(), b.as_str()),
            (Error::Parse(a), Error::Parse(b)) => same_text(a.as_str(), b.as_str()),
            (Error::Lock(a), Error::Lock(b)) => same_text(a.as_str(), b.as_str()),
            (Error::Env(a), Error::Env(b)) => same_text(a.as_str(), b.as_str()),
            _ => false,
        }
    }
}

impl vstd::std_specs::cmp::PartialEqSpecImpl for Error {
    open spec fn obeys_eq_spec() -> bool {
        true
    }

    /// Failures of the scheduler and of the connector are never equal, not
    /// even to themselves.
    open spec fn eq_spec(&self, other: &Self) -> bool {
        match (self, other) {
            (Error::Database(a), Error::Database(b)) => a@ == b@,
            (Error::Pool(a), Error::Pool(b)) => a@ == b@,
            (Error::Parse(a), Error::Parse(b)) => a@ == b@,
            (Error::Lock(a), Error::Lock(b)) => a@ == b@,
            (Error::Env(a), Error::Env(b)) => a@ == b@,
            _ => false,
        }
    }
}

/// A result that is either the value `v` or a parse failure with text `m`.
pub open spec fn decodes_to<T>(r: Result<T, Error>, want: Result<T, Seq<char>>) -> bool {
    match want {
        Ok(v) => r is Ok && r->Ok_0 == v,
        Err(m) => r is Err && r->Err_0 is Parse && r->Err_0.text() == m,
    }
}

/// The reply that the sender of a message expects.
#[derive(Debug, Clone, PartialEq)]
pub struct KldataResp {
    /// What went wrong, empty on success.
    pub message: String,
    /// The id of the message that is answered, 0 when it is not known.
    pub message_id: usize,
    /// 0 on success, 1 on failure.
    pub res: u8,
    /// Whether the sender should send the message again.
    pub retry: bool,
}

impl KldataResp {
    /// The reply for the outcome of one message: success echoes the message
    /// id; failure carries the rendered failure, and asks for a retry unless
    /// the message failed to parse.
    pub fn from_outcome(outcome: &Result<usize, Error>) -> (r: KldataResp)
        ensures
            match outcome {
                Ok(id) => r.message@ == Seq::<char>::empty() && r.message_id == *id && r.res == 0
                    && !r.retry,
                Err(e) => r.message@ == e.prefix() + e.text() && r.message_id == 0 && r.res == 1
                    && r.retry == e.spec_retryable(),
            },
    {
        match outcome {
            Ok(id) => KldataResp { message: String::new(), message_id: *id, res: 0, retry: false },
            Err(e) => KldataResp {
                message: e.message(),
                message_id: 0,
                res: 1,
                retry: e.retryable(),
            },
        }
    }
}

} // verus!
