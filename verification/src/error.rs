//! Library-level errors with typed, matchable variants.

use vstd::prelude::*;
use vstd::string::*;

verus! {

/// Library-level errors.
#[derive(Clone, Debug)]
pub enum Error {
    Config(String),
    Ingestion(String),
    Classification(String),
    Behavior(String),
    Recommendation(String),
    Metrics(String),
}

/// The message of an error: its kind, then its detail.
pub open spec fn error_text(e: Error) -> Seq<char> {
    match e {
        Error::Config(m) => "configuration error: "@ + m@,
        Error::Ingestion(m) => "ingestion error: "@ + m@,
        Error::Classification(m) => "classification error: "@ + m@,
        Error::Behavior(m) => "behavior test error: "@ + m@,
        Error::Recommendation(m) => "recommendation error: "@ + m@,
        Error::Metrics(m) => "metrics error: "@ + m@,
    }
}

impl Error {
    /// The error's message.
    pub fn to_string(&self) -> (s: String)
        ensures
            s@ == error_text(*self),
    {
        let (prefix, detail) = match self {
            Error::Config(m) => ("configuration error: ", m),
            Error::Ingestion(m) => ("ingestion error: ", m),
            Error::Classification(m) => ("classification error: ", m),
            Error::Behavior(m) => ("behavior test error: ", m),
            Error::Recommendation(m) => ("recommendation error: ", m),
            Error::Metrics(m) => ("metrics error: ", m),
        };
        let mut s = String::from_str(prefix);
        s.append(detail.as_str());
        s
    }
}

} // verus!
