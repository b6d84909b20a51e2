//! Library error type.

use vstd::prelude::*;

verus! {

/// Top-level framework error (the variants whose payload is plain text).
#[derive(Debug)]
pub enum Error {
    /// Risk rejected order.
    RiskRejected(String),
    /// Execution rejected.
    ExecutionRejected(String),
    /// Invalid configuration or state.
    Invalid(String),
    /// External strategy protocol failure.
    StrategyProtocol(String),
    /// Backtest cancelled via cooperative flag.
    Cancelled,
}

/// Which variant an error is.
#[derive(Clone, Copy, Debug, PartialEq, Eq, Structural)]
pub enum ErrorKind {
    RiskRejected,
    ExecutionRejected,
    Invalid,
    StrategyProtocol,
    Cancelled,
}

/// An error as plain values: its variant and its payload text.
pub type Failure = (ErrorKind, Seq<char>);

impl Error {
    /// The variant.
    pub open spec fn kind(self) -> ErrorKind {
        match self {
            Error::RiskRejected(_) => ErrorKind::RiskRejected,
            Error::ExecutionRejected(_) => ErrorKind::ExecutionRejected,
            Error::Invalid(_) => ErrorKind::Invalid,
            Error::StrategyProtocol(_) => ErrorKind::StrategyProtocol,
            Error::Cancelled => ErrorKind::Cancelled,
        }
    }

    /// The payload text (empty for `Cancelled`).
    pub open spec fn detail(self) -> Seq<char> {
        match self {
            Error::RiskRejected(m) => m@,
            Error::ExecutionRejected(m) => m@,
            Error::Invalid(m) => m@,
            Error::StrategyProtocol(m) => m@,
            Error::Cancelled => Seq::empty(),
        }
    }

    /// The error described as plain values.
    pub open spec fn failure(self) -> Failure {
        (self.kind(), self.detail())
    }

    /// The text the error displays.
    pub open spec fn display(self) -> Seq<char> {
        match self {
            Error::RiskRejected(m) => "risk rejected: "@ + m@,
            Error::ExecutionRejected(m) => "execution rejected: "@ + m@,
            Error::Invalid(m) => "invalid: "@ + m@,
            Error::StrategyProtocol(m) => "strategy protocol: "@ + m@,
            Error::Cancelled => "backtest cancelled"@,
        }
    }

    /// The displayed text of the error.
    pub fn to_text(&self) -> (r: String)
        ensures
            r@ == self.display(),
    {
        let mut s = String::new();
        match self {
            Error::RiskRejected(m) => {
                s.append("risk rejected: ");
                s.append(m.as_str());
            },
            Error::ExecutionRejected(m) => {
                s.append("execution rejected: ");
                s.append(m.as_str());
            },
            Error::Invalid(m) => {
                s.append("invalid: ");
                s.append(m.as_str());
            },
            Error::StrategyProtocol(m) => {
                s.append("strategy protocol: ");
                s.append(m.as_str());
            },
            Error::Cancelled => {
                s.append("backtest cancelled");
            },
        }
        s
    }
}

/// An invalid-input error with the given text.
pub fn invalid(msg: &str) -> (r: Error)
    ensures
        r.failure() == (ErrorKind::Invalid, msg@),
{
    Error::Invalid(msg.to_owned())
}

/// An execution-rejected error with the given text.
pub fn execution_rejected(msg: &str) -> (r: Error)
    ensures
        r.failure() == (ErrorKind::ExecutionRejected, msg@),
{
    Error::ExecutionRejected(msg.to_owned())
}

/// `r` is the outcome `o` described with plain values.
pub open spec fn outcome_is<T>(r: Result<T, Error>, o: Result<T, Failure>) -> bool {
    match (r, o) {
        (Ok(a), Ok(b)) => a == b,
        (Err(e), Err(f)) => e.failure() == f,
        _ => false,
    }
}

} // verus!
