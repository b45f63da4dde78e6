//! The error type shared by planning and execution.

use vstd::prelude::*;

verus! {

/// An error raised while planning or executing a query; each carries a message.
#[derive(Clone, Debug, PartialEq, Eq)]
pub enum ExecutionError {
    General(String),
    ExecutionError(String),
    NotImplemented(String),
}

/// Which kind of error a value is, without its message.
#[derive(PartialEq, Eq, Structural)]
pub ghost enum ErrorKind {
    General,
    Execution,
    NotImplemented,
}

impl ExecutionError {
    pub open spec fn kind(&self) -> ErrorKind {
        match self {
            ExecutionError::General(_) => ErrorKind::General,
            ExecutionError::ExecutionError(_) => ErrorKind::Execution,
            ExecutionError::NotImplemented(_) => ErrorKind::NotImplemented,
        }
    }

    pub open spec fn message(&self) -> Seq<char> {
        match self {
            ExecutionError::General(m) => m@,
            ExecutionError::ExecutionError(m) => m@,
            ExecutionError::NotImplemented(m) => m@,
        }
    }
}

/// `prefix` followed by `detail`, as an owned string.
pub fn message_with(prefix: &str, detail: &str) -> (r: String)
    ensures
        r@ == prefix@ + detail@,
{
    let s = String::from_str(prefix);
    s.concat(detail)
}

} // verus!
