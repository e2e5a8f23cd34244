use vstd::prelude::*;

verus! {

/// Failure categories surfaced by the engine. `ThreadAdd` reports that the
/// operating system refused to start a worker, `ThreadJoin` that a worker
/// terminated abnormally, and `Other` covers internal dispatch faults such
/// as handing an empty batch to a worker.
#[derive(Debug)]
pub enum WorkThreadError {
    ThreadJoin,
    ThreadAdd(String),
    Other(String),
}

impl WorkThreadError {
    /// Short description of the error category. The verified core cannot
    /// implement `Display`, so callers that need text use this instead.
    pub fn message(&self) -> (r: &'static str)
        ensures
            (self is ThreadJoin) ==> r@ == "join error"@,
            (self is ThreadAdd) ==> r@ == "thread add error"@,
            (self is Other) ==> r@ == "other error"@,
    {
        match self {
            WorkThreadError::ThreadJoin => "join error",
            WorkThreadError::ThreadAdd(_) => "thread add error",
            WorkThreadError::Other(_) => "other error",
        }
    }
}

} // verus!
