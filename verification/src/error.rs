use vstd::prelude::*;

verus! {

/// The classes of failure the pipeline can report.
#[derive(Clone, Copy, Debug, PartialEq, Eq, Structural)]
pub enum ErrorKind {
    /// The request itself is unacceptable (e.g. a birth year in the future);
    /// detected before any trace or commitment work begins.
    InvalidInput,
    /// The external proving or verification engine reported a failure.
    EngineFailure,
    /// A proof artifact could not be parsed.
    DeserializationFailure,
    /// A caller broke an internal protocol, such as reading more trace masks
    /// than the component declares.
    PreconditionViolation,
}

/// A typed failure carrying the underlying diagnostic text.
#[derive(Debug)]
pub struct PipelineError {
    pub kind: ErrorKind,
    pub message: String,
}

impl PipelineError {
    pub fn new(kind: ErrorKind, message: &str) -> (r: PipelineError)
        ensures
            r.kind == kind,
            r.message@ == message@,
    {
        PipelineError { kind, message: message.to_owned() }
    }

    /// The diagnostic text, for display at the outward boundary.
    pub fn message(&self) -> (r: String)
        ensures
            r@ == self.message@,
    {
        self.message.clone()
    }
}

} // verus!
