use vstd::prelude::*;

verus! {

/// Error kinds surfaced at the engine boundary. Payloads are human-readable
/// messages; callers are expected to match on the kind, never on the text.
#[derive(Debug)]
pub enum DataFusionError {
    /// Underlying file or decoder failure.
    Io(String),
    /// A projection index was out of range.
    InvalidColumn(String),
    /// An unsupported schema feature was requested.
    NotImplemented(String),
    /// An internal invariant was violated.
    Internal(String),
    /// Adapter-layer failure, e.g. a broken channel.
    General(String),
    /// A columnar-kernel failure, e.g. a length or type mismatch.
    Arrow(String),
}

impl DataFusionError {
    /// The message carried by any of the kinds.
    pub open spec fn spec_message(&self) -> Seq<char> {
        match self {
            DataFusionError::Io(s) => s@,
            DataFusionError::InvalidColumn(s) => s@,
            DataFusionError::NotImplemented(s) => s@,
            DataFusionError::Internal(s) => s@,
            DataFusionError::General(s) => s@,
            DataFusionError::Arrow(s) => s@,
        }
    }

    /// The message carried by any of the kinds.
    pub fn message(&self) -> (r: &String)
        ensures
            r@ == self.spec_message(),
    {
        match self {
            DataFusionError::Io(s) => s,
            DataFusionError::InvalidColumn(s) => s,
            DataFusionError::NotImplemented(s) => s,
            DataFusionError::Internal(s) => s,
            DataFusionError::General(s) => s,
            DataFusionError::Arrow(s) => s,
        }
    }
}

} // verus!
