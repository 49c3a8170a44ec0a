use vstd::prelude::*;

verus! {

/// The ways one invocation can fail; every one of them ends the invocation.
#[derive(Debug, Clone, PartialEq, Eq)]
pub enum CodecError {
    /// The trigger was not one of the recognized contract-event kinds.
    UnsupportedTriggerKind,
    /// The event log or the trigger envelope does not follow its ABI schema.
    MalformedTriggerEnvelope,
    /// The envelope's `data` does not follow the payload schema.
    MalformedPayload,
    /// The external computation failed; the reason is free text.
    ComputationFailed(String),
    /// The result metadata could not be serialized.
    SerializationFailed,
}

} // verus!
