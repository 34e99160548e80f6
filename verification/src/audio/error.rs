use vstd::prelude::*;

verus! {

/// Why the engine refused a request.
#[derive(Clone, Copy, Debug, PartialEq, Eq, Structural)]
pub enum AudioError {
    /// A clip was offered with a channel count other than one or two.
    InvalidChannels,
    /// A node id names no node of the graph.
    UnknownNode,
    /// An edge id names no edge of the graph.
    UnknownEdge,
    /// The edge would close a cycle, or would leave the root.
    CycleDetected,
    /// An edge with the same endpoints and the same operation is already there.
    DuplicateEdge,
    /// A frame index lies past the end of the clip.
    OutOfBounds,
    /// A clip's sample rate differs from the rate of the processor it is handed to.
    RateMismatch,
}

impl AudioError {
    /// A short description for messages.
    pub fn message(&self) -> (text: &'static str)
        ensures
            text@ == (match *self {
                AudioError::InvalidChannels => "invalid number of channels"@,
                AudioError::UnknownNode => "unknown node"@,
                AudioError::UnknownEdge => "unknown edge"@,
                AudioError::CycleDetected => "connection would create a cycle"@,
                AudioError::DuplicateEdge => "connection already exists"@,
                AudioError::OutOfBounds => "frame index out of bounds"@,
                AudioError::RateMismatch => "sample rate mismatch"@,
            }),
    {
        match self {
            AudioError::InvalidChannels => "invalid number of channels",
            AudioError::UnknownNode => "unknown node",
            AudioError::UnknownEdge => "unknown edge",
            AudioError::CycleDetected => "connection would create a cycle",
            AudioError::DuplicateEdge => "connection already exists",
            AudioError::OutOfBounds => "frame index out of bounds",
            AudioError::RateMismatch => "sample rate mismatch",
        }
    }
}

} // verus!
