//! Error taxonomy of the protocol core.
use vstd::prelude::*;

verus! {

/// Why a protocol method call was rejected.
///
/// Validation errors surface synchronously to the calling client; they never
/// crash the server.
#[derive(Clone, Copy, Debug, PartialEq, Eq, Structural)]
pub enum ProtocolError {
    /// A recognized hint key carried a value of the wrong wire shape.
    MalformedHint,
    /// The flat action list had an odd number of entries, so some key lacks
    /// its label.
    OddActionCount,
    /// A path-like image reference could not be resolved to a canonical
    /// absolute location.
    InvalidResource,
}

/// Why configuration text or a configuration path was rejected.
#[derive(Clone, Copy, Debug, PartialEq, Eq, Structural)]
pub enum ConfigError {
    /// A line was neither blank, a comment, nor a `key = value` assignment.
    BadLine,
    /// An assignment used a key that no configuration field answers to.
    UnknownKey,
    /// A numeric value did not fit the field it was assigned to.
    BadNumber,
    /// No per-user configuration directory could be computed.
    NoConfigDir,
}

} // verus!
