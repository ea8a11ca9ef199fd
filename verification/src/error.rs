//! Why a frame could not be handled.

use vstd::prelude::*;

verus! {

/// A frame that the relay cannot handle; the connection's relay stops.
#[derive(Debug, Clone, Copy, PartialEq, Eq, Structural)]
pub enum FrameError {
    /// A field is missing, cut short, or not UTF-8 where text is expected.
    Malformed,
    /// The protocol version has no known packet ids.
    UnknownVersion(u32),
    /// A `/server` command without a backend name.
    MissingCommandArgument,
    /// A dimension other than -1, 0 and 1 in a legacy join game.
    UnknownDimension(i32),
    /// No respawn can be built for this protocol version after a transfer.
    UnsupportedVersion(u32),
    /// The dimension compound could not be written back.
    Unencodable,
    /// A login reply that is neither a disconnect nor a login success.
    UnexpectedReply(u32),
}

} // verus!
