//! Why a connection's traffic was refused.

use vstd::prelude::*;

verus! {

/// A fault in what one side of a connection sent. It closes that connection.
#[derive(Debug, Clone, Copy, PartialEq, Eq, Structural)]
pub enum ProtocolError {
    /// A line longer than the frame limit.
    OversizedFrame,
    /// A line that is not a JSON text.
    NotJson,
    /// A document that cannot be written: a member named twice, or a number
    /// in a form the writer does not produce.
    Malformed,
    /// The writer reported an error.
    Unwritable,
}

} // verus!
