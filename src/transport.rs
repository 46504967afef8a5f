//! Classification of failed reads from the transport.
use vstd::prelude::*;
use crate::text::{contains_text, has_infix};

verus! {

/// What the transport reported when a read failed.
#[derive(Clone, Debug, PartialEq, Eq)]
pub struct TransportFault {
    /// The read ran into the timeout that the client was configured with.
    pub timed_out: bool,
    /// The transport's description of the failure.
    pub message: String,
}

/// Texts of a connection closed in the middle of a chunk, the way proxies
/// recycle long-lived connections.
pub open spec fn reports_abrupt_close(message: Seq<char>) -> bool {
    has_infix(message, "unexpected EOF during chunk"@) || has_infix(
        message,
        "unexpected end of input while reading chunk"@,
    )
}

/// A fault that ends a stream normally: a configured timeout, or a connection
/// closed in the middle of a chunk.
pub open spec fn benign(fault: TransportFault) -> bool {
    fault.timed_out || reports_abrupt_close(fault.message@)
}

impl TransportFault {
    /// Whether this fault ends a stream without being reported; any other fault
    /// is passed on to the caller.
    pub fn is_benign(&self) -> (r: bool)
        ensures
            r == benign(*self),
    {
        if self.timed_out {
            return true;
        }
        proof {
            reveal_strlit("unexpected EOF during chunk");
            reveal_strlit("unexpected end of input while reading chunk");
        }
        contains_text(self.message.as_str(), "unexpected EOF during chunk") || contains_text(
            self.message.as_str(),
            "unexpected end of input while reading chunk",
        )
    }
}

} // verus!
