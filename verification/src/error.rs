//! The conditions a transfer can be refused with.

use vstd::prelude::*;

verus! {

/// Why a transfer did not take place.
#[derive(Debug, Clone, Copy, PartialEq, Eq, Structural)]
pub enum RbError {
    /// A non-blocking write found no free slot.
    Full,
    /// A non-blocking read, peek or skip found no pending element.
    Empty,
    /// A bounded wait ran out before the ring could serve the transfer.
    TimedOut,
}

impl RbError {
    /// The text that describes the condition to a reader.
    pub open spec fn spec_message(self) -> Seq<char> {
        match self {
            RbError::Full => "No free slots in the buffer"@,
            RbError::Empty => "Buffer is empty"@,
            RbError::TimedOut => "Timed out"@,
        }
    }

    /// The text that describes the condition to a reader.
    pub fn message(&self) -> (text: String)
        ensures
            text@ == self.spec_message(),
    {
        match self {
            RbError::Full => "No free slots in the buffer".to_owned(),
            RbError::Empty => "Buffer is empty".to_owned(),
            RbError::TimedOut => "Timed out".to_owned(),
        }
    }
}

} // verus!
