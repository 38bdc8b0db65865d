//! The sinks a status line is rendered to: standard output, one line each,
//! or the name of the root window.

use vstd::prelude::*;

verus! {

/// Why a status line did not reach the root window.
#[derive(Debug, Clone, Copy, PartialEq, Eq)]
pub enum SinkError {
    /// No display could be reached.
    ConnectionFailed,
    /// The line is too long for a window property.
    TryFromU32Failure,
    /// The property could not be written.
    PaintingError,
    /// The display did not acknowledge the write.
    ConSyncError,
}

/// The length, in bytes, of the property that shows `status` as the root
/// window's name; a window property cannot hold more than `u32::MAX` bytes.
pub fn property_length(status: &str) -> (r: Result<u32, SinkError>)
    ensures
        status.len() <= u32::MAX ==> r == Ok::<u32, SinkError>(status.len() as u32),
        status.len() > u32::MAX ==> r == Err::<u32, SinkError>(
            SinkError::TryFromU32Failure,
        ),
{
    let n = status.len();
    if (n as u64) <= (u32::MAX as u64) {
        Ok(n as u32)
    } else {
        Err(SinkError::TryFromU32Failure)
    }
}

} // verus!
