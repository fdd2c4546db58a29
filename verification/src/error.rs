//! The ways in which handling audio can fail.

use vstd::prelude::*;

verus! {

/// A failure of the audio layer. None of them is transient, so nothing is
/// retried: each is handed to the caller, who decides what becomes of it.
#[derive(Debug, PartialEq, Eq)]
pub enum SoundError {
    /// The codec refused to open the file: a bad path, a bad or missing
    /// header, a format it does not support. Holds the codec's own words.
    OpenError { diagnostic: String },
    /// The file does not have exactly one channel.
    ChannelMismatchError,
    /// The codec took a different number of samples than it was given.
    /// Holds the path of the file that was being written.
    WriteError { path: String },
    /// A parameter is outside what the operation is defined for.
    InvalidParameterError,
}

} // verus!
