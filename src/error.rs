use vstd::prelude::*;

verus! {

/// The ways an orchestration command can fail. None of them is retried.
#[derive(Debug)]
pub enum GarError {
    /// The job listing did not have the expected shape; holds the decoder's message.
    ListingFailed(String),
    /// No candidate matched the choice, or the operator aborted a prompt.
    SelectionFailed,
    /// The trigger request did not succeed.
    DispatchFailed,
    /// The execution listing was empty right after a dispatch.
    NoRunsFound,
    /// The log bundle is not a valid archive, or an entry is not valid text.
    ArchiveDecodeFailed,
    /// A network-level fault.
    TransportFailed,
}

} // verus!
