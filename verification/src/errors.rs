use vstd::prelude::*;

verus! {

/// The failures the engine can surface to a caller.
#[derive(Clone, Copy, Debug, PartialEq, Eq, Structural)]
pub enum Error {
    /// A computed or observed digest disagrees with the expected one.
    IntegrityMismatch,
    /// No entry is stored at the digest's address.
    NotFound,
    /// The cache root cannot be established.
    RootUnavailable,
    /// Any other filesystem failure.
    IoFailure,
}

} // verus!
