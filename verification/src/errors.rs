use vstd::prelude::*;

verus! {

/// The failure kinds of the diff pipeline. No stage succeeds partially:
/// either a complete diff is produced, or the whole run fails with one of
/// these.
#[derive(Debug, Clone, PartialEq, Eq)]
pub enum EthliftError {
    /// A legacy remapping string does not have the `alias=org/repo@version`
    /// shape.
    MalformedRemapping,
    /// No home directory could be resolved to anchor dependency cache paths.
    HomeDirectoryNotFound,
    /// The legacy config document lacks the remappings key, or the key does
    /// not hold a sequence of strings.
    ConfigKeyMissing,
    /// The legacy config document is not a well-formed structured document.
    ConfigUnreadable,
    /// The supplied chain id does not map to a known network.
    InvalidChainId,
    /// Local import resolution failed; the message carries the cause.
    FlattenFailed(String),
    /// The explorer lookup failed; the message carries the cause.
    RemoteFetchFailed(String),
}

} // verus!
