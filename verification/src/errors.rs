use vstd::prelude::*;

verus! {

/// Which half of the refresh-and-retry cycle ended a session attempt.
#[derive(Debug, Clone, PartialEq, Eq)]
pub enum SessionFailure {
    /// The token provider rejected the refresh request; carries the response
    /// status when one was available.
    RefreshRejected(Option<u16>),
    /// The provider still rejected authentication after a successful refresh
    /// and persist.
    RetryFailed,
}

/// Every failure the library distinguishes. Failures during credential
/// exchange, refresh and session establishment are fatal to the current
/// command; a message that cannot be parsed during the final fetch only
/// fails its own slot.
#[derive(Debug, Clone, PartialEq, Eq)]
pub enum MailError {
    /// The authorization-code exchange did not yield a token pair; carries
    /// the response status when one was available.
    AuthExchangeFailed(Option<u16>),
    /// The refresh-token exchange did not yield a new access token; carries
    /// the response status when one was available.
    TokenRefreshFailed(Option<u16>),
    /// The persisted credential document exists but could not be read.
    StorageReadFailed,
    /// The credential document could not be rewritten after a mutation; the
    /// in-memory state is then ahead of disk and the operation has failed.
    StoragePersistFailed,
    /// The provider rejected the mailbox name.
    MailboxNotFound,
    /// A connection, transport or command-level protocol failure.
    ProtocolError,
    /// The refresh-and-retry cycle ended without a live session.
    SessionEstablishmentFailed(SessionFailure),
    /// A Date header was absent or unparsable while ranking a mailbox; this
    /// aborts the whole ranking pass.
    DateParseFailed,
    /// A fetched message could not be parsed; only that message's slot fails.
    MailParseFailed,
}

} // verus!
