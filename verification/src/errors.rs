//! Error taxonomy of the engine.
//!
//! Every failure is local to the operation that raised it; none of the
//! variants is fatal to the process.  Each variant carries a
//! human-readable description so the operator can tell why an
//! operation failed (not connected vs. not found vs. malformed vs.
//! rejected).

use vstd::prelude::*;
use vstd::string::StringExecFns;

verus! {

/// One error per failure class of the engine.
#[derive(Clone, Copy, Debug, PartialEq, Eq, Structural)]
pub enum EngineError {
    /// A key or signature operation of the cryptographic provider failed.
    CryptoProvider,
    /// A key package's signature did not verify.
    InvalidKeyPackage,
    /// A key package is past its expiry time.
    ExpiredKeyPackage,
    /// A commit targets an epoch behind the session's current epoch.
    StaleCommit,
    /// A commit lost the race for its epoch and must be re-derived.
    CommitRace,
    /// A welcome targets a key package this client never issued.
    ForeignWelcome,
    /// A session for the group identifier already exists.
    DuplicateSession,
    /// The delivery service is not connected.
    NotConnected,
    /// A welcome payload could not be parsed.
    WelcomeParse,
    /// A ciphertext could not be decrypted under the current epoch.
    DecryptFailure,
    /// A group with the chosen identifier is already registered.
    DuplicateGroup,
    /// The session is terminated and accepts no further operations.
    SessionTerminated,
}

impl EngineError {
    /// The description of each variant, as character sequences.
    pub open spec fn describe_spec(self) -> Seq<char> {
        match self {
            EngineError::CryptoProvider => "cryptographic provider operation failed"@,
            EngineError::InvalidKeyPackage => "key package signature is invalid"@,
            EngineError::ExpiredKeyPackage => "key package has expired"@,
            EngineError::StaleCommit => "commit targets a stale epoch"@,
            EngineError::CommitRace => "commit lost the epoch race; re-derive it"@,
            EngineError::ForeignWelcome => "welcome targets a key package this client did not issue"@,
            EngineError::DuplicateSession => "a session for this group already exists"@,
            EngineError::NotConnected => "not connected to the delivery service"@,
            EngineError::WelcomeParse => "welcome payload could not be parsed"@,
            EngineError::DecryptFailure => "ciphertext could not be decrypted under the current epoch"@,
            EngineError::DuplicateGroup => "a group with this identifier already exists"@,
            EngineError::SessionTerminated => "the session is terminated"@,
        }
    }

    /// Human-readable description, distinguishing why the operation failed.
    pub fn describe(&self) -> (r: String)
        ensures
            r@ == self.describe_spec(),
    {
        match self {
            EngineError::CryptoProvider => String::from_str("cryptographic provider operation failed"),
            EngineError::InvalidKeyPackage => String::from_str("key package signature is invalid"),
            EngineError::ExpiredKeyPackage => String::from_str("key package has expired"),
            EngineError::StaleCommit => String::from_str("commit targets a stale epoch"),
            EngineError::CommitRace => String::from_str("commit lost the epoch race; re-derive it"),
            EngineError::ForeignWelcome => String::from_str("welcome targets a key package this client did not issue"),
            EngineError::DuplicateSession => String::from_str("a session for this group already exists"),
            EngineError::NotConnected => String::from_str("not connected to the delivery service"),
            EngineError::WelcomeParse => String::from_str("welcome payload could not be parsed"),
            EngineError::DecryptFailure => String::from_str("ciphertext could not be decrypted under the current epoch"),
            EngineError::DuplicateGroup => String::from_str("a group with this identifier already exists"),
            EngineError::SessionTerminated => String::from_str("the session is terminated"),
        }
    }
}

} // verus!
