//! The errors of the node, each with its class and a short message.

use vstd::prelude::*;

verus! {

/// The classes into which every failure of the node falls.
#[derive(Clone, Copy, Debug, PartialEq, Eq, Structural)]
pub enum ErrorKind {
    InvalidInput,
    NotFound,
    Unauthorized,
    InsufficientBalance,
    Timeout,
    Transport,
    StoreBackend,
}

/// What went wrong.
#[derive(Clone, Copy, Debug, PartialEq, Eq, Structural)]
pub enum MeshError {
    /// A transfer of nothing or of a negative amount.
    InvalidAmount,
    /// An escrow of nothing or of a negative amount.
    InvalidEscrowAmount,
    /// A task without a description.
    MissingDescription,
    /// A task without a positive bounty.
    MissingBounty,
    /// A capsule that is not a JSON document.
    InvalidCapsule,
    /// A solution handed in for a task that is being voted on or is complete.
    TaskNotOpen,
    /// An escrow for a task that has one already.
    EscrowExists,
    /// A credit that would take a balance past the largest amount an account can hold.
    BalanceOverflow,
    AccountNotFound,
    TaskNotFound,
    /// A transfer out of the genesis account on a node that names no operator.
    OperatorNotConfigured,
    /// A transfer out of the genesis account by someone other than the operator.
    OperatorNotAuthorized,
    InsufficientBalance,
    /// No peer answered a lookup in time.
    DhtTimeout,
    /// A frame that is not a message.
    MalformedFrame,
    /// A fresh identifier that is already in use, or a ledger that cannot grow.
    StoreConflict,
}

impl MeshError {
    /// The class of this error.
    pub open spec fn spec_kind(self) -> ErrorKind {
        match self {
            MeshError::InvalidAmount => ErrorKind::InvalidInput,
            MeshError::InvalidEscrowAmount => ErrorKind::InvalidInput,
            MeshError::EscrowExists => ErrorKind::InvalidInput,
            MeshError::MissingDescription => ErrorKind::InvalidInput,
            MeshError::MissingBounty => ErrorKind::InvalidInput,
            MeshError::InvalidCapsule => ErrorKind::InvalidInput,
            MeshError::TaskNotOpen => ErrorKind::InvalidInput,
            MeshError::BalanceOverflow => ErrorKind::InvalidInput,
            MeshError::AccountNotFound => ErrorKind::NotFound,
            MeshError::TaskNotFound => ErrorKind::NotFound,
            MeshError::OperatorNotConfigured => ErrorKind::Unauthorized,
            MeshError::OperatorNotAuthorized => ErrorKind::Unauthorized,
            MeshError::InsufficientBalance => ErrorKind::InsufficientBalance,
            MeshError::DhtTimeout => ErrorKind::Timeout,
            MeshError::MalformedFrame => ErrorKind::Transport,
            MeshError::StoreConflict => ErrorKind::StoreBackend,
        }
    }

    /// The class of this error.
    #[verifier::when_used_as_spec(spec_kind)]
    pub fn kind(self) -> (k: ErrorKind)
        ensures
            k == self.spec_kind(),
    {
        match self {
            MeshError::InvalidAmount => ErrorKind::InvalidInput,
            MeshError::InvalidEscrowAmount => ErrorKind::InvalidInput,
            MeshError::EscrowExists => ErrorKind::InvalidInput,
            MeshError::MissingDescription => ErrorKind::InvalidInput,
            MeshError::MissingBounty => ErrorKind::InvalidInput,
            MeshError::InvalidCapsule => ErrorKind::InvalidInput,
            MeshError::TaskNotOpen => ErrorKind::InvalidInput,
            MeshError::BalanceOverflow => ErrorKind::InvalidInput,
            MeshError::AccountNotFound => ErrorKind::NotFound,
            MeshError::TaskNotFound => ErrorKind::NotFound,
            MeshError::OperatorNotConfigured => ErrorKind::Unauthorized,
            MeshError::OperatorNotAuthorized => ErrorKind::Unauthorized,
            MeshError::InsufficientBalance => ErrorKind::InsufficientBalance,
            MeshError::DhtTimeout => ErrorKind::Timeout,
            MeshError::MalformedFrame => ErrorKind::Transport,
            MeshError::StoreConflict => ErrorKind::StoreBackend,
        }
    }

    /// The message of this error.
    pub open spec fn spec_message(self) -> Seq<char> {
        match self {
            MeshError::InvalidAmount => "Invalid amount"@,
            MeshError::InvalidEscrowAmount => "Invalid escrow amount"@,
            MeshError::EscrowExists => "Escrow already locked"@,
            MeshError::MissingDescription => "Invalid task: missing description"@,
            MeshError::MissingBounty => "Invalid task: missing bounty"@,
            MeshError::InvalidCapsule => "Invalid capsule"@,
            MeshError::TaskNotOpen => "Task is not open"@,
            MeshError::BalanceOverflow => "Balance overflow"@,
            MeshError::AccountNotFound => "Account not found"@,
            MeshError::TaskNotFound => "Task not found"@,
            MeshError::OperatorNotConfigured => "Genesis operator not configured"@,
            MeshError::OperatorNotAuthorized => "Genesis account operator not authorized"@,
            MeshError::InsufficientBalance => "Insufficient balance"@,
            MeshError::DhtTimeout => "DHT query timeout"@,
            MeshError::MalformedFrame => "Malformed frame"@,
            MeshError::StoreConflict => "Store conflict"@,
        }
    }

    /// A short message for people.
    pub fn message(self) -> (m: String)
        ensures
            m@ == self.spec_message(),
    {
        match self {
            MeshError::InvalidAmount => "Invalid amount".to_string(),
            MeshError::InvalidEscrowAmount => "Invalid escrow amount".to_string(),
            MeshError::EscrowExists => "Escrow already locked".to_string(),
            MeshError::MissingDescription => "Invalid task: missing description".to_string(),
            MeshError::MissingBounty => "Invalid task: missing bounty".to_string(),
            MeshError::InvalidCapsule => "Invalid capsule".to_string(),
            MeshError::TaskNotOpen => "Task is not open".to_string(),
            MeshError::BalanceOverflow => "Balance overflow".to_string(),
            MeshError::AccountNotFound => "Account not found".to_string(),
            MeshError::TaskNotFound => "Task not found".to_string(),
            MeshError::OperatorNotConfigured => "Genesis operator not configured".to_string(),
            MeshError::OperatorNotAuthorized => "Genesis account operator not authorized".to_string(),
            MeshError::InsufficientBalance => "Insufficient balance".to_string(),
            MeshError::DhtTimeout => "DHT query timeout".to_string(),
            MeshError::MalformedFrame => "Malformed frame".to_string(),
            MeshError::StoreConflict => "Store conflict".to_string(),
        }
    }
}

} // verus!
