//! Domain errors for the authority-chain core.

use vstd::prelude::*;

verus! {

/// Errors raised by the authority-chain core.
#[derive(Debug, Clone)]
pub enum IgniteError {
    /// A required external dependency is missing.
    MissingDependency { binary: String, context: String },
    /// Placeholder for yet-to-be-defined errors.
    NotReady(String),
    /// Invalid operation or authority relationship.
    InvalidOperation { operation: String, reason: String },
    /// I/O failure during a file operation; the path and the underlying
    /// error are kept as text.
    IoError { operation: String, path: String, source: String },
    /// A cryptographic operation failed.
    CryptoError { operation: String, reason: String },
    /// Key validation failed.
    InvalidKey { reason: String },
}

pub type IgniteResult<T> = Result<T, IgniteError>;

/// True when `e` is `InvalidOperation` tagged with the operation name `op`.
pub open spec fn is_invalid_operation(e: IgniteError, op: Seq<char>) -> bool {
    &&& e matches IgniteError::InvalidOperation { operation, reason: _ }
    &&& operation@ == op
}

/// True when `e` is `InvalidOperation` with exactly this operation name
/// and this reason text.
pub open spec fn is_invalid_operation_msg(e: IgniteError, op: Seq<char>, msg: Seq<char>) -> bool {
    &&& e matches IgniteError::InvalidOperation { operation, reason }
    &&& operation@ == op
    &&& reason@ == msg
}

/// True when `e` is `CryptoError` tagged with the operation name `op`.
pub open spec fn is_crypto_error(e: IgniteError, op: Seq<char>) -> bool {
    &&& e matches IgniteError::CryptoError { operation, reason: _ }
    &&& operation@ == op
}

/// True when `e` is `InvalidKey`.
pub open spec fn is_invalid_key(e: IgniteError) -> bool {
    e matches IgniteError::InvalidKey { reason: _ }
}

impl IgniteError {
    /// Build an `IoError` from its parts.
    pub fn io_error(operation: String, path: String, source: String) -> (r: Self)
        ensures
            ({
                &&& r matches IgniteError::IoError { operation: o, path: p, source: s }
                &&& o@ == operation@
                &&& p@ == path@
                &&& s@ == source@
            }),
    {
        IgniteError::IoError { operation, path, source }
    }

    /// Build a `CryptoError` from its parts.
    pub fn crypto_error(operation: String, reason: String) -> (r: Self)
        ensures
            is_crypto_error(r, operation@),
            ({
                &&& r matches IgniteError::CryptoError { operation: o, reason: re }
                &&& o@ == operation@
                &&& re@ == reason@
            }),
    {
        IgniteError::CryptoError { operation, reason }
    }

    /// A short descriptive message, in place of `Display`.
    pub fn message(&self) -> (r: String)
        ensures
            self matches IgniteError::InvalidOperation { operation, reason }
                ==> r@ == "invalid operation '"@ + operation@ + "': "@ + reason@,
            self matches IgniteError::InvalidKey { reason } ==> r@ == "invalid key: "@ + reason@,
            self matches IgniteError::CryptoError { operation, reason }
                ==> r@ == "crypto error in '"@ + operation@ + "': "@ + reason@,
    {
        match self {
            IgniteError::MissingDependency { binary, context } => {
                let mut m = String::new();
                m.append("missing dependency `");
                m.append(binary.as_str());
                m.append("`: ");
                m.append(context.as_str());
                m
            },
            IgniteError::NotReady(msg) => {
                let mut m = String::new();
                m.append("not implemented: ");
                m.append(msg.as_str());
                m
            },
            IgniteError::InvalidOperation { operation, reason } => {
                let mut m = String::new();
                m.append("invalid operation '");
                m.append(operation.as_str());
                m.append("': ");
                m.append(reason.as_str());
                m
            },
            IgniteError::IoError { operation, path, source } => {
                let mut m = String::new();
                m.append("I/O error during '");
                m.append(operation.as_str());
                m.append("' on ");
                m.append(path.as_str());
                m.append(": ");
                m.append(source.as_str());
                m
            },
            IgniteError::CryptoError { operation, reason } => {
                let mut m = String::new();
                m.append("crypto error in '");
                m.append(operation.as_str());
                m.append("': ");
                m.append(reason.as_str());
                m
            },
            IgniteError::InvalidKey { reason } => {
                let mut m = String::new();
                m.append("invalid key: ");
                m.append(reason.as_str());
                m
            },
        }
    }
}

} // verus!
