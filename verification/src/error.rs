//! The error taxonomy of the bridge. Every public operation reports one of
//! these kinds; none is retried internally.

use vstd::prelude::*;

verus! {

/// Why a bridge operation failed.
#[derive(Debug)]
pub enum DataError {
    /// `begin` was called while the slot already holds a transaction.
    AlreadyInProgress,
    /// `commit`, `rollback` or a data operation was called with an empty slot.
    NoneInProgress,
    /// `commit` or `rollback` was attempted while an operation still
    /// borrows the held transaction.
    OperationInProgress,
    /// A write targeted a type that is not a storable entity type.
    InvalidType,
    /// A write into a protected auth type arrived over a non-privileged path.
    PermissionDenied,
    /// The underlying engine failed; the engine's message is carried verbatim.
    StoreError(String),
    /// A cursor operation addressed a handle that is closed or was never open.
    ClosedResource,
    /// The value codec cannot represent the given value.
    ConversionError,
}

impl DataError {
    /// A short human-readable description of the error kind; a store
    /// error carries the engine's message verbatim.
    pub fn describe(&self) -> (r: String)
        ensures
            match self {
                DataError::AlreadyInProgress => r@
                    == "cannot begin a transaction because another transaction is in progress"@,
                DataError::NoneInProgress => r@ == "no transaction is in progress"@,
                DataError::OperationInProgress => r@
                    == "an operation in progress still uses this transaction"@,
                DataError::InvalidType => r@ == "cannot save into this type"@,
                DataError::PermissionDenied => r@ == "cannot save into an auth type"@,
                DataError::StoreError(m) => r@ == m@,
                DataError::ClosedResource => r@ == "closed resource"@,
                DataError::ConversionError => r@ == "unsupported value"@,
            },
    {
        match self {
            DataError::AlreadyInProgress => {
                "cannot begin a transaction because another transaction is in progress".to_owned()
            },
            DataError::NoneInProgress => {
                "no transaction is in progress".to_owned()
            },
            DataError::OperationInProgress => {
                "an operation in progress still uses this transaction".to_owned()
            },
            DataError::InvalidType => "cannot save into this type".to_owned(),
            DataError::PermissionDenied => "cannot save into an auth type".to_owned(),
            DataError::StoreError(m) => m.clone(),
            DataError::ClosedResource => "closed resource".to_owned(),
            DataError::ConversionError => "unsupported value".to_owned(),
        }
    }
}

} // verus!
