//! The typed failures of the service.

use vstd::prelude::*;

verus! {

/// Why an object failed its consistency check.
#[derive(Clone, Copy, Debug, PartialEq, Eq, Structural)]
pub enum ObjectError {
    /// The declared length is not one the algorithm admits, or the raw
    /// material of an unwrapped symmetric key has another length.
    LengthMismatch,
    /// The algorithm does not belong to the kind of object.
    AlgorithmMismatch,
    /// The format type is not the one in which this kind of object is held.
    FormatMismatch,
    /// A link is set that this kind of object cannot carry.
    InvalidLink,
    /// The wrapping metadata is inconsistent with the payload.
    InvalidWrapping,
}

/// Failures of the key format codec.
#[derive(Clone, Copy, Debug, PartialEq, Eq, Structural)]
pub enum CodecError {
    MalformedInput,
    AlgorithmMismatch,
    UnsupportedFormat,
    UnsupportedConversion,
    AuthenticationFailed,
}

/// Failures of the wrapping engine.
#[derive(Clone, Copy, Debug, PartialEq, Eq, Structural)]
pub enum WrapError {
    WrongKey,
    UnsupportedAlgorithm,
    /// The cryptographic provider refused what was in order.
    Provider,
}

/// Failures of a storage backend.
#[derive(Clone, Copy, Debug, PartialEq, Eq, Structural)]
pub enum StorageError {
    NotFound,
    Unauthorized,
    AlreadyExists,
    /// The backend could not complete the call; nothing was written.
    Backend,
}

/// The taxonomy that every operation of the engine reports in.
#[derive(Clone, Copy, Debug, PartialEq, Eq, Structural)]
pub enum KmsError {
    InvalidParameter,
    MalformedInput,
    UnsupportedFormat,
    UnsupportedConversion,
    AlgorithmMismatch,
    WrongKey,
    AuthenticationFailed,
    UnsupportedAlgorithm,
    NotFound,
    Unauthorized,
    AlreadyExists,
    StorageError,
    Internal,
}

impl KmsError {
    pub open spec fn of_object(e: ObjectError) -> KmsError {
        KmsError::InvalidParameter
    }

    pub open spec fn of_codec(e: CodecError) -> KmsError {
        match e {
            CodecError::MalformedInput => KmsError::MalformedInput,
            CodecError::AlgorithmMismatch => KmsError::AlgorithmMismatch,
            CodecError::UnsupportedFormat => KmsError::UnsupportedFormat,
            CodecError::UnsupportedConversion => KmsError::UnsupportedConversion,
            CodecError::AuthenticationFailed => KmsError::AuthenticationFailed,
        }
    }

    pub open spec fn of_wrap(e: WrapError) -> KmsError {
        match e {
            WrapError::WrongKey => KmsError::WrongKey,
            WrapError::UnsupportedAlgorithm => KmsError::UnsupportedAlgorithm,
            WrapError::Provider => KmsError::Internal,
        }
    }

    pub open spec fn of_storage(e: StorageError) -> KmsError {
        match e {
            StorageError::NotFound => KmsError::NotFound,
            StorageError::Unauthorized => KmsError::Unauthorized,
            StorageError::AlreadyExists => KmsError::AlreadyExists,
            StorageError::Backend => KmsError::StorageError,
        }
    }

    /// An inconsistent object is a caller error.
    pub fn from_object(e: ObjectError) -> (r: KmsError)
        ensures
            r == Self::of_object(e),
    {
        KmsError::InvalidParameter
    }

    pub fn from_codec(e: CodecError) -> (r: KmsError)
        ensures
            r == Self::of_codec(e),
    {
        match e {
            CodecError::MalformedInput => KmsError::MalformedInput,
            CodecError::AlgorithmMismatch => KmsError::AlgorithmMismatch,
            CodecError::UnsupportedFormat => KmsError::UnsupportedFormat,
            CodecError::UnsupportedConversion => KmsError::UnsupportedConversion,
            CodecError::AuthenticationFailed => KmsError::AuthenticationFailed,
        }
    }

    pub fn from_wrap(e: WrapError) -> (r: KmsError)
        ensures
            r == Self::of_wrap(e),
    {
        match e {
            WrapError::WrongKey => KmsError::WrongKey,
            WrapError::UnsupportedAlgorithm => KmsError::UnsupportedAlgorithm,
            WrapError::Provider => KmsError::Internal,
        }
    }

    pub fn from_storage(e: StorageError) -> (r: KmsError)
        ensures
            r == Self::of_storage(e),
    {
        match e {
            StorageError::NotFound => KmsError::NotFound,
            StorageError::Unauthorized => KmsError::Unauthorized,
            StorageError::AlreadyExists => KmsError::AlreadyExists,
            StorageError::Backend => KmsError::StorageError,
        }
    }

    /// Whether the failure is the caller's: such a request is not retried.
    pub open spec fn spec_is_caller_error(self) -> bool {
        self != KmsError::StorageError && self != KmsError::Internal
    }

    #[verifier::when_used_as_spec(spec_is_caller_error)]
    pub fn is_caller_error(self) -> (r: bool)
        ensures
            r == self.spec_is_caller_error(),
    {
        match self {
            KmsError::StorageError => false,
            KmsError::Internal => false,
            _ => true,
        }
    }

    /// The text shown for the failure.
    pub open spec fn message(self) -> Seq<char> {
        match self {
            KmsError::InvalidParameter => "invalid parameter"@,
            KmsError::MalformedInput => "malformed input"@,
            KmsError::UnsupportedFormat => "unsupported format"@,
            KmsError::UnsupportedConversion => "unsupported conversion"@,
            KmsError::AlgorithmMismatch => "algorithm mismatch"@,
            KmsError::WrongKey => "wrong key"@,
            KmsError::AuthenticationFailed => "authentication failed"@,
            KmsError::UnsupportedAlgorithm => "unsupported algorithm"@,
            KmsError::NotFound => "not found"@,
            KmsError::Unauthorized => "unauthorized"@,
            KmsError::AlreadyExists => "already exists"@,
            KmsError::StorageError => "storage error"@,
            KmsError::Internal => "internal error"@,
        }
    }

    pub fn to_string(&self) -> (r: String)
        ensures
            r@ == self.message(),
    {
        let text: &str = match self {
            KmsError::InvalidParameter => "invalid parameter",
            KmsError::MalformedInput => "malformed input",
            KmsError::UnsupportedFormat => "unsupported format",
            KmsError::UnsupportedConversion => "unsupported conversion",
            KmsError::AlgorithmMismatch => "algorithm mismatch",
            KmsError::WrongKey => "wrong key",
            KmsError::AuthenticationFailed => "authentication failed",
            KmsError::UnsupportedAlgorithm => "unsupported algorithm",
            KmsError::NotFound => "not found",
            KmsError::Unauthorized => "unauthorized",
            KmsError::AlreadyExists => "already exists",
            KmsError::StorageError => "storage error",
            KmsError::Internal => "internal error",
        };
        String::from_str(text)
    }
}

} // verus!
