use bs58::decode::Error as Base58DecodeError;
use bs58::encode::Error as Base58EncodeError;
use secp256k1::Error as SecpError;
use vstd::prelude::*;

verus! {

/// The error type of base58 encoding, from bs58.
#[verifier::external_type_specification]
#[verifier::external_body]
pub struct ExBase58EncodeError(Base58EncodeError);

/// The error type of base58 decoding, from bs58.
#[verifier::external_type_specification]
#[verifier::external_body]
pub struct ExBase58DecodeError(Base58DecodeError);

/// The invalid-key-length error of HMAC, from hmac's digest.
#[verifier::external_type_specification]
#[verifier::external_body]
pub struct ExInvalidLength(hmac::digest::InvalidLength);

/// The error type of secp256k1.
#[verifier::external_type_specification]
#[verifier::external_body]
pub struct ExSecpError(SecpError);

/// The error of an out-of-range secp256k1 scalar.
#[verifier::external_type_specification]
#[verifier::external_body]
pub struct ExOutOfRangeError(secp256k1::scalar::OutOfRangeError);

/// The error of a slice-to-array conversion of the wrong length.
#[verifier::external_type_specification]
#[verifier::external_body]
pub struct ExTryFromSliceError(core::array::TryFromSliceError);

/// The error of a byte sequence that is not UTF-8.
#[verifier::external_type_specification]
#[verifier::external_body]
pub struct ExUtf8Error(core::str::Utf8Error);

/// Result type.
pub type Result<T> = core::result::Result<T, Error>;

pub type ResultConst<T> = core::result::Result<T, ErrorImpl>;

#[derive(Copy, Clone, Debug, Eq, PartialEq, Structural)]
#[non_exhaustive]
pub enum ErrorImpl {
    /// validate_str: Invalid length
    DecodeInvalidLength,
    /// validate_str: Invalid str
    DecodeInvalidStr,
}

/// The text of every `ErrorImpl`.
pub open spec fn decoding_error_text() -> Seq<char> {
    "decoding error"@
}

impl ErrorImpl {
    /// The error's message.
    pub fn message(&self) -> (r: String)
        ensures
            r@ == decoding_error_text(),
    {
        match self {
            ErrorImpl::DecodeInvalidStr => "decoding error".to_owned(),
            ErrorImpl::DecodeInvalidLength => "decoding error".to_owned(),
        }
    }
}

/// Error type.
#[derive(Debug)]
pub enum Error {
    String(String),
    /// Base58 errors.
    Base58Encode(Base58EncodeError),
    /// Base58 errors.
    Base58Decode(Base58DecodeError),
    /// BIP39-related errors.
    Bip39,
    /// Hmac-related errors.
    Hmac(hmac::digest::InvalidLength),
    /// Child number-related errors.
    ChildNumber,
    /// Cryptographic errors.
    Crypto(SecpError),
    /// Decoding errors (not related to Base58).
    Decode(core::array::TryFromSliceError),
    /// Decoding errors (not related to Base58).
    DecodeLength(usize, usize),
    /// Decoding errors (not related to Base58).
    DecodeIssue,
    /// Maximum derivation depth exceeded.
    Depth,
    /// Seed length invalid.
    SeedLength,
    /// Scalar OutOfRangeError
    ScalarOutOfRangeError(secp256k1::scalar::OutOfRangeError),
    /// Utf8Error
    Utf8Error(core::str::Utf8Error),
    PoisonError(String),
}

impl Error {
    /// The error that carries the message of `err`.
    pub fn from_impl(err: ErrorImpl) -> (r: Error)
        ensures
            r matches Error::String(s) && s@ == decoding_error_text(),
    {
        Error::String(err.message())
    }
}

impl From<ErrorImpl> for Error {
    fn from(err: ErrorImpl) -> Error {
        Error::from_impl(err)
    }
}

impl vstd::std_specs::convert::FromSpecImpl<ErrorImpl> for Error {
    open spec fn obeys_from_spec() -> bool {
        false
    }

    open spec fn from_spec(v: ErrorImpl) -> Error {
        Error::Bip39
    }
}

impl From<Base58EncodeError> for Error {
    fn from(e: Base58EncodeError) -> Error {
        Error::Base58Encode(e)
    }
}

impl vstd::std_specs::convert::FromSpecImpl<Base58EncodeError> for Error {
    open spec fn obeys_from_spec() -> bool {
        true
    }

    open spec fn from_spec(v: Base58EncodeError) -> Error {
        Error::Base58Encode(v)
    }
}

impl From<Base58DecodeError> for Error {
    fn from(e: Base58DecodeError) -> Error {
        Error::Base58Decode(e)
    }
}

impl vstd::std_specs::convert::FromSpecImpl<Base58DecodeError> for Error {
    open spec fn obeys_from_spec() -> bool {
        true
    }

    open spec fn from_spec(v: Base58DecodeError) -> Error {
        Error::Base58Decode(v)
    }
}

impl From<hmac::digest::InvalidLength> for Error {
    fn from(e: hmac::digest::InvalidLength) -> Error {
        Error::Hmac(e)
    }
}

impl vstd::std_specs::convert::FromSpecImpl<hmac::digest::InvalidLength> for Error {
    open spec fn obeys_from_spec() -> bool {
        true
    }

    open spec fn from_spec(v: hmac::digest::InvalidLength) -> Error {
        Error::Hmac(v)
    }
}

impl From<SecpError> for Error {
    fn from(e: SecpError) -> Error {
        Error::Crypto(e)
    }
}

impl vstd::std_specs::convert::FromSpecImpl<SecpError> for Error {
    open spec fn obeys_from_spec() -> bool {
        true
    }

    open spec fn from_spec(v: SecpError) -> Error {
        Error::Crypto(v)
    }
}

impl From<core::array::TryFromSliceError> for Error {
    fn from(e: core::array::TryFromSliceError) -> Error {
        Error::Decode(e)
    }
}

impl vstd::std_specs::convert::FromSpecImpl<core::array::TryFromSliceError> for Error {
    open spec fn obeys_from_spec() -> bool {
        true
    }

    open spec fn from_spec(v: core::array::TryFromSliceError) -> Error {
        Error::Decode(v)
    }
}

impl From<secp256k1::scalar::OutOfRangeError> for Error {
    fn from(e: secp256k1::scalar::OutOfRangeError) -> Error {
        Error::ScalarOutOfRangeError(e)
    }
}

impl vstd::std_specs::convert::FromSpecImpl<secp256k1::scalar::OutOfRangeError> for Error {
    open spec fn obeys_from_spec() -> bool {
        true
    }

    open spec fn from_spec(v: secp256k1::scalar::OutOfRangeError) -> Error {
        Error::ScalarOutOfRangeError(v)
    }
}

impl From<core::str::Utf8Error> for Error {
    fn from(e: core::str::Utf8Error) -> Error {
        Error::Utf8Error(e)
    }
}

impl vstd::std_specs::convert::FromSpecImpl<core::str::Utf8Error> for Error {
    open spec fn obeys_from_spec() -> bool {
        true
    }

    open spec fn from_spec(v: core::str::Utf8Error) -> Error {
        Error::Utf8Error(v)
    }
}

} // verus!
