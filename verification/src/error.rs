//! The error taxonomy of the codec. Every error is terminal for the current
//! encode or decode call: nothing usable was produced and the caller must
//! discard any partial output.

use vstd::prelude::*;
use vstd::string::StringExecFns;

verus! {

/// Why an encode or decode call failed.
#[derive(Clone, Copy, PartialEq, Eq, Structural, Debug)]
pub enum Error {
    /// A bounded size check failed before or while writing, or the byte
    /// budget of a bounded read ran out.
    SizeLimit,
    /// The underlying byte source ran short of the bytes a read needed.
    Io,
    /// A decoded boolean byte was neither 0 nor 1; carries the byte.
    InvalidBoolEncoding(u8),
    /// The leading byte of a character announced a multi-byte sequence.
    InvalidCharEncoding,
    /// String payload bytes are not valid UTF-8; carries the number of bytes
    /// up to which the payload was verified as valid UTF-8.
    InvalidUtf8Encoding(usize),
    /// The header's format identifier matched no known representation format.
    InvalidEncapsulation,
    /// A nullable value or an associative map was given to encode or decode;
    /// plain CDR does not support them.
    TypeNotSupported,
    /// A decode was attempted without a known target shape; CDR carries no
    /// embedded type tags, so the expected shape must be supplied.
    SchemaLessDecodingNotSupported,
    /// A decoded enum discriminant was out of range for the expected variant
    /// set; carries the discriminant.
    UnknownVariant(u32),
}

impl Error {
    /// A short description of the error, for reporting outside the codec.
    pub fn message(&self) -> String {
        match *self {
            Error::SizeLimit => String::from_str("size limit exceeded"),
            Error::Io => String::from_str("byte source or sink failed"),
            Error::InvalidBoolEncoding(_) => String::from_str("invalid boolean encoding"),
            Error::InvalidCharEncoding => String::from_str("invalid character encoding"),
            Error::InvalidUtf8Encoding(_) => String::from_str("string payload is not valid UTF-8"),
            Error::InvalidEncapsulation => String::from_str("invalid encapsulation header"),
            Error::TypeNotSupported => String::from_str("type not supported by plain CDR"),
            Error::SchemaLessDecodingNotSupported => {
                String::from_str("schema-less decoding is not supported")
            },
            Error::UnknownVariant(_) => String::from_str("unknown enum variant discriminant"),
        }
    }
}

} // verus!
