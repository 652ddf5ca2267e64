//! Error taxonomy for the wire codec and the client query engine.
use vstd::prelude::*;

verus! {

/// A fault found while encoding or decoding a wire payload.
#[derive(Debug, Clone, PartialEq, Eq)]
pub enum EncodeDecodeError {
    /// One encoded session record exceeds `MAX_ENTRY_LENGTH`; carries its length.
    EntryTooLarge(usize),
    /// The whole payload exceeds `MAX_PAYLOAD_LENGTH`; carries its length.
    PayloadTooLarge(usize),
    /// The payload does not open with the magic token; carries the four bytes seen.
    BadMagic(u8, u8, u8, u8),
    /// The payload does not hold exactly as many records as its header declares.
    EntryCountMismatch,
    /// A declared string length exceeds its limit; carries the length and the limit.
    StringTooLong(u32, usize),
    /// A wire byte standing for a boolean is neither 0 nor 1.
    InvalidBoolean,
    /// A record declares a remote origin but gives it length zero.
    EmptyRemote,
    /// The payload ends before a declared field is complete.
    TruncatedInput,
}

/// A fault that ends one server's query.
#[derive(Debug, Clone, PartialEq, Eq)]
pub enum WhereError {
    /// The reply could not be decoded, or the local session list could not be encoded.
    EncodeDecodeError(EncodeDecodeError),
    /// A socket operation other than a receive timeout failed.
    TransportError,
    /// The textual endpoint could not be resolved to an address; carries the endpoint.
    AddressResolutionError(String),
    /// Every retry went unanswered; carries the endpoint, the retry bound,
    /// and the per-wait timeout in milliseconds.
    TimedOut(String, usize, u64),
}

pub type EncodeDecodeResult<T> = Result<T, EncodeDecodeError>;

pub type WhereResult<T> = Result<T, WhereError>;

impl From<EncodeDecodeError> for WhereError {
    /// Wraps a codec fault as a query fault, unchanged.
    fn from(value: EncodeDecodeError) -> (r: WhereError) {
        WhereError::EncodeDecodeError(value)
    }
}

impl vstd::std_specs::convert::FromSpecImpl<EncodeDecodeError> for WhereError {
    open spec fn obeys_from_spec() -> bool {
        true
    }

    open spec fn from_spec(value: EncodeDecodeError) -> WhereError {
        WhereError::EncodeDecodeError(value)
    }
}

} // verus!
