//! A message: a parsed header plus a decoded payload.

use vstd::prelude::*;

pub mod header;

pub use header::Header;

verus! {

/// Why a byte string failed to parse as a message: the header was malformed,
/// or the header was fine and the payload decoder rejected the remainder.
///
/// The two cases are tagged so a caller can tell a malformed protocol from a
/// malformed application payload.
#[derive(Debug)]
pub enum Error<E> {
    Header(header::Error),
    Payload(E),
}

/// A payload decoder: how the bytes following the header become a typed
/// payload.
pub trait Decode: Sized {
    /// The decoder's own error type.
    type Err;

    /// Whether `bytes` decode successfully.
    spec fn spec_can_decode(bytes: Seq<u8>) -> bool;

    /// Whether `value` is a decoding of `bytes`.
    spec fn spec_decodes(bytes: Seq<u8>, value: Self) -> bool;

    /// Decode a payload from `bytes`.
    fn decode(bytes: &[u8]) -> (r: Result<Self, Self::Err>)
        ensures
            r is Ok <==> Self::spec_can_decode(bytes@),
            r matches Ok(v) ==> Self::spec_decodes(bytes@, v),
    ;
}

/// The trivial payload: the raw bytes themselves, decoded verbatim and never
/// failing.
impl Decode for Vec<u8> {
    type Err = crate::util::Void;

    open spec fn spec_can_decode(bytes: Seq<u8>) -> bool {
        true
    }

    open spec fn spec_decodes(bytes: Seq<u8>, value: Self) -> bool {
        value@ == bytes
    }

    fn decode(bytes: &[u8]) -> (r: Result<Self, Self::Err>) {
        Ok(vstd::slice::slice_to_vec(bytes))
    }
}

/// One protocol message: the fixed header and the payload decoded from the
/// bytes that follow it.
#[derive(Debug)]
pub struct Message<P> {
    pub header: Header,
    pub payload: P,
}

impl<P: Decode> Message<P> {
    /// Parse a whole message body: the header, then the payload decoded from
    /// the remainder.
    pub fn parse(bytes: &[u8]) -> (r: Result<Self, Error<P::Err>>)
        ensures
            r is Ok <==> (header::spec_parse(bytes@) matches Ok(q) && P::spec_can_decode(q.1)),
            r matches Ok(m) ==> header::spec_parse(bytes@) matches Ok(q) && m.header@ == q.0
                && P::spec_decodes(q.1, m.payload),
            r matches Err(Error::Header(e)) ==> header::spec_parse(bytes@) == Err::<
                (header::HeaderV, Seq<u8>),
                header::Error,
            >(e),
            r matches Err(Error::Payload(_)) ==> header::spec_parse(bytes@) matches Ok(q)
                && !P::spec_can_decode(q.1),
    {
        match Header::parse(bytes) {
            Err(e) => Err(Error::Header(e)),
            Ok((header, rest)) => match P::decode(rest) {
                Err(e) => Err(Error::Payload(e)),
                Ok(payload) => Ok(Message { header, payload }),
            },
        }
    }
}

} // verus!
