//! The fixed header region of a message.
//!
//! Layout, all integers big-endian and unsigned:
//!
//! ```text
//! token_len:u32  token:u8[token_len]  id_len:u32  id:u8[id_len]  millis:u64
//! ```
//!
//! Parsing consumes the fields in order and fails on the first field for
//! which too few bytes remain, reporting exactly how many bytes were still
//! available at that point.

use vstd::prelude::*;

use crate::wire;

verus! {

/// The header field being read when a deficit was detected.
///
/// `Token` and `Id` carry the length *declared* by the preceding size field,
/// so a caller can compute exactly how many more bytes are needed.
#[derive(Debug, Clone, Copy, PartialEq, Eq, Structural)]
pub enum Part {
    TokenSize,
    Token(u32),
    IdSize,
    Id(u32),
    Timestamp,
}

impl Part {
    /// The width in bytes of this header field.
    pub open spec fn spec_size(self) -> u32 {
        match self {
            Part::TokenSize | Part::IdSize => 4,
            Part::Token(s) => s,
            Part::Id(s) => s,
            Part::Timestamp => 8,
        }
    }

    /// The width in bytes of this header field.
    pub fn size(&self) -> (r: u32)
        ensures
            r == self.spec_size(),
    {
        match *self {
            Part::TokenSize | Part::IdSize => 4,
            Part::Token(s) => s,
            Part::Id(s) => s,
            Part::Timestamp => 8,
        }
    }

    /// The name of this header field.
    pub open spec fn spec_description(self) -> Seq<char> {
        match self {
            Part::TokenSize => "token size"@,
            Part::Token(_) => "token"@,
            Part::IdSize => "Id size"@,
            Part::Id(_) => "Id"@,
            Part::Timestamp => "timestamp"@,
        }
    }

    /// The name of this header field.
    pub fn description(&self) -> (r: &'static str)
        ensures
            r@ == self.spec_description(),
    {
        match *self {
            Part::TokenSize => "token size",
            Part::Token(_) => "token",
            Part::IdSize => "Id size",
            Part::Id(_) => "Id",
            Part::Timestamp => "timestamp",
        }
    }
}

/// A truncated or malformed header.
///
/// `remaining` is the number of bytes still available in the input when the
/// deficit was detected: the input length minus all fields fully consumed so
/// far.  `part` is the field that could not be read.
#[derive(Debug, Clone, Copy, PartialEq, Eq, Structural)]
pub struct Error {
    pub remaining: u32,
    pub part: Part,
}

/// The parsed header: authentication token, routing id, and the timestamp in
/// milliseconds.
#[derive(Debug)]
pub struct Header {
    pub token: Vec<u8>,
    pub id: Vec<u8>,
    pub millis: u64,
}

/// The mathematical content of a [`Header`].
pub struct HeaderV {
    pub token: Seq<u8>,
    pub id: Seq<u8>,
    pub millis: u64,
}

impl View for Header {
    type V = HeaderV;

    open spec fn view(&self) -> HeaderV {
        HeaderV { token: self.token@, id: self.id@, millis: self.millis }
    }
}

impl PartialEq for Header {
    fn eq(&self, other: &Header) -> (r: bool) {
        wire::bytes_eq(self.token.as_slice(), other.token.as_slice()) && wire::bytes_eq(
            self.id.as_slice(),
            other.id.as_slice(),
        ) && self.millis == other.millis
    }
}

impl Eq for Header {

}

impl vstd::std_specs::cmp::PartialEqSpecImpl for Header {
    open spec fn obeys_eq_spec() -> bool {
        true
    }

    open spec fn eq_spec(&self, other: &Header) -> bool {
        self@ == other@
    }
}

/// What parsing a byte string as a header yields: the header and the
/// unconsumed remainder (the payload region), or the error for the first
/// field that cannot be read in full.
pub open spec fn spec_parse(b: Seq<u8>) -> Result<(HeaderV, Seq<u8>), Error> {
    if b.len() < 4 {
        Err(Error { remaining: b.len() as u32, part: Part::TokenSize })
    } else {
        let tsize = wire::be32(b.subrange(0, 4));
        if b.len() - 4 < tsize {
            Err(Error { remaining: (b.len() - 4) as u32, part: Part::Token(tsize) })
        } else {
            let token = b.subrange(4, 4 + tsize);
            let o1 = 4 + tsize as int;
            if b.len() - o1 < 4 {
                Err(Error { remaining: (b.len() - o1) as u32, part: Part::IdSize })
            } else {
                let idsize = wire::be32(b.subrange(o1, o1 + 4));
                let o2 = o1 + 4;
                if b.len() - o2 < idsize {
                    Err(Error { remaining: (b.len() - o2) as u32, part: Part::Id(idsize) })
                } else {
                    let id = b.subrange(o2, o2 + idsize);
                    let o3 = o2 + idsize;
                    if b.len() - o3 < 8 {
                        Err(Error { remaining: (b.len() - o3) as u32, part: Part::Timestamp })
                    } else {
                        let h = HeaderV { token, id, millis: wire::be64(b.subrange(o3, o3 + 8)) };
                        Ok((h, b.subrange(o3 + 8, b.len() as int)))
                    }
                }
            }
        }
    }
}

/// The wire encoding of a header: length-prefixed token and id, then the
/// timestamp.
pub open spec fn spec_encode(h: HeaderV) -> Seq<u8> {
    wire::be32_bytes(h.token.len() as u32) + h.token + wire::be32_bytes(h.id.len() as u32) + h.id
        + wire::be64_bytes(h.millis)
}

impl Header {
    /// Parse the header at the front of `bytes`; on success also return the
    /// unconsumed remainder, on failure the exact byte deficit.
    ///
    /// No field is ever partially consumed: the size recorded in the error's
    /// `part` for a token or id body is the length declared by the preceding
    /// size field.
    pub fn parse<'a>(bytes: &'a [u8]) -> (r: Result<(Header, &'a [u8]), Error>)
        ensures
            r matches Ok(p) ==> spec_parse(bytes@) matches Ok(q) && p.0@ == q.0 && p.1@ == q.1,
            r matches Err(e) ==> spec_parse(bytes@) == Err::<(HeaderV, Seq<u8>), Error>(e),
    {
        let n = bytes.len();
        if n < 4 {
            return Err(Error { remaining: n as u32, part: Part::TokenSize });
        }
        let token_size = wire::be32_at(bytes, 0);
        if n - 4 < token_size as usize {
            return Err(Error { remaining: (n - 4) as u32, part: Part::Token(token_size) });
        }
        let token = vstd::slice::slice_to_vec(
            vstd::slice::slice_subrange(bytes, 4, 4 + token_size as usize),
        );
        let o1 = 4 + token_size as usize;
        if n - o1 < 4 {
            return Err(Error { remaining: (n - o1) as u32, part: Part::IdSize });
        }
        let id_size = wire::be32_at(bytes, o1);
        let o2 = o1 + 4;
        if n - o2 < id_size as usize {
            return Err(Error { remaining: (n - o2) as u32, part: Part::Id(id_size) });
        }
        let id = vstd::slice::slice_to_vec(
            vstd::slice::slice_subrange(bytes, o2, o2 + id_size as usize),
        );
        let o3 = o2 + id_size as usize;
        if n - o3 < 8 {
            return Err(Error { remaining: (n - o3) as u32, part: Part::Timestamp });
        }
        let millis = wire::be64_at(bytes, o3);
        let rest = vstd::slice::slice_subrange(bytes, o3 + 8, n);
        Ok((Header { token, id, millis }, rest))
    }

    /// Encode this header in its wire format.
    ///
    /// A message body is this encoding followed by the payload bytes.
    pub fn encode(&self) -> (r: Vec<u8>)
        requires
            self.token@.len() <= u32::MAX,
            self.id@.len() <= u32::MAX,
        ensures
            r@ == spec_encode(self@),
    {
        let mut out: Vec<u8> = Vec::new();
        wire::be32_write(&mut out, self.token.len() as u32);
        wire::append_bytes(&mut out, self.token.as_slice());
        wire::be32_write(&mut out, self.id.len() as u32);
        wire::append_bytes(&mut out, self.id.as_slice());
        wire::be64_write(&mut out, self.millis);
        proof {
            assert(out@ =~= spec_encode(self@));
        }
        out
    }
}

/// Every input shorter than the 4-byte token-size field is rejected with the
/// whole input length as `remaining` and `TokenSize` as the failing part.
pub proof fn lemma_parse_short_input(b: Seq<u8>)
    requires
        b.len() < 4,
    ensures
        spec_parse(b) == Err::<(HeaderV, Seq<u8>), Error>(
            Error { remaining: b.len() as u32, part: Part::TokenSize },
        ),
{
}

/// A valid token-size field declaring `L` token bytes, followed by fewer than
/// `L` bytes, is rejected with the count of bytes present after the size
/// field as `remaining` and `Token(L)` as the failing part.
pub proof fn lemma_parse_short_token(b: Seq<u8>)
    requires
        b.len() >= 4,
        b.len() - 4 < wire::be32(b.subrange(0, 4)),
    ensures
        spec_parse(b) == Err::<(HeaderV, Seq<u8>), Error>(
            Error {
                remaining: (b.len() - 4) as u32,
                part: Part::Token(wire::be32(b.subrange(0, 4))),
            },
        ),
{
}

/// Round trip: encoding a header and appending any payload parses back to
/// exactly that header, with exactly that payload as the remainder.
///
/// The two length bounds are forced by the 4-byte size fields.
pub proof fn lemma_parse_encode(h: HeaderV, payload: Seq<u8>)
    requires
        h.token.len() <= u32::MAX,
        h.id.len() <= u32::MAX,
    ensures
        spec_parse(spec_encode(h) + payload) matches Ok(q) && q.0 == h && q.1 == payload,
{
    let b = spec_encode(h) + payload;
    let tlen = h.token.len() as int;
    let ilen = h.id.len() as int;
    wire::lemma_be32_round_trip(h.token.len() as u32);
    wire::lemma_be32_round_trip(h.id.len() as u32);
    wire::lemma_be64_round_trip(h.millis);
    assert(b.len() == 4 + tlen + 4 + ilen + 8 + payload.len());
    assert(b.subrange(0, 4) =~= wire::be32_bytes(h.token.len() as u32));
    assert(wire::be32(b.subrange(0, 4)) == h.token.len());
    assert(b.subrange(4, 4 + tlen) =~= h.token);
    let o1 = 4 + tlen;
    assert(b.subrange(o1, o1 + 4) =~= wire::be32_bytes(h.id.len() as u32));
    assert(wire::be32(b.subrange(o1, o1 + 4)) == h.id.len());
    let o2 = o1 + 4;
    assert(b.subrange(o2, o2 + ilen) =~= h.id);
    let o3 = o2 + ilen;
    assert(b.subrange(o3, o3 + 8) =~= wire::be64_bytes(h.millis));
    assert(wire::be64(b.subrange(o3, o3 + 8)) == h.millis);
    assert(b.subrange(o3 + 8, b.len() as int) =~= payload);
    assert(spec_parse(b) matches Ok(q) && q.0 == h && q.1 == payload);
}

} // verus!
