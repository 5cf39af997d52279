//! The registry wire envelope: a zero magic byte, the schema id as four
//! big-endian bytes, then the encoded body.

use vstd::prelude::*;

verus! {

/// The first byte of every enveloped payload.
pub const MAGIC_BYTE: u8 = 0;

/// The number of bytes before the body: the magic byte and the schema id.
pub const HEADER_LEN: usize = 5;

/// The four big-endian bytes of `id`.
pub open spec fn be_bytes(id: u32) -> Seq<u8> {
    seq![(id / 16777216) as u8, (id / 65536 % 256) as u8, (id / 256 % 256) as u8, (id % 256) as u8]
}

/// The number that four big-endian bytes stand for.
pub open spec fn be_value(b0: u8, b1: u8, b2: u8, b3: u8) -> int {
    b0 * 16777216 + b1 * 65536 + b2 * 256 + b3
}

/// The enveloped form of `body` under schema `id`.
pub open spec fn framed(id: u32, body: Seq<u8>) -> Seq<u8> {
    seq![MAGIC_BYTE] + be_bytes(id) + body
}

/// Why bytes are not a valid envelope.
#[derive(Debug, Clone, Copy, PartialEq, Eq, Structural)]
pub enum EnvelopeError {
    /// There are no bytes at all.
    Empty,
    /// Fewer bytes than the header needs.
    TooShort { len: usize },
    /// The first byte is not the magic byte.
    BadMagic { found: u8 },
}

/// The schema id and body carried by an envelope.
pub struct Frame {
    pub schema_id: u32,
    pub body: Vec<u8>,
}

/// What reading `bytes` as an envelope gives: the schema id and the body, or the error.
pub open spec fn unframed(bytes: Seq<u8>) -> Result<(u32, Seq<u8>), EnvelopeError> {
    if bytes.len() == 0 {
        Err(EnvelopeError::Empty)
    } else if bytes.len() < HEADER_LEN {
        Err(EnvelopeError::TooShort { len: bytes.len() as usize })
    } else if bytes[0] != MAGIC_BYTE {
        Err(EnvelopeError::BadMagic { found: bytes[0] })
    } else {
        Ok(
            (
                be_value(bytes[1], bytes[2], bytes[3], bytes[4]) as u32,
                bytes.subrange(HEADER_LEN as int, bytes.len() as int),
            ),
        )
    }
}

/// Puts `body` in an envelope for schema `id`.
pub fn frame(id: u32, body: &[u8]) -> (r: Vec<u8>)
    ensures
        r@ == framed(id, body@),
{
    let mut out: Vec<u8> = Vec::new();
    out.push(MAGIC_BYTE);
    out.push((id / 16777216) as u8);
    out.push((id / 65536 % 256) as u8);
    out.push((id / 256 % 256) as u8);
    out.push((id % 256) as u8);
    let mut i: usize = 0;
    while i < body.len()
        invariant
            i <= body@.len(),
            out@ == seq![MAGIC_BYTE] + be_bytes(id) + body@.subrange(0, i as int),
        decreases body@.len() - i,
    {
        out.push(body[i]);
        assert(body@.subrange(0, i + 1) == body@.subrange(0, i as int).push(body@[i as int]));
        i = i + 1;
    }
    assert(body@.subrange(0, body@.len() as int) == body@);
    out
}

/// Reads an envelope: its schema id and body, or why it is malformed.
pub fn unframe(bytes: &[u8]) -> (r: Result<Frame, EnvelopeError>)
    ensures
        match unframed(bytes@) {
            Ok((id, body)) => r matches Ok(f) && f.schema_id == id && f.body@ == body,
            Err(e) => r == Err::<Frame, EnvelopeError>(e),
        },
{
    let len = bytes.len();
    if len == 0 {
        return Err(EnvelopeError::Empty);
    }
    if len < HEADER_LEN {
        return Err(EnvelopeError::TooShort { len });
    }
    if bytes[0] != MAGIC_BYTE {
        return Err(EnvelopeError::BadMagic { found: bytes[0] });
    }
    let schema_id: u32 = (bytes[1] as u32) * 16777216 + (bytes[2] as u32) * 65536
        + (bytes[3] as u32) * 256 + (bytes[4] as u32);
    let mut body: Vec<u8> = Vec::new();
    let mut i: usize = HEADER_LEN;
    while i < len
        invariant
            HEADER_LEN <= i <= len,
            len == bytes@.len(),
            body@ == bytes@.subrange(HEADER_LEN as int, i as int),
        decreases len - i,
    {
        body.push(bytes[i]);
        assert(bytes@.subrange(HEADER_LEN as int, i + 1) == bytes@.subrange(HEADER_LEN as int, i as int).push(bytes@[i as int]));
        i = i + 1;
    }
    Ok(Frame { schema_id, body })
}

proof fn lemma_be_round_trip(id: u32)
    ensures
        be_value(be_bytes(id)[0], be_bytes(id)[1], be_bytes(id)[2], be_bytes(id)[3]) == id,
{
    let a = id / 16777216;
    let b = id / 65536 % 256;
    let c = id / 256 % 256;
    let d = id % 256;
    assert(a < 256 && b < 256 && c < 256 && d < 256);
    assert(a * 16777216 + b * 65536 + c * 256 + d == id) by (nonlinear_arith)
        requires
            a == id / 16777216,
            b == id / 65536 % 256,
            c == id / 256 % 256,
            d == id % 256,
    ;
}

/// Reading an envelope gives back exactly the schema id and body it was made from.
pub proof fn lemma_unframe_frame(id: u32, body: Seq<u8>)
    ensures
        unframed(framed(id, body)) == Ok::<(u32, Seq<u8>), EnvelopeError>((id, body)),
{
    let f = framed(id, body);
    lemma_be_round_trip(id);
    assert(f.subrange(HEADER_LEN as int, f.len() as int) == body);
}

} // verus!
