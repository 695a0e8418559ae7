//! Framing of messages on the stream: a 4-byte little-endian length, then
//! that many bytes. A read answer skips the request union: its payload is a
//! status byte (0 for success) followed by the bytes read, so that they can
//! be handed out in place.
use vstd::prelude::*;
use crate::types::{error_code_value, ErrorCode};

verus! {

/// The little-endian bytes of `n`.
pub open spec fn le_bytes(n: u32) -> Seq<u8> {
    seq![(n % 256) as u8, ((n / 256) % 256) as u8, ((n / 65536) % 256) as u8, (n / 16777216) as u8]
}

/// The number whose little-endian bytes begin `b`.
pub open spec fn le_value(b: Seq<u8>) -> int {
    b[0] + 256 * b[1] + 65536 * b[2] + 16777216 * b[3]
}

/// `payload` with its length in front.
pub open spec fn frame(payload: Seq<u8>) -> Seq<u8> {
    le_bytes(payload.len() as u32) + payload
}

/// The payload of a successful read answer.
pub open spec fn read_ok_payload(data: Seq<u8>) -> Seq<u8> {
    seq![0u8] + data
}

/// The payload of a failed read answer.
pub open spec fn read_error_payload(e: ErrorCode) -> Seq<u8> {
    seq![1u8, error_code_value(e)]
}

/// What a read answer's payload says: the range of the bytes read within
/// it, or the error.
pub open spec fn read_payload_meaning(p: Seq<u8>) -> Result<(int, int), ErrorCode> {
    if p.len() == 0 {
        Err(ErrorCode::BadResponse)
    } else if p[0] == 0 {
        Ok((1, p.len() as int))
    } else if p.len() == 2 && 1 <= p[1] <= 14 {
        Err(choose|e: ErrorCode| error_code_value(e) == p[1])
    } else {
        Err(ErrorCode::BadResponse)
    }
}

/// The little-endian bytes of `n` give back `n`.
pub proof fn lemma_le_round_trip(n: u32)
    ensures
        le_value(le_bytes(n)) == n,
{
    let b = le_bytes(n);
    assert(b[0] == n % 256);
    assert(b[1] == (n / 256) % 256);
    assert(b[2] == (n / 65536) % 256);
    assert(b[3] == n / 16777216);
}

/// Puts the length of `payload` in front of it; `None` when the length does
/// not fit in four bytes.
pub fn encode_frame(payload: &[u8]) -> (r: Option<Vec<u8>>)
    ensures
        r is None <==> payload@.len() > u32::MAX,
        r matches Some(v) ==> v@ == frame(payload@),
{
    if payload.len() > u32::MAX as usize {
        return None;
    }
    let n = payload.len() as u32;
    let mut out: Vec<u8> = Vec::new();
    out.push((n % 256) as u8);
    out.push(((n / 256) % 256) as u8);
    out.push(((n / 65536) % 256) as u8);
    out.push((n / 16777216) as u8);
    let mut i: usize = 0;
    while i < payload.len()
        invariant
            i <= payload@.len(),
            n == payload@.len(),
            out@ == le_bytes(n) + payload@.subrange(0, i as int),
        decreases payload@.len() - i,
    {
        out.push(payload[i]);
        i = i + 1;
        assert(out@ =~= le_bytes(n) + payload@.subrange(0, i as int));
    }
    assert(payload@.subrange(0, payload@.len() as int) =~= payload@);
    Some(out)
}

/// The length announced by the first four bytes of `header`.
pub fn read_length(header: &[u8]) -> (r: Option<u32>)
    ensures
        r is None <==> header@.len() < 4,
        r matches Some(n) ==> n == le_value(header@),
{
    if header.len() < 4 {
        return None;
    }
    Some(header[0] as u32 + header[1] as u32 * 256 + header[2] as u32 * 65536 + header[3] as u32 * 16777216)
}

/// Where the payload of the frame at the start of `buf` lies: `Some((4,
/// end))` once `buf` holds the whole frame.
pub fn decode_frame(buf: &[u8]) -> (r: Option<(usize, usize)>)
    ensures
        r is Some <==> buf@.len() >= 4 && 4 + le_value(buf@) <= buf@.len(),
        r matches Some((s, e)) ==> s == 4 && e == 4 + le_value(buf@),
{
    match read_length(buf) {
        Some(n) => {
            if (n as usize) <= buf.len() - 4 {
                Some((4, 4 + n as usize))
            } else {
                None
            }
        },
        None => None,
    }
}

/// Decoding a frame finds the payload that was framed.
pub proof fn law_frame_round_trip(payload: Seq<u8>)
    requires
        payload.len() <= u32::MAX,
    ensures
        le_value(frame(payload)) == payload.len(),
        frame(payload).subrange(4, 4 + payload.len() as int) == payload,
{
    lemma_le_round_trip(payload.len() as u32);
    let f = frame(payload);
    assert(f[0] == le_bytes(payload.len() as u32)[0]);
    assert(f[1] == le_bytes(payload.len() as u32)[1]);
    assert(f[2] == le_bytes(payload.len() as u32)[2]);
    assert(f[3] == le_bytes(payload.len() as u32)[3]);
    assert(f.subrange(4, 4 + payload.len() as int) =~= payload);
}

/// The framed answer to a read that returned `data`.
pub fn encode_read_response(data: &[u8]) -> (r: Option<Vec<u8>>)
    ensures
        r is None <==> data@.len() >= u32::MAX,
        r matches Some(v) ==> v@ == frame(read_ok_payload(data@)),
{
    if data.len() >= u32::MAX as usize {
        return None;
    }
    let mut payload: Vec<u8> = Vec::new();
    payload.push(0u8);
    let mut i: usize = 0;
    while i < data.len()
        invariant
            i <= data@.len(),
            payload@ == seq![0u8] + data@.subrange(0, i as int),
        decreases data@.len() - i,
    {
        payload.push(data[i]);
        i = i + 1;
        assert(payload@ =~= seq![0u8] + data@.subrange(0, i as int));
    }
    assert(data@.subrange(0, data@.len() as int) =~= data@);
    encode_frame(payload.as_slice())
}

/// The framed answer to a read that failed with `e`.
pub fn encode_read_error(e: ErrorCode) -> (r: Vec<u8>)
    ensures
        r@ == frame(read_error_payload(e)),
{
    let mut payload: Vec<u8> = Vec::new();
    payload.push(1u8);
    payload.push(e.to_wire());
    assert(payload@ =~= read_error_payload(e));
    encode_frame(payload.as_slice()).unwrap()
}

/// Reads the payload of a read answer: where the bytes read lie within it,
/// or the error it carries.
pub fn decode_read_payload(p: &[u8]) -> (r: Result<(usize, usize), ErrorCode>)
    ensures
        match r {
            Ok((s, e)) => read_payload_meaning(p@) == Ok::<(int, int), ErrorCode>((s as int, e as int)),
            Err(e) => read_payload_meaning(p@) == Err::<(int, int), ErrorCode>(e),
        },
{
    if p.len() == 0 {
        return Err(ErrorCode::BadResponse);
    }
    if p[0] == 0 {
        return Ok((1, p.len()));
    }
    if p.len() == 2 {
        match ErrorCode::from_wire(p[1]) {
            Some(e) => {
                proof {
                    let c = choose|c: ErrorCode| error_code_value(c) == p@[1];
                    assert(error_code_value(c) == error_code_value(e));
                    assert(c == e);
                }
                return Err(e);
            },
            None => {},
        }
    }
    Err(ErrorCode::BadResponse)
}

} // verus!
