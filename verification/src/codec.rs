//! Fixed-width byte codec: a payload of a one-byte kind tag and a
//! little-endian `u16` value, encoded with no implicit padding.

use vstd::prelude::*;

verus! {

/// A fixed-width payload: a one-byte kind tag followed by a little-endian
/// `u16` value.
#[derive(PartialEq, Eq, Structural, Clone, Copy, Debug)]
pub struct Payload {
    pub kind: u8,
    pub value: u16,
}

impl Default for Payload {
    fn default() -> (r: Payload)
        ensures
            r == (Payload { kind: 0, value: 0 }),
    {
        Payload { kind: 0, value: 0 }
    }
}

/// The three bytes that encode a payload: kind, then the value's low byte,
/// then the value's high byte (little-endian).
pub open spec fn spec_encode(p: Payload) -> Seq<u8> {
    seq![p.kind, (p.value % 256) as u8, (p.value / 256) as u8]
}

/// The payload read from the first three bytes of `bytes`.
pub open spec fn payload_of(bytes: Seq<u8>) -> Payload
    recommends
        bytes.len() >= 3,
{
    Payload { kind: bytes[0], value: (bytes[1] + 256 * bytes[2]) as u16 }
}

/// Decoding fails only when fewer bytes are given than the fixed width asks.
#[derive(PartialEq, Eq, Structural, Clone, Copy, Debug)]
pub struct DecodeFailed;

/// Encode `p` as exactly three bytes, little-endian, no padding.
pub fn encode(p: &Payload) -> (r: Vec<u8>)
    ensures
        r@ == spec_encode(*p),
{
    let mut bytes: Vec<u8> = Vec::new();
    bytes.push(p.kind);
    bytes.push((p.value % 256) as u8);
    bytes.push((p.value / 256) as u8);
    proof {
        assert(bytes@ =~= spec_encode(*p));
    }
    bytes
}

/// Decode a payload from the first three bytes of `bytes`; bytes past the
/// fixed width are ignored, and fewer than three bytes fail.
pub fn decode(bytes: &[u8]) -> (r: Result<Payload, DecodeFailed>)
    ensures
        r is Ok <==> bytes@.len() >= 3,
        bytes@.len() >= 3 ==> r == Ok::<Payload, DecodeFailed>(payload_of(bytes@)),
{
    if bytes.len() < 3 {
        return Err(DecodeFailed);
    }
    let kind = bytes[0];
    let lo = bytes[1];
    let hi = bytes[2];
    let value: u16 = lo as u16 + (hi as u16) * 256;
    Ok(Payload { kind, value })
}

/// Round-trip law: decoding the encoding of any representable payload gives
/// the payload back.
pub proof fn lemma_round_trip(p: Payload)
    ensures
        spec_encode(p).len() >= 3,
        payload_of(spec_encode(p)) == p,
{
    let e = spec_encode(p);
    assert(e[1] + 256 * e[2] == p.value % 256 + 256 * (p.value / 256));
    assert(p.value % 256 + 256 * (p.value / 256) == p.value) by {
        vstd::arithmetic::div_mod::lemma_fundamental_div_mod(p.value as int, 256);
    }
}

/// Encode a default payload, decode the bytes back, and check that the round
/// trip reproduced it; always succeeds.
pub fn run() -> (r: Result<(), DecodeFailed>)
    ensures
        r is Ok,
{
    let original = Payload::default();
    let encoded = encode(&original);
    let decoded = match decode(encoded.as_slice()) {
        Ok(p) => p,
        Err(e) => {
            proof {
                lemma_round_trip(original);
            }
            return Err(e);
        },
    };
    proof {
        lemma_round_trip(original);
    }
    if decoded.kind == original.kind && decoded.value == original.value {
        Ok(())
    } else {
        proof {
            assert(decoded == original);
        }
        Err(DecodeFailed)
    }
}

} // verus!
