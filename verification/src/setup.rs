//! The 8-byte SETUP packet that begins every USB control transfer.
//!
//! The packet is `bmRequestType | bRequest | wValue | wIndex | wLength`,
//! with the three 16-bit words in little-endian order. Encoding and
//! decoding invert each other exactly.

use vstd::prelude::*;

verus! {

/// The GET_DESCRIPTOR standard request number.
pub const REQ_GET_DESCRIPTOR: u8 = 6;

/// The SET_ADDRESS standard request number.
pub const REQ_SET_ADDRESS: u8 = 5;

/// A USB control request header before encoding.
#[derive(Clone, Copy, Debug, PartialEq, Eq, Structural)]
pub struct DeviceRequest {
    pub req_type: u8,
    pub req_num: u8,
    pub value: u16,
    pub index: u16,
    pub length: u16,
}

/// The low byte of a 16-bit word.
pub open spec fn lo8(v: u16) -> u8 {
    (v & 0xFF) as u8
}

/// The high byte of a 16-bit word.
pub open spec fn hi8(v: u16) -> u8 {
    (v >> 8) as u8
}

/// The 16-bit word with the given little-endian bytes.
pub open spec fn word16(lo: u8, hi: u8) -> u16 {
    (lo as u16) | ((hi as u16) << 8)
}

/// The SETUP packet bytes of a request, little-endian words.
pub open spec fn spec_setup_bytes(r: DeviceRequest) -> Seq<u8> {
    seq![
        r.req_type,
        r.req_num,
        lo8(r.value),
        hi8(r.value),
        lo8(r.index),
        hi8(r.index),
        lo8(r.length),
        hi8(r.length),
    ]
}

/// The request described by 8 SETUP packet bytes.
pub open spec fn spec_parse_setup(b: Seq<u8>) -> DeviceRequest
    recommends
        b.len() == 8,
{
    DeviceRequest {
        req_type: b[0],
        req_num: b[1],
        value: word16(b[2], b[3]),
        index: word16(b[4], b[5]),
        length: word16(b[6], b[7]),
    }
}

/// Splitting a word into little-endian bytes and joining them again
/// yields the word, and conversely.
pub proof fn lemma_word16_round_trip(v: u16, lo: u8, hi: u8)
    ensures
        word16(lo8(v), hi8(v)) == v,
        lo8(word16(lo, hi)) == lo,
        hi8(word16(lo, hi)) == hi,
{
    assert(((v & 0xFF) as u8 as u16) | (((v >> 8) as u8 as u16) << 8) == v) by (bit_vector);
    assert((((lo as u16) | ((hi as u16) << 8)) & 0xFF) as u8 == lo) by (bit_vector);
    assert((((lo as u16) | ((hi as u16) << 8)) >> 8) as u8 == hi) by (bit_vector);
}

/// Decoding the SETUP packet of any request yields the request again,
/// fields and byte order intact.
pub proof fn lemma_setup_round_trip(r: DeviceRequest)
    ensures
        spec_parse_setup(spec_setup_bytes(r)) == r,
{
    lemma_word16_round_trip(r.value, 0, 0);
    lemma_word16_round_trip(r.index, 0, 0);
    lemma_word16_round_trip(r.length, 0, 0);
}

impl DeviceRequest {
    /// Encode the request as the 8 bytes that go on the wire.
    pub fn to_bytes(&self) -> (out: [u8; 8])
        ensures
            out@ == spec_setup_bytes(*self),
    {
        let out: [u8; 8] = [
            self.req_type,
            self.req_num,
            (self.value & 0xFF) as u8,
            (self.value >> 8) as u8,
            (self.index & 0xFF) as u8,
            (self.index >> 8) as u8,
            (self.length & 0xFF) as u8,
            (self.length >> 8) as u8,
        ];
        proof {
            assert(out@ =~= spec_setup_bytes(*self));
        }
        out
    }

    /// Decode an 8-byte SETUP packet into its request fields.
    pub fn from_bytes(b: &[u8; 8]) -> (r: DeviceRequest)
        ensures
            r == spec_parse_setup(b@),
    {
        DeviceRequest {
            req_type: b[0],
            req_num: b[1],
            value: (b[2] as u16) | ((b[3] as u16) << 8),
            index: (b[4] as u16) | ((b[5] as u16) << 8),
            length: (b[6] as u16) | ((b[7] as u16) << 8),
        }
    }
}

} // verus!
