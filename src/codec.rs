//! The compact binary form of a settled transfer, as stored inside blocks:
//! a length-prefixed sender address, a length-prefixed recipient address and
//! a length-prefixed 8-byte big-endian amount.

use crate::encoding::{append_bytes, copy_range};
use vstd::prelude::*;

verus! {

/// Big-endian bytes of a 64-bit value.
pub open spec fn u64_be(n: u64) -> Seq<u8> {
    seq![
        (n >> 56u64) as u8,
        (n >> 48u64) as u8,
        (n >> 40u64) as u8,
        (n >> 32u64) as u8,
        (n >> 24u64) as u8,
        (n >> 16u64) as u8,
        (n >> 8u64) as u8,
        n as u8,
    ]
}

/// The 64-bit value whose big-endian bytes are the first eight of `b`.
pub open spec fn be_u64(b: Seq<u8>) -> u64 {
    (b[0] as u64) << 56u64 | (b[1] as u64) << 48u64 | (b[2] as u64) << 40u64 | (b[3] as u64)
        << 32u64 | (b[4] as u64) << 24u64 | (b[5] as u64) << 16u64 | (b[6] as u64) << 8u64 | (
    b[7] as u64)
}

/// Width in bytes of an encoded amount.
pub const VALUE_WIDTH: u64 = 8;

/// The encoding of a transfer record `(sender, recipient, amount)`.
pub open spec fn encode_record(t: (Seq<u8>, Seq<u8>, i64)) -> Seq<u8> {
    u64_be(t.0.len() as u64) + t.0 + u64_be(t.1.len() as u64) + t.1 + u64_be(VALUE_WIDTH)
        + u64_be(t.2 as u64)
}

/// Reading a transfer record back: `None` for a byte string that is cut
/// short, has a value width other than eight, or carries bytes past the end.
pub open spec fn decode_record(b: Seq<u8>) -> Option<(Seq<u8>, Seq<u8>, i64)> {
    if b.len() < 8 {
        None
    } else {
        let sender_end = 8 + be_u64(b.subrange(0, 8)) as int;
        if b.len() < sender_end + 8 {
            None
        } else {
            let recipient_end = sender_end + 8 + be_u64(b.subrange(sender_end, sender_end + 8)) as int;
            if b.len() != recipient_end + 16 {
                None
            } else if be_u64(b.subrange(recipient_end, recipient_end + 8)) != VALUE_WIDTH {
                None
            } else {
                Some(
                    (
                        b.subrange(8, sender_end),
                        b.subrange(sender_end + 8, recipient_end),
                        be_u64(b.subrange(recipient_end + 8, recipient_end + 16)) as i64,
                    ),
                )
            }
        }
    }
}

/// The binary form of a byte string that fails to decode.
#[derive(Clone, Copy, Debug)]
pub enum CodecError {
    CorruptEncoding,
}

/// A settled transfer: who pays, who is paid, and how many minor units.
#[derive(Clone, Debug)]
pub struct RawTransaction {
    pub sender_address: Vec<u8>,
    pub recipient_address: Vec<u8>,
    pub value: i64,
}

impl View for RawTransaction {
    type V = (Seq<u8>, Seq<u8>, i64);

    open spec fn view(&self) -> (Seq<u8>, Seq<u8>, i64) {
        (self.sender_address@, self.recipient_address@, self.value)
    }
}

/// Converts between a value and its stored binary form.
pub trait Serializable<T>: Sized {
    /// The stored binary form of a value.
    spec fn spec_serialize(&self) -> Seq<u8>;

    /// Whether `r` is the outcome of reading `bytes` back.
    spec fn spec_deserialize(bytes: Seq<u8>, r: Result<T, CodecError>) -> bool;

    fn serialize(&self) -> (r: Vec<u8>)
        ensures
            r@ == self.spec_serialize(),
    ;

    fn deserialize(bytes: &Vec<u8>) -> (r: Result<T, CodecError>)
        ensures
            Self::spec_deserialize(bytes@, r),
    ;
}

impl RawTransaction {
    pub fn new(sender_address: Vec<u8>, recipient_address: Vec<u8>, value: i64) -> (r:
        RawTransaction)
        ensures
            r@ == (sender_address@, recipient_address@, value),
    {
        RawTransaction { sender_address, recipient_address, value }
    }

    /// The record's binary form.
    pub fn encode(&self) -> (r: Vec<u8>)
        ensures
            r@ == encode_record(self@),
    {
        let mut out: Vec<u8> = Vec::new();
        push_u64_be(&mut out, self.sender_address.len() as u64);
        append_bytes(&mut out, &self.sender_address);
        push_u64_be(&mut out, self.recipient_address.len() as u64);
        append_bytes(&mut out, &self.recipient_address);
        push_u64_be(&mut out, VALUE_WIDTH);
        push_u64_be(&mut out, self.value as u64);
        out
    }

    /// Reads a record back from its binary form.
    pub fn decode(bytes: &Vec<u8>) -> (r: Result<RawTransaction, CodecError>)
        ensures
            match r {
                Ok(t) => decode_record(bytes@) == Some(t@),
                Err(_) => decode_record(bytes@) is None,
            },
    {
        let b = bytes;
        let n = b.len();
        if n < 8 {
            return Err(CodecError::CorruptEncoding);
        }
        let sender_len = read_u64_be(b, 0);
        if sender_len > (n - 8) as u64 {
            return Err(CodecError::CorruptEncoding);
        }
        let sender_end: usize = 8 + sender_len as usize;
        if n - sender_end < 8 {
            return Err(CodecError::CorruptEncoding);
        }
        let recipient_len = read_u64_be(b, sender_end);
        if recipient_len > (n - sender_end - 8) as u64 {
            return Err(CodecError::CorruptEncoding);
        }
        let recipient_end: usize = sender_end + 8 + recipient_len as usize;
        if n - recipient_end != 16 {
            return Err(CodecError::CorruptEncoding);
        }
        let width = read_u64_be(b, recipient_end);
        if width != VALUE_WIDTH {
            return Err(CodecError::CorruptEncoding);
        }
        let value = read_u64_be(b, recipient_end + 8) as i64;
        let sender_address = copy_range(b, 8, sender_end);
        let recipient_address = copy_range(b, sender_end + 8, recipient_end);
        Ok(RawTransaction { sender_address, recipient_address, value })
    }
}

impl Serializable<RawTransaction> for RawTransaction {
    open spec fn spec_serialize(&self) -> Seq<u8> {
        encode_record(self@)
    }

    open spec fn spec_deserialize(bytes: Seq<u8>, r: Result<RawTransaction, CodecError>) -> bool {
        match r {
            Ok(t) => decode_record(bytes) == Some(t@),
            Err(_) => decode_record(bytes) is None,
        }
    }

    fn serialize(&self) -> (r: Vec<u8>) {
        self.encode()
    }

    fn deserialize(bytes: &Vec<u8>) -> (r: Result<RawTransaction, CodecError>) {
        RawTransaction::decode(bytes)
    }
}

/// Appends the big-endian bytes of `n`.
pub fn push_u64_be(out: &mut Vec<u8>, n: u64)
    ensures
        final(out)@ == old(out)@ + u64_be(n),
{
    out.push((n >> 56u64) as u8);
    out.push((n >> 48u64) as u8);
    out.push((n >> 40u64) as u8);
    out.push((n >> 32u64) as u8);
    out.push((n >> 24u64) as u8);
    out.push((n >> 16u64) as u8);
    out.push((n >> 8u64) as u8);
    out.push(n as u8);
    assert(out@ =~= old(out)@ + u64_be(n));
}

/// The 64-bit big-endian value stored at `pos`.
pub fn read_u64_be(b: &Vec<u8>, pos: usize) -> (r: u64)
    requires
        pos + 8 <= b.len(),
    ensures
        r == be_u64(b@.subrange(pos as int, pos + 8)),
{
    let ghost s = b@.subrange(pos as int, pos + 8);
    assert(s[0] == b@[pos as int] && s[1] == b@[pos + 1] && s[2] == b@[pos + 2] && s[3] == b@[pos
        + 3] && s[4] == b@[pos + 4] && s[5] == b@[pos + 5] && s[6] == b@[pos + 6] && s[7] == b@[pos
        + 7]);
    let b0 = b[pos] as u64;
    let b1 = b[pos + 1] as u64;
    let b2 = b[pos + 2] as u64;
    let b3 = b[pos + 3] as u64;
    let b4 = b[pos + 4] as u64;
    let b5 = b[pos + 5] as u64;
    let b6 = b[pos + 6] as u64;
    let b7 = b[pos + 7] as u64;
    b0 << 56u64 | b1 << 48u64 | b2 << 40u64 | b3 << 32u64 | b4 << 24u64 | b5 << 16u64 | b6 << 8u64
        | b7
}

/// Reading the big-endian bytes of a value gives the value back.
pub proof fn lemma_be_u64_round_trip(n: u64)
    ensures
        be_u64(u64_be(n)) == n,
{
    let s = u64_be(n);
    assert(((n >> 56u64) as u8 as u64) << 56u64 | ((n >> 48u64) as u8 as u64) << 48u64 | ((n
        >> 40u64) as u8 as u64) << 40u64 | ((n >> 32u64) as u8 as u64) << 32u64 | ((n >> 24u64) as u8
        as u64) << 24u64 | ((n >> 16u64) as u8 as u64) << 16u64 | ((n >> 8u64) as u8 as u64) << 8u64
        | (n as u8 as u64) == n) by (bit_vector);
}

/// Decoding the encoding of any record gives back the same sender bytes,
/// recipient bytes and amount.
pub proof fn lemma_decode_encode(t: RawTransaction)
    ensures
        decode_record(encode_record(t@)) == Some(t@),
{
    let (s, r, v) = t@;
    let e = encode_record(t@);
    assert(t.sender_address.len() == s.len() && t.recipient_address.len() == r.len());
    let sl = s.len() as u64;
    let rl = r.len() as u64;
    let sender_end: int = 8 + s.len() as int;
    let recipient_end: int = sender_end + 8 + r.len() as int;
    assert(e.subrange(0, 8) =~= u64_be(sl));
    lemma_be_u64_round_trip(sl);
    assert(e.subrange(sender_end, sender_end + 8) =~= u64_be(rl));
    lemma_be_u64_round_trip(rl);
    assert(e.subrange(recipient_end, recipient_end + 8) =~= u64_be(VALUE_WIDTH));
    lemma_be_u64_round_trip(VALUE_WIDTH);
    assert(e.subrange(recipient_end + 8, recipient_end + 16) =~= u64_be(v as u64));
    lemma_be_u64_round_trip(v as u64);
    assert((v as u64) as i64 == v) by (bit_vector);
    assert(e.subrange(8, sender_end) =~= s);
    assert(e.subrange(sender_end + 8, recipient_end) =~= r);
    assert(e.len() == recipient_end + 16);
}

} // verus!
