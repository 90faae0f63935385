//! Blocks: a nonce, a link to the predecessor, a timestamp and the encoded
//! transfers, identified by the SHA-256 digest of those fields.

use crate::encoding::{append_bytes, bytes_equal, copy_bytes, hex_encode, hex_of, sha256, sha256_of};
use vstd::prelude::*;

verus! {

/// Number of leading `0` hexadecimal digits a mined block's hash must have.
pub const DIFFICULTY: usize = 4;

/// Big-endian bytes of a 32-bit value.
pub open spec fn u32_be(n: u32) -> Seq<u8> {
    seq![(n >> 24u32) as u8, (n >> 16u32) as u8, (n >> 8u32) as u8, n as u8]
}

/// Big-endian bytes of a 128-bit value.
pub open spec fn u128_be(n: u128) -> Seq<u8> {
    Seq::new(16, |i: int| (n >> ((120 - 8 * i) as u128)) as u8)
}

/// The byte strings of `s` laid end to end, in order.
pub open spec fn concat_all(s: Seq<Seq<u8>>) -> Seq<u8>
    decreases s.len(),
{
    if s.len() == 0 {
        Seq::empty()
    } else {
        concat_all(s.drop_last()) + s.last()
    }
}

/// Views of a list of byte strings.
pub open spec fn byte_strings(v: Seq<Vec<u8>>) -> Seq<Seq<u8>> {
    v.map_values(|t: Vec<u8>| t@)
}

/// Whether a digest's hexadecimal rendering starts with `DIFFICULTY` zeros.
pub open spec fn meets_target(h: Seq<u8>) -> bool {
    &&& hex_of(h).len() >= DIFFICULTY
    &&& forall|i: int| 0 <= i < DIFFICULTY ==> #[trigger] hex_of(h)[i] == '0'
}

/// A criterion for finding a block in a chain.
#[derive(Clone, Debug)]
pub enum BlockSearch {
    SearchByIndex(usize),
    SearchByPreviousHash(Vec<u8>),
    SearchByBlockHash(Vec<u8>),
    SearchByNonce(u32),
    SearchByTimestamp(u128),
    SearchByTransaction(Vec<u8>),
}

/// The first block that meets a criterion, or a miss that carries the criterion back.
#[derive(Debug)]
pub enum BlockSearchResult<'a> {
    Success(&'a Block),
    FailOfEmptyBlocks,
    FailOfIndex(usize),
    FailOfPreviousHash(Vec<u8>),
    FailOfBlockHash(Vec<u8>),
    FailOfNonce(u32),
    FailOfTimestamp(u128),
    FailOfTransaction(Vec<u8>),
}

/// Whether block `b`, at position `idx`, meets criterion `q`.
pub open spec fn block_matches(b: Block, idx: int, q: BlockSearch) -> bool {
    match q {
        BlockSearch::SearchByIndex(n) => idx == n,
        BlockSearch::SearchByPreviousHash(h) => b.previous_hash@ == h@,
        BlockSearch::SearchByBlockHash(h) => b.spec_hash() == h@,
        BlockSearch::SearchByNonce(n) => b.nonce == n,
        BlockSearch::SearchByTimestamp(t) => b.timestamp == t,
        BlockSearch::SearchByTransaction(t) => byte_strings(b.transactions@).contains(t@),
    }
}

/// Whether `r` is the miss that reports criterion `q`.
pub open spec fn reports_miss(r: BlockSearchResult, q: BlockSearch) -> bool {
    match q {
        BlockSearch::SearchByIndex(n) => r == BlockSearchResult::FailOfIndex(n),
        BlockSearch::SearchByPreviousHash(h) => match r {
            BlockSearchResult::FailOfPreviousHash(x) => x@ == h@,
            _ => false,
        },
        BlockSearch::SearchByBlockHash(h) => match r {
            BlockSearchResult::FailOfBlockHash(x) => x@ == h@,
            _ => false,
        },
        BlockSearch::SearchByNonce(n) => r == BlockSearchResult::FailOfNonce(n),
        BlockSearch::SearchByTimestamp(t) => r == BlockSearchResult::FailOfTimestamp(t),
        BlockSearch::SearchByTransaction(t) => match r {
            BlockSearchResult::FailOfTransaction(x) => x@ == t@,
            _ => false,
        },
    }
}

/// A block of the chain. Only mining changes it, and only its nonce; its
/// identity is its hash.
#[derive(Clone, Debug)]
pub struct Block {
    pub nonce: u32,
    pub previous_hash: Vec<u8>,
    pub timestamp: u128,
    pub transactions: Vec<Vec<u8>>,
}

/// The exact bytes that are hashed: nonce, previous hash, timestamp, then each transfer.
pub open spec fn preimage_of(
    nonce: u32,
    previous_hash: Seq<u8>,
    timestamp: u128,
    transactions: Seq<Seq<u8>>,
) -> Seq<u8> {
    u32_be(nonce) + previous_hash + u128_be(timestamp) + concat_all(transactions)
}

/// Whether a block with these fields meets the work target.
pub open spec fn nonce_hits(
    nonce: u32,
    previous_hash: Seq<u8>,
    timestamp: u128,
    transactions: Seq<Seq<u8>>,
) -> bool {
    meets_target(sha256_of(preimage_of(nonce, previous_hash, timestamp, transactions)))
}

/// Whether no nonce at all makes a block with these fields meet the work target.
pub open spec fn no_nonce_hits(
    previous_hash: Seq<u8>,
    timestamp: u128,
    transactions: Seq<Seq<u8>>,
) -> bool {
    forall|n: u32| !#[trigger] nonce_hits(n, previous_hash, timestamp, transactions)
}

impl Block {
    /// The exact bytes that are hashed.
    pub open spec fn preimage(&self) -> Seq<u8> {
        preimage_of(
            self.nonce,
            self.previous_hash@,
            self.timestamp,
            byte_strings(self.transactions@),
        )
    }

    /// The block's identity.
    pub open spec fn spec_hash(&self) -> Seq<u8> {
        sha256_of(self.preimage())
    }

    /// A block with the given nonce and predecessor link, stamped with the
    /// current time, holding no transfers.
    pub fn new(nonce: u32, previous_hash: Vec<u8>) -> (r: Block)
        ensures
            r.nonce == nonce,
            r.previous_hash@ == previous_hash@,
            r.transactions@.len() == 0,
    {
        Block { nonce, previous_hash, timestamp: now_nanos(), transactions: Vec::new() }
    }

    /// SHA-256 over the block's preimage, recomputed on every call.
    pub fn hash(&self) -> (r: Vec<u8>)
        ensures
            r@ == self.spec_hash(),
            r@.len() == 32,
    {
        let mut bin: Vec<u8> = Vec::new();
        push_u32_be(&mut bin, self.nonce);
        append_bytes(&mut bin, &self.previous_hash);
        push_u128_be(&mut bin, self.timestamp);
        let mut i: usize = 0;
        while i < self.transactions.len()
            invariant
                i <= self.transactions.len(),
                bin@ == u32_be(self.nonce) + self.previous_hash@ + u128_be(self.timestamp)
                    + concat_all(byte_strings(self.transactions@).subrange(0, i as int)),
            decreases self.transactions.len() - i,
        {
            let ghost prev = bin@;
            append_bytes(&mut bin, &self.transactions[i]);
            proof {
                let s = byte_strings(self.transactions@);
                assert(s.subrange(0, i + 1).drop_last() == s.subrange(0, i as int));
                assert(s.subrange(0, i + 1).last() == self.transactions@[i as int]@);
            }
            i = i + 1;
        }
        assert(byte_strings(self.transactions@).subrange(0, i as int) == byte_strings(
            self.transactions@,
        ));
        sha256(&bin)
    }

    /// Advances the nonce by one, wrapping at the top of its range.
    pub fn increment_nonce(&mut self)
        ensures
            final(self).nonce == (if old(self).nonce == u32::MAX {
                0
            } else {
                (old(self).nonce + 1) as u32
            }),
            final(self).previous_hash == old(self).previous_hash,
            final(self).timestamp == old(self).timestamp,
            final(self).transactions == old(self).transactions,
    {
        self.nonce = self.nonce.wrapping_add(1);
    }
}

/// Relies on `SystemTime::now` and `duration_since(UNIX_EPOCH)`: the current
/// time in nanoseconds (zero for a clock set before the epoch).
#[verifier::external_body]
pub(crate) fn now_nanos() -> (r: u128) {
    match std::time::SystemTime::now().duration_since(std::time::UNIX_EPOCH) {
        Ok(d) => d.as_nanos(),
        Err(_) => 0,
    }
}

/// Blocks are the same block when their hashes agree.
impl PartialEq for Block {
    fn eq(&self, other: &Block) -> (r: bool) {
        bytes_equal(&self.hash(), &other.hash())
    }
}

impl vstd::std_specs::cmp::PartialEqSpecImpl for Block {
    open spec fn obeys_eq_spec() -> bool {
        true
    }

    open spec fn eq_spec(&self, other: &Block) -> bool {
        self.spec_hash() == other.spec_hash()
    }
}

/// Appends the big-endian bytes of `n`.
pub fn push_u32_be(bin: &mut Vec<u8>, n: u32)
    ensures
        final(bin)@ == old(bin)@ + u32_be(n),
{
    bin.push((n >> 24u32) as u8);
    bin.push((n >> 16u32) as u8);
    bin.push((n >> 8u32) as u8);
    bin.push(n as u8);
    assert(bin@ =~= old(bin)@ + u32_be(n));
}

/// Appends the big-endian bytes of `n`.
pub fn push_u128_be(bin: &mut Vec<u8>, n: u128)
    ensures
        final(bin)@ == old(bin)@ + u128_be(n),
{
    let mut i: u128 = 0;
    while i < 16
        invariant
            i <= 16,
            bin@ == old(bin)@ + u128_be(n).subrange(0, i as int),
        decreases 16 - i,
    {
        bin.push((n >> (120 - 8 * i)) as u8);
        i = i + 1;
        assert(u128_be(n).subrange(0, i as int) =~= u128_be(n).subrange(0, i - 1) + seq![
            u128_be(n)[i - 1],
        ]);
    }
    assert(u128_be(n).subrange(0, 16) =~= u128_be(n));
}

/// Whether a digest meets the work target.
pub fn hash_meets_target(h: &Vec<u8>) -> (r: bool)
    ensures
        r == meets_target(h@),
{
    let hex = hex_encode(h);
    let s = hex.as_str();
    if s.unicode_len() < DIFFICULTY {
        return false;
    }
    let mut i: usize = 0;
    while i < DIFFICULTY
        invariant
            i <= DIFFICULTY,
            s@ == hex_of(h@),
            s@.len() >= DIFFICULTY,
            forall|j: int| 0 <= j < i ==> hex_of(h@)[j] == '0',
        decreases DIFFICULTY - i,
    {
        if s.get_char(i) != '0' {
            return false;
        }
        i = i + 1;
    }
    true
}


/// Whether block `b`, at position `idx`, meets criterion `q`.
pub fn matches_criterion(b: &Block, idx: usize, q: &BlockSearch) -> (r: bool)
    ensures
        r == block_matches(*b, idx as int, *q),
{
    match q {
        BlockSearch::SearchByIndex(n) => idx == *n,
        BlockSearch::SearchByPreviousHash(h) => bytes_equal(&b.previous_hash, h),
        BlockSearch::SearchByBlockHash(h) => bytes_equal(&b.hash(), h),
        BlockSearch::SearchByNonce(n) => b.nonce == *n,
        BlockSearch::SearchByTimestamp(t) => b.timestamp == *t,
        BlockSearch::SearchByTransaction(t) => {
            let mut i: usize = 0;
            while i < b.transactions.len()
                invariant
                    i <= b.transactions@.len(),
                    forall|j: int| 0 <= j < i ==> byte_strings(b.transactions@)[j] != t@,
                    *q == BlockSearch::SearchByTransaction(*t),
                decreases b.transactions.len() - i,
            {
                if bytes_equal(&b.transactions[i], t) {
                    assert(byte_strings(b.transactions@)[i as int] == t@);
                    assert(byte_strings(b.transactions@).contains(t@));
                    return true;
                }
                i = i + 1;
            }
            assert(!byte_strings(b.transactions@).contains(t@));
            false
        },
    }
}

/// The miss that reports criterion `q`.
pub fn miss_for<'a>(q: &BlockSearch) -> (r: BlockSearchResult<'a>)
    ensures
        reports_miss(r, *q),
{
    match q {
        BlockSearch::SearchByIndex(n) => BlockSearchResult::FailOfIndex(*n),
        BlockSearch::SearchByPreviousHash(h) => BlockSearchResult::FailOfPreviousHash(copy_bytes(h)),
        BlockSearch::SearchByBlockHash(h) => BlockSearchResult::FailOfBlockHash(copy_bytes(h)),
        BlockSearch::SearchByNonce(n) => BlockSearchResult::FailOfNonce(*n),
        BlockSearch::SearchByTimestamp(t) => BlockSearchResult::FailOfTimestamp(*t),
        BlockSearch::SearchByTransaction(t) => BlockSearchResult::FailOfTransaction(copy_bytes(t)),
    }
}


/// A block's hash depends on its field values alone: two blocks with the
/// same nonce, previous hash, timestamp and transfers have the same hash.
pub proof fn lemma_hash_determined_by_fields(a: Block, b: Block)
    requires
        a.nonce == b.nonce,
        a.previous_hash@ == b.previous_hash@,
        a.timestamp == b.timestamp,
        byte_strings(a.transactions@) == byte_strings(b.transactions@),
    ensures
        a.spec_hash() == b.spec_hash(),
{
}

} // verus!
