//! The ledger: an append-only chain of blocks, the pool of admitted but not
//! yet mined transfers, and the rules that govern both.

use crate::block::{
    block_matches, byte_strings, hash_meets_target, matches_criterion, meets_target, miss_for,
    no_nonce_hits, nonce_hits, now_nanos, reports_miss, Block, BlockSearch, BlockSearchResult,
};
use crate::codec::{decode_record, encode_record, RawTransaction};
use crate::encoding::{bytes_equal, utf8_text};
use crate::wallet::{signature_verifies, Wallet};
use vstd::prelude::*;
use vstd::utf8::{encode_utf8, valid_utf8};

verus! {

/// The sender of mining rewards; transfers from it need no signature.
pub const MINING_SENDER: &'static str = "0xEA31cD0D90fC35E7Af05ED42B779C3E3Aa45C0Dc";

/// Minor units credited to a miner for each block.
pub const MINING_REWARD: i64 = 1;

/// Length of the all-zero previous hash of a genesis block.
pub const GENESIS_LINK_LEN: usize = 32;

/// A transfer as submitted by a client: addresses, amount in minor units,
/// the sender's public key and the signature, both in hexadecimal.
#[derive(Clone, Debug)]
pub struct Transaction {
    pub sender: String,
    pub receiver: String,
    pub amount: i64,
    pub public_key: String,
    pub signature: String,
}

/// Why a transfer was not admitted to the pool.
#[derive(Clone, Copy, Debug)]
pub enum RejectReason {
    SelfTransfer,
    BadSignature,
    Duplicate,
}

/// Why no block was mined.
#[derive(Clone, Copy, Debug)]
pub enum MineError {
    /// The reward transfer could not be admitted.
    RewardRejected,
    /// No nonce meets the work target.
    NonceExhausted,
}

/// Block `i` links to block `i - 1` and meets the work target.
pub open spec fn link_ok(s: Seq<Block>, i: int) -> bool {
    &&& s[i].previous_hash@ == s[i - 1].spec_hash()
    &&& meets_target(s[i].spec_hash())
}

/// A non-empty sequence of blocks in which every block after the first
/// links to its predecessor's hash and meets the work target.
pub open spec fn valid_chain(s: Seq<Block>) -> bool {
    &&& s.len() > 0
    &&& forall|i: int| 1 <= i < s.len() ==> #[trigger] link_ok(s, i)
}

/// The stored form of a transfer: its addresses as UTF-8 bytes and its amount.
pub open spec fn transfer_record(t: Transaction) -> Seq<u8> {
    encode_record((encode_utf8(t.sender@), encode_utf8(t.receiver@), t.amount))
}

/// The stored form of the reward paid to `miner`.
pub open spec fn reward_record(miner: Seq<char>) -> Seq<u8> {
    encode_record((encode_utf8(MINING_SENDER@), encode_utf8(miner), MINING_REWARD))
}

/// The admission rule: the pool after admitting `t`, or why it is refused.
/// `authorized` says whether the signature verified.
pub open spec fn admission(pool: Seq<Seq<u8>>, t: Transaction, authorized: bool) -> Result<
    Seq<Seq<u8>>,
    RejectReason,
> {
    if t.sender@ == t.receiver@ {
        Err(RejectReason::SelfTransfer)
    } else if t.sender@ != MINING_SENDER@ && !authorized {
        Err(RejectReason::BadSignature)
    } else if pool.contains(transfer_record(t)) {
        Err(RejectReason::Duplicate)
    } else {
        Ok(pool.push(transfer_record(t)))
    }
}

/// Whether the reward for `miner` can join `pool`.
pub open spec fn reward_admissible(pool: Seq<Seq<u8>>, miner: Seq<char>) -> bool {
    miner != MINING_SENDER@ && !pool.contains(reward_record(miner))
}

/// What one stored record adds to the balance of `addr`: its amount when
/// `addr` receives, minus its amount when `addr` sends; nothing for a record
/// that does not decode.
pub open spec fn record_delta(rec: Seq<u8>, addr: Seq<u8>) -> int {
    match decode_record(rec) {
        Some(t) => (if t.1 == addr {
            t.2 as int
        } else {
            0
        }) - (if t.0 == addr {
            t.2 as int
        } else {
            0
        }),
        None => 0,
    }
}

/// The net of a list of records for `addr`.
pub open spec fn records_delta(recs: Seq<Seq<u8>>, addr: Seq<u8>) -> int
    decreases recs.len(),
{
    if recs.len() == 0 {
        0
    } else {
        records_delta(recs.drop_last(), addr) + record_delta(recs.last(), addr)
    }
}

/// The net of every record in every block for `addr`.
pub open spec fn balance_of(blocks: Seq<Block>, addr: Seq<u8>) -> int
    decreases blocks.len(),
{
    if blocks.len() == 0 {
        0
    } else {
        balance_of(blocks.drop_last(), addr) + records_delta(
            byte_strings(blocks.last().transactions@),
            addr,
        )
    }
}

/// How many records the blocks hold in all.
pub open spec fn record_count(blocks: Seq<Block>) -> int
    decreases blocks.len(),
{
    if blocks.len() == 0 {
        0
    } else {
        record_count(blocks.drop_last()) + blocks.last().transactions@.len()
    }
}

/// The pending records that decode and whose addresses are UTF-8 text, in
/// pool order: `(sender bytes, receiver bytes, amount)`.
pub open spec fn listed(pool: Seq<Seq<u8>>) -> Seq<(Seq<u8>, Seq<u8>, i64)>
    decreases pool.len(),
{
    if pool.len() == 0 {
        Seq::empty()
    } else {
        let rest = listed(pool.drop_last());
        match decode_record(pool.last()) {
            Some(t) => if valid_utf8(t.0) && valid_utf8(t.1) {
                rest.push(t)
            } else {
                rest
            },
            None => rest,
        }
    }
}

/// `t` is the listing of record `rec`: the same addresses and amount, with
/// no key and no signature.
pub open spec fn lists_record(t: Transaction, rec: (Seq<u8>, Seq<u8>, i64)) -> bool {
    &&& encode_utf8(t.sender@) == rec.0
    &&& encode_utf8(t.receiver@) == rec.1
    &&& t.amount == rec.2
    &&& t.public_key@.len() == 0
    &&& t.signature@.len() == 0
}

/// A ledger: its blocks (genesis first), its pool of pending transfers in
/// stored form, and the address its mining rewards go to.
#[derive(Clone, Debug)]
pub struct Blockchain {
    pub transaction_pool: Vec<Vec<u8>>,
    pub chain: Vec<Block>,
    pub address: String,
}

impl Blockchain {
    /// The pending transfers, as byte strings.
    pub open spec fn pool(&self) -> Seq<Seq<u8>> {
        byte_strings(self.transaction_pool@)
    }

    /// The address credited with mining rewards.
    pub open spec fn miner(&self) -> Seq<char> {
        self.address@
    }

    /// A valid chain and a pool without repeated entries.
    pub open spec fn wf(&self) -> bool {
        &&& valid_chain(self.chain@)
        &&& self.pool().no_duplicates()
    }

    /// A ledger holding only a genesis block, crediting rewards to `address`.
    pub fn new(address: String) -> (r: Blockchain)
        ensures
            r.wf(),
            r.miner() == address@,
            r.chain@.len() == 1,
            r.chain@[0].nonce == 0,
            r.chain@[0].previous_hash@ == Seq::new(GENESIS_LINK_LEN as nat, |i: int| 0u8),
            r.chain@[0].transactions@.len() == 0,
            r.pool().len() == 0,
    {
        let mut chain: Vec<Block> = Vec::new();
        chain.push(Self::create_genesis_block());
        let r = Blockchain { transaction_pool: Vec::new(), chain, address };
        assert(r.pool() =~= Seq::<Seq<u8>>::empty());
        r
    }

    fn create_genesis_block() -> (r: Block)
        ensures
            r.nonce == 0,
            r.previous_hash@ == Seq::new(GENESIS_LINK_LEN as nat, |i: int| 0u8),
            r.transactions@.len() == 0,
    {
        let mut link: Vec<u8> = Vec::new();
        let mut i: usize = 0;
        while i < GENESIS_LINK_LEN
            invariant
                i <= GENESIS_LINK_LEN,
                link@ == Seq::new(i as nat, |j: int| 0u8),
            decreases GENESIS_LINK_LEN - i,
        {
            link.push(0u8);
            i = i + 1;
            assert(link@ =~= Seq::new(i as nat, |j: int| 0u8));
        }
        Block::new(0, link)
    }

    /// The address credited with mining rewards.
    pub fn address(&self) -> (r: String)
        ensures
            r@ == self.miner(),
    {
        self.address.clone()
    }

    /// The most recent block; `None` only for an empty chain.
    pub fn last_block(&self) -> (r: Option<&Block>)
        ensures
            self.chain@.len() == 0 ==> r is None,
            self.chain@.len() > 0 ==> r == Some(&self.chain@.last()),
    {
        if self.chain.len() == 0 {
            None
        } else {
            Some(&self.chain[self.chain.len() - 1])
        }
    }

    /// Whether `chains` is a valid chain: non-empty, and every block after
    /// the first links to its predecessor's hash and meets the work target.
    pub fn chain_is_valid(chains: &Vec<Block>) -> (r: bool)
        ensures
            r == valid_chain(chains@),
    {
        if chains.len() == 0 {
            return false;
        }
        let mut previous_hash = chains[0].hash();
        let mut i: usize = 1;
        while i < chains.len()
            invariant
                1 <= i <= chains@.len(),
                previous_hash@ == chains@[i - 1].spec_hash(),
                forall|j: int| 1 <= j < i ==> #[trigger] link_ok(chains@, j),
            decreases chains.len() - i,
        {
            let block = &chains[i];
            if !bytes_equal(&block.previous_hash, &previous_hash) {
                assert(!link_ok(chains@, i as int));
                return false;
            }
            let block_hash = block.hash();
            if !hash_meets_target(&block_hash) {
                assert(!link_ok(chains@, i as int));
                return false;
            }
            assert(link_ok(chains@, i as int));
            previous_hash = block_hash;
            i = i + 1;
        }
        true
    }

    /// Admits a submitted transfer: a self-transfer is refused whatever its
    /// signature; a transfer from anyone but the reward sender must carry a
    /// signature that verifies against its declared public key; a transfer
    /// already pending is refused. Nothing changes on a refusal.
    pub fn add_transaction(&mut self, transaction: &Transaction) -> (r: Result<(), RejectReason>)
        requires
            old(self).wf(),
        ensures
            final(self).wf(),
            final(self).chain == old(self).chain,
            final(self).miner() == old(self).miner(),
            match admission(old(self).pool(), *transaction, signature_verifies(*transaction)) {
                Ok(p) => r is Ok && final(self).pool() == p,
                Err(e) => r == Err::<(), RejectReason>(e) && final(self).transaction_pool
                    == old(self).transaction_pool,
            },
            transaction.sender@ == transaction.receiver@ ==> r == Err::<(), RejectReason>(
                RejectReason::SelfTransfer,
            ),
            transaction.sender@ != transaction.receiver@ && transaction.sender@ != MINING_SENDER@
                && !signature_verifies(*transaction) ==> r == Err::<(), RejectReason>(
                RejectReason::BadSignature,
            ),
    {
        if transaction.sender == transaction.receiver {
            return Err(RejectReason::SelfTransfer);
        }
        let sentinel = MINING_SENDER.to_owned();
        let authorized = transaction.sender == sentinel || Wallet::verify_transaction(transaction);
        self.add_verified_transaction(transaction, authorized)
    }

    /// Admits `transaction` to the pool by the admission rule, given whether
    /// its signature verified. Nothing changes on a refusal.
    pub fn add_verified_transaction(&mut self, transaction: &Transaction, authorized: bool) -> (r:
        Result<(), RejectReason>)
        requires
            old(self).wf(),
        ensures
            final(self).wf(),
            final(self).chain == old(self).chain,
            final(self).miner() == old(self).miner(),
            match admission(old(self).pool(), *transaction, authorized) {
                Ok(p) => r is Ok && final(self).pool() == p,
                Err(e) => r == Err::<(), RejectReason>(e) && final(self).transaction_pool
                    == old(self).transaction_pool,
            },
    {
        if transaction.sender == transaction.receiver {
            return Err(RejectReason::SelfTransfer);
        }
        let sentinel = MINING_SENDER.to_owned();
        if !(transaction.sender == sentinel) && !authorized {
            return Err(RejectReason::BadSignature);
        }
        let record = transfer_bytes(transaction);
        let mut i: usize = 0;
        while i < self.transaction_pool.len()
            invariant
                i <= self.transaction_pool@.len(),
                record@ == transfer_record(*transaction),
                forall|j: int| 0 <= j < i ==> self.pool()[j] != record@,
                *self == *old(self),
                old(self).wf(),
                transaction.sender@ != transaction.receiver@,
                transaction.sender@ == MINING_SENDER@ || authorized,
            decreases self.transaction_pool.len() - i,
        {
            if bytes_equal(&self.transaction_pool[i], &record) {
                assert(self.pool()[i as int] == record@);
                return Err(RejectReason::Duplicate);
            }
            i = i + 1;
        }
        assert(!self.pool().contains(record@));
        self.transaction_pool.push(record);
        assert(self.pool() =~= old(self).pool().push(transfer_record(*transaction)));
        Ok(())
    }

    /// Mines a block: admits the reward for this ledger's miner, moves the
    /// whole pool into a new block linked to the last one, searches for a nonce
    /// that meets the work target and appends the block. Returns the new
    /// block's hash. Nothing changes when it fails.
    pub fn mine(&mut self) -> (r: Result<Vec<u8>, MineError>)
        requires
            old(self).wf(),
        ensures
            final(self).wf(),
            final(self).miner() == old(self).miner(),
            match r {
                Ok(h) => {
                    &&& reward_admissible(old(self).pool(), old(self).miner())
                    &&& final(self).chain@.len() == old(self).chain@.len() + 1
                    &&& final(self).chain@.drop_last() == old(self).chain@
                    &&& final(self).chain@.last().previous_hash@ == old(self).chain@.last().spec_hash()
                    &&& byte_strings(final(self).chain@.last().transactions@) == old(self).pool().push(
                        reward_record(old(self).miner()),
                    )
                    &&& h@ == final(self).chain@.last().spec_hash()
                    &&& final(self).pool().len() == 0
                },
                Err(MineError::RewardRejected) => {
                    &&& !reward_admissible(old(self).pool(), old(self).miner())
                    &&& final(self).chain == old(self).chain
                    &&& final(self).transaction_pool == old(self).transaction_pool
                },
                Err(MineError::NonceExhausted) => {
                    &&& final(self).chain == old(self).chain
                    &&& final(self).pool() == old(self).pool()
                    &&& reward_admissible(old(self).pool(), old(self).miner())
                    &&& exists|timestamp: u128|
                        #[trigger] no_nonce_hits(
                            old(self).chain@.last().spec_hash(),
                            timestamp,
                            old(self).pool().push(reward_record(old(self).miner())),
                        )
                },
            },
    {
        let reward = Transaction {
            sender: MINING_SENDER.to_owned(),
            receiver: self.address.clone(),
            amount: MINING_REWARD,
            public_key: String::new(),
            signature: String::new(),
        };
        assert(transfer_record(reward) == reward_record(self.miner()));
        if self.add_verified_transaction(&reward, true).is_err() {
            return Err(MineError::RewardRejected);
        }
        let ghost admitted = self.pool();
        let previous_hash = self.chain[self.chain.len() - 1].hash();
        let mut transactions: Vec<Vec<u8>> = Vec::new();
        std::mem::swap(&mut self.transaction_pool, &mut transactions);
        let mut block = Block { nonce: 0, previous_hash, timestamp: now_nanos(), transactions };
        let ghost candidate = block;
        if proof_of_work(&mut block) {
            let block_hash = block.hash();
            proof {
                lemma_mined_block_keeps_chain_valid(self.chain@, block);
                assert(self.pool() =~= Seq::<Seq<u8>>::empty());
            }
            self.chain.push(block);
            assert(self.chain@.drop_last() =~= old(self).chain@);
            Ok(block_hash)
        } else {
            let mut transactions = block.transactions;
            transactions.pop();
            self.transaction_pool = transactions;
            assert(self.pool() =~= admitted.drop_last());
            assert(admitted.drop_last() =~= old(self).pool());
            assert(admitted == old(self).pool().push(reward_record(old(self).miner())));
            assert(no_nonce_hits(old(self).chain@.last().spec_hash(), candidate.timestamp, admitted));
            Err(MineError::NonceExhausted)
        }
    }

    /// The pending transfers, in pool order, without key or signature.
    /// Records that do not decode, or whose addresses are not UTF-8, are left out.
    pub fn get_transactions(&self) -> (r: Vec<Transaction>)
        ensures
            r@.len() == listed(self.pool()).len(),
            forall|i: int| 0 <= i < r@.len() ==> lists_record(#[trigger] r@[i], listed(self.pool())[i]),
    {
        let mut out: Vec<Transaction> = Vec::new();
        let mut i: usize = 0;
        while i < self.transaction_pool.len()
            invariant
                i <= self.transaction_pool@.len(),
                out@.len() == listed(self.pool().subrange(0, i as int)).len(),
                forall|k: int|
                    0 <= k < out@.len() ==> lists_record(
                        #[trigger] out@[k],
                        listed(self.pool().subrange(0, i as int))[k],
                    ),
            decreases self.transaction_pool.len() - i,
        {
            let ghost before = listed(self.pool().subrange(0, i as int));
            let ghost after = listed(self.pool().subrange(0, i + 1));
            proof {
                assert(self.pool().subrange(0, i + 1).drop_last() =~= self.pool().subrange(
                    0,
                    i as int,
                ));
                assert(self.pool().subrange(0, i + 1).last() == self.transaction_pool@[i as int]@);
            }
            let ghost old_out = out@;
            match RawTransaction::decode(&self.transaction_pool[i]) {
                Ok(t) => {
                    match (utf8_text(&t.sender_address), utf8_text(&t.recipient_address)) {
                        (Some(sender), Some(receiver)) => {
                            out.push(
                                Transaction {
                                    sender,
                                    receiver,
                                    amount: t.value,
                                    public_key: String::new(),
                                    signature: String::new(),
                                },
                            );
                        },
                        _ => {},
                    }
                },
                Err(_) => {},
            }
            assert forall|k: int| 0 <= k < out@.len() implies lists_record(
                #[trigger] out@[k],
                after[k],
            ) by {
                if k < old_out.len() {
                    assert(out@[k] == old_out[k]);
                    assert(after[k] == before[k]);
                }
            }
            i = i + 1;
        }
        assert(self.pool().subrange(0, i as int) =~= self.pool());
        out
    }

    /// The first block, in chain order, that meets `search`; otherwise the
    /// miss that reports `search`, after a full scan.
    pub fn search_block(&self, search: BlockSearch) -> (r: BlockSearchResult)
        ensures
            match r {
                BlockSearchResult::Success(b) => exists|i: int|
                    0 <= i < self.chain@.len() && *b == self.chain@[i] && #[trigger] block_matches(
                        self.chain@[i],
                        i,
                        search,
                    ) && forall|j: int| 0 <= j < i ==> !block_matches(self.chain@[j], j, search),
                BlockSearchResult::FailOfEmptyBlocks => self.chain@.len() == 0,
                _ => self.chain@.len() > 0 && reports_miss(r, search) && forall|j: int|
                    0 <= j < self.chain@.len() ==> !block_matches(self.chain@[j], j, search),
            },
    {
        if self.chain.len() == 0 {
            return BlockSearchResult::FailOfEmptyBlocks;
        }
        let mut i: usize = 0;
        while i < self.chain.len()
            invariant
                i <= self.chain@.len(),
                forall|j: int| 0 <= j < i ==> !block_matches(self.chain@[j], j, search),
            decreases self.chain.len() - i,
        {
            if matches_criterion(&self.chain[i], i, &search) {
                assert(block_matches(self.chain@[i as int], i as int, search));
                return BlockSearchResult::Success(&self.chain[i]);
            }
            i = i + 1;
        }
        miss_for(&search)
    }

    /// The net amount for `address` over every block: amounts received minus
    /// amounts sent. Records that do not decode are skipped.
    pub fn calculate_reward(&self, address: String) -> (r: i128)
        requires
            record_count(self.chain@) <= u64::MAX,
        ensures
            r == balance_of(self.chain@, encode_utf8(address@)),
    {
        let addr = string_bytes(&address);
        let ghost bound: int = 0x8000_0000_0000_0000;
        let mut total: i128 = 0;
        let mut i: usize = 0;
        while i < self.chain.len()
            invariant
                i <= self.chain@.len(),
                addr@ == encode_utf8(address@),
                record_count(self.chain@) <= u64::MAX,
                total == balance_of(self.chain@.subrange(0, i as int), addr@),
                -(record_count(self.chain@.subrange(0, i as int)) * bound) <= total
                    <= record_count(self.chain@.subrange(0, i as int)) * bound,
                bound == 0x8000_0000_0000_0000,
            decreases self.chain.len() - i,
        {
            let block = &self.chain[i];
            let ghost recs = byte_strings(block.transactions@);
            let ghost done = record_count(self.chain@.subrange(0, i as int));
            proof {
                lemma_record_count_prefix(self.chain@, i + 1);
                assert(self.chain@.subrange(0, i + 1).drop_last() =~= self.chain@.subrange(
                    0,
                    i as int,
                ));
            }
            let ghost base = total as int;
            let mut j: usize = 0;
            while j < block.transactions.len()
                invariant
                    j <= block.transactions@.len(),
                    recs == byte_strings(block.transactions@),
                    addr@ == encode_utf8(address@),
                    done + block.transactions@.len() <= u64::MAX,
                    done >= 0,
                    total == base + records_delta(recs.subrange(0, j as int), addr@),
                    -((done + j) * bound) <= total <= (done + j) * bound,
                    bound == 0x8000_0000_0000_0000,
                decreases block.transactions.len() - j,
            {
                assert(recs.subrange(0, j + 1).drop_last() =~= recs.subrange(0, j as int));
                match RawTransaction::decode(&block.transactions[j]) {
                    Ok(t) => {
                        if bytes_equal(&t.recipient_address, &addr) {
                            total = total + t.value as i128;
                        }
                        if bytes_equal(&t.sender_address, &addr) {
                            total = total - t.value as i128;
                        }
                    },
                    Err(_) => {},
                }
                j = j + 1;
            }
            assert(recs.subrange(0, j as int) =~= recs);
            i = i + 1;
        }
        assert(self.chain@.subrange(0, i as int) =~= self.chain@);
        total
    }

    /// Empties the pool, leaving the chain as it is.
    pub fn clear_transactions(&mut self)
        requires
            old(self).wf(),
        ensures
            final(self).wf(),
            final(self).chain == old(self).chain,
            final(self).miner() == old(self).miner(),
            final(self).pool().len() == 0,
    {
        self.transaction_pool.clear();
        assert(self.pool() =~= Seq::<Seq<u8>>::empty());
    }
}

/// Searches nonces upward from the block's current one and stops at the
/// first whose hash meets the work target; `false` only when no nonce from
/// there up meets it. Only the nonce changes.
pub fn proof_of_work(block: &mut Block) -> (found: bool)
    ensures
        final(block).previous_hash == old(block).previous_hash,
        final(block).timestamp == old(block).timestamp,
        final(block).transactions == old(block).transactions,
        found ==> meets_target(final(block).spec_hash()),
        found ==> old(block).nonce <= final(block).nonce && forall|n: u32|
            old(block).nonce <= n < final(block).nonce ==> !#[trigger] nonce_hits(
                n,
                old(block).previous_hash@,
                old(block).timestamp,
                byte_strings(old(block).transactions@),
            ),
        !found ==> forall|n: u32|
            old(block).nonce <= n ==> !#[trigger] nonce_hits(
                n,
                old(block).previous_hash@,
                old(block).timestamp,
                byte_strings(old(block).transactions@),
            ),
{
    loop
        invariant
            block.previous_hash == old(block).previous_hash,
            block.timestamp == old(block).timestamp,
            block.transactions == old(block).transactions,
            old(block).nonce <= block.nonce,
            forall|n: u32|
                old(block).nonce <= n < block.nonce ==> !#[trigger] nonce_hits(
                    n,
                    old(block).previous_hash@,
                    old(block).timestamp,
                    byte_strings(old(block).transactions@),
                ),
        decreases u32::MAX - block.nonce,
    {
        let block_hash = block.hash();
        if hash_meets_target(&block_hash) {
            return true;
        }
        assert(!nonce_hits(
            block.nonce,
            old(block).previous_hash@,
            old(block).timestamp,
            byte_strings(old(block).transactions@),
        ));
        if block.nonce == u32::MAX {
            return false;
        }
        block.nonce = block.nonce + 1;
    }
}

/// The stored form of a submitted transfer.
pub fn transfer_bytes(t: &Transaction) -> (r: Vec<u8>)
    ensures
        r@ == transfer_record(*t),
{
    RawTransaction::new(string_bytes(&t.sender), string_bytes(&t.receiver), t.amount).encode()
}

/// The UTF-8 bytes of a string.
pub fn string_bytes(s: &String) -> (r: Vec<u8>)
    ensures
        r@ == encode_utf8(s@),
{
    let b = s.as_str().as_bytes();
    let mut r: Vec<u8> = Vec::new();
    let mut i: usize = 0;
    while i < b.len()
        invariant
            i <= b@.len(),
            b@ == encode_utf8(s@),
            r@ == b@.subrange(0, i as int),
        decreases b.len() - i,
    {
        r.push(b[i]);
        i = i + 1;
        assert(b@.subrange(0, i as int) =~= b@.subrange(0, i - 1) + seq![b@[i - 1]]);
    }
    assert(b@.subrange(0, b@.len() as int) =~= b@);
    r
}

/// A chain holding only a genesis block is valid.
pub proof fn lemma_genesis_chain_is_valid(genesis: Block)
    ensures
        valid_chain(seq![genesis]),
{
}

/// Appending a block that links to the last block's hash and meets the work
/// target keeps a chain valid.
pub proof fn lemma_mined_block_keeps_chain_valid(c: Seq<Block>, b: Block)
    requires
        valid_chain(c),
        b.previous_hash@ == c.last().spec_hash(),
        meets_target(b.spec_hash()),
    ensures
        valid_chain(c.push(b)),
{
    let n = c.push(b);
    assert forall|i: int| 1 <= i < n.len() implies #[trigger] link_ok(n, i) by {
        if i < c.len() {
            assert(link_ok(c, i));
        }
    }
}

/// Replacing a block of a valid chain breaks validity when the replacement
/// carries another previous hash, when its hash differs from the replaced block's
/// and a later block links to it, or when its hash misses the work target.
/// Genesis is exempt.
pub proof fn lemma_tampering_breaks_validity(c: Seq<Block>, i: int, b: Block)
    requires
        valid_chain(c),
        1 <= i < c.len(),
        b.previous_hash@ != c[i].previous_hash@ || (i + 1 < c.len() && b.spec_hash()
            != c[i].spec_hash()) || !meets_target(b.spec_hash()),
    ensures
        !valid_chain(c.update(i, b)),
{
    let n = c.update(i, b);
    assert(link_ok(c, i));
    if b.previous_hash@ != c[i].previous_hash@ || !meets_target(b.spec_hash()) {
        assert(!link_ok(n, i));
    } else {
        assert(link_ok(c, i + 1));
        assert(!link_ok(n, i + 1));
    }
}

/// Submitting a transfer again after it was admitted is refused, so the pool
/// holds exactly one entry for it; the refusal is `Duplicate` whenever the
/// second submission is authorized.
pub proof fn lemma_resubmission_keeps_one_entry(
    pool: Seq<Seq<u8>>,
    t: Transaction,
    first_authorized: bool,
    second_authorized: bool,
)
    requires
        pool.no_duplicates(),
        admission(pool, t, first_authorized) is Ok,
    ensures
        ({
            let p = admission(pool, t, first_authorized)->Ok_0;
            &&& admission(p, t, second_authorized) is Err
            &&& (second_authorized || t.sender@ == MINING_SENDER@) ==> admission(
                p,
                t,
                second_authorized,
            ) == Err::<Seq<Seq<u8>>, RejectReason>(RejectReason::Duplicate)
            &&& exists|i: int| 0 <= i < p.len() && p[i] == transfer_record(t)
            &&& forall|i: int, j: int|
                0 <= i < p.len() && 0 <= j < p.len() && p[i] == transfer_record(t) && p[j]
                    == transfer_record(t) ==> i == j
        }),
{
    let rec = transfer_record(t);
    let p = pool.push(rec);
    assert(p[pool.len() as int] == rec);
    assert(p.contains(rec));
    assert forall|i: int, j: int|
        0 <= i < p.len() && 0 <= j < p.len() && p[i] == rec && p[j] == rec implies i == j by {
        if i < pool.len() {
            assert(pool.contains(rec));
        }
        if j < pool.len() {
            assert(pool.contains(rec));
        }
    }
}

proof fn lemma_record_count_prefix(blocks: Seq<Block>, i: int)
    requires
        0 <= i <= blocks.len(),
    ensures
        0 <= record_count(blocks.subrange(0, i)) <= record_count(blocks),
    decreases blocks.len(),
{
    if blocks.len() > 0 {
        if i == blocks.len() {
            assert(blocks.subrange(0, i) =~= blocks);
            lemma_record_count_prefix(blocks.drop_last(), i - 1);
        } else {
            assert(blocks.drop_last().subrange(0, i) =~= blocks.subrange(0, i));
            lemma_record_count_prefix(blocks.drop_last(), i);
        }
    }
}

} // verus!
