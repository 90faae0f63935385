//! A node: one ledger, the neighbors it reconciles with, and the decisions
//! behind each request it serves. Transport, timers and fetching are left to
//! the caller.

use crate::blockchain::{transfer_record, Blockchain, RejectReason, Transaction};
use crate::codec::encode_record;
use crate::encoding::{hex_decoded, hex_of};
use crate::wallet::{ecdsa_signature_of, key_material_valid, payload_of, public_point_of, Wallet};
use vstd::utf8::encode_utf8;
use vstd::prelude::*;

verus! {

/// First port of the local range that nodes listen on.
pub const PORT_RANGE_START: u16 = 8000;

/// Last port of the local range that nodes listen on.
pub const PORT_RANGE_END: u16 = 8003;

/// Last octet of this node's own host address; the host after it is probed too.
pub const OWN_HOST_OCTET: u8 = 1;

/// How many consecutive hosts, starting at this node's own, are probed on each port.
pub const PROBED_HOSTS: usize = 2;

/// Every (host octet, port) slot of the local range, port by port.
pub open spec fn candidate_slots() -> Seq<(u8, u16)> {
    Seq::new(
        ((PORT_RANGE_END - PORT_RANGE_START + 1) * PROBED_HOSTS) as nat,
        |i: int|
            (
                (OWN_HOST_OCTET + i % PROBED_HOSTS as int) as u8,
                (PORT_RANGE_START + i / PROBED_HOSTS as int) as u16,
            ),
    )
}

/// The slots of `s`, in order, leaving out `own`.
pub open spec fn slots_except(s: Seq<(u8, u16)>, own: (u8, u16)) -> Seq<(u8, u16)>
    decreases s.len(),
{
    if s.len() == 0 {
        Seq::empty()
    } else if s.last() == own {
        slots_except(s.drop_last(), own)
    } else {
        slots_except(s.drop_last(), own).push(s.last())
    }
}

/// The slots a node on `port` probes for neighbors: every slot but its own.
pub open spec fn neighbor_candidates_of(port: u16) -> Seq<(u8, u16)> {
    slots_except(candidate_slots(), (OWN_HOST_OCTET, port))
}

/// The (host octet, port) slots a node on `port` probes for neighbors, in
/// port order and then host order, leaving out its own slot.
pub fn neighbor_candidates(port: u16) -> (r: Vec<(u8, u16)>)
    ensures
        r@ == neighbor_candidates_of(port),
{
    let total: usize = ((PORT_RANGE_END - PORT_RANGE_START + 1) as usize) * PROBED_HOSTS;
    let mut r: Vec<(u8, u16)> = Vec::new();
    let mut i: usize = 0;
    while i < total
        invariant
            i <= total,
            total == candidate_slots().len(),
            r@ == slots_except(candidate_slots().take(i as int), (OWN_HOST_OCTET, port)),
        decreases total - i,
    {
        let slot = (OWN_HOST_OCTET + (i % PROBED_HOSTS) as u8, PORT_RANGE_START + (i / PROBED_HOSTS) as u16);
        assert(slot == candidate_slots()[i as int]);
        let ghost taken = candidate_slots().take(i + 1);
        assert(taken.drop_last() =~= candidate_slots().take(i as int));
        assert(taken.last() == slot);
        if !(slot.0 == OWN_HOST_OCTET && slot.1 == port) {
            r.push(slot);
        }
        i = i + 1;
    }
    assert(candidate_slots().take(total as int) =~= candidate_slots());
    r
}

/// The answer to a liveness probe.
#[derive(Clone, Debug)]
pub struct PingResponse {
    pub pong: String,
}

impl PingResponse {
    /// The acknowledgement a live node sends.
    pub fn pong() -> (r: PingResponse)
        ensures
            r.pong@ == "pong"@,
    {
        PingResponse { pong: "pong".to_owned() }
    }

    /// Whether this is the acknowledgement a live node sends.
    pub fn is_pong(&self) -> (r: bool)
        ensures
            r == (self.pong@ == "pong"@),
    {
        self.pong == "pong".to_owned()
    }
}

/// A client's request to transfer funds, with the key material to sign it.
#[derive(Clone, Debug)]
pub struct TransactionReqDTO {
    pub private_key: String,
    pub public_key: String,
    pub blockchain_address: String,
    pub recipient_address: String,
    pub amount: String,
}

/// Why a client's transfer request failed.
#[derive(Clone, Copy, Debug)]
pub enum TransactError {
    MalformedCredential,
    SigningFailed,
    Rejected(RejectReason),
}

/// One node: its port, its ledger, the neighbors it reconciles with, and
/// the candidate addresses it probes for liveness.
#[derive(Clone, Debug)]
pub struct ApiServer {
    pub port: u16,
    pub blockchain: Blockchain,
    pub neighbors: Vec<String>,
    pub candidates: Vec<String>,
}

impl ApiServer {
    /// A valid ledger and no neighbor listed twice.
    pub open spec fn wf(&self) -> bool {
        &&& self.blockchain.wf()
        &&& self.neighbors@.map_values(|n: String| n@).no_duplicates()
    }

    /// A node on `port` with a genesis-only ledger whose rewards go to a
    /// freshly generated identity, and no neighbors yet.
    pub fn new(port: u16) -> (r: ApiServer)
        ensures
            r.wf(),
            r.port == port,
            r.blockchain.chain@.len() == 1,
            r.blockchain.pool().len() == 0,
            r.neighbors@.len() == 0,
            r.candidates@.len() == 0,
    {
        let miner = Wallet::new();
        let r = ApiServer {
            port,
            blockchain: Blockchain::new(miner.address()),
            neighbors: Vec::new(),
            candidates: Vec::new(),
        };
        assert(r.neighbors@.map_values(|n: String| n@) =~= Seq::<Seq<char>>::empty());
        r
    }

    /// Lists `candidate` as a neighbor unless it already is one; says whether it was added.
    pub fn register_neighbor(&mut self, candidate: String) -> (added: bool)
        requires
            old(self).wf(),
        ensures
            final(self).wf(),
            final(self).port == old(self).port,
            final(self).blockchain == old(self).blockchain,
            final(self).candidates == old(self).candidates,
            added == !old(self).neighbors@.map_values(|n: String| n@).contains(candidate@),
            final(self).neighbors@.map_values(|n: String| n@) == (if added {
                old(self).neighbors@.map_values(|n: String| n@).push(candidate@)
            } else {
                old(self).neighbors@.map_values(|n: String| n@)
            }),
    {
        let ghost names = self.neighbors@.map_values(|n: String| n@);
        let mut i: usize = 0;
        while i < self.neighbors.len()
            invariant
                i <= self.neighbors@.len(),
                names == self.neighbors@.map_values(|n: String| n@),
                forall|j: int| 0 <= j < i ==> names[j] != candidate@,
                *self == *old(self),
                old(self).wf(),
            decreases self.neighbors.len() - i,
        {
            if self.neighbors[i] == candidate {
                assert(names[i as int] == candidate@);
                return false;
            }
            i = i + 1;
        }
        assert(!names.contains(candidate@));
        self.neighbors.push(candidate);
        assert(self.neighbors@.map_values(|n: String| n@) =~= names.push(candidate@));
        true
    }

    /// Serves a client's transfer request: rebuilds the client's identity
    /// from its key material, signs a transfer of `amount` to the recipient
    /// and admits it to the pool. Returns the admitted transfer, to be passed
    /// on to the neighbors.
    pub fn transact(&mut self, request: &TransactionReqDTO, amount: i64) -> (r: Result<
        Transaction,
        TransactError,
    >)
        requires
            old(self).wf(),
        ensures
            final(self).wf(),
            final(self).port == old(self).port,
            final(self).neighbors == old(self).neighbors,
            final(self).blockchain.chain == old(self).blockchain.chain,
            final(self).blockchain.miner() == old(self).blockchain.miner(),
            (r matches Err(TransactError::MalformedCredential)) <==> !key_material_valid(
                request.public_key@,
                request.private_key@,
            ),
            match r {
                Ok(t) => {
                    &&& t.sender@ == request.blockchain_address@
                    &&& t.receiver@ == request.recipient_address@
                    &&& t.amount == amount
                    &&& final(self).blockchain.pool() == old(self).blockchain.pool().push(
                        transfer_record(t),
                    )
                },
                Err(_) => final(self).blockchain.transaction_pool
                    == old(self).blockchain.transaction_pool,
            },
            ({
                let public = hex_decoded(request.public_key@);
                let private = hex_decoded(request.private_key@);
                let payload = payload_of(
                    request.blockchain_address@,
                    request.recipient_address@,
                    amount,
                    hex_of(public),
                );
                key_material_valid(request.public_key@, request.private_key@) && seq![4u8] + public
                    == public_point_of(private) && ecdsa_signature_of(private, payload) is Some
                    && request.blockchain_address@ != request.recipient_address@
                    && !old(self).blockchain.pool().contains(
                    encode_record(
                        (
                            encode_utf8(request.blockchain_address@),
                            encode_utf8(request.recipient_address@),
                            amount,
                        ),
                    ),
                ) ==> r is Ok
            }),
            request.blockchain_address@ == request.recipient_address@ && key_material_valid(
                request.public_key@,
                request.private_key@,
            ) ==> r matches Err(TransactError::Rejected(RejectReason::SelfTransfer)) || r matches Err(
                TransactError::SigningFailed,
            ),
    {
        let wallet = match Wallet::new_from(
            &request.public_key,
            &request.private_key,
            &request.blockchain_address,
        ) {
            Ok(w) => w,
            Err(_) => return Err(TransactError::MalformedCredential),
        };
        let transaction = match wallet.sign_transaction(request.recipient_address.clone(), amount) {
            Some(t) => t,
            None => return Err(TransactError::SigningFailed),
        };
        match self.blockchain.add_transaction(&transaction) {
            Ok(()) => Ok(transaction),
            Err(e) => Err(TransactError::Rejected(e)),
        }
    }
}

} // verus!
