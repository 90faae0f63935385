//! Identities: a P-256 key pair, the address derived from its public key,
//! and signing and verifying transfers.

use crate::blockchain::{string_bytes, transfer_bytes, Transaction};
use crate::codec::{encode_record, push_u64_be, u64_be};
use crate::encoding::{
    append_bytes, base58, base58_of, copy_range, hex_decodable, hex_decode, hex_decoded,
    hex_encode, hex_of, lemma_hex_round_trip, ripemd160, ripemd160_of, sha256, sha256_of,
};
use p256::ecdsa::signature::Verifier;
use vstd::prelude::*;
use vstd::utf8::encode_utf8;

verus! {

/// Width in bytes of one P-256 coordinate, of a private scalar, and of half a signature.
pub const FIELD_WIDTH: usize = 32;

/// What P-256 gives as the uncompressed SEC1 public point of a private scalar.
pub uninterp spec fn public_point_of(private_key: Seq<u8>) -> Seq<u8>;

/// Whether ECDSA over P-256 accepts signature `sig` (64 bytes `r || s`) by
/// the SEC1-encoded key `sec1_key` over the SHA-256 digest of `msg`.
pub uninterp spec fn ecdsa_accepts(sec1_key: Seq<u8>, msg: Seq<u8>, sig: Seq<u8>) -> bool;

/// What ECDSA over P-256 with deterministic nonces (RFC 6979) gives when the
/// private scalar signs `msg`: the 64 bytes `r || s`, or `None` when a
/// component comes out zero.
pub uninterp spec fn ecdsa_signature_of(private_key: Seq<u8>, msg: Seq<u8>) -> Option<Seq<u8>>;

/// Whether bytes are a SEC1 encoding of a point on P-256.
pub uninterp spec fn is_sec1_point(sec1: Seq<u8>) -> bool;

/// The order of the P-256 group.
pub open spec fn p256_order() -> nat {
    let high: nat = 0xffffffff00000000ffffffffffffffff;
    let low: nat = 0xbce6faada7179e84f3b9cac2fc632551;
    let half: nat = 0x1_0000_0000_0000_0000;
    high * half * half + low
}

/// The unsigned big-endian value of a byte string.
pub open spec fn be_value(b: Seq<u8>) -> nat
    decreases b.len(),
{
    if b.len() == 0 {
        0
    } else {
        be_value(b.drop_last()) * 256 + b.last() as nat
    }
}

/// Whether 32 bytes are a usable private scalar: non-zero and below the group order.
pub open spec fn scalar_in_range(b: Seq<u8>) -> bool {
    &&& b.len() == FIELD_WIDTH
    &&& 0 < be_value(b) < p256_order()
}

/// Relies on `SigningKey::random` over the operating system's generator,
/// read back with `to_bytes`: a fresh non-zero scalar below the group order,
/// as 32 big-endian bytes.
#[verifier::external_body]
fn random_private_key() -> (r: Vec<u8>)
    ensures
        scalar_in_range(r@),
{
    p256::ecdsa::SigningKey::random(&mut p256::elliptic_curve::rand_core::OsRng).to_bytes().to_vec()
}

/// Relies on `VerifyingKey::from(&SigningKey)` and `to_encoded_point(false)`:
/// the public point of a private scalar in uncompressed SEC1 form, the tag 4
/// followed by the two 32-byte coordinates. `None` when `SigningKey::from_slice`
/// refuses the 32-byte scalar (zero, or not below the curve order).
#[verifier::external_body]
fn public_point(private_key: &Vec<u8>) -> (r: Option<Vec<u8>>)
    requires
        private_key@.len() == FIELD_WIDTH,
    ensures
        r is Some <==> scalar_in_range(private_key@),
        r matches Some(p) ==> p@ == public_point_of(private_key@) && p@.len() == 1 + 2
            * FIELD_WIDTH && p@[0] == 4 && is_sec1_point(p@),
{
    match p256::ecdsa::SigningKey::from_slice(private_key.as_slice()) {
        Ok(k) => Some(p256::ecdsa::VerifyingKey::from(&k).to_encoded_point(false).as_bytes().to_vec()),
        Err(_) => None,
    }
}

/// Relies on `VerifyingKey::from_sec1_bytes`: whether the bytes are a SEC1
/// encoding of a point on the curve.
#[verifier::external_body]
fn is_curve_point(sec1: &Vec<u8>) -> (r: bool)
    ensures
        r == is_sec1_point(sec1@),
{
    p256::ecdsa::VerifyingKey::from_sec1_bytes(sec1.as_slice()).is_ok()
}

/// Relies on `SigningKey::sign_recoverable`: the deterministic ECDSA
/// signature over the SHA-256 digest of `msg`, as its 64 bytes `r || s`,
/// which verifies under the key's public point.
#[verifier::external_body]
fn sign_message(private_key: &Vec<u8>, msg: &Vec<u8>) -> (r: Option<Vec<u8>>)
    requires
        scalar_in_range(private_key@),
    ensures
        r is Some <==> ecdsa_signature_of(private_key@, msg@) is Some,
        r matches Some(s) ==> {
            &&& ecdsa_signature_of(private_key@, msg@) == Some(s@)
            &&& s@.len() == 2 * FIELD_WIDTH
            &&& ecdsa_accepts(public_point_of(private_key@), msg@, s@)
        },
{
    let key = match p256::ecdsa::SigningKey::from_slice(private_key.as_slice()) {
        Ok(k) => k,
        Err(_) => return None,
    };
    match key.sign_recoverable(msg.as_slice()) {
        Ok((sig, _)) => Some(sig.to_bytes().to_vec()),
        Err(_) => None,
    }
}

/// Relies on `Verifier::verify` of `VerifyingKey`: whether `sig` (64 bytes
/// `r || s`) is a valid ECDSA signature by the SEC1-encoded key over the
/// SHA-256 digest of `msg`. Keys and signatures that do not parse give `false`.
#[verifier::external_body]
fn verify_signature(sec1_key: &Vec<u8>, msg: &Vec<u8>, sig: &Vec<u8>) -> (r: bool)
    ensures
        r == ecdsa_accepts(sec1_key@, msg@, sig@),
        !is_sec1_point(sec1_key@) ==> !r,
{
    match (
        p256::ecdsa::VerifyingKey::from_sec1_bytes(sec1_key.as_slice()),
        p256::ecdsa::Signature::from_slice(sig.as_slice()),
    ) {
        (Ok(key), Ok(sig)) => key.verify(msg.as_slice(), &sig).is_ok(),
        _ => false,
    }
}

/// The address of a public key from its x coordinate: base-58 of a zero
/// version byte, the RIPEMD-160 of the coordinate's SHA-256, and the first
/// four bytes of that SHA-256 as a checksum.
pub open spec fn address_of_point(x: Seq<u8>) -> Seq<char> {
    let digest = sha256_of(x);
    base58_of(seq![0u8] + ripemd160_of(digest) + digest.subrange(0, 4))
}

/// The bytes a signature covers: the transfer's stored form followed by the
/// length-prefixed UTF-8 bytes of the sender's public key. The signature
/// itself is left out.
pub open spec fn signing_payload(t: Transaction) -> Seq<u8> {
    payload_of(t.sender@, t.receiver@, t.amount, t.public_key@)
}

/// The signing payload of a transfer with these fields.
pub open spec fn payload_of(
    sender: Seq<char>,
    receiver: Seq<char>,
    amount: i64,
    public_key: Seq<char>,
) -> Seq<u8> {
    encode_record((encode_utf8(sender), encode_utf8(receiver), amount)) + u64_be(
        encode_utf8(public_key).len() as u64,
    ) + encode_utf8(public_key)
}

/// Whether a transfer's signature and public key are hexadecimal text of
/// 64 bytes each.
pub open spec fn credentials_well_formed(t: Transaction) -> bool {
    &&& hex_decodable(t.signature@)
    &&& hex_decoded(t.signature@).len() == 2 * FIELD_WIDTH
    &&& hex_decodable(t.public_key@)
    &&& hex_decoded(t.public_key@).len() == 2 * FIELD_WIDTH
}

/// Whether hexadecimal key material rebuilds an identity: a 64-byte public
/// key `x || y` that is a curve point, and a usable 32-byte private scalar.
pub open spec fn key_material_valid(public_key: Seq<char>, private_key: Seq<char>) -> bool {
    &&& hex_decodable(public_key)
    &&& hex_decoded(public_key).len() == 2 * FIELD_WIDTH
    &&& is_sec1_point(seq![4u8] + hex_decoded(public_key))
    &&& hex_decodable(private_key)
    &&& scalar_in_range(hex_decoded(private_key))
}

/// Whether a transfer's signature verifies against its declared public key
/// over its signing payload.
pub open spec fn signature_verifies(t: Transaction) -> bool {
    &&& credentials_well_formed(t)
    &&& is_sec1_point(seq![4u8] + hex_decoded(t.public_key@))
    &&& ecdsa_accepts(
        seq![4u8] + hex_decoded(t.public_key@),
        signing_payload(t),
        hex_decoded(t.signature@),
    )
}

/// Why key material could not be turned into an identity.
#[derive(Clone, Copy, Debug)]
pub enum CredentialError {
    MalformedCredential,
}

/// Key material and addresses in the form a client sees them.
#[derive(Clone, Debug)]
pub struct WalletDetails {
    pub public_key: String,
    pub private_key: String,
    pub blockchain_address: String,
}

/// A signing identity: its 32-byte private scalar, its public key as the
/// two 32-byte coordinates `x || y`, and the address it acts as.
pub struct Wallet {
    private_key: Vec<u8>,
    public_key: Vec<u8>,
    address: String,
}

impl Wallet {
    /// The private scalar, 32 big-endian bytes.
    pub closed spec fn spec_private_key(&self) -> Seq<u8> {
        self.private_key@
    }

    /// The public key as the coordinates `x || y`.
    pub closed spec fn spec_public_key(&self) -> Seq<u8> {
        self.public_key@
    }

    /// The address this identity acts as.
    pub closed spec fn spec_address(&self) -> Seq<char> {
        self.address@
    }

    /// The private scalar is usable and the public key has both coordinates.
    pub closed spec fn wf(&self) -> bool {
        &&& scalar_in_range(self.private_key@)
        &&& self.public_key@.len() == 2 * FIELD_WIDTH
    }

    /// The public key is the point of the private scalar.
    pub open spec fn owns_key_pair(&self) -> bool {
        &&& seq![4u8] + self.spec_public_key() == public_point_of(self.spec_private_key())
        &&& is_sec1_point(public_point_of(self.spec_private_key()))
    }

    /// A fresh identity whose address is derived from its public key.
    pub fn new() -> (r: Wallet)
        ensures
            r.wf(),
            r.owns_key_pair(),
            r.spec_public_key().len() == 2 * FIELD_WIDTH,
            r.spec_public_key() == public_point_of(r.spec_private_key()).subrange(1, 65),
            r.spec_address() == address_of_point(r.spec_public_key().subrange(0, 32)),
            key_material_valid(hex_of(r.spec_public_key()), hex_of(r.spec_private_key())),
    {
        let private_key = random_private_key();
        let point = public_point(&private_key).unwrap();
        let public_key = copy_range(&point, 1, 1 + 2 * FIELD_WIDTH);
        let x = copy_range(&public_key, 0, FIELD_WIDTH);
        assert(x@ == public_key@.subrange(0, 32));
        let address = derive_address(&x);
        proof {
            assert(seq![4u8] + public_key@ =~= point@);
            lemma_hex_round_trip(public_key@);
            lemma_hex_round_trip(private_key@);
        }
        Wallet { private_key, public_key, address }
    }

    /// An identity rebuilt from hexadecimal key material, acting as
    /// `recipient_address` rather than a derived address. The public key is
    /// the 64 bytes `x || y` of a curve point, the private key a usable
    /// 32-byte scalar; anything else is `MalformedCredential`.
    pub fn new_from(public_key: &String, private_key: &String, recipient_address: &String) -> (r:
        Result<Wallet, CredentialError>)
        ensures
            r is Ok <==> key_material_valid(public_key@, private_key@),
            r matches Ok(w) ==> {
                &&& w.wf()
                &&& w.spec_public_key() == hex_decoded(public_key@)
                &&& w.spec_private_key() == hex_decoded(private_key@)
                &&& w.spec_address() == recipient_address@
            },
    {
        let public_bytes = match hex_decode(public_key) {
            Some(b) => b,
            None => return Err(CredentialError::MalformedCredential),
        };
        let private_bytes = match hex_decode(private_key) {
            Some(b) => b,
            None => return Err(CredentialError::MalformedCredential),
        };
        if public_bytes.len() != 2 * FIELD_WIDTH || private_bytes.len() != FIELD_WIDTH {
            assert(!scalar_in_range(private_bytes@) || public_bytes@.len() != 2 * FIELD_WIDTH);
            return Err(CredentialError::MalformedCredential);
        }
        if !is_curve_point(&sec1_of(&public_bytes)) || public_point(&private_bytes).is_none() {
            return Err(CredentialError::MalformedCredential);
        }
        Ok(
            Wallet {
                private_key: private_bytes,
                public_key: public_bytes,
                address: recipient_address.clone(),
            },
        )
    }

    /// The private key as 64 hexadecimal digits.
    pub fn private_key(&self) -> (r: String)
        ensures
            r@ == hex_of(self.spec_private_key()),
    {
        hex_encode(&self.private_key)
    }

    /// The address this identity acts as.
    pub fn address(&self) -> (r: String)
        ensures
            r@ == self.spec_address(),
    {
        self.address.clone()
    }

    /// The public key `x || y` as 128 hexadecimal digits.
    pub fn public_key(&self) -> (r: String)
        ensures
            r@ == hex_of(self.spec_public_key()),
    {
        hex_encode(&self.public_key)
    }

    /// A transfer from this identity's address to `receiver`, carrying this
    /// identity's public key and a signature over its signing payload.
    /// `None` only when the signing call fails.
    pub fn sign_transaction(&self, receiver: String, amount: i64) -> (r: Option<Transaction>)
        requires
            self.wf(),
        ensures
            ({
                let payload = payload_of(
                    self.spec_address(),
                    receiver@,
                    amount,
                    hex_of(self.spec_public_key()),
                );
                &&& r is Some <==> ecdsa_signature_of(self.spec_private_key(), payload) is Some
                &&& r matches Some(t) ==> {
                    &&& t.sender@ == self.spec_address()
                    &&& t.receiver@ == receiver@
                    &&& t.amount == amount
                    &&& t.public_key@ == hex_of(self.spec_public_key())
                    &&& signing_payload(t) == payload
                    &&& Some(hex_decoded(t.signature@)) == ecdsa_signature_of(
                        self.spec_private_key(),
                        payload,
                    )
                    &&& t.signature@ == hex_of(hex_decoded(t.signature@))
                    &&& credentials_well_formed(t)
                    &&& self.owns_key_pair() ==> signature_verifies(t)
                }
            }),
    {
        let mut t = Transaction {
            sender: self.address.clone(),
            receiver,
            amount,
            public_key: self.public_key(),
            signature: String::new(),
        };
        let payload = signing_bytes(&t);
        match sign_message(&self.private_key, &payload) {
            Some(sig) => {
                t.signature = hex_encode(&sig);
                proof {
                    lemma_hex_round_trip(sig@);
                    lemma_hex_round_trip(self.public_key@);
                }
                Some(t)
            },
            None => None,
        }
    }

    /// Whether the transfer's signature verifies against its declared public
    /// key over its signing payload. Malformed hexadecimal or wrong lengths
    /// give `false`.
    pub fn verify_transaction(transaction: &Transaction) -> (r: bool)
        ensures
            r == signature_verifies(*transaction),
    {
        match credential_bytes(transaction) {
            None => false,
            Some((sig_bytes, key_bytes)) => verify_signature(
                &sec1_of(&key_bytes),
                &signing_bytes(transaction),
                &sig_bytes,
            ),
        }
    }

    /// Key material and address as text.
    pub fn get_details(&self) -> (r: WalletDetails)
        ensures
            r.public_key@ == hex_of(self.spec_public_key()),
            r.private_key@ == hex_of(self.spec_private_key()),
            r.blockchain_address@ == self.spec_address(),
    {
        WalletDetails {
            public_key: self.public_key(),
            private_key: self.private_key(),
            blockchain_address: self.address(),
        }
    }
}

/// The address derived from a public key's x coordinate.
pub fn derive_address(x: &Vec<u8>) -> (r: String)
    ensures
        r@ == address_of_point(x@),
{
    let digest = sha256(x);
    let mut payload: Vec<u8> = Vec::new();
    payload.push(0u8);
    append_bytes(&mut payload, &ripemd160(&digest));
    append_bytes(&mut payload, &copy_range(&digest, 0, 4));
    assert(payload@ =~= seq![0u8] + ripemd160_of(sha256_of(x@)) + sha256_of(x@).subrange(0, 4));
    base58(&payload)
}

/// The uncompressed SEC1 form of a public key given as `x || y`.
pub fn sec1_of(xy: &Vec<u8>) -> (r: Vec<u8>)
    ensures
        r@ == seq![4u8] + xy@,
{
    let mut r: Vec<u8> = Vec::new();
    r.push(4u8);
    append_bytes(&mut r, xy);
    r
}

/// The bytes a signature over `t` covers.
pub fn signing_bytes(t: &Transaction) -> (r: Vec<u8>)
    ensures
        r@ == signing_payload(*t),
{
    let mut out = transfer_bytes(t);
    let key = string_bytes(&t.public_key);
    push_u64_be(&mut out, key.len() as u64);
    append_bytes(&mut out, &key);
    out
}

/// The signature and public key bytes of a transfer, when both are
/// hexadecimal text of 64 bytes.
pub fn credential_bytes(t: &Transaction) -> (r: Option<(Vec<u8>, Vec<u8>)>)
    ensures
        r is Some <==> credentials_well_formed(*t),
        r matches Some((s, k)) ==> s@ == hex_decoded(t.signature@) && k@ == hex_decoded(
            t.public_key@,
        ),
{
    let sig = match hex_decode(&t.signature) {
        Some(b) => b,
        None => return None,
    };
    let key = match hex_decode(&t.public_key) {
        Some(b) => b,
        None => return None,
    };
    if sig.len() != 2 * FIELD_WIDTH || key.len() != 2 * FIELD_WIDTH {
        return None;
    }
    Some((sig, key))
}

} // verus!
