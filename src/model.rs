//! Transactions and blocks of the token ledger, and the byte strings that
//! are signed and hashed for them.
//!
//! Every byte string is framed field by field: an integer as eight bytes,
//! most significant first; a text as its UTF-8 length in that form followed
//! by its UTF-8 bytes; a list as its length followed by its items.
use vstd::prelude::*;
use vstd::utf8::encode_utf8;
use crate::crypto::{
    address_from_public_key_hex, hex_of, key_address, now_ms, sha256_digest, sha256_hex,
    signature_checks, verify_signature_hex, Address, Wallet,
};
use crate::errors::ATokenError;
use crate::text::str_eq;

verus! {

#[derive(Clone, Debug)]
pub struct TokenMetadata {
    pub name: String,
    pub symbol: String,
    pub description: String,
    pub decimals: u8,
    pub issuer: Address,
}

#[derive(Clone, Debug)]
pub enum TxPayload {
    Mint { amount: u64, metadata: TokenMetadata },
    Transfer { token_ids: Vec<u64>, to: Address },
}

#[derive(Clone, Debug)]
pub struct UnsignedTx {
    pub from: Address,
    pub nonce: u64,
    pub timestamp_ms: u64,
    pub payload: TxPayload,
}

#[derive(Clone, Debug)]
pub struct SignedTx {
    /// Hex SHA-256 of the framed transaction, public key and signature.
    pub id: String,
    pub unsigned: UnsignedTx,
    pub public_key_hex: String,
    pub signature_hex: String,
}

#[derive(Clone, Debug)]
pub struct BlockHeader {
    pub chain_id: String,
    pub height: u64,
    pub previous_hash: Option<String>,
    pub previous_three_hashes: Vec<String>,
    pub proposer: Address,
    pub proposer_public_key_hex: String,
    pub timestamp_ms: u64,
}

#[derive(Clone, Debug)]
pub struct Block {
    pub header: BlockHeader,
    pub txs: Vec<SignedTx>,
    /// Hex signature by the proposer of the header's signing message.
    pub previous_signature_hex: String,
    /// Hex SHA-256 of the framed header, transactions and signature.
    pub hash: String,
}

/// Eight bytes, most significant first.
pub open spec fn u64_bytes(n: u64) -> Seq<u8> {
    seq![
        ((n >> 56u64) & 0xffu64) as u8,
        ((n >> 48u64) & 0xffu64) as u8,
        ((n >> 40u64) & 0xffu64) as u8,
        ((n >> 32u64) & 0xffu64) as u8,
        ((n >> 24u64) & 0xffu64) as u8,
        ((n >> 16u64) & 0xffu64) as u8,
        ((n >> 8u64) & 0xffu64) as u8,
        (n & 0xffu64) as u8,
    ]
}

/// A text: its UTF-8 length, then its UTF-8 bytes.
pub open spec fn text_field(s: Seq<char>) -> Seq<u8> {
    u64_bytes(encode_utf8(s).len() as u64) + encode_utf8(s)
}

pub open spec fn metadata_bytes(m: TokenMetadata) -> Seq<u8> {
    text_field(m.name@) + text_field(m.symbol@) + text_field(m.description@) + seq![m.decimals]
        + text_field(m.issuer@)
}

pub open spec fn ids_bytes(ids: Seq<u64>) -> Seq<u8>
    decreases ids.len(),
{
    if ids.len() == 0 {
        Seq::empty()
    } else {
        ids_bytes(ids.drop_last()) + u64_bytes(ids.last())
    }
}

pub open spec fn texts_bytes(texts: Seq<Seq<char>>) -> Seq<u8>
    decreases texts.len(),
{
    if texts.len() == 0 {
        Seq::empty()
    } else {
        texts_bytes(texts.drop_last()) + text_field(texts.last())
    }
}

pub open spec fn payload_bytes(p: TxPayload) -> Seq<u8> {
    match p {
        TxPayload::Mint { amount, metadata } => seq![0u8] + u64_bytes(amount) + metadata_bytes(metadata),
        TxPayload::Transfer { token_ids, to } => seq![1u8] + u64_bytes(token_ids@.len() as u64)
            + ids_bytes(token_ids@) + text_field(to@),
    }
}

/// The bytes that the sender signs.
pub open spec fn unsigned_bytes(t: UnsignedTx) -> Seq<u8> {
    text_field(t.from@) + u64_bytes(t.nonce) + u64_bytes(t.timestamp_ms) + payload_bytes(t.payload)
}

pub open spec fn id_payload(t: UnsignedTx, public_key_hex: Seq<char>, signature_hex: Seq<char>) -> Seq<u8> {
    unsigned_bytes(t) + text_field(public_key_hex) + text_field(signature_hex)
}

/// The id of a signed transaction.
pub open spec fn tx_id(t: UnsignedTx, public_key_hex: Seq<char>, signature_hex: Seq<char>) -> Seq<char> {
    hex_of(sha256_digest(id_payload(t, public_key_hex, signature_hex)))
}

/// The bytes that a block's proposer signs: chain id, height and the previous hashes.
pub open spec fn header_message(h: BlockHeader) -> Seq<u8> {
    text_field(h.chain_id@) + u64_bytes(h.height) + u64_bytes(h.previous_three_hashes@.len() as u64)
        + texts_bytes(h.previous_three_hashes.deep_view())
}

pub open spec fn optional_text(t: Option<String>) -> Seq<u8> {
    match t {
        Some(s) => seq![1u8] + text_field(s@),
        None => seq![0u8],
    }
}

pub open spec fn header_bytes(h: BlockHeader) -> Seq<u8> {
    header_message(h) + optional_text(h.previous_hash) + text_field(h.proposer@) + text_field(
        h.proposer_public_key_hex@,
    ) + u64_bytes(h.timestamp_ms)
}

pub open spec fn signed_tx_bytes(t: SignedTx) -> Seq<u8> {
    text_field(t.id@) + id_payload(t.unsigned, t.public_key_hex@, t.signature_hex@)
}

pub open spec fn txs_bytes(txs: Seq<SignedTx>) -> Seq<u8>
    decreases txs.len(),
{
    if txs.len() == 0 {
        Seq::empty()
    } else {
        txs_bytes(txs.drop_last()) + signed_tx_bytes(txs.last())
    }
}

/// The hash of a block's header, transactions and proposer signature.
pub open spec fn block_hash(h: BlockHeader, txs: Seq<SignedTx>, signature_hex: Seq<char>) -> Seq<char> {
    hex_of(
        sha256_digest(
            header_bytes(h) + u64_bytes(txs.len() as u64) + txs_bytes(txs) + text_field(signature_hex),
        ),
    )
}

/// A signed transaction is valid: the signature of its bytes verifies under
/// its key, the key's address is the sender, and its id is the one computed.
#[verifier::opaque]
pub open spec fn tx_valid(t: SignedTx) -> bool {
    &&& signature_checks(t.public_key_hex@, t.signature_hex@, unsigned_bytes(t.unsigned))
    &&& key_address(t.public_key_hex@) == Some(t.unsigned.from@)
    &&& tx_id(t.unsigned, t.public_key_hex@, t.signature_hex@) == t.id@
}

fn put_u64(out: &mut Vec<u8>, n: u64)
    ensures
        final(out)@ == old(out)@ + u64_bytes(n),
{
    out.push(((n >> 56u64) & 0xffu64) as u8);
    out.push(((n >> 48u64) & 0xffu64) as u8);
    out.push(((n >> 40u64) & 0xffu64) as u8);
    out.push(((n >> 32u64) & 0xffu64) as u8);
    out.push(((n >> 24u64) & 0xffu64) as u8);
    out.push(((n >> 16u64) & 0xffu64) as u8);
    out.push(((n >> 8u64) & 0xffu64) as u8);
    out.push((n & 0xffu64) as u8);
    assert(final(out)@ =~= old(out)@ + u64_bytes(n));
}

fn put_bytes(out: &mut Vec<u8>, b: &[u8])
    ensures
        final(out)@ == old(out)@ + b@,
{
    let ghost start = out@;
    let mut i: usize = 0;
    while i < b.len()
        invariant
            i <= b@.len(),
            out@ == start + b@.subrange(0, i as int),
        decreases b@.len() - i,
    {
        out.push(b[i]);
        assert(out@ =~= start + b@.subrange(0, i + 1));
        i = i + 1;
    }
    assert(b@.subrange(0, b@.len() as int) =~= b@);
}

fn put_text(out: &mut Vec<u8>, s: &str)
    ensures
        final(out)@ == old(out)@ + text_field(s@),
{
    let b = s.as_bytes();
    put_u64(out, b.len() as u64);
    put_bytes(out, b);
    assert(final(out)@ =~= old(out)@ + text_field(s@));
}

fn put_metadata(out: &mut Vec<u8>, m: &TokenMetadata)
    ensures
        final(out)@ == old(out)@ + metadata_bytes(*m),
{
    put_text(out, m.name.as_str());
    put_text(out, m.symbol.as_str());
    put_text(out, m.description.as_str());
    out.push(m.decimals);
    put_text(out, m.issuer.as_str());
    assert(final(out)@ =~= old(out)@ + metadata_bytes(*m));
}

fn put_ids(out: &mut Vec<u8>, ids: &Vec<u64>)
    ensures
        final(out)@ == old(out)@ + ids_bytes(ids@),
{
    let ghost start = out@;
    let mut i: usize = 0;
    while i < ids.len()
        invariant
            i <= ids@.len(),
            out@ == start + ids_bytes(ids@.subrange(0, i as int)),
        decreases ids@.len() - i,
    {
        assert(ids@.subrange(0, i + 1).drop_last() =~= ids@.subrange(0, i as int));
        put_u64(out, ids[i]);
        assert(out@ =~= start + ids_bytes(ids@.subrange(0, i + 1)));
        i = i + 1;
    }
    assert(ids@.subrange(0, ids@.len() as int) =~= ids@);
}

fn put_texts(out: &mut Vec<u8>, texts: &Vec<String>)
    ensures
        final(out)@ == old(out)@ + texts_bytes(texts.deep_view()),
{
    let ghost start = out@;
    let ghost all = texts.deep_view();
    let mut i: usize = 0;
    while i < texts.len()
        invariant
            i <= texts@.len(),
            all == texts.deep_view(),
            out@ == start + texts_bytes(all.subrange(0, i as int)),
        decreases texts@.len() - i,
    {
        assert(all.subrange(0, i + 1).drop_last() =~= all.subrange(0, i as int));
        assert(all.subrange(0, i + 1).last() == texts@[i as int]@);
        put_text(out, texts[i].as_str());
        assert(out@ =~= start + texts_bytes(all.subrange(0, i + 1)));
        i = i + 1;
    }
    assert(all.subrange(0, texts@.len() as int) =~= all);
}

fn put_unsigned(out: &mut Vec<u8>, t: &UnsignedTx)
    ensures
        final(out)@ == old(out)@ + unsigned_bytes(*t),
{
    put_text(out, t.from.as_str());
    put_u64(out, t.nonce);
    put_u64(out, t.timestamp_ms);
    match &t.payload {
        TxPayload::Mint { amount, metadata } => {
            out.push(0u8);
            put_u64(out, *amount);
            put_metadata(out, metadata);
        },
        TxPayload::Transfer { token_ids, to } => {
            out.push(1u8);
            put_u64(out, token_ids.len() as u64);
            put_ids(out, token_ids);
            put_text(out, to.as_str());
        },
    }
    assert(final(out)@ =~= old(out)@ + unsigned_bytes(*t));
}

fn put_signed(out: &mut Vec<u8>, t: &SignedTx)
    ensures
        final(out)@ == old(out)@ + signed_tx_bytes(*t),
{
    put_text(out, t.id.as_str());
    put_unsigned(out, &t.unsigned);
    put_text(out, t.public_key_hex.as_str());
    put_text(out, t.signature_hex.as_str());
    assert(final(out)@ =~= old(out)@ + signed_tx_bytes(*t));
}

fn put_header(out: &mut Vec<u8>, h: &BlockHeader)
    ensures
        final(out)@ == old(out)@ + header_bytes(*h),
{
    let message = Block::previous_signature_message(h);
    put_bytes(out, message.as_slice());
    match &h.previous_hash {
        Some(p) => {
            out.push(1u8);
            put_text(out, p.as_str());
        },
        None => {
            out.push(0u8);
        },
    }
    put_text(out, h.proposer.as_str());
    put_text(out, h.proposer_public_key_hex.as_str());
    put_u64(out, h.timestamp_ms);
    assert(final(out)@ =~= old(out)@ + header_bytes(*h));
}

impl UnsignedTx {
    /// A mint of `amount` tokens, stamped with the local clock.
    pub fn mint(from: Address, nonce: u64, amount: u64, metadata: TokenMetadata) -> (r: Self)
        ensures
            r.from == from,
            r.nonce == nonce,
            r.payload == (TxPayload::Mint { amount, metadata }),
    {
        UnsignedTx { from, nonce, timestamp_ms: now_ms(), payload: TxPayload::Mint { amount, metadata } }
    }

    /// A transfer of `token_ids` to `to`, stamped with the local clock.
    pub fn transfer(from: Address, nonce: u64, to: Address, token_ids: Vec<u64>) -> (r: Self)
        ensures
            r.from == from,
            r.nonce == nonce,
            r.payload == (TxPayload::Transfer { token_ids, to }),
    {
        UnsignedTx { from, nonce, timestamp_ms: now_ms(), payload: TxPayload::Transfer { token_ids, to } }
    }

    /// The bytes that the sender signs.
    pub fn signing_bytes(&self) -> (r: Vec<u8>)
        ensures
            r@ == unsigned_bytes(*self),
    {
        let mut out: Vec<u8> = Vec::new();
        put_unsigned(&mut out, self);
        assert(out@ =~= unsigned_bytes(*self));
        out
    }
}

impl SignedTx {
    fn compute_id(unsigned: &UnsignedTx, public_key_hex: &str, signature_hex: &str) -> (r: String)
        ensures
            r@ == tx_id(*unsigned, public_key_hex@, signature_hex@),
    {
        let mut out: Vec<u8> = Vec::new();
        put_unsigned(&mut out, unsigned);
        put_text(&mut out, public_key_hex);
        put_text(&mut out, signature_hex);
        assert(out@ =~= id_payload(*unsigned, public_key_hex@, signature_hex@));
        sha256_hex(out.as_slice())
    }

    /// Signs a transaction with the sender's wallet.
    pub fn sign(unsigned: UnsignedTx, wallet: &Wallet) -> (r: Result<Self, ATokenError>)
        requires
            wallet.wf(),
        ensures
            r is Err == (unsigned.from@ != crate::crypto::address_of(
                crate::crypto::ed25519_public_key(wallet.secret()),
            )),
            r matches Err(e) ==> e is InvalidSender,
            r matches Ok(t) ==> {
                &&& t.unsigned == unsigned
                &&& t.public_key_hex@ == hex_of(crate::crypto::ed25519_public_key(wallet.secret()))
                &&& t.signature_hex@ == hex_of(
                    crate::crypto::ed25519_signature(wallet.secret(), unsigned_bytes(unsigned)),
                )
                &&& t.id@ == tx_id(unsigned, t.public_key_hex@, t.signature_hex@)
            },
    {
        let address = wallet.address();
        if !str_eq(unsigned.from.as_str(), address.as_str()) {
            return Err(ATokenError::InvalidSender);
        }
        let message = unsigned.signing_bytes();
        let signature_hex = wallet.sign_hex(message.as_slice());
        let public_key_hex = wallet.public_key_hex();
        let id = Self::compute_id(&unsigned, public_key_hex.as_str(), signature_hex.as_str());
        Ok(SignedTx { id, unsigned, public_key_hex, signature_hex })
    }

    /// Checks the signature, the sender's address and the id.
    pub fn verify(&self) -> (r: Result<(), ATokenError>)
        ensures
            r is Ok == tx_valid(*self),
    {
        proof {
            reveal(tx_valid);
        }
        let message = self.unsigned.signing_bytes();
        verify_signature_hex(self.public_key_hex.as_str(), self.signature_hex.as_str(), message.as_slice())?;
        let address = address_from_public_key_hex(self.public_key_hex.as_str())?;
        if !str_eq(address.as_str(), self.unsigned.from.as_str()) {
            return Err(ATokenError::InvalidSender);
        }
        let expected = Self::compute_id(&self.unsigned, self.public_key_hex.as_str(), self.signature_hex.as_str());
        if !str_eq(expected.as_str(), self.id.as_str()) {
            return Err(ATokenError::TransactionIdMismatch);
        }
        Ok(())
    }
}

impl Block {
    /// The bytes that the proposer signs for a header.
    pub fn previous_signature_message(header: &BlockHeader) -> (r: Vec<u8>)
        ensures
            r@ == header_message(*header),
    {
        let mut out: Vec<u8> = Vec::new();
        put_text(&mut out, header.chain_id.as_str());
        put_u64(&mut out, header.height);
        put_u64(&mut out, header.previous_three_hashes.len() as u64);
        put_texts(&mut out, &header.previous_three_hashes);
        assert(out@ =~= header_message(*header));
        out
    }

    /// The hash of a header, its transactions and the proposer's signature.
    pub fn calculate_hash(header: &BlockHeader, txs: &Vec<SignedTx>, previous_signature_hex: &str) -> (r: String)
        ensures
            r@ == block_hash(*header, txs@, previous_signature_hex@),
    {
        let mut out: Vec<u8> = Vec::new();
        put_header(&mut out, header);
        put_u64(&mut out, txs.len() as u64);
        let ghost start = out@;
        let mut i: usize = 0;
        while i < txs.len()
            invariant
                i <= txs@.len(),
                out@ == start + txs_bytes(txs@.subrange(0, i as int)),
            decreases txs@.len() - i,
        {
            assert(txs@.subrange(0, i + 1).drop_last() =~= txs@.subrange(0, i as int));
            put_signed(&mut out, &txs[i]);
            assert(out@ =~= start + txs_bytes(txs@.subrange(0, i + 1)));
            i = i + 1;
        }
        assert(txs@.subrange(0, txs@.len() as int) =~= txs@);
        put_text(&mut out, previous_signature_hex);
        assert(out@ =~= header_bytes(*header) + u64_bytes(txs@.len() as u64) + txs_bytes(txs@) + text_field(
            previous_signature_hex@,
        ));
        sha256_hex(out.as_slice())
    }
}

} // verus!
