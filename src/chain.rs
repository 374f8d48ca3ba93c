//! The token ledger: one issuer mints once, owners transfer tokens by id,
//! and every change arrives in a signed block chained to the ones before it.
use vstd::prelude::*;
use crate::crypto::{address_from_public_key_hex, key_address, signature_checks, Address, Wallet};
use crate::errors::ATokenError;
use crate::model::{block_hash, header_message, tx_valid, Block, BlockHeader, SignedTx, TokenMetadata, TxPayload};
use crate::text::str_eq;

verus! {

/// Number of earlier block hashes that each header repeats.
pub const REQUIRED_PREVIOUS_BLOCKS: usize = 3;

#[derive(Clone, Debug)]
pub struct ChainConfig {
    pub chain_id: String,
    /// The only address allowed to mint.
    pub issuer: Address,
    pub required_previous_blocks: usize,
}

impl ChainConfig {
    pub fn new(chain_id: &str, issuer: Address) -> (r: Self)
        ensures
            r.chain_id@ == chain_id@,
            r.issuer == issuer,
            r.required_previous_blocks == REQUIRED_PREVIOUS_BLOCKS,
    {
        ChainConfig {
            chain_id: String::from_str(chain_id),
            issuer,
            required_previous_blocks: REQUIRED_PREVIOUS_BLOCKS,
        }
    }
}

/// The last nonce of `address` in a nonce list (the first entry for it), zero without one.
pub open spec fn nonce_in(list: Seq<(Seq<char>, u64)>, address: Seq<char>) -> u64
    decreases list.len(),
{
    if list.len() == 0 {
        0
    } else if list[0].0 == address {
        list[0].1
    } else {
        nonce_in(list.drop_first(), address)
    }
}

/// How many tokens `owners` gives to `address`.
pub open spec fn owned_count(owners: Seq<Seq<char>>, address: Seq<char>) -> nat
    decreases owners.len(),
{
    if owners.len() == 0 {
        0
    } else {
        owned_count(owners.drop_last(), address) + if owners.last() == address {
            1nat
        } else {
            0nat
        }
    }
}

/// The ids of the tokens of `address`, ascending.
pub open spec fn owned_ids(owners: Seq<Seq<char>>, address: Seq<char>) -> Seq<u64>
    decreases owners.len(),
{
    if owners.len() == 0 {
        Seq::empty()
    } else if owners.last() == address {
        owned_ids(owners.drop_last(), address).push((owners.len() - 1) as u64)
    } else {
        owned_ids(owners.drop_last(), address)
    }
}

/// The first reason, scanning the ids from the `i`-th on, that a transfer of
/// `ids` by `from` is refused; `None` where every id may move.
pub open spec fn transfer_refusal(owners: Seq<Seq<char>>, ids: Seq<u64>, from: Seq<char>, i: int) -> Option<ATokenError>
    decreases ids.len() - i,
{
    if i < 0 || i >= ids.len() {
        None
    } else if exists|j: int| 0 <= j < i && ids[j] == ids[i] {
        Some(ATokenError::DuplicateTokenId(ids[i]))
    } else if ids[i] >= owners.len() {
        Some(ATokenError::UnknownToken(ids[i]))
    } else if owners[ids[i] as int] != from {
        Some(ATokenError::NotTokenOwner { token_id: ids[i] })
    } else {
        transfer_refusal(owners, ids, from, i + 1)
    }
}

/// The owners after every id of `ids` moves to `to`.
pub open spec fn transferred(owners: Seq<Seq<char>>, ids: Seq<u64>, to: Seq<char>) -> Seq<Seq<char>> {
    Seq::new(owners.len(), |k: int| if ids.contains(k as u64) { to } else { owners[k] })
}

#[derive(Clone, Debug)]
pub struct ATokenChain {
    pub config: ChainConfig,
    pub blocks: Vec<Block>,
    token_metadata: Option<TokenMetadata>,
    issued_once: bool,
    total_supply: u64,
    /// The owner of each token, by id; ids run from zero to the supply.
    owners: Vec<Address>,
    /// The last nonce of each address that has sent a transaction.
    nonces: Vec<(Address, u64)>,
}

impl ATokenChain {
    pub closed spec fn config_spec(&self) -> ChainConfig {
        self.config
    }

    pub closed spec fn blocks_spec(&self) -> Seq<Block> {
        self.blocks@
    }

    pub closed spec fn issued(&self) -> bool {
        self.issued_once
    }

    pub closed spec fn supply(&self) -> u64 {
        self.total_supply
    }

    pub closed spec fn token_metadata_spec(&self) -> Option<TokenMetadata> {
        self.token_metadata
    }

    /// The owner of each token, by id.
    pub closed spec fn owners(&self) -> Seq<Seq<char>> {
        self.owners.deep_view()
    }

    /// The last nonce that `address` used, zero before its first transaction.
    pub closed spec fn last_nonce(&self, address: Seq<char>) -> u64 {
        nonce_in(self.nonces.deep_view(), address)
    }

    /// The supply is the number of tokens; nothing exists before the mint;
    /// no nonce has reached its largest value.
    pub closed spec fn wf(&self) -> bool {
        &&& self.owners@.len() == self.total_supply
        &&& self.issued_once == self.token_metadata is Some
        &&& !self.issued_once ==> self.total_supply == 0
        &&& self.issued_once ==> self.total_supply > 0
        &&& forall|k: int| 0 <= k < self.nonces@.len() ==> (#[trigger] self.nonces@[k]).1 < u64::MAX
    }

    pub fn new(config: ChainConfig) -> (r: Self)
        ensures
            r.wf(),
            r.config_spec() == config,
            r.blocks_spec().len() == 0,
            !r.issued(),
            r.supply() == 0,
            r.token_metadata_spec() is None,
            r.owners().len() == 0,
            forall|a: Seq<char>| r.last_nonce(a) == 0,
    {
        let r = ATokenChain {
            config,
            blocks: Vec::new(),
            token_metadata: None,
            issued_once: false,
            total_supply: 0,
            owners: Vec::new(),
            nonces: Vec::new(),
        };
        assert forall|a: Seq<char>| r.last_nonce(a) == 0 by {
            assert(r.nonces.deep_view().len() == 0);
        }
        r
    }

    fn last_nonce_of(&self, address: &str) -> (r: u64)
        requires
            self.wf(),
        ensures
            r == self.last_nonce(address@),
            r < u64::MAX,
    {
        let ghost all = self.nonces.deep_view();
        assert(all.subrange(0, all.len() as int) =~= all);
        let mut i: usize = 0;
        while i < self.nonces.len()
            invariant
                i <= self.nonces@.len(),
                all == self.nonces.deep_view(),
                self.wf(),
                nonce_in(all, address@) == nonce_in(all.subrange(i as int, all.len() as int), address@),
            decreases self.nonces@.len() - i,
        {
            let ghost rest = all.subrange(i as int, all.len() as int);
            assert(rest[0] == all[i as int]);
            assert(rest.drop_first() =~= all.subrange(i + 1, all.len() as int));
            if str_eq(self.nonces[i].0.as_str(), address) {
                assert(self.nonces@[i as int].1 < u64::MAX);
                return self.nonces[i].1;
            }
            i = i + 1;
        }
        0
    }

    /// The nonce that the next transaction of `address` must carry.
    pub fn next_nonce(&self, address: &Address) -> (r: u64)
        requires
            self.wf(),
        ensures
            r == self.last_nonce(address@) + 1,
    {
        self.last_nonce_of(address.as_str()) + 1
    }

    pub fn metadata(&self) -> (r: Option<&TokenMetadata>)
        ensures
            r matches Some(m) ==> self.token_metadata_spec() == Some(*m),
            r is None ==> self.token_metadata_spec() is None,
    {
        self.token_metadata.as_ref()
    }

    pub fn total_supply(&self) -> (r: u64)
        ensures
            r == self.supply(),
    {
        self.total_supply
    }

    /// Number of tokens that `address` owns.
    pub fn balance_of(&self, address: &Address) -> (r: u64)
        requires
            self.wf(),
        ensures
            r == owned_count(self.owners(), address@),
    {
        let ghost all = self.owners();
        let mut count: u64 = 0;
        let mut i: usize = 0;
        while i < self.owners.len()
            invariant
                i <= self.owners@.len(),
                all == self.owners(),
                self.wf(),
                count == owned_count(all.subrange(0, i as int), address@),
                count <= i,
            decreases self.owners@.len() - i,
        {
            assert(all.subrange(0, i + 1).drop_last() =~= all.subrange(0, i as int));
            assert(all[i as int] == self.owners@[i as int]@);
            if str_eq(self.owners[i].as_str(), address.as_str()) {
                count = count + 1;
            }
            i = i + 1;
        }
        assert(all.subrange(0, all.len() as int) =~= all);
        count
    }

    /// The owner of a token, if it exists.
    pub fn owner_of(&self, token_id: u64) -> (r: Option<&Address>)
        ensures
            r is Some == (token_id < self.owners().len()),
            r matches Some(a) ==> a@ == self.owners()[token_id as int],
    {
        if token_id < self.owners.len() as u64 {
            Some(&self.owners[token_id as usize])
        } else {
            None
        }
    }

    /// The ids of the tokens that `address` owns, ascending.
    pub fn tokens_of(&self, address: &Address) -> (r: Vec<u64>)
        requires
            self.wf(),
        ensures
            r@ == owned_ids(self.owners(), address@),
    {
        let ghost all = self.owners();
        let mut out: Vec<u64> = Vec::new();
        let mut i: usize = 0;
        while i < self.owners.len()
            invariant
                i <= self.owners@.len(),
                self.owners@.len() <= u64::MAX,
                all == self.owners(),
                out@ == owned_ids(all.subrange(0, i as int), address@),
            decreases self.owners@.len() - i,
        {
            assert(all.subrange(0, i + 1).drop_last() =~= all.subrange(0, i as int));
            assert(all[i as int] == self.owners@[i as int]@);
            if str_eq(self.owners[i].as_str(), address.as_str()) {
                out.push(i as u64);
            }
            i = i + 1;
        }
        assert(all.subrange(0, all.len() as int) =~= all);
        out
    }

    /// The hashes of the last blocks, oldest first, at most as many as configured.
    pub fn expected_previous_three_hashes(&self) -> (r: Vec<String>)
        ensures
            r.deep_view() == previous_hashes(self.blocks_spec(), self.config_spec()),
    {
        let keep = self.config.required_previous_blocks;
        let n = self.blocks.len();
        let start = if n >= keep {
            n - keep
        } else {
            0
        };
        let mut out: Vec<String> = Vec::new();
        let mut i: usize = start;
        while i < n
            invariant
                start <= i <= n,
                n == self.blocks@.len(),
                start == n - min_len(n as nat, keep as nat),
                keep == self.config.required_previous_blocks,
                out.deep_view() == self.blocks@.subrange(start as int, i as int).map_values(|b: Block| b.hash@),
            decreases n - i,
        {
            let ghost before = out.deep_view();
            out.push(self.blocks[i].hash.clone());
            assert(self.blocks@.subrange(start as int, i + 1) =~= self.blocks@.subrange(start as int, i as int).push(
                self.blocks@[i as int],
            ));
            assert(out.deep_view() =~= before.push(self.blocks@[i as int].hash@));
            assert(out.deep_view() =~= self.blocks@.subrange(start as int, i + 1).map_values(|b: Block| b.hash@));
            i = i + 1;
        }
        out
    }

    fn set_nonce(&mut self, address: &str, nonce: u64)
        requires
            old(self).wf(),
            nonce < u64::MAX,
        ensures
            final(self).wf(),
            final(self).last_nonce(address@) == nonce,
            forall|a: Seq<char>| a != address@ ==> final(self).last_nonce(a) == old(self).last_nonce(a),
            final(self).owners() == old(self).owners(),
            final(self).issued() == old(self).issued(),
            final(self).supply() == old(self).supply(),
            final(self).token_metadata_spec() == old(self).token_metadata_spec(),
            final(self).config == old(self).config,
            final(self).blocks == old(self).blocks,
    {
        let ghost all = self.nonces.deep_view();
        let mut i: usize = 0;
        let mut found = false;
        while i < self.nonces.len()
            invariant_except_break
                !found,
            invariant
                i <= self.nonces@.len(),
                all == self.nonces.deep_view(),
                forall|k: int| 0 <= k < i ==> all[k].0 != address@,
            ensures
                found ==> i < self.nonces@.len() && all[i as int].0 == address@,
                !found ==> i == self.nonces@.len(),
            decreases self.nonces@.len() - i,
        {
            if str_eq(self.nonces[i].0.as_str(), address) {
                found = true;
                break;
            }
            i = i + 1;
        }
        let ghost old_list = all;
        if found {
            self.nonces.set(i, (String::from_str(address), nonce));
            proof {
                lemma_nonce_set(old_list, i as int, address@, nonce);
                assert(self.nonces.deep_view() =~= old_list.update(i as int, (address@, nonce)));
            }
        } else {
            self.nonces.push((String::from_str(address), nonce));
            proof {
                lemma_nonce_push(old_list, address@, nonce);
                assert(self.nonces.deep_view() =~= old_list.push((address@, nonce)));
            }
        }
        proof {
            assert forall|k: int| 0 <= k < self.nonces@.len() implies (#[trigger] self.nonces@[k]).1 < u64::MAX by {
                if k < old(self).nonces@.len() && !(found && k == i) {
                    assert(self.nonces@[k] == old(self).nonces@[k]);
                }
            }
        }
    }

    /// The one mint: only the issuer, only once, and at least one token; the
    /// issuer then owns tokens `0..amount`.
    fn apply_mint(&mut self, from: &str, amount: u64, metadata: TokenMetadata) -> (r: Result<(), ATokenError>)
        requires
            old(self).wf(),
        ensures
            final(self).wf(),
            old(self).issued() ==> r matches Err(ATokenError::AlreadyIssued),
            !old(self).issued() && from@ != old(self).config.issuer@ ==> r matches Err(ATokenError::MintNotAllowed),
            !old(self).issued() && from@ == old(self).config.issuer@ && amount == 0 ==> r matches Err(
                ATokenError::MintAmountMustBePositive,
            ),
            r is Ok == (!old(self).issued() && from@ == old(self).config.issuer@ && amount > 0),
            r is Ok ==> {
                &&& final(self).issued()
                &&& final(self).supply() == amount
                &&& final(self).owners() == Seq::new(amount as nat, |k: int| old(self).config.issuer@)
                &&& final(self).token_metadata_spec() matches Some(m) && m.issuer@ == old(self).config.issuer@
                    && m.name == metadata.name && m.symbol == metadata.symbol
                    && m.description == metadata.description && m.decimals == metadata.decimals
            },
            r is Err ==> *final(self) == *old(self),
            forall|a: Seq<char>| final(self).last_nonce(a) == old(self).last_nonce(a),
            final(self).config == old(self).config,
            final(self).blocks == old(self).blocks,
    {
        if self.issued_once {
            return Err(ATokenError::AlreadyIssued);
        }
        if !str_eq(from, self.config.issuer.as_str()) {
            return Err(ATokenError::MintNotAllowed);
        }
        if amount == 0 {
            return Err(ATokenError::MintAmountMustBePositive);
        }
        let mut owners: Vec<Address> = Vec::new();
        let mut k: u64 = 0;
        while k < amount
            invariant
                k <= amount,
                owners@.len() == k,
                forall|j: int| 0 <= j < k ==> (#[trigger] owners@[j])@ == self.config.issuer@,
            decreases amount - k,
        {
            owners.push(self.config.issuer.clone());
            k = k + 1;
        }
        let mut metadata = metadata;
        metadata.issuer = self.config.issuer.clone();
        self.owners = owners;
        self.total_supply = amount;
        self.token_metadata = Some(metadata);
        self.issued_once = true;
        assert(self.owners() =~= Seq::new(amount as nat, |k: int| old(self).config.issuer@));
        Ok(())
    }

    /// A transfer of tokens by their owner to `to`.
    fn apply_transfer(&mut self, from: &str, token_ids: &Vec<u64>, to: &Address) -> (r: Result<(), ATokenError>)
        requires
            old(self).wf(),
        ensures
            final(self).wf(),
            !old(self).issued() ==> r matches Err(ATokenError::TokenNotIssued),
            old(self).issued() && token_ids@.len() == 0 ==> r matches Err(ATokenError::EmptyTransfer),
            old(self).issued() && token_ids@.len() > 0 ==> match transfer_refusal(old(self).owners(), token_ids@, from@, 0) {
                Some(e) => r == Err::<(), ATokenError>(e),
                None => r is Ok,
            },
            r is Ok ==> final(self).owners() == transferred(old(self).owners(), token_ids@, to@),
            r is Err ==> *final(self) == *old(self),
            final(self).issued() == old(self).issued(),
            final(self).supply() == old(self).supply(),
            final(self).token_metadata_spec() == old(self).token_metadata_spec(),
            forall|a: Seq<char>| final(self).last_nonce(a) == old(self).last_nonce(a),
            final(self).config == old(self).config,
            final(self).blocks == old(self).blocks,
    {
        if !self.issued_once {
            return Err(ATokenError::TokenNotIssued);
        }
        if token_ids.len() == 0 {
            return Err(ATokenError::EmptyTransfer);
        }
        let ghost owners0 = self.owners();
        let n = token_ids.len();
        let mut i: usize = 0;
        while i < n
            invariant
                n == token_ids@.len(),
                i <= n,
                owners0 == self.owners(),
                *self == *old(self),
                old(self).wf(),
                old(self).issued(),
                token_ids@.len() > 0,
                self.owners@.len() == owners0.len(),
                transfer_refusal(owners0, token_ids@, from@, 0) == transfer_refusal(owners0, token_ids@, from@, i as int),
            decreases n - i,
        {
            let id = token_ids[i];
            let mut j: usize = 0;
            while j < i
                invariant
                    j <= i,
                    i < n,
                    owners0 == old(self).owners(),
                    transfer_refusal(owners0, token_ids@, from@, 0) == transfer_refusal(owners0, token_ids@, from@, i as int),
                    *self == *old(self),
                    old(self).wf(),
                    old(self).issued(),
                    n == token_ids@.len(),
                    id == token_ids@[i as int],
                    forall|m: int| 0 <= m < j ==> token_ids@[m] != id,
                decreases i - j,
            {
                if token_ids[j] == id {
                    assert(token_ids@[j as int] == token_ids@[i as int]);
                    assert(transfer_refusal(owners0, token_ids@, from@, i as int) == Some(
                        ATokenError::DuplicateTokenId(id),
                    ));
                    return Err(ATokenError::DuplicateTokenId(id));
                }
                j = j + 1;
            }
            if id >= self.owners.len() as u64 {
                return Err(ATokenError::UnknownToken(id));
            }
            assert(owners0[id as int] == self.owners@[id as int]@);
            if !str_eq(self.owners[id as usize].as_str(), from) {
                return Err(ATokenError::NotTokenOwner { token_id: id });
            }
            i = i + 1;
        }
        let mut k: usize = 0;
        while k < n
            invariant
                n == token_ids@.len(),
                k <= n,
                self.owners@.len() == owners0.len(),
                owners0.len() == old(self).owners@.len(),
                owners0.len() <= u64::MAX,
                old(self).wf(),
                old(self).issued(),
                token_ids@.len() > 0,
                forall|t: int| 0 <= t < k ==> token_ids@[t] < owners0.len(),
                forall|p: int|
                    0 <= p < owners0.len() ==> (#[trigger] self.owners@[p])@ == if token_ids@.subrange(
                        0,
                        k as int,
                    ).contains(p as u64) {
                        to@
                    } else {
                        owners0[p]
                    },
                transfer_refusal(owners0, token_ids@, from@, 0) is None,
                self.issued_once == old(self).issued_once,
                self.total_supply == old(self).total_supply,
                self.token_metadata == old(self).token_metadata,
                self.nonces == old(self).nonces,
                self.config == old(self).config,
                self.blocks == old(self).blocks,
            decreases n - k,
        {
            proof {
                lemma_refusal_none_bounds(owners0, token_ids@, from@, 0, k as int);
            }
            let id = token_ids[k];
            let ghost prev = self.owners@;
            assert(forall|p: int|
                0 <= p < owners0.len() ==> prev[p]@ == if token_ids@.subrange(0, k as int).contains(p as u64) {
                    to@
                } else {
                    owners0[p]
                });
            let moved = to.clone();
            let len = self.owners.len();
            assert(id < len);
            let idx = id as usize;
            assert(idx as int == id as int);
            self.owners.set(idx, moved);
            proof {
                assert(self.owners@ == prev.update(id as int, moved));
                assert forall|p: int| 0 <= p < owners0.len() implies (#[trigger] self.owners@[p])@ == if token_ids@.subrange(
                    0,
                    k + 1,
                ).contains(p as u64) {
                    to@
                } else {
                    owners0[p]
                } by {
                    let s0 = token_ids@.subrange(0, k as int);
                    let s1 = token_ids@.subrange(0, k + 1);
                    assert(s1 =~= s0.push(id));
                    if p == id as int {
                        assert(s1[k as int] == id);
                    } else {
                        if s1.contains(p as u64) {
                            let w = choose|w: int| 0 <= w < s1.len() && s1[w] == p as u64;
                            assert(w < k);
                            assert(s0[w] == s1[w]);
                        }
                        if s0.contains(p as u64) {
                            let w = choose|w: int| 0 <= w < s0.len() && s0[w] == p as u64;
                            assert(s1[w] == s0[w]);
                        }
                    }
                }
            }
            k = k + 1;
        }
        proof {
            assert(token_ids@.subrange(0, n as int) =~= token_ids@);
            assert(self.owners() =~= transferred(owners0, token_ids@, to@));
        }
        Ok(())
    }

    /// Applies one signed transaction: it must be valid and carry the
    /// sender's next nonce, and then its mint or transfer must succeed.
    fn apply_signed_tx(&mut self, tx: &SignedTx) -> (r: Result<(), ATokenError>)
        requires
            old(self).wf(),
        ensures
            final(self).wf(),
            r is Ok ==> tx_valid(*tx) && tx.unsigned.nonce == old(self).last_nonce(tx.unsigned.from@) + 1,
            r is Ok ==> final(self).last_nonce(tx.unsigned.from@) == tx.unsigned.nonce,
            r is Ok ==> forall|a: Seq<char>| a != tx.unsigned.from@ ==> final(self).last_nonce(a) == old(self).last_nonce(a),
            is_repeated_mint(*old(self), *tx) ==> r matches Err(ATokenError::AlreadyIssued),
            !tx_valid(*tx) ==> r is Err,
            r is Err ==> *final(self) == *old(self),
            final(self).config == old(self).config,
            final(self).blocks == old(self).blocks,
    {
        tx.verify()?;
        let expected = self.next_nonce(&tx.unsigned.from);
        if tx.unsigned.nonce != expected || expected == u64::MAX {
            return Err(ATokenError::NonceMismatch { expected, actual: tx.unsigned.nonce });
        }
        match &tx.unsigned.payload {
            TxPayload::Mint { amount, metadata } => {
                let m = TokenMetadata {
                    name: metadata.name.clone(),
                    symbol: metadata.symbol.clone(),
                    description: metadata.description.clone(),
                    decimals: metadata.decimals,
                    issuer: metadata.issuer.clone(),
                };
                self.apply_mint(tx.unsigned.from.as_str(), *amount, m)?;
            },
            TxPayload::Transfer { token_ids, to } => {
                self.apply_transfer(tx.unsigned.from.as_str(), token_ids, to)?;
            },
        }
        self.set_nonce(tx.unsigned.from.as_str(), tx.unsigned.nonce);
        Ok(())
    }

    /// Applies transactions in order, stopping at the first that fails.
    fn apply_txs(&mut self, txs: &Vec<SignedTx>) -> (r: Result<(), ATokenError>)
        requires
            old(self).wf(),
        ensures
            final(self).wf(),
            r is Ok ==> forall|k: int| 0 <= k < txs@.len() ==> tx_valid(#[trigger] txs@[k]),
            r is Ok ==> forall|a: Seq<char>|
                #[trigger] final(self).last_nonce(a) == old(self).last_nonce(a) + sent_count(txs@, a),
            r is Ok ==> forall|k: int|
                0 <= k < txs@.len() ==> (#[trigger] txs@[k]).unsigned.nonce == old(self).last_nonce(
                    txs@[k].unsigned.from@,
                ) + sent_count(txs@.subrange(0, k), txs@[k].unsigned.from@) + 1,
            txs@.len() > 0 && is_repeated_mint(*old(self), txs@[0]) ==> r matches Err(ATokenError::AlreadyIssued),
            final(self).blocks == old(self).blocks,
            final(self).config == old(self).config,
    {
        let mut i: usize = 0;
        while i < txs.len()
            invariant
                i <= txs@.len(),
                self.wf(),
                self.blocks == old(self).blocks,
                self.config == old(self).config,
                i == 0 ==> *self == *old(self),
                i > 0 ==> !is_repeated_mint(*old(self), txs@[0]),
                forall|k: int| 0 <= k < i ==> tx_valid(#[trigger] txs@[k]),
                forall|a: Seq<char>|
                    #[trigger] self.last_nonce(a) == old(self).last_nonce(a) + sent_count(txs@.subrange(0, i as int), a),
                forall|k: int|
                    0 <= k < i ==> (#[trigger] txs@[k]).unsigned.nonce == old(self).last_nonce(
                        txs@[k].unsigned.from@,
                    ) + sent_count(txs@.subrange(0, k), txs@[k].unsigned.from@) + 1,
            decreases txs@.len() - i,
        {
            let ghost before = *self;
            let ghost tx = txs@[i as int];
            self.apply_signed_tx(&txs[i])?;
            proof {
                let start_chain = *old(self);
                let now_chain = *self;
                let f0 = |a: Seq<char>| start_chain.last_nonce(a);
                let f1 = |a: Seq<char>| before.last_nonce(a);
                let f2 = |a: Seq<char>| now_chain.last_nonce(a);
                lemma_nonce_count_step(txs@, i as int, f0, f1, f2);
                assert forall|a: Seq<char>|
                    #[trigger] self.last_nonce(a) == old(self).last_nonce(a) + sent_count(txs@.subrange(0, i + 1), a) by {
                    assert(f2(a) == f0(a) + sent_count(txs@.subrange(0, i + 1), a));
                }
            }
            i = i + 1;
        }
        assert(txs@.subrange(0, txs@.len() as int) =~= txs@);
        Ok(())
    }

    /// Proposes a block of `txs` on top of the chain, signed by `proposer`.
    pub fn build_block(&self, proposer: &Wallet, txs: Vec<SignedTx>) -> (r: Result<Block, ATokenError>)
        requires
            proposer.wf(),
        ensures
            r matches Ok(b) ==> {
                &&& b.header.height == self.blocks_spec().len()
                &&& b.header.chain_id@ == self.config_spec().chain_id@
                &&& b.txs@ == txs@
                &&& b.hash@ == block_hash(b.header, b.txs@, b.previous_signature_hex@)
            },
            r is Ok,
    {
        let previous_hash = if self.blocks.len() > 0 {
            Some(self.blocks[self.blocks.len() - 1].hash.clone())
        } else {
            None
        };
        let header = BlockHeader {
            chain_id: self.config.chain_id.clone(),
            height: self.blocks.len() as u64,
            previous_hash,
            previous_three_hashes: self.expected_previous_three_hashes(),
            proposer: proposer.address(),
            proposer_public_key_hex: proposer.public_key_hex(),
            timestamp_ms: crate::crypto::now_ms(),
        };
        let message = Block::previous_signature_message(&header);
        let previous_signature_hex = proposer.sign_hex(message.as_slice());
        let hash = Block::calculate_hash(&header, &txs, previous_signature_hex.as_str());
        Ok(Block { header, txs, previous_signature_hex, hash })
    }

    /// Checks a block's place in the chain, its proposer, signature and hash.
    fn validate_block(&self, block: &Block) -> (r: Result<(), ATokenError>)
        ensures
            r is Ok == block_fits(self.blocks@, self.config, *block),
            block.header.height != self.blocks@.len() ==> r matches Err(ATokenError::InvalidBlockHeight { .. }),
    {
        proof {
            reveal(block_fits);
        }
        let expected_height = self.blocks.len() as u64;
        if block.header.height != expected_height {
            return Err(ATokenError::InvalidBlockHeight { expected: expected_height, actual: block.header.height });
        }
        if !str_eq(block.header.chain_id.as_str(), self.config.chain_id.as_str()) {
            return Err(ATokenError::InvalidChainId {
                expected: self.config.chain_id.clone(),
                actual: block.header.chain_id.clone(),
            });
        }
        let n = self.blocks.len();
        let previous_ok = match &block.header.previous_hash {
            Some(p) => n > 0 && str_eq(p.as_str(), self.blocks[n - 1].hash.as_str()),
            None => n == 0,
        };
        if !previous_ok {
            return Err(ATokenError::PreviousHashMismatch);
        }
        let expected_three = self.expected_previous_three_hashes();
        if !strings_equal(&block.header.previous_three_hashes, &expected_three) {
            return Err(ATokenError::PreviousThreeMismatch);
        }
        let proposer = address_from_public_key_hex(block.header.proposer_public_key_hex.as_str())?;
        if !str_eq(proposer.as_str(), block.header.proposer.as_str()) {
            return Err(ATokenError::InvalidSender);
        }
        let message = Block::previous_signature_message(&block.header);
        crate::crypto::verify_signature_hex(
            block.header.proposer_public_key_hex.as_str(),
            block.previous_signature_hex.as_str(),
            message.as_slice(),
        )?;
        let expected = Block::calculate_hash(&block.header, &block.txs, block.previous_signature_hex.as_str());
        if !str_eq(expected.as_str(), block.hash.as_str()) {
            return Err(ATokenError::BlockHashMismatch);
        }
        Ok(())
    }

    /// Appends a block after checking it and applying its transactions in order.
    pub fn append_block(&mut self, block: Block) -> (r: Result<(), ATokenError>)
        requires
            old(self).wf(),
        ensures
            final(self).wf(),
            r is Ok ==> block_fits(old(self).blocks_spec(), old(self).config_spec(), block),
            r is Ok ==> final(self).blocks_spec() == old(self).blocks_spec().push(block),
            r is Ok ==> forall|k: int| 0 <= k < block.txs@.len() ==> tx_valid(#[trigger] block.txs@[k]),
            r is Ok ==> forall|a: Seq<char>|
                #[trigger] final(self).last_nonce(a) == old(self).last_nonce(a) + sent_count(block.txs@, a),
            r is Ok ==> forall|k: int|
                0 <= k < block.txs@.len() ==> (#[trigger] block.txs@[k]).unsigned.nonce == old(self).last_nonce(
                    block.txs@[k].unsigned.from@,
                ) + sent_count(block.txs@.subrange(0, k), block.txs@[k].unsigned.from@) + 1,
            r is Err ==> final(self).blocks_spec() == old(self).blocks_spec(),
            !block_fits(old(self).blocks_spec(), old(self).config_spec(), block) ==> r is Err && *final(self)
                == *old(self),
            block_fits(old(self).blocks_spec(), old(self).config_spec(), block) && block.txs@.len() > 0
                && is_repeated_mint(*old(self), block.txs@[0]) ==> r matches Err(ATokenError::AlreadyIssued),
            block.header.height != old(self).blocks_spec().len() ==> r matches Err(ATokenError::InvalidBlockHeight { .. }),
            final(self).config_spec() == old(self).config_spec(),
    {
        self.validate_block(&block)?;
        self.apply_txs(&block.txs)?;
        let ghost applied = *self;
        self.blocks.push(block);
        assert forall|a: Seq<char>| #[trigger] self.last_nonce(a) == applied.last_nonce(a) by {}
        Ok(())
    }
}

proof fn lemma_nonce_count_step(
    txs: Seq<SignedTx>,
    i: int,
    start: spec_fn(Seq<char>) -> u64,
    before: spec_fn(Seq<char>) -> u64,
    after: spec_fn(Seq<char>) -> u64,
)
    requires
        0 <= i < txs.len(),
        forall|a: Seq<char>| #[trigger] before(a) == start(a) + sent_count(txs.subrange(0, i), a),
        forall|k: int|
            0 <= k < i ==> (#[trigger] txs[k]).unsigned.nonce == start(txs[k].unsigned.from@) + sent_count(
                txs.subrange(0, k),
                txs[k].unsigned.from@,
            ) + 1,
        txs[i].unsigned.nonce == before(txs[i].unsigned.from@) + 1,
        after(txs[i].unsigned.from@) == txs[i].unsigned.nonce,
        forall|a: Seq<char>| a != txs[i].unsigned.from@ ==> #[trigger] after(a) == before(a),
    ensures
        forall|a: Seq<char>| #[trigger] after(a) == start(a) + sent_count(txs.subrange(0, i + 1), a),
        forall|k: int|
            0 <= k < i + 1 ==> (#[trigger] txs[k]).unsigned.nonce == start(txs[k].unsigned.from@) + sent_count(
                txs.subrange(0, k),
                txs[k].unsigned.from@,
            ) + 1,
{
    let pre = txs.subrange(0, i);
    let post = txs.subrange(0, i + 1);
    assert(post.drop_last() =~= pre);
    assert(post.last() == txs[i]);
    assert forall|a: Seq<char>| #[trigger] after(a) == start(a) + sent_count(post, a) by {
        assert(before(a) == start(a) + sent_count(pre, a));
    }
}

/// How many of `txs` `address` sent.
pub open spec fn sent_count(txs: Seq<SignedTx>, address: Seq<char>) -> nat
    decreases txs.len(),
{
    if txs.len() == 0 {
        0
    } else {
        sent_count(txs.drop_last(), address) + if txs.last().unsigned.from@ == address {
            1nat
        } else {
            0nat
        }
    }
}

/// `tx` is valid and carries its sender's next nonce, yet mints on a chain
/// whose token was already issued.
pub open spec fn is_repeated_mint(chain: ATokenChain, tx: SignedTx) -> bool {
    &&& chain.issued()
    &&& tx_valid(tx)
    &&& tx.unsigned.nonce == chain.last_nonce(tx.unsigned.from@) + 1
    &&& tx.unsigned.nonce < u64::MAX
    &&& tx.unsigned.payload is Mint
}

/// In every well-formed chain the tokens are the ids below the supply, the
/// metadata exists exactly once the token is issued, and an issued token has
/// a positive supply while an unissued one has none.
pub proof fn lemma_chain_accounts(chain: ATokenChain)
    requires
        chain.wf(),
    ensures
        chain.owners().len() == chain.supply(),
        chain.issued() == chain.token_metadata_spec() is Some,
        chain.issued() ==> chain.supply() > 0,
        !chain.issued() ==> chain.supply() == 0,
{
}

/// The smaller of a length and a bound.
pub open spec fn min_len(n: nat, keep: nat) -> nat {
    if n < keep {
        n
    } else {
        keep
    }
}

/// The hashes of the last blocks, oldest first, at most as many as configured.
pub open spec fn previous_hashes(blocks: Seq<Block>, config: ChainConfig) -> Seq<Seq<char>> {
    blocks.subrange(
        blocks.len() - min_len(blocks.len(), config.required_previous_blocks as nat),
        blocks.len() as int,
    ).map_values(|b: Block| b.hash@)
}

/// The hash that a block at the end of `blocks` must name as its predecessor.
pub open spec fn last_hash(blocks: Seq<Block>) -> Option<Seq<char>> {
    if blocks.len() == 0 {
        None
    } else {
        Some(blocks.last().hash@)
    }
}

pub open spec fn option_text_view(t: Option<String>) -> Option<Seq<char>> {
    match t {
        Some(s) => Some(s@),
        None => None,
    }
}

/// A block fits on top of `blocks`: next height, same chain, the previous
/// hashes, a proposer whose key gives its address, a valid signature of the
/// header message and the hash of its contents.
#[verifier::opaque]
pub open spec fn block_fits(blocks: Seq<Block>, config: ChainConfig, block: Block) -> bool {
    let h = block.header;
    &&& h.height == blocks.len()
    &&& h.chain_id@ == config.chain_id@
    &&& option_text_view(h.previous_hash) == last_hash(blocks)
    &&& h.previous_three_hashes.deep_view() == previous_hashes(blocks, config)
    &&& key_address(h.proposer_public_key_hex@) == Some(h.proposer@)
    &&& signature_checks(h.proposer_public_key_hex@, block.previous_signature_hex@, header_message(h))
    &&& block.hash@ == block_hash(h, block.txs@, block.previous_signature_hex@)
}

fn strings_equal(a: &Vec<String>, b: &Vec<String>) -> (r: bool)
    ensures
        r == (a.deep_view() == b.deep_view()),
{
    if a.len() != b.len() {
        assert(a.deep_view().len() != b.deep_view().len());
        return false;
    }
    let mut i: usize = 0;
    while i < a.len()
        invariant
            i <= a@.len(),
            a@.len() == b@.len(),
            forall|k: int| 0 <= k < i ==> a@[k]@ == b@[k]@,
        decreases a@.len() - i,
    {
        if !str_eq(a[i].as_str(), b[i].as_str()) {
            assert(a.deep_view()[i as int] != b.deep_view()[i as int]);
            return false;
        }
        i = i + 1;
    }
    assert(a.deep_view() =~= b.deep_view());
    true
}

proof fn lemma_nonce_set(list: Seq<(Seq<char>, u64)>, i: int, address: Seq<char>, nonce: u64)
    requires
        0 <= i < list.len(),
        list[i].0 == address,
        forall|k: int| 0 <= k < i ==> list[k].0 != address,
    ensures
        nonce_in(list.update(i, (address, nonce)), address) == nonce,
        forall|a: Seq<char>| a != address ==> nonce_in(list.update(i, (address, nonce)), a) == nonce_in(list, a),
    decreases list.len(),
{
    let upd = list.update(i, (address, nonce));
    if i > 0 {
        let rest = list.drop_first();
        assert forall|k: int| 0 <= k < i - 1 implies rest[k].0 != address by {
            assert(rest[k] == list[k + 1]);
        }
        lemma_nonce_set(rest, i - 1, address, nonce);
        assert(upd.drop_first() =~= rest.update(i - 1, (address, nonce)));
        assert(upd[0] == list[0]);
        assert forall|a: Seq<char>| a != address implies nonce_in(upd, a) == nonce_in(list, a) by {
            if list[0].0 != a {
                assert(nonce_in(upd, a) == nonce_in(upd.drop_first(), a));
                assert(nonce_in(list, a) == nonce_in(rest, a));
            }
        }
    } else {
        assert forall|a: Seq<char>| a != address implies nonce_in(upd, a) == nonce_in(list, a) by {
            assert(upd.drop_first() =~= list.drop_first());
            assert(nonce_in(upd, a) == nonce_in(upd.drop_first(), a));
            assert(nonce_in(list, a) == nonce_in(list.drop_first(), a));
        }
    }
}

proof fn lemma_nonce_push(list: Seq<(Seq<char>, u64)>, address: Seq<char>, nonce: u64)
    requires
        forall|k: int| 0 <= k < list.len() ==> list[k].0 != address,
    ensures
        nonce_in(list.push((address, nonce)), address) == nonce,
        forall|a: Seq<char>| a != address ==> nonce_in(list.push((address, nonce)), a) == nonce_in(list, a),
    decreases list.len(),
{
    let p = list.push((address, nonce));
    if list.len() > 0 {
        let rest = list.drop_first();
        assert forall|k: int| 0 <= k < rest.len() implies rest[k].0 != address by {
            assert(rest[k] == list[k + 1]);
        }
        lemma_nonce_push(rest, address, nonce);
        assert(p.drop_first() =~= rest.push((address, nonce)));
        assert(p[0] == list[0]);
        assert forall|a: Seq<char>| a != address implies nonce_in(p, a) == nonce_in(list, a) by {
            if list[0].0 != a {
                assert(nonce_in(p, a) == nonce_in(p.drop_first(), a));
                assert(nonce_in(list, a) == nonce_in(rest, a));
            }
        }
    } else {
        assert forall|a: Seq<char>| a != address implies nonce_in(p, a) == nonce_in(list, a) by {
            assert(p.drop_first() =~= list);
            assert(nonce_in(p, a) == nonce_in(p.drop_first(), a));
        }
    }
}

proof fn lemma_refusal_none_bounds(owners: Seq<Seq<char>>, ids: Seq<u64>, from: Seq<char>, i: int, k: int)
    requires
        0 <= i <= k < ids.len(),
        transfer_refusal(owners, ids, from, i) is None,
    ensures
        ids[k] < owners.len(),
    decreases k - i,
{
    if i < k {
        lemma_refusal_none_bounds(owners, ids, from, i + 1, k);
    }
}

} // verus!
