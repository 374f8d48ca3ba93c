use arbscanner::chain::{ATokenChain, ChainConfig};
use arbscanner::crypto::{sha256_hex, verify_signature_hex, Wallet};
use arbscanner::errors::ATokenError;
use arbscanner::model::{SignedTx, TokenMetadata, UnsignedTx};
use arbscanner::storage::{replay_from_store, BlockStore, InMemoryBlockStore};

fn metadata() -> TokenMetadata {
    TokenMetadata {
        name: "AToken".to_string(),
        symbol: "ATKN".to_string(),
        description: "Test token".to_string(),
        decimals: 0,
        issuer: String::new(),
    }
}

#[test]
fn mint_once_and_transfer_works() {
    let issuer = Wallet::generate();
    let alice = Wallet::generate();
    let config = ChainConfig::new("AToken-local", issuer.address());
    let mut chain = ATokenChain::new(config);

    let mint = SignedTx::sign(
        UnsignedTx::mint(issuer.address(), chain.next_nonce(&issuer.address()), 10, metadata()),
        &issuer,
    )
    .unwrap();
    let b0 = chain.build_block(&issuer, vec![mint]).unwrap();
    chain.append_block(b0).unwrap();

    let token_ids = chain.tokens_of(&issuer.address());
    let transfer = SignedTx::sign(
        UnsignedTx::transfer(
            issuer.address(),
            chain.next_nonce(&issuer.address()),
            alice.address(),
            token_ids.into_iter().take(4).collect(),
        ),
        &issuer,
    )
    .unwrap();
    let b1 = chain.build_block(&issuer, vec![transfer]).unwrap();
    chain.append_block(b1).unwrap();

    assert_eq!(chain.total_supply(), 10);
    assert_eq!(chain.balance_of(&issuer.address()), 6);
    assert_eq!(chain.balance_of(&alice.address()), 4);
}

#[test]
fn second_mint_is_rejected() {
    let issuer = Wallet::generate();
    let config = ChainConfig::new("AToken-local", issuer.address());
    let mut chain = ATokenChain::new(config);

    let mint1 = SignedTx::sign(
        UnsignedTx::mint(issuer.address(), chain.next_nonce(&issuer.address()), 3, metadata()),
        &issuer,
    )
    .unwrap();
    let b0 = chain.build_block(&issuer, vec![mint1]).unwrap();
    chain.append_block(b0).unwrap();

    let mint2 = SignedTx::sign(
        UnsignedTx::mint(issuer.address(), chain.next_nonce(&issuer.address()), 3, metadata()),
        &issuer,
    )
    .unwrap();
    let b1 = chain.build_block(&issuer, vec![mint2]).unwrap();
    let err = chain.append_block(b1).unwrap_err();
    assert!(matches!(err, ATokenError::AlreadyIssued));
}

#[test]
fn ownership_queries_after_a_transfer() {
    let issuer = Wallet::generate();
    let bob = Wallet::generate();
    let mut chain = ATokenChain::new(ChainConfig::new("AToken-local", issuer.address()));
    assert!(chain.metadata().is_none());
    assert_eq!(chain.owner_of(0), None);
    let mint = SignedTx::sign(UnsignedTx::mint(issuer.address(), 1, 5, metadata()), &issuer).unwrap();
    chain.append_block(chain.build_block(&issuer, vec![mint]).unwrap()).unwrap();
    assert_eq!(chain.metadata().unwrap().issuer, issuer.address());
    assert_eq!(chain.metadata().unwrap().name, "AToken");
    let t = SignedTx::sign(UnsignedTx::transfer(issuer.address(), 2, bob.address(), vec![3, 1]), &issuer).unwrap();
    chain.append_block(chain.build_block(&issuer, vec![t]).unwrap()).unwrap();
    assert_eq!(chain.tokens_of(&bob.address()), vec![1, 3]);
    assert_eq!(chain.tokens_of(&issuer.address()), vec![0, 2, 4]);
    assert_eq!(chain.owner_of(3), Some(&bob.address()));
    assert_eq!(chain.owner_of(5), None);
    assert_eq!(chain.next_nonce(&issuer.address()), 3);
    assert_eq!(chain.next_nonce(&bob.address()), 1);
    assert_eq!(chain.blocks.len(), 2);
    assert_eq!(chain.expected_previous_three_hashes().len(), 2);
}

#[test]
fn refused_transactions_leave_the_chain_unchanged() {
    let issuer = Wallet::generate();
    let eve = Wallet::generate();
    let mut chain = ATokenChain::new(ChainConfig::new("AToken-local", issuer.address()));
    let early = SignedTx::sign(UnsignedTx::transfer(issuer.address(), 1, eve.address(), vec![0]), &issuer).unwrap();
    let err = chain.append_block(chain.build_block(&issuer, vec![early]).unwrap()).unwrap_err();
    assert!(matches!(err, ATokenError::TokenNotIssued));
    assert_eq!(chain.blocks.len(), 0);

    let bad_mint = SignedTx::sign(UnsignedTx::mint(eve.address(), 1, 5, metadata()), &eve).unwrap();
    let err = chain.append_block(chain.build_block(&eve, vec![bad_mint]).unwrap()).unwrap_err();
    assert!(matches!(err, ATokenError::MintNotAllowed));

    let zero = SignedTx::sign(UnsignedTx::mint(issuer.address(), 1, 0, metadata()), &issuer).unwrap();
    let err = chain.append_block(chain.build_block(&issuer, vec![zero]).unwrap()).unwrap_err();
    assert!(matches!(err, ATokenError::MintAmountMustBePositive));

    let wrong_nonce = SignedTx::sign(UnsignedTx::mint(issuer.address(), 5, 2, metadata()), &issuer).unwrap();
    let err = chain.append_block(chain.build_block(&issuer, vec![wrong_nonce]).unwrap()).unwrap_err();
    assert!(matches!(err, ATokenError::NonceMismatch { expected: 1, actual: 5 }));

    let mint = SignedTx::sign(UnsignedTx::mint(issuer.address(), 1, 2, metadata()), &issuer).unwrap();
    chain.append_block(chain.build_block(&issuer, vec![mint]).unwrap()).unwrap();

    let dup = SignedTx::sign(UnsignedTx::transfer(issuer.address(), 2, eve.address(), vec![1, 1]), &issuer).unwrap();
    let err = chain.append_block(chain.build_block(&issuer, vec![dup]).unwrap()).unwrap_err();
    assert!(matches!(err, ATokenError::DuplicateTokenId(1)));
    let unknown = SignedTx::sign(UnsignedTx::transfer(issuer.address(), 2, eve.address(), vec![7]), &issuer).unwrap();
    let err = chain.append_block(chain.build_block(&issuer, vec![unknown]).unwrap()).unwrap_err();
    assert!(matches!(err, ATokenError::UnknownToken(7)));
    let empty = SignedTx::sign(UnsignedTx::transfer(issuer.address(), 2, eve.address(), vec![]), &issuer).unwrap();
    let err = chain.append_block(chain.build_block(&issuer, vec![empty]).unwrap()).unwrap_err();
    assert!(matches!(err, ATokenError::EmptyTransfer));
    let theft = SignedTx::sign(UnsignedTx::transfer(eve.address(), 1, eve.address(), vec![0]), &eve).unwrap();
    let err = chain.append_block(chain.build_block(&eve, vec![theft]).unwrap()).unwrap_err();
    assert!(matches!(err, ATokenError::NotTokenOwner { token_id: 0 }));
    assert_eq!(chain.blocks.len(), 1);
    assert_eq!(chain.balance_of(&issuer.address()), 2);
}


#[test]
fn tampered_blocks_are_refused() {
    let issuer = Wallet::generate();
    let mut chain = ATokenChain::new(ChainConfig::new("AToken-local", issuer.address()));
    let mint = SignedTx::sign(UnsignedTx::mint(issuer.address(), 1, 2, metadata()), &issuer).unwrap();
    let good = chain.build_block(&issuer, vec![mint]).unwrap();

    let mut wrong_height = good.clone();
    wrong_height.header.height = 4;
    assert!(matches!(chain.append_block(wrong_height).unwrap_err(), ATokenError::InvalidBlockHeight { expected: 0, actual: 4 }));

    let mut wrong_chain = good.clone();
    wrong_chain.header.chain_id = "other".to_string();
    assert!(matches!(chain.append_block(wrong_chain).unwrap_err(), ATokenError::InvalidChainId { .. }));

    let mut wrong_hash = good.clone();
    wrong_hash.hash = "00".to_string();
    assert!(matches!(chain.append_block(wrong_hash).unwrap_err(), ATokenError::BlockHashMismatch));

    let mut wrong_previous = good.clone();
    wrong_previous.header.previous_hash = Some("ab".to_string());
    assert!(matches!(chain.append_block(wrong_previous).unwrap_err(), ATokenError::PreviousHashMismatch));

    let mut wrong_signature = good.clone();
    wrong_signature.previous_signature_hex = "zz".to_string();
    assert!(matches!(chain.append_block(wrong_signature).unwrap_err(), ATokenError::HexDecode(_)));

    let mut wrong_id = good.clone();
    wrong_id.txs[0].id = "11".to_string();
    wrong_id.hash = arbscanner::model::Block::calculate_hash(&wrong_id.header, &wrong_id.txs, &wrong_id.previous_signature_hex);
    assert!(matches!(chain.append_block(wrong_id).unwrap_err(), ATokenError::TransactionIdMismatch));

    chain.append_block(good).unwrap();
    assert_eq!(chain.total_supply(), 2);
}

#[test]
fn replay_rebuilds_the_chain() {
    let issuer = Wallet::generate();
    let mut chain = ATokenChain::new(ChainConfig::new("AToken-local", issuer.address()));
    let mut store = InMemoryBlockStore::new();
    let mint = SignedTx::sign(UnsignedTx::mint(issuer.address(), 1, 3, metadata()), &issuer).unwrap();
    let block = chain.build_block(&issuer, vec![mint]).unwrap();
    chain.append_block(block.clone()).unwrap();
    store.save_block(&block).unwrap();
    assert_eq!(store.len(), 1);

    let mut copy = ATokenChain::new(ChainConfig::new("AToken-local", issuer.address()));
    replay_from_store(&mut copy, &store).unwrap();
    assert_eq!(copy.total_supply(), 3);
    assert_eq!(copy.balance_of(&issuer.address()), 3);
    assert_eq!(copy.blocks.len(), 1);
}

#[test]
fn wallets_and_signatures() {
    let w = Wallet::from_private_key_hex(&"07".repeat(32)).unwrap();
    assert_eq!(w.private_key_hex(), "07".repeat(32));
    assert_eq!(w.address().len(), 40);
    assert_eq!(w.public_key_hex().len(), 64);
    let sig = w.sign_hex(b"hello");
    assert_eq!(sig.len(), 128);
    assert!(verify_signature_hex(&w.public_key_hex(), &sig, b"hello").is_ok());
    assert!(matches!(verify_signature_hex(&w.public_key_hex(), &sig, b"other"), Err(ATokenError::InvalidSignature)));
    assert!(matches!(Wallet::from_private_key_hex("0707"), Err(ATokenError::InvalidPrivateKeyLength(2))));
    assert!(matches!(Wallet::from_private_key_hex("xyz"), Err(ATokenError::HexDecode(_))));
    assert_eq!(sha256_hex(b"abc"), "ba7816bf8f01cfea414140de5dae2223b00361a396177a9cb410ff61f20015ad");
    let other = Wallet::generate();
    assert!(matches!(
        SignedTx::sign(UnsignedTx::mint(other.address(), 1, 1, metadata()), &w),
        Err(ATokenError::InvalidSender)
    ));
}
