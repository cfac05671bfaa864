use reward_program_dapp::address::Address;
use reward_program_dapp::issuance::{issue, read_token_metadata, IssuanceError};
use reward_program_dapp::ledger::Ledger;
use reward_program_dapp::metadata::{Creator, NftMetadata};
use reward_program_dapp::store::Store;

fn addr(seed: u8) -> Address {
    Address::new([seed; 32])
}

fn badge_metadata(creator: Address) -> NftMetadata {
    NftMetadata {
        name: b"Badge".to_vec(),
        symbol: b"BDG".to_vec(),
        uri: b"https://x/1.json".to_vec(),
        seller_fee_basis_points: 500,
        creators: Creator { address: creator, verified: true, share: 100 },
    }
}

#[test]
fn issue_badge_scenario() {
    let mut ledger = Ledger::new();
    let mut store = Store::new();
    let payer = addr(1);
    let recipient = addr(2);
    let mint = addr(3);

    let token = issue(&mut ledger, &mut store, &payer, &mint, &recipient, badge_metadata(payer))
        .expect("issuance of a fresh mint succeeds");
    assert_eq!(token.mint, mint);
    assert_eq!(ledger.balance(&token.holding_account), Some(1));

    let record = read_token_metadata(&store, &token.metadata_account)
        .expect("the stored record reads back");
    assert_eq!(record.mint, mint);
    assert_eq!(record.name, b"Badge".to_vec());
    assert_eq!(record.symbol, b"BDG".to_vec());
    assert_eq!(record.uri, b"https://x/1.json".to_vec());
    assert_eq!(record.seller_fee_basis_points, 500);
    assert_eq!(record.creator_address, payer);
    assert!(record.creator_verified);
    assert_eq!(record.creator_share, 100);

    // A second issuance for the same recipient with a freshly generated
    // mint succeeds independently and yields distinct addresses.
    let mint2 = addr(4);
    let token2 = issue(&mut ledger, &mut store, &payer, &mint2, &recipient, badge_metadata(payer))
        .expect("a fresh mint issues independently");
    assert_ne!(token2.mint, token.mint);
    assert_ne!(token2.holding_account, token.holding_account);
    assert_ne!(token2.metadata_account, token.metadata_account);
    assert_eq!(ledger.balance(&token2.holding_account), Some(1));
    assert_eq!(ledger.balance(&token.holding_account), Some(1));
}

#[test]
fn duplicate_mint_rejected() {
    let mut ledger = Ledger::new();
    let mut store = Store::new();
    let payer = addr(1);
    let recipient = addr(2);
    let mint = addr(3);

    let token = issue(&mut ledger, &mut store, &payer, &mint, &recipient, badge_metadata(payer))
        .expect("first issuance succeeds");
    let second = issue(&mut ledger, &mut store, &payer, &mint, &recipient, badge_metadata(payer));
    assert_eq!(second.unwrap_err(), IssuanceError::MintInitError);

    // Nothing changed: the single unit and the stored record survive.
    assert_eq!(ledger.balance(&token.holding_account), Some(1));
    let record = read_token_metadata(&store, &token.metadata_account).unwrap();
    assert_eq!(record.name, b"Badge".to_vec());
}

#[test]
fn duplicate_rejected_for_other_recipient_too() {
    let mut ledger = Ledger::new();
    let mut store = Store::new();
    let payer = addr(1);
    let mint = addr(3);

    issue(&mut ledger, &mut store, &payer, &mint, &addr(2), badge_metadata(payer))
        .expect("first issuance succeeds");
    let second = issue(&mut ledger, &mut store, &payer, &mint, &addr(9), badge_metadata(payer));
    assert_eq!(second.unwrap_err(), IssuanceError::MintInitError);
}

#[test]
fn fee_out_of_range_rejected_without_side_effects() {
    let mut ledger = Ledger::new();
    let mut store = Store::new();
    let payer = addr(1);
    let recipient = addr(2);
    let mint = addr(3);

    let mut metadata = badge_metadata(payer);
    metadata.seller_fee_basis_points = 10001;
    let refused = issue(&mut ledger, &mut store, &payer, &mint, &recipient, metadata);
    assert_eq!(refused.unwrap_err(), IssuanceError::InputTooLargeError);

    // Zero side effects: the same mint can still be issued.
    issue(&mut ledger, &mut store, &payer, &mint, &recipient, badge_metadata(payer))
        .expect("nothing was created by the rejected attempt");
}

#[test]
fn share_out_of_range_rejected_without_side_effects() {
    let mut ledger = Ledger::new();
    let mut store = Store::new();
    let payer = addr(1);
    let recipient = addr(2);
    let mint = addr(3);

    let mut metadata = badge_metadata(payer);
    metadata.creators.share = 101;
    let refused = issue(&mut ledger, &mut store, &payer, &mint, &recipient, metadata);
    assert_eq!(refused.unwrap_err(), IssuanceError::InputTooLargeError);

    issue(&mut ledger, &mut store, &payer, &mint, &recipient, badge_metadata(payer))
        .expect("nothing was created by the rejected attempt");
}

#[test]
fn oversized_name_rejected() {
    let mut ledger = Ledger::new();
    let mut store = Store::new();
    let payer = addr(1);

    let mut metadata = badge_metadata(payer);
    metadata.name = vec![b'n'; 33];
    let refused = issue(&mut ledger, &mut store, &payer, &addr(3), &addr(2), metadata);
    assert_eq!(refused.unwrap_err(), IssuanceError::InputTooLargeError);
    issue(&mut ledger, &mut store, &payer, &addr(3), &addr(2), badge_metadata(payer))
        .expect("nothing was created by the rejected attempt");
}

#[test]
fn oversized_symbol_rejected() {
    let mut ledger = Ledger::new();
    let mut store = Store::new();
    let payer = addr(1);

    let mut metadata = badge_metadata(payer);
    metadata.symbol = vec![b's'; 11];
    let refused = issue(&mut ledger, &mut store, &payer, &addr(3), &addr(2), metadata);
    assert_eq!(refused.unwrap_err(), IssuanceError::InputTooLargeError);
}

#[test]
fn oversized_uri_rejected() {
    let mut ledger = Ledger::new();
    let mut store = Store::new();
    let payer = addr(1);

    let mut metadata = badge_metadata(payer);
    metadata.uri = vec![b'u'; 201];
    let refused = issue(&mut ledger, &mut store, &payer, &addr(3), &addr(2), metadata);
    assert_eq!(refused.unwrap_err(), IssuanceError::InputTooLargeError);
}

#[test]
fn boundary_sizes_accepted_and_read_back_exactly() {
    let mut ledger = Ledger::new();
    let mut store = Store::new();
    let payer = addr(1);
    let recipient = addr(2);
    let mint = addr(3);

    let metadata = NftMetadata {
        name: vec![b'n'; 32],
        symbol: vec![b's'; 10],
        uri: vec![b'u'; 200],
        seller_fee_basis_points: 10000,
        creators: Creator { address: addr(7), verified: false, share: 100 },
    };
    let token = issue(&mut ledger, &mut store, &payer, &mint, &recipient, metadata)
        .expect("fields at their exact bounds are accepted");

    let record = read_token_metadata(&store, &token.metadata_account).unwrap();
    assert_eq!(record.name, vec![b'n'; 32]);
    assert_eq!(record.symbol, vec![b's'; 10]);
    assert_eq!(record.uri, vec![b'u'; 200]);
    assert_eq!(record.seller_fee_basis_points, 10000);
    assert_eq!(record.creator_address, addr(7));
    assert!(!record.creator_verified);
    assert_eq!(record.creator_share, 100);
}

#[test]
fn empty_strings_accepted() {
    let mut ledger = Ledger::new();
    let mut store = Store::new();
    let payer = addr(1);

    let metadata = NftMetadata {
        name: Vec::new(),
        symbol: Vec::new(),
        uri: Vec::new(),
        seller_fee_basis_points: 0,
        creators: Creator { address: addr(7), verified: false, share: 0 },
    };
    let token = issue(&mut ledger, &mut store, &payer, &addr(3), &addr(2), metadata)
        .expect("empty descriptive fields are within bounds");
    let record = read_token_metadata(&store, &token.metadata_account).unwrap();
    assert_eq!(record.name, Vec::<u8>::new());
    assert_eq!(record.symbol, Vec::<u8>::new());
    assert_eq!(record.uri, Vec::<u8>::new());
    assert_eq!(record.seller_fee_basis_points, 0);
    assert_eq!(record.creator_share, 0);
}

#[test]
fn metadata_collision_rejected_before_any_mutation() {
    let mut ledger = Ledger::new();
    let mut store = Store::new();
    let payer = addr(1);
    let recipient = addr(2);
    let mint = addr(3);

    // Occupy the derived metadata address up front: the issuance must
    // refuse the duplicate and leave the ledger untouched.
    let meta = reward_program_dapp::derivation::derive_metadata_address(&mint);
    store.allocate(&meta, 8, &payer).unwrap();

    let refused = issue(&mut ledger, &mut store, &payer, &mint, &recipient, badge_metadata(payer));
    assert_eq!(refused.unwrap_err(), IssuanceError::MetadataExistsError);
    assert!(!ledger.mint_exists(&mint));
}
