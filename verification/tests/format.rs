use reward_program_dapp::address::Address;
use reward_program_dapp::codec::{decode_token_metadata, encode_token_metadata, RECORD_SIZE};
use reward_program_dapp::derivation::{derive_holding_address, derive_metadata_address};
use reward_program_dapp::metadata::TokenMetadata;

fn addr(seed: u8) -> Address {
    Address::new([seed; 32])
}

fn badge_record() -> TokenMetadata {
    TokenMetadata {
        mint: addr(3),
        name: b"Badge".to_vec(),
        symbol: b"BDG".to_vec(),
        uri: b"https://x/1.json".to_vec(),
        seller_fee_basis_points: 500,
        creator_address: addr(1),
        creator_verified: true,
        creator_share: 100,
    }
}

#[test]
fn record_layout_is_exact() {
    let bytes = encode_token_metadata(&badge_record());
    assert_eq!(bytes.len(), RECORD_SIZE);
    assert_eq!(RECORD_SIZE, 313);

    // mint: 32 bytes
    assert_eq!(&bytes[0..32], &[3u8; 32]);
    // name: length byte, data, zero padding to 32
    assert_eq!(bytes[32], 5);
    assert_eq!(&bytes[33..38], b"Badge");
    assert!(bytes[38..65].iter().all(|&b| b == 0));
    // symbol: length byte, data, zero padding to 10
    assert_eq!(bytes[65], 3);
    assert_eq!(&bytes[66..69], b"BDG");
    assert!(bytes[69..76].iter().all(|&b| b == 0));
    // uri: length byte, data, zero padding to 200
    assert_eq!(bytes[76], 16);
    assert_eq!(&bytes[77..93], b"https://x/1.json");
    assert!(bytes[93..277].iter().all(|&b| b == 0));
    // fee basis points, little endian: 500 == 1 * 256 + 244
    assert_eq!(bytes[277], 244);
    assert_eq!(bytes[278], 1);
    // creator address: 32 bytes
    assert_eq!(&bytes[279..311], &[1u8; 32]);
    // verified flag and share
    assert_eq!(bytes[311], 1);
    assert_eq!(bytes[312], 100);
}

#[test]
fn record_round_trips() {
    let record = badge_record();
    let bytes = encode_token_metadata(&record);
    let back = decode_token_metadata(&bytes).expect("an encoded record decodes");
    assert_eq!(back.mint, record.mint);
    assert_eq!(back.name, record.name);
    assert_eq!(back.symbol, record.symbol);
    assert_eq!(back.uri, record.uri);
    assert_eq!(back.seller_fee_basis_points, record.seller_fee_basis_points);
    assert_eq!(back.creator_address, record.creator_address);
    assert_eq!(back.creator_verified, record.creator_verified);
    assert_eq!(back.creator_share, record.creator_share);
}

#[test]
fn malformed_bytes_are_refused() {
    // Wrong size.
    assert!(decode_token_metadata(&vec![0u8; RECORD_SIZE - 1]).is_none());
    assert!(decode_token_metadata(&Vec::new()).is_none());

    // A length byte beyond its reserved width.
    let mut bytes = encode_token_metadata(&badge_record());
    bytes[32] = 33;
    assert!(decode_token_metadata(&bytes).is_none());

    // A verified byte that is neither 0 nor 1.
    let mut bytes = encode_token_metadata(&badge_record());
    bytes[311] = 2;
    assert!(decode_token_metadata(&bytes).is_none());
}

#[test]
fn derivation_is_deterministic() {
    let owner = addr(2);
    let mint = addr(3);
    assert_eq!(
        derive_holding_address(&owner, &mint),
        derive_holding_address(&owner, &mint),
    );
    assert_eq!(derive_metadata_address(&mint), derive_metadata_address(&mint));
}

#[test]
fn derivation_separates_inputs_and_domains() {
    let owner = addr(2);
    let mint = addr(3);
    let h = derive_holding_address(&owner, &mint);
    assert_ne!(h, derive_holding_address(&addr(9), &mint));
    assert_ne!(h, derive_holding_address(&owner, &addr(9)));
    assert_ne!(h, derive_metadata_address(&mint));
    assert_ne!(derive_metadata_address(&mint), derive_metadata_address(&addr(9)));
}
