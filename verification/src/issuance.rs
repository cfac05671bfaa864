use vstd::prelude::*;
use crate::address::Address;
use crate::codec::{encode_token_metadata, decode_token_metadata, spec_encode, spec_decode,
    lemma_record_round_trip, RECORD_SIZE};
use crate::derivation::{derive_holding_address, derive_metadata_address, spec_holding_address,
    spec_metadata_address};
use crate::ledger::{Ledger, HoldingEntry, MintEntry};
use crate::metadata::{NftMetadata, TokenMetadata, RecordView, metadata_is_valid,
    spec_valid_metadata};
use crate::store::Store;

verus! {

/// Why an issuance was refused.
#[derive(Clone, Copy, Debug, PartialEq, Eq, Structural)]
pub enum IssuanceError {
    /// The mint address is already initialized.
    MintInitError,
    /// The derived holding-account address is bound to another pair.
    HoldingAccountError,
    /// The ledger refused the caller's minting authority.
    MintAuthorityError,
    /// A metadata record already exists for the mint.
    MetadataExistsError,
    /// A field of the input exceeds its reserved bound.
    InputTooLargeError,
}

/// The three addresses a successful issuance creates.
#[derive(Clone, Copy, Debug)]
pub struct IssuedToken {
    pub mint: Address,
    pub holding_account: Address,
    pub metadata_account: Address,
}

/// The record an issuance persists: the validated input plus the mint it
/// describes.
pub open spec fn spec_issued_record(mint: Seq<u8>, m: &NftMetadata) -> RecordView {
    RecordView {
        mint,
        name: m.name@,
        symbol: m.symbol@,
        uri: m.uri@,
        seller_fee_basis_points: m.seller_fee_basis_points,
        creator_address: m.creators.address@,
        creator_verified: m.creators.verified,
        creator_share: m.creators.share,
    }
}

/// Read-back fidelity: the record persisted by a successful issuance
/// decodes to exactly the validated input plus the mint reference.
pub proof fn lemma_issued_record_round_trip(mint: Seq<u8>, m: &NftMetadata)
    requires
        mint.len() == 32,
        spec_valid_metadata(m),
    ensures
        spec_decode(spec_encode(spec_issued_record(mint, m))) == Some(spec_issued_record(mint, m)),
{
    lemma_record_round_trip(spec_issued_record(mint, m));
}

/// Issues one unit of a fresh zero-precision mint to `recipient` and
/// persists the validated metadata, as one all-or-nothing operation:
/// on any error the ledger and the store are left exactly as they were.
///
/// The payer funds the created accounts and becomes the mint's minting
/// and freeze authority; the recipient need not co-sign.  The caller
/// supplies the address of the fresh mint, as generated by its host;
/// issuing twice for the same mint address fails without side effects.
pub fn issue(
    ledger: &mut Ledger,
    store: &mut Store,
    payer: &Address,
    mint_address: &Address,
    recipient: &Address,
    metadata: NftMetadata,
) -> (r: Result<IssuedToken, IssuanceError>)
    requires
        old(ledger).wf(),
        old(store).wf(),
    ensures
        final(ledger).wf(),
        final(store).wf(),
        r is Err ==> *final(ledger) == *old(ledger) && *final(store) == *old(store),
        (r == Err::<IssuedToken, IssuanceError>(IssuanceError::InputTooLargeError))
            <==> !spec_valid_metadata(&metadata),
        (r == Err::<IssuedToken, IssuanceError>(IssuanceError::MintInitError))
            <==> (spec_valid_metadata(&metadata)
                && old(ledger).mints().contains_key(mint_address@)),
        (r == Err::<IssuedToken, IssuanceError>(IssuanceError::HoldingAccountError))
            <==> (spec_valid_metadata(&metadata)
                && !old(ledger).mints().contains_key(mint_address@)
                && old(ledger).holdings().contains_key(
                    spec_holding_address(recipient@, mint_address@),
                )),
        (r == Err::<IssuedToken, IssuanceError>(IssuanceError::MetadataExistsError))
            <==> (spec_valid_metadata(&metadata)
                && !old(ledger).mints().contains_key(mint_address@)
                && !old(ledger).holdings().contains_key(
                    spec_holding_address(recipient@, mint_address@),
                )
                && old(store).records().contains_key(spec_metadata_address(mint_address@))),
        r != Err::<IssuedToken, IssuanceError>(IssuanceError::MintAuthorityError),
        r is Ok <==> (spec_valid_metadata(&metadata)
            && !old(ledger).mints().contains_key(mint_address@)
            && !old(ledger).holdings().contains_key(
                spec_holding_address(recipient@, mint_address@),
            )
            && !old(store).records().contains_key(spec_metadata_address(mint_address@))),
        r matches Ok(t) ==> t.mint@ == mint_address@
            && t.holding_account@ == spec_holding_address(recipient@, mint_address@)
            && t.metadata_account@ == spec_metadata_address(mint_address@)
            && final(ledger).mints() == old(ledger).mints().insert(
                mint_address@,
                (MintEntry {
                    address: *mint_address,
                    decimals: 0,
                    mint_authority: *payer,
                    freeze_authority: Some(*payer),
                }),
            )
            && final(ledger).holdings() == old(ledger).holdings().insert(
                t.holding_account@,
                (HoldingEntry {
                    address: t.holding_account,
                    owner: *recipient,
                    mint: *mint_address,
                    balance: 1,
                }),
            )
            && final(ledger).holdings()[t.holding_account@].balance == 1
            && final(store).records() == old(store).records().insert(
                t.metadata_account@,
                spec_encode(spec_issued_record(mint_address@, &metadata)),
            )
            && final(store).funders() == old(store).funders().insert(
                t.metadata_account@,
                payer@,
            ),
        forall|a: Seq<u8>| old(ledger).holdings().dom().contains(a)
            ==> (#[trigger] final(ledger).holdings()[a]) == old(ledger).holdings()[a]
                && final(ledger).holdings().dom().contains(a),
{
    // Validation precedes every account creation: an oversized or
    // out-of-range field is rejected with zero side effects.
    if !metadata_is_valid(&metadata) {
        return Err(IssuanceError::InputTooLargeError);
    }
    if ledger.mint_exists(mint_address) {
        return Err(IssuanceError::MintInitError);
    }
    // The mint is fresh and every holding account is bound to an
    // existing mint, so an account already at the derived address can
    // only be bound to another pair.
    let holding_address = derive_holding_address(recipient, mint_address);
    if ledger.holding_exists(&holding_address) {
        return Err(IssuanceError::HoldingAccountError);
    }
    let metadata_address = derive_metadata_address(mint_address);
    if store.is_allocated(&metadata_address) {
        return Err(IssuanceError::MetadataExistsError);
    }
    // Every failure condition has been ruled out; each step below is
    // owed success, so the sequence commits as a whole.
    match ledger.create_mint(mint_address, 0, payer, Some(*payer)) {
        Ok(_) => {},
        Err(_) => {
            proof {
                assert(false);
            }
            return Err(IssuanceError::MintInitError);
        },
    }
    let holding_account = match ledger.create_holding_account(recipient, mint_address) {
        Ok(a) => a,
        Err(_) => {
            proof {
                assert(false);
            }
            return Err(IssuanceError::HoldingAccountError);
        },
    };
    match ledger.mint_to(mint_address, &holding_account, payer, 1) {
        Ok(_) => {},
        Err(_) => {
            proof {
                assert(false);
            }
            return Err(IssuanceError::MintAuthorityError);
        },
    }
    match store.allocate(&metadata_address, RECORD_SIZE, payer) {
        Ok(_) => {},
        Err(_) => {
            proof {
                assert(false);
            }
            return Err(IssuanceError::MetadataExistsError);
        },
    }
    let record = TokenMetadata {
        mint: *mint_address,
        name: metadata.name,
        symbol: metadata.symbol,
        uri: metadata.uri,
        seller_fee_basis_points: metadata.seller_fee_basis_points,
        creator_address: metadata.creators.address,
        creator_verified: metadata.creators.verified,
        creator_share: metadata.creators.share,
    };
    let bytes = encode_token_metadata(&record);
    match store.write_record(&metadata_address, &bytes) {
        Ok(_) => {},
        Err(_) => {
            proof {
                assert(false);
            }
            return Err(IssuanceError::MetadataExistsError);
        },
    }
    proof {
        assert(ledger.holdings() =~= old(ledger).holdings().insert(
            holding_account@,
            (HoldingEntry {
                address: holding_account,
                owner: *recipient,
                mint: *mint_address,
                balance: 1,
            }),
        ));
        assert(bytes@ + crate::store::spec_zeros(0) =~= bytes@);
        assert(store.records() =~= old(store).records().insert(
            metadata_address@,
            spec_encode(spec_issued_record(mint_address@, &metadata)),
        ));
        assert(store.funders() =~= old(store).funders().insert(metadata_address@, payer@));
    }
    Ok(
        IssuedToken {
            mint: *mint_address,
            holding_account,
            metadata_account: metadata_address,
        },
    )
}

/// The metadata record at an address, read back from its durable byte
/// form.
pub fn read_token_metadata(store: &Store, address: &Address) -> (r: Option<TokenMetadata>)
    requires
        store.wf(),
    ensures
        match r {
            Some(m) => store.records().contains_key(address@) && spec_decode(
                store.records()[address@],
            ) == Some(m@),
            None => !store.records().contains_key(address@) || spec_decode(
                store.records()[address@],
            ) is None,
        },
{
    match store.read(address) {
        Some(bytes) => decode_token_metadata(&bytes),
        None => None,
    }
}

} // verus!
