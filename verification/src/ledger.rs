use vstd::prelude::*;
use crate::address::Address;
use crate::derivation::{derive_holding_address, spec_holding_address};
use crate::keyed::{keyed_map, unique_keys, lemma_keyed_map_contains, lemma_keyed_map_get,
    lemma_keyed_map_update};

verus! {

/// Why a ledger operation was refused.
#[derive(Clone, Copy, Debug, PartialEq, Eq, Structural)]
pub enum LedgerError {
    /// The mint address is already initialized.
    AlreadyInitialized,
    /// No mint lives at the given address.
    UnknownMint,
    /// No holding account lives at the given address.
    UnknownAccount,
    /// The account at the derived address is bound to another owner or
    /// mint, or the target account is bound to another mint.
    AccountMismatch,
    /// The caller is not the mint's minting authority.
    AuthorityMismatch,
    /// The minted amount would not fit in the account's balance.
    BalanceOverflow,
}

/// One mint: a token type with fixed fractional precision and a minting
/// authority.
#[derive(Clone, Copy, Debug)]
pub struct MintEntry {
    pub address: Address,
    pub decimals: u8,
    pub mint_authority: Address,
    pub freeze_authority: Option<Address>,
}

/// One holding account: the balance of one mint owned by one address.
#[derive(Clone, Copy, Debug)]
pub struct HoldingEntry {
    pub address: Address,
    pub owner: Address,
    pub mint: Address,
    pub balance: u64,
}

pub open spec fn mint_key() -> spec_fn(MintEntry) -> Seq<u8> {
    |e: MintEntry| e.address@
}

pub open spec fn mint_val() -> spec_fn(MintEntry) -> MintEntry {
    |e: MintEntry| e
}

pub open spec fn holding_key() -> spec_fn(HoldingEntry) -> Seq<u8> {
    |e: HoldingEntry| e.address@
}

pub open spec fn holding_val() -> spec_fn(HoldingEntry) -> HoldingEntry {
    |e: HoldingEntry| e
}

/// The ledger service: creates mints, provisions holding accounts at
/// their derived addresses, and mints units.
pub struct Ledger {
    mints: Vec<MintEntry>,
    holdings: Vec<HoldingEntry>,
}

impl Ledger {
    /// The mints, as a map from address to entry.
    pub closed spec fn mints(&self) -> Map<Seq<u8>, MintEntry> {
        keyed_map(self.mints@, mint_key(), mint_val())
    }

    /// The holding accounts, as a map from address to entry.
    pub closed spec fn holdings(&self) -> Map<Seq<u8>, HoldingEntry> {
        keyed_map(self.holdings@, holding_key(), holding_val())
    }

    /// Addresses are write-once, so each names at most one entry, and
    /// every holding account is bound to an existing mint.
    pub closed spec fn wf(&self) -> bool {
        &&& unique_keys(self.mints@, mint_key())
        &&& unique_keys(self.holdings@, holding_key())
        &&& forall|i: int|
            0 <= i < self.holdings@.len() ==> self.mints().contains_key(
                #[trigger] self.holdings@[i].mint@,
            )
    }

    /// An empty ledger.
    pub fn new() -> (l: Ledger)
        ensures
            l.wf(),
            l.mints() == Map::<Seq<u8>, MintEntry>::empty(),
            l.holdings() == Map::<Seq<u8>, HoldingEntry>::empty(),
    {
        let l = Ledger { mints: Vec::new(), holdings: Vec::new() };
        proof {
            assert(l.mints@.len() == 0);
            assert(l.holdings@.len() == 0);
        }
        l
    }

    fn find_mint(&self, address: &Address) -> (r: Option<usize>)
        ensures
            match r {
                Some(i) => i < self.mints@.len() && self.mints@[i as int].address@ == address@,
                None => forall|j: int|
                    0 <= j < self.mints@.len() ==> #[trigger] self.mints@[j].address@ != address@,
            },
    {
        let mut j: usize = 0;
        while j < self.mints.len()
            invariant
                0 <= j <= self.mints@.len(),
                forall|k: int| 0 <= k < j ==> #[trigger] self.mints@[k].address@ != address@,
            decreases self.mints@.len() - j,
        {
            if self.mints[j].address == *address {
                return Some(j);
            }
            j = j + 1;
        }
        None
    }

    fn find_holding(&self, address: &Address) -> (r: Option<usize>)
        ensures
            match r {
                Some(i) => i < self.holdings@.len() && self.holdings@[i as int].address@
                    == address@,
                None => forall|j: int|
                    0 <= j < self.holdings@.len() ==> #[trigger] self.holdings@[j].address@
                        != address@,
            },
    {
        let mut j: usize = 0;
        while j < self.holdings.len()
            invariant
                0 <= j <= self.holdings@.len(),
                forall|k: int| 0 <= k < j ==> #[trigger] self.holdings@[k].address@ != address@,
            decreases self.holdings@.len() - j,
        {
            if self.holdings[j].address == *address {
                return Some(j);
            }
            j = j + 1;
        }
        None
    }

    /// Whether a mint lives at the address.
    pub fn mint_exists(&self, address: &Address) -> (r: bool)
        ensures
            r == self.mints().contains_key(address@),
    {
        proof {
            lemma_keyed_map_contains(self.mints@, mint_key(), mint_val(), address@);
        }
        match self.find_mint(address) {
            Some(_) => true,
            None => false,
        }
    }

    /// Whether a holding account lives at the address.
    pub fn holding_exists(&self, address: &Address) -> (r: bool)
        ensures
            r == self.holdings().contains_key(address@),
    {
        proof {
            lemma_keyed_map_contains(self.holdings@, holding_key(), holding_val(), address@);
        }
        match self.find_holding(address) {
            Some(_) => true,
            None => false,
        }
    }

    /// The balance of the holding account at the address, if one exists.
    pub fn balance(&self, holding: &Address) -> (r: Option<u64>)
        requires
            self.wf(),
        ensures
            match r {
                Some(b) => self.holdings().contains_key(holding@) && b
                    == self.holdings()[holding@].balance,
                None => !self.holdings().contains_key(holding@),
            },
    {
        proof {
            lemma_keyed_map_contains(self.holdings@, holding_key(), holding_val(), holding@);
        }
        match self.find_holding(holding) {
            Some(i) => {
                proof {
                    lemma_keyed_map_get(self.holdings@, holding_key(), holding_val(), i as int);
                }
                Some(self.holdings[i].balance)
            },
            None => None,
        }
    }

    /// Creates the mint at `address`.  Fails, leaving the ledger as it
    /// was, exactly when the address is already initialized.
    pub fn create_mint(
        &mut self,
        address: &Address,
        decimals: u8,
        mint_authority: &Address,
        freeze_authority: Option<Address>,
    ) -> (r: Result<(), LedgerError>)
        requires
            old(self).wf(),
        ensures
            final(self).wf(),
            match r {
                Ok(_) => !old(self).mints().contains_key(address@) && final(self).mints() == old(
                    self,
                ).mints().insert(
                    address@,
                    (MintEntry {
                        address: *address,
                        decimals,
                        mint_authority: *mint_authority,
                        freeze_authority,
                    }),
                ) && final(self).holdings() == old(self).holdings(),
                Err(e) => e == LedgerError::AlreadyInitialized && old(self).mints().contains_key(
                    address@,
                ) && *final(self) == *old(self),
            },
    {
        proof {
            lemma_keyed_map_contains(self.mints@, mint_key(), mint_val(), address@);
        }
        match self.find_mint(address) {
            Some(_) => Err(LedgerError::AlreadyInitialized),
            None => {
                let entry = MintEntry {
                    address: *address,
                    decimals,
                    mint_authority: *mint_authority,
                    freeze_authority,
                };
                self.mints.push(entry);
                proof {
                    assert(self.mints@.drop_last() =~= old(self).mints@);
                    assert(self.mints@.last() == entry);
                    assert forall|i: int, j: int| 0 <= i < j < self.mints@.len() implies mint_key()(
                        self.mints@[i],
                    ) != mint_key()(self.mints@[j]) by {
                        if j == self.mints@.len() - 1 {
                            assert(self.mints@[i] == old(self).mints@[i]);
                        } else {
                            assert(self.mints@[i] == old(self).mints@[i]);
                            assert(self.mints@[j] == old(self).mints@[j]);
                        }
                    }
                    assert(unique_keys(self.mints@, mint_key()));
                    assert forall|i: int| 0 <= i < self.holdings@.len() implies self.mints(
                    ).contains_key(#[trigger] self.holdings@[i].mint@) by {
                        assert(old(self).mints().contains_key(self.holdings@[i].mint@));
                    }
                }
                Ok(())
            },
        }
    }

    /// Provisions the holding account for (owner, mint) at its derived
    /// address.  Creation is a no-op when the account already exists for
    /// the same pair; it fails when the mint is unknown or the derived
    /// address is bound to another pair, leaving the ledger as it was.
    pub fn create_holding_account(&mut self, owner: &Address, mint: &Address) -> (r: Result<
        Address,
        LedgerError,
    >)
        requires
            old(self).wf(),
        ensures
            final(self).wf(),
            match r {
                Ok(a) => a@ == spec_holding_address(owner@, mint@) && old(
                    self,
                ).mints().contains_key(mint@) && (if old(self).holdings().contains_key(a@) {
                    old(self).holdings()[a@].owner@ == owner@ && old(self).holdings()[a@].mint@
                        == mint@ && *final(self) == *old(self)
                } else {
                    final(self).holdings() == old(self).holdings().insert(
                        a@,
                        (HoldingEntry { address: a, owner: *owner, mint: *mint, balance: 0 }),
                    ) && final(self).mints() == old(self).mints()
                }),
                Err(e) => *final(self) == *old(self) && match e {
                    LedgerError::UnknownMint => !old(self).mints().contains_key(mint@),
                    LedgerError::AccountMismatch => old(self).mints().contains_key(mint@) && old(
                        self,
                    ).holdings().contains_key(spec_holding_address(owner@, mint@)) && (old(
                        self,
                    ).holdings()[spec_holding_address(owner@, mint@)].owner@ != owner@ || old(
                        self,
                    ).holdings()[spec_holding_address(owner@, mint@)].mint@ != mint@),
                    _ => false,
                },
            },
    {
        let h = derive_holding_address(owner, mint);
        proof {
            lemma_keyed_map_contains(self.mints@, mint_key(), mint_val(), mint@);
            lemma_keyed_map_contains(self.holdings@, holding_key(), holding_val(), h@);
        }
        match self.find_mint(mint) {
            None => Err(LedgerError::UnknownMint),
            Some(_) => {
                match self.find_holding(&h) {
                    Some(i) => {
                        proof {
                            lemma_keyed_map_get(
                                self.holdings@,
                                holding_key(),
                                holding_val(),
                                i as int,
                            );
                        }
                        let existing = self.holdings[i];
                        if existing.owner == *owner && existing.mint == *mint {
                            Ok(h)
                        } else {
                            Err(LedgerError::AccountMismatch)
                        }
                    },
                    None => {
                        let entry = HoldingEntry {
                            address: h,
                            owner: *owner,
                            mint: *mint,
                            balance: 0,
                        };
                        self.holdings.push(entry);
                        proof {
                            assert(self.holdings@.drop_last() =~= old(self).holdings@);
                            assert(self.holdings@.last() == entry);
                            assert forall|i: int, j: int|
                                0 <= i < j < self.holdings@.len() implies holding_key()(
                                self.holdings@[i],
                            ) != holding_key()(self.holdings@[j]) by {
                                if j == self.holdings@.len() - 1 {
                                    assert(self.holdings@[i] == old(self).holdings@[i]);
                                } else {
                                    assert(self.holdings@[i] == old(self).holdings@[i]);
                                    assert(self.holdings@[j] == old(self).holdings@[j]);
                                }
                            }
                            assert(unique_keys(self.holdings@, holding_key()));
                            assert(self.mints() == old(self).mints());
                            assert forall|i: int| 0 <= i < self.holdings@.len() implies self.mints(
                            ).contains_key(#[trigger] self.holdings@[i].mint@) by {
                                if i == self.holdings@.len() - 1 {
                                    assert(self.holdings@[i].mint@ == mint@);
                                } else {
                                    assert(self.holdings@[i] == old(self).holdings@[i]);
                                    assert(old(self).mints().contains_key(
                                        old(self).holdings@[i].mint@,
                                    ));
                                }
                            }
                        }
                        Ok(h)
                    },
                }
            },
        }
    }

    /// Mints `amount` units of `mint` into the holding account, under the
    /// mint's authority.  Fails, leaving the ledger as it was, exactly
    /// when the mint is unknown, the authority does not match, the
    /// account is unknown or bound to another mint, or the balance would
    /// overflow.
    pub fn mint_to(
        &mut self,
        mint: &Address,
        holding: &Address,
        authority: &Address,
        amount: u64,
    ) -> (r: Result<(), LedgerError>)
        requires
            old(self).wf(),
        ensures
            final(self).wf(),
            r is Ok <==> (old(self).mints().contains_key(mint@)
                && old(self).mints()[mint@].mint_authority@ == authority@
                && old(self).holdings().contains_key(holding@)
                && old(self).holdings()[holding@].mint@ == mint@
                && old(self).holdings()[holding@].balance + amount <= u64::MAX),
            match r {
                Ok(_) => final(self).mints() == old(self).mints() && final(self).holdings() == old(
                    self,
                ).holdings().insert(
                    holding@,
                    (HoldingEntry {
                        address: old(self).holdings()[holding@].address,
                        owner: old(self).holdings()[holding@].owner,
                        mint: old(self).holdings()[holding@].mint,
                        balance: (old(self).holdings()[holding@].balance + amount) as u64,
                    }),
                ),
                Err(e) => *final(self) == *old(self) && match e {
                    LedgerError::UnknownMint => !old(self).mints().contains_key(mint@),
                    LedgerError::AuthorityMismatch => old(self).mints().contains_key(mint@) && old(
                        self,
                    ).mints()[mint@].mint_authority@ != authority@,
                    LedgerError::UnknownAccount => old(self).mints().contains_key(mint@) && old(
                        self,
                    ).mints()[mint@].mint_authority@ == authority@ && !old(
                        self,
                    ).holdings().contains_key(holding@),
                    LedgerError::AccountMismatch => old(self).holdings().contains_key(holding@)
                        && old(self).holdings()[holding@].mint@ != mint@,
                    LedgerError::BalanceOverflow => old(self).holdings().contains_key(holding@)
                        && old(self).holdings()[holding@].balance + amount > u64::MAX,
                    _ => false,
                },
            },
    {
        proof {
            lemma_keyed_map_contains(self.mints@, mint_key(), mint_val(), mint@);
            lemma_keyed_map_contains(self.holdings@, holding_key(), holding_val(), holding@);
        }
        let mi = match self.find_mint(mint) {
            Some(i) => i,
            None => {
                return Err(LedgerError::UnknownMint);
            },
        };
        proof {
            lemma_keyed_map_get(self.mints@, mint_key(), mint_val(), mi as int);
        }
        let mentry = self.mints[mi];
        if !(mentry.mint_authority == *authority) {
            return Err(LedgerError::AuthorityMismatch);
        }
        let hi = match self.find_holding(holding) {
            Some(i) => i,
            None => {
                return Err(LedgerError::UnknownAccount);
            },
        };
        proof {
            lemma_keyed_map_get(self.holdings@, holding_key(), holding_val(), hi as int);
        }
        let hentry = self.holdings[hi];
        if !(hentry.mint == *mint) {
            return Err(LedgerError::AccountMismatch);
        }
        if amount > u64::MAX - hentry.balance {
            return Err(LedgerError::BalanceOverflow);
        }
        let updated = HoldingEntry {
            address: hentry.address,
            owner: hentry.owner,
            mint: hentry.mint,
            balance: hentry.balance + amount,
        };
        self.holdings[hi] = updated;
        proof {
            lemma_keyed_map_update(
                old(self).holdings@,
                holding_key(),
                holding_val(),
                hi as int,
                updated,
            );
            assert forall|i: int, j: int| 0 <= i < j < self.holdings@.len() implies holding_key()(
                self.holdings@[i],
            ) != holding_key()(self.holdings@[j]) by {
                assert(holding_key()(self.holdings@[i]) == holding_key()(old(self).holdings@[i]));
                assert(holding_key()(self.holdings@[j]) == holding_key()(old(self).holdings@[j]));
            }
            assert forall|i: int| 0 <= i < self.holdings@.len() implies self.mints().contains_key(
                #[trigger] self.holdings@[i].mint@,
            ) by {
                assert(self.holdings@[i].mint@ == old(self).holdings@[i].mint@);
                assert(old(self).mints().contains_key(old(self).holdings@[i].mint@));
            }
        }
        Ok(())
    }
}

} // verus!
