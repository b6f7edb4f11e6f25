use vstd::prelude::*;

use crate::key::Pubkey;
use crate::scale::{scale_amount, scaled};

verus! {

/// Seed of the singleton configuration record's derived address.
pub const GLOBAL_SEED: &'static str = "global";

/// Seed that, with a user's identity, derives the address of that user's record.
pub const CLAIM_RECORD_SEED: &'static str = "claim_seed";

/// Seed of the token mint's derived address.
pub const MINT_SEED: &'static str = "mint";

/// Failures of the claim program. Every one of them leaves all state as it was.
#[derive(Clone, Copy, Debug, PartialEq, Eq, Structural)]
pub enum Errors {
    /// The caller is not the configured authority, or not the record's owner.
    NotAuthorized,
    /// The configuration was initialized before.
    AlreadyInitialized,
    /// The configuration has not been initialized.
    NotInitialized,
    /// Claiming is switched off.
    NotEnabled,
    /// Reserved for a mint that is not the program's own.
    NotInvalidMintKey,
    /// The entitlement is zero.
    NotSufficientAmount,
    /// The entitlement record handed in does not exist.
    AccountNotInitialized,
    /// The amount in base units does not fit in a `u64`.
    ArithmeticOverflow,
}

/// The singleton configuration record.
#[derive(Clone, Copy, Debug)]
pub struct Global {
    pub initialized: bool,
    pub authority: Pubkey,
    pub is_enabled: bool,
}

/// One user's entitlement record: the whole-token amount that `owner` may claim.
#[derive(Clone, Copy, Debug)]
pub struct UserTokenAmount {
    pub owner: Pubkey,
    pub amount: u64,
}

/// The accounts of an `initialize` call: the signer becomes the authority.
#[derive(Clone, Copy, Debug)]
pub struct Initialize {
    pub signer: Pubkey,
}

/// The accounts of a `set_enabled` call.
#[derive(Clone, Copy, Debug)]
pub struct SetEnabled {
    pub signer: Pubkey,
}

/// The accounts of an `update_user_amount` call.
#[derive(Clone, Copy, Debug)]
pub struct UpdateUserAmount {
    pub signer: Pubkey,
}

/// The accounts of a `claim_token` call: the claiming signer, the authority that
/// co-signs, the owner named by the entitlement record handed in, and the
/// decimal precision of the mint.
#[derive(Clone, Copy, Debug)]
pub struct ClaimToken {
    pub signer: Pubkey,
    pub authority: Pubkey,
    pub record_owner: Pubkey,
    pub mint_decimals: u8,
}

/// What a successful claim hands to the token program: `amount` base units go
/// from the program's reserve to `recipient`'s token account, and the closed
/// record's deposit goes back to `rent_receiver`.
#[derive(Clone, Copy, Debug)]
pub struct Payout {
    pub recipient: Pubkey,
    pub rent_receiver: Pubkey,
    pub amount: u64,
}

/// The program's state as mathematics: the configuration and a map from each
/// user's identity to that user's entitlement.
pub struct LedgerModel {
    pub initialized: bool,
    pub authority: Seq<u8>,
    pub is_enabled: bool,
    pub records: Map<Seq<u8>, u64>,
}

/// `initialize`: the signer becomes the authority, once.
pub open spec fn initialize_step(s: LedgerModel, signer: Seq<u8>) -> Result<LedgerModel, Errors> {
    if s.initialized {
        Err(Errors::AlreadyInitialized)
    } else {
        Ok(LedgerModel { initialized: true, authority: signer, is_enabled: false, ..s })
    }
}

/// The checks shared by the authority's operations.
pub open spec fn authority_check(s: LedgerModel, signer: Seq<u8>) -> Option<Errors> {
    if !s.initialized {
        Some(Errors::NotInitialized)
    } else if s.authority != signer {
        Some(Errors::NotAuthorized)
    } else {
        None
    }
}

/// `set_enabled`: the authority switches claiming on or off.
pub open spec fn set_enabled_step(s: LedgerModel, signer: Seq<u8>, enabled: bool) -> Result<
    LedgerModel,
    Errors,
> {
    match authority_check(s, signer) {
        Some(e) => Err(e),
        None => Ok(LedgerModel { is_enabled: enabled, ..s }),
    }
}

/// `update_user_amount`: the authority sets a user's entitlement, replacing any
/// earlier one.
pub open spec fn update_step(s: LedgerModel, signer: Seq<u8>, user: Seq<u8>, amount: u64) -> Result<
    LedgerModel,
    Errors,
> {
    match authority_check(s, signer) {
        Some(e) => Err(e),
        None => Ok(LedgerModel { records: s.records.insert(user, amount), ..s }),
    }
}

/// `claim_token`: on success, the new state, without the claimed record, and
/// the number of base units paid out.
pub open spec fn claim_step(
    s: LedgerModel,
    signer: Seq<u8>,
    authority: Seq<u8>,
    record_owner: Seq<u8>,
    decimals: u8,
) -> Result<(LedgerModel, nat), Errors> {
    if !s.initialized {
        Err(Errors::NotInitialized)
    } else if !s.is_enabled {
        Err(Errors::NotEnabled)
    } else if s.authority != authority {
        Err(Errors::NotAuthorized)
    } else if !s.records.contains_key(record_owner) {
        Err(Errors::AccountNotInitialized)
    } else if record_owner != signer {
        Err(Errors::NotAuthorized)
    } else if s.records[record_owner] == 0 {
        Err(Errors::NotSufficientAmount)
    } else if scaled(s.records[record_owner], decimals) > u64::MAX {
        Err(Errors::ArithmeticOverflow)
    } else {
        Ok(
            (
                LedgerModel { records: s.records.remove(record_owner), ..s },
                scaled(s.records[record_owner], decimals),
            ),
        )
    }
}

/// `records` holds no owner twice, and `model` maps exactly its owners to their
/// amounts.
spec fn keyed_by_owner(records: Seq<UserTokenAmount>, model: Map<Seq<u8>, u64>) -> bool {
    &&& forall|i: int, j: int|
        0 <= i < j < records.len() ==> records[i].owner@ != records[j].owner@
    &&& forall|i: int|
        0 <= i < records.len() ==> #[trigger] model.contains_key(records[i].owner@)
            && model[records[i].owner@] == records[i].amount
    &&& forall|k: Seq<u8>|
        #[trigger] model.contains_key(k) ==> exists|i: int|
            0 <= i < records.len() && records[i].owner@ == k
}

/// The program's accounts: the configuration and the entitlement records, at
/// most one per owner.
pub struct Ledger {
    pub global: Global,
    records: Vec<UserTokenAmount>,
    model: Ghost<Map<Seq<u8>, u64>>,
}

impl View for Ledger {
    type V = LedgerModel;

    closed spec fn view(&self) -> LedgerModel {
        LedgerModel {
            initialized: self.global.initialized,
            authority: self.global.authority@,
            is_enabled: self.global.is_enabled,
            records: self.model@,
        }
    }
}

impl Ledger {
    /// The records are keyed by owner: no owner twice, and the map holds
    /// exactly the stored records.
    pub closed spec fn wf(&self) -> bool {
        keyed_by_owner(self.records@, self.model@)
    }

    /// A ledger before deployment: nothing initialized, no records.
    pub fn new() -> (r: Ledger)
        ensures
            r.wf(),
            !r@.initialized,
            !r@.is_enabled,
            r@.records == Map::<Seq<u8>, u64>::empty(),
    {
        Ledger {
            global: Global { initialized: false, authority: Pubkey::zero(), is_enabled: false },
            records: Vec::new(),
            model: Ghost(Map::empty()),
        }
    }

    /// The ledger as one instruction sees it: the configuration and, where one
    /// was handed in, a single entitlement record.
    pub fn from_accounts(global: Global, record: Option<UserTokenAmount>) -> (r: Ledger)
        ensures
            r.wf(),
            r@.initialized == global.initialized,
            r@.authority == global.authority@,
            r@.is_enabled == global.is_enabled,
            r@.records == (match record {
                Some(u) => Map::<Seq<u8>, u64>::empty().insert(u.owner@, u.amount),
                None => Map::<Seq<u8>, u64>::empty(),
            }),
    {
        let mut r = Ledger { global, records: Vec::new(), model: Ghost(Map::empty()) };
        match record {
            Some(u) => r.upsert_record(u.owner, u.amount),
            None => {},
        }
        r
    }

    /// The stored record of `owner`, if there is one.
    pub fn record_of(&self, owner: &Pubkey) -> (r: Option<UserTokenAmount>)
        requires
            self.wf(),
        ensures
            match r {
                Some(u) => self@.records.contains_key(owner@) && u.owner@ == owner@ && u.amount
                    == self@.records[owner@],
                None => !self@.records.contains_key(owner@),
            },
    {
        match self.find(owner) {
            Some(i) => {
                proof {
                    assert(self.model@.contains_key(self.records@[i as int].owner@));
                }
                Some(self.records[i])
            },
            None => None,
        }
    }

    /// Number of entitlement records.
    pub fn record_count(&self) -> (r: usize)
        requires
            self.wf(),
        ensures
            r == self@.records.len(),
    {
        proof {
            self.lemma_len();
        }
        self.records.len()
    }

    proof fn lemma_len(&self)
        requires
            self.wf(),
        ensures
            self.model@.len() == self.records@.len(),
    {
        let owners = Seq::new(self.records@.len(), |i: int| self.records@[i].owner@);
        assert(owners.no_duplicates());
        owners.unique_seq_to_set();
        assert(owners.to_set() =~= self.model@.dom()) by {
            assert forall|k: Seq<u8>| owners.to_set().contains(k) implies self.model@.dom().contains(
                k,
            ) by {
                let i = choose|i: int| 0 <= i < owners.len() && owners[i] == k;
                assert(self.model@.contains_key(self.records@[i].owner@));
            }
            assert forall|k: Seq<u8>| self.model@.dom().contains(k) implies owners.to_set().contains(
                k,
            ) by {
                assert(self.model@.contains_key(k));
                let i = choose|i: int| 0 <= i < self.records@.len() && self.records@[i].owner@ == k;
                assert(owners[i] == k);
            }
        }
    }

    /// Position of `owner`'s record.
    fn find(&self, owner: &Pubkey) -> (r: Option<usize>)
        requires
            self.wf(),
        ensures
            r matches Some(i) ==> i < self.records@.len() && self.records@[i as int].owner@
                == owner@,
            r is None ==> !self@.records.contains_key(owner@),
    {
        let mut i: usize = 0;
        while i < self.records.len()
            invariant
                i <= self.records@.len(),
                forall|j: int| 0 <= j < i ==> self.records@[j].owner@ != owner@,
            decreases self.records@.len() - i,
        {
            if self.records[i].owner.same_as(owner) {
                return Some(i);
            }
            i = i + 1;
        }
        None
    }

    /// The entitlement recorded for `user`, if there is a record.
    pub fn amount_of(&self, user: &Pubkey) -> (r: Option<u64>)
        requires
            self.wf(),
        ensures
            r == (if self@.records.contains_key(user@) {
                Some(self@.records[user@])
            } else {
                None
            }),
    {
        match self.find(user) {
            Some(i) => Some(self.records[i].amount),
            None => None,
        }
    }

    /// Takes out the record at `i`.
    fn remove_record(&mut self, i: usize)
        requires
            old(self).wf(),
            i < old(self).records@.len(),
        ensures
            final(self).wf(),
            final(self).global == old(self).global,
            final(self)@.records == old(self)@.records.remove(old(self).records@[i as int].owner@),
    {
        let ghost old_records = self.records@;
        let ghost k = old_records[i as int].owner@;
        self.records.remove(i);
        self.model = Ghost(self.model@.remove(k));
        assert forall|j: int|
            0 <= j < self.records@.len() implies #[trigger] self.model@.contains_key(
            self.records@[j].owner@,
        ) && self.model@[self.records@[j].owner@] == self.records@[j].amount by {
            if j < i {
                assert(self.records@[j] == old_records[j]);
            } else {
                assert(self.records@[j] == old_records[j + 1]);
            }
        }
        assert forall|kk: Seq<u8>| #[trigger] self.model@.contains_key(kk) implies exists|j: int|
            0 <= j < self.records@.len() && self.records@[j].owner@ == kk by {
            let j = choose|j: int| 0 <= j < old_records.len() && old_records[j].owner@ == kk;
            if j < i {
                assert(self.records@[j] == old_records[j]);
            } else {
                assert(self.records@[j - 1] == old_records[j]);
            }
        }
    }

    /// Creates or overwrites `owner`'s record.
    fn upsert_record(&mut self, owner: Pubkey, amount: u64)
        requires
            old(self).wf(),
        ensures
            final(self).wf(),
            final(self).global == old(self).global,
            final(self)@.records == old(self)@.records.insert(owner@, amount),
    {
        let ghost original = self.model@;
        match self.find(&owner) {
            Some(i) => {
                self.remove_record(i);
            },
            None => {},
        }
        assert(!self.model@.contains_key(owner@));
        let ghost before = self.records@;
        self.records.push(UserTokenAmount { owner, amount });
        self.model = Ghost(self.model@.insert(owner@, amount));
        assert(self.model@ =~= original.insert(owner@, amount));
        assert forall|j: int|
            0 <= j < self.records@.len() implies #[trigger] self.model@.contains_key(
            self.records@[j].owner@,
        ) && self.model@[self.records@[j].owner@] == self.records@[j].amount by {
            if j < before.len() {
                assert(self.records@[j] == before[j]);
            }
        }
        assert forall|kk: Seq<u8>| #[trigger] self.model@.contains_key(kk) implies exists|j: int|
            0 <= j < self.records@.len() && self.records@[j].owner@ == kk by {
            if kk != owner@ {
                let j = choose|j: int| 0 <= j < before.len() && before[j].owner@ == kk;
                assert(self.records@[j] == before[j]);
            } else {
                assert(self.records@[before.len() as int].owner@ == kk);
            }
        }
        assert forall|a: int, b: int|
            0 <= a < b < self.records@.len() implies self.records@[a].owner@
            != self.records@[b].owner@ by {
            if b == before.len() {
                assert(self.records@[a] == before[a]);
            }
        }
    }
}

/// Creates the configuration: the signer becomes the authority and claiming
/// starts switched off. Fails with `AlreadyInitialized`, changing nothing, once
/// the configuration exists.
pub fn initialize(ledger: &mut Ledger, ctx: &Initialize) -> (r: Result<(), Errors>)
    requires
        old(ledger).wf(),
    ensures
        final(ledger).wf(),
        match r {
            Ok(()) => initialize_step(old(ledger)@, ctx.signer@) == Ok::<LedgerModel, Errors>(
                final(ledger)@,
            ),
            Err(e) => initialize_step(old(ledger)@, ctx.signer@) == Err::<LedgerModel, Errors>(e)
                && final(ledger)@ == old(ledger)@,
        },
{
    if ledger.global.initialized {
        return Err(Errors::AlreadyInitialized);
    }
    ledger.global = Global { initialized: true, authority: ctx.signer, is_enabled: false };
    Ok(())
}

/// The configured authority switches claiming on or off.
pub fn set_enabled(ledger: &mut Ledger, ctx: &SetEnabled, enabled: bool) -> (r: Result<(), Errors>)
    requires
        old(ledger).wf(),
    ensures
        final(ledger).wf(),
        match r {
            Ok(()) => set_enabled_step(old(ledger)@, ctx.signer@, enabled) == Ok::<
                LedgerModel,
                Errors,
            >(final(ledger)@),
            Err(e) => set_enabled_step(old(ledger)@, ctx.signer@, enabled) == Err::<
                LedgerModel,
                Errors,
            >(e) && final(ledger)@ == old(ledger)@,
        },
{
    if !ledger.global.initialized {
        return Err(Errors::NotInitialized);
    }
    if !ledger.global.authority.same_as(&ctx.signer) {
        return Err(Errors::NotAuthorized);
    }
    ledger.global.is_enabled = enabled;
    Ok(())
}

/// The configured authority sets `user`'s entitlement to `amount`, creating the
/// record or overwriting the one there.
pub fn update_user_amount(
    ledger: &mut Ledger,
    ctx: &UpdateUserAmount,
    user: Pubkey,
    amount: u64,
) -> (r: Result<(), Errors>)
    requires
        old(ledger).wf(),
    ensures
        final(ledger).wf(),
        match r {
            Ok(()) => update_step(old(ledger)@, ctx.signer@, user@, amount) == Ok::<
                LedgerModel,
                Errors,
            >(final(ledger)@),
            Err(e) => update_step(old(ledger)@, ctx.signer@, user@, amount) == Err::<
                LedgerModel,
                Errors,
            >(e) && final(ledger)@ == old(ledger)@,
        },
{
    if !ledger.global.initialized {
        return Err(Errors::NotInitialized);
    }
    if !ledger.global.authority.same_as(&ctx.signer) {
        return Err(Errors::NotAuthorized);
    }
    ledger.upsert_record(user, amount);
    Ok(())
}

/// The signer claims the whole of its entitlement: the record is closed and
/// the entitlement, in base units of the mint, is paid out to the signer.
pub fn claim_token(ledger: &mut Ledger, ctx: &ClaimToken) -> (r: Result<Payout, Errors>)
    requires
        old(ledger).wf(),
    ensures
        final(ledger).wf(),
        match r {
            Ok(p) => claim_step(
                old(ledger)@,
                ctx.signer@,
                ctx.authority@,
                ctx.record_owner@,
                ctx.mint_decimals,
            ) == Ok::<(LedgerModel, nat), Errors>((final(ledger)@, p.amount as nat))
                && p.recipient@ == ctx.signer@ && p.rent_receiver@ == ctx.authority@,
            Err(e) => claim_step(
                old(ledger)@,
                ctx.signer@,
                ctx.authority@,
                ctx.record_owner@,
                ctx.mint_decimals,
            ) == Err::<(LedgerModel, nat), Errors>(e) && final(ledger)@ == old(ledger)@,
        },
{
    if !ledger.global.initialized {
        return Err(Errors::NotInitialized);
    }
    if !ledger.global.is_enabled {
        return Err(Errors::NotEnabled);
    }
    if !ledger.global.authority.same_as(&ctx.authority) {
        return Err(Errors::NotAuthorized);
    }
    let i = match ledger.find(&ctx.record_owner) {
        Some(i) => i,
        None => {
            return Err(Errors::AccountNotInitialized);
        },
    };
    let record = ledger.records[i];
    proof {
        assert(ledger.model@.contains_key(ledger.records@[i as int].owner@));
    }
    if !record.owner.same_as(&ctx.signer) {
        return Err(Errors::NotAuthorized);
    }
    if record.amount == 0 {
        return Err(Errors::NotSufficientAmount);
    }
    let amount = match scale_amount(record.amount, ctx.mint_decimals) {
        Some(v) => v,
        None => {
            return Err(Errors::ArithmeticOverflow);
        },
    };
    ledger.remove_record(i);
    Ok(Payout { recipient: ctx.signer, rent_receiver: ctx.authority, amount })
}

} // verus!
