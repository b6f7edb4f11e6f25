use vstd::prelude::*;

use crate::claim::{
    claim_step, initialize_step, update_step, Errors, LedgerModel,
};
use crate::scale::scaled;

verus! {

/// A user with a positive entitlement that fits in base units claims it once:
/// the payout is the entitlement times `10^decimals`, the user's record is gone,
/// and no later claim by that user succeeds, whatever accounts it names.
pub proof fn claim_succeeds_once(
    s: LedgerModel,
    user: Seq<u8>,
    authority: Seq<u8>,
    decimals: u8,
)
    requires
        s.initialized,
        s.is_enabled,
        s.authority == authority,
        s.records.contains_key(user),
        s.records[user] > 0,
        scaled(s.records[user], decimals) <= u64::MAX,
    ensures
        claim_step(s, user, authority, user, decimals) matches Ok((t, paid)) && paid == scaled(
            s.records[user],
            decimals,
        ) && !t.records.contains_key(user) && forall|a: Seq<u8>, owner: Seq<u8>, d: u8|
            #[trigger] claim_step(t, user, a, owner, d) is Err,
{
    let t = LedgerModel { records: s.records.remove(user), ..s };
    assert forall|a: Seq<u8>, owner: Seq<u8>, d: u8| #[trigger]
        claim_step(t, user, a, owner, d) is Err by {
        if t.records.contains_key(owner) {
            assert(owner != user);
        }
    }
}

/// Setting the same entitlement twice leaves the state that setting it once
/// left.
pub proof fn update_is_idempotent(s: LedgerModel, signer: Seq<u8>, user: Seq<u8>, amount: u64)
    ensures
        update_step(s, signer, user, amount) matches Ok(t) ==> update_step(
            t,
            signer,
            user,
            amount,
        ) == Ok::<LedgerModel, Errors>(t),
{
    if let Ok(t) = update_step(s, signer, user, amount) {
        let u = LedgerModel { records: t.records.insert(user, amount), ..t };
        assert(u.records =~= t.records);
        assert(u == t);
    }
}

/// A second entitlement for a user replaces the first: the result is that of
/// setting only the second, never the sum.
pub proof fn update_overwrites(
    s: LedgerModel,
    signer: Seq<u8>,
    user: Seq<u8>,
    first: u64,
    second: u64,
)
    ensures
        update_step(s, signer, user, first) matches Ok(t) ==> update_step(t, signer, user, second)
            == update_step(s, signer, user, second),
        update_step(s, signer, user, first) matches Ok(t) ==> update_step(
            t,
            signer,
            user,
            second,
        ) matches Ok(u) && u.records[user] == second,
{
    if let Ok(t) = update_step(s, signer, user, first) {
        let u = LedgerModel { records: t.records.insert(user, second), ..t };
        let v = LedgerModel { records: s.records.insert(user, second), ..s };
        assert(u.records =~= v.records);
        assert(u == v);
    }
}

/// After a successful `initialize`, every further `initialize` fails with
/// `AlreadyInitialized`, and the authority stays the first signer.
pub proof fn initialize_only_once(s: LedgerModel, first: Seq<u8>, second: Seq<u8>)
    ensures
        initialize_step(s, first) matches Ok(t) ==> t.authority == first && initialize_step(
            t,
            second,
        ) == Err::<LedgerModel, Errors>(Errors::AlreadyInitialized),
{
}

/// While claiming is switched off, an initialized ledger refuses every claim
/// with `NotEnabled`, whatever the claimant's entitlement.
pub proof fn claim_refused_when_disabled(
    s: LedgerModel,
    signer: Seq<u8>,
    authority: Seq<u8>,
    owner: Seq<u8>,
    decimals: u8,
)
    requires
        s.initialized,
        !s.is_enabled,
    ensures
        claim_step(s, signer, authority, owner, decimals) == Err::<(LedgerModel, nat), Errors>(
            Errors::NotEnabled,
        ),
{
}

/// A claim against the claimant's own record of zero fails with
/// `NotSufficientAmount`, once the configuration checks pass.
pub proof fn claim_refused_for_zero(
    s: LedgerModel,
    signer: Seq<u8>,
    authority: Seq<u8>,
    decimals: u8,
)
    requires
        s.initialized,
        s.is_enabled,
        s.authority == authority,
        s.records.contains_key(signer),
        s.records[signer] == 0,
    ensures
        claim_step(s, signer, authority, signer, decimals) == Err::<(LedgerModel, nat), Errors>(
            Errors::NotSufficientAmount,
        ),
{
}

} // verus!
