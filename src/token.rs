use vstd::prelude::*;

use crate::claim::Errors;
use crate::key::Pubkey;
use crate::scale::{scale_amount, scaled};

verus! {

/// Decimal precision of the mint that `init_token` creates.
pub const MINT_DECIMALS: u8 = 5;

/// The accounts of an `init_token` call: who pays, whose token account receives
/// the supply, and whether the mint at its derived address exists already.
#[derive(Clone, Copy, Debug)]
pub struct InitToken {
    pub payer: Pubkey,
    pub master: Pubkey,
    pub mint_exists: bool,
}

/// Descriptive metadata registered for the mint.
#[derive(Clone, Debug)]
pub struct TokenMetadata {
    pub name: String,
    pub symbol: String,
    pub uri: String,
    pub seller_fee_basis_points: u16,
}

/// What the token program is asked to do, in this order: register `metadata`,
/// create the mint with `decimals`, mint `mint_amount` base units to the token
/// account of `destination_owner`, then remove the mint authority for good.
#[derive(Clone, Debug)]
pub struct TokenIssuance {
    pub metadata: TokenMetadata,
    pub decimals: u8,
    pub destination_owner: Pubkey,
    pub payer: Pubkey,
    pub mint_amount: u64,
    pub revoke_mint_authority: bool,
}

/// Plans the one-time creation of the token: `total_supply` whole tokens,
/// carrying the given name, symbol and uri, with no royalty. Fails with
/// `AlreadyInitialized` when the mint exists, and with `ArithmeticOverflow`
/// when the supply in base units does not fit in a `u64`.
pub fn init_token(
    ctx: &InitToken,
    token_name: String,
    token_symbol: String,
    token_uri: String,
    total_supply: u64,
) -> (r: Result<TokenIssuance, Errors>)
    ensures
        match r {
            Ok(t) => {
                &&& !ctx.mint_exists
                &&& t.metadata.name@ == token_name@
                &&& t.metadata.symbol@ == token_symbol@
                &&& t.metadata.uri@ == token_uri@
                &&& t.metadata.seller_fee_basis_points == 0
                &&& t.decimals == MINT_DECIMALS
                &&& t.destination_owner@ == ctx.master@
                &&& t.payer@ == ctx.payer@
                &&& t.mint_amount as nat == scaled(total_supply, MINT_DECIMALS)
                &&& t.revoke_mint_authority
            },
            Err(e) => if ctx.mint_exists {
                e == Errors::AlreadyInitialized
            } else {
                e == Errors::ArithmeticOverflow && scaled(total_supply, MINT_DECIMALS) > u64::MAX
            },
        },
{
    if ctx.mint_exists {
        return Err(Errors::AlreadyInitialized);
    }
    let mint_amount = match scale_amount(total_supply, MINT_DECIMALS) {
        Some(v) => v,
        None => {
            return Err(Errors::ArithmeticOverflow);
        },
    };
    Ok(
        TokenIssuance {
            metadata: TokenMetadata {
                name: token_name,
                symbol: token_symbol,
                uri: token_uri,
                seller_fee_basis_points: 0,
            },
            decimals: MINT_DECIMALS,
            destination_owner: ctx.master,
            payer: ctx.payer,
            mint_amount,
            revoke_mint_authority: true,
        },
    )
}

} // verus!
