//! Campaign configuration, first revision: the vault locks the same mint the
//! issuance service writes options over. Everything else is as in the second
//! revision.

use vstd::prelude::*;
use crate::common::{Gso, unchanged, x_mint_id, vault_id};
use crate::config_v2::{config_v2, config_v2_err, GSOConfigV2};
use crate::errors::ErrorCode;
use crate::ids::{spec_derived_id, GSO_STATE_SEED, X_GSO_SEED, BASE_VAULT_SEED, SO_STATE_SEED};
use crate::ledger::TokenAccount;

verus! {

/// The accounts a first-revision configuration call references.
#[derive(Clone, Copy)]
pub struct GSOConfig {
    /// The configuring signer; pays the collateral and may later withdraw.
    pub authority: u128,
    /// The signer's collateral funding account.
    pub so_base_account: u128,
    /// A payment-token account handed to the issuance service.
    pub so_quote_account: u128,
    /// Mint the issuance service writes options over; also the locked mint.
    pub so_base_mint: u128,
    /// Mint of the payment token.
    pub so_quote_mint: u128,
}

/// The second-revision view of a first-revision context: the locked mint is
/// the option base mint.
pub open spec fn spec_as_v2(ctx: GSOConfig) -> GSOConfigV2 {
    GSOConfigV2 {
        authority: ctx.authority,
        so_base_account: ctx.so_base_account,
        so_quote_account: ctx.so_quote_account,
        so_base_mint: ctx.so_base_mint,
        so_quote_mint: ctx.so_quote_mint,
        lockup_mint: ctx.so_base_mint,
    }
}

/// Configures a new campaign whose vault locks the option base mint itself.
/// Returns the new campaign's key. Atomic: on any failure nothing is changed.
pub fn config(
    gso: &mut Gso,
    ctx: &GSOConfig,
    period_num: u64,
    lockup_ratio_tokens_per_million: u64,
    lockup_period_end: u64,
    option_expiration: u64,
    subscription_period_end: u64,
    lot_size: u64,
    num_tokens: u64,
    project_name: String,
    strike: u64,
    so_authority_bump: u8,
) -> (r: Result<u128, ErrorCode>)
    requires
        old(gso).wf(),
        old(gso).campaigns@.len() + 1 < 0x1_0000_0000_0000_0000,
        old(gso).so_states@.len() + 1 < 0x1_0000_0000_0000_0000,
    ensures
        final(gso).wf(),
        match config_v2_err(
            *old(gso),
            spec_as_v2(*ctx),
            period_num,
            lockup_period_end,
            subscription_period_end,
            num_tokens,
            project_name@,
            so_authority_bump,
        ) {
            Some(e) => r == Err::<u128, ErrorCode>(e) && unchanged(*old(gso), *final(gso)),
            None => {
                let n = old(gso).campaigns@.len() as u64;
                let c = final(gso).campaigns@.last();
                &&& r == Ok::<u128, ErrorCode>(spec_derived_id(GSO_STATE_SEED, n))
                &&& final(gso).campaigns@.len() == old(gso).campaigns@.len() + 1
                &&& final(gso).campaigns@.subrange(0, n as int) == old(gso).campaigns@
                &&& c.campaign_id == n
                &&& c.period_num == period_num
                &&& c.project_name@ == project_name@
                &&& c.subscription_period_end == subscription_period_end
                &&& c.lockup_period_end == lockup_period_end
                &&& c.lockup_ratio_tokens_per_million == lockup_ratio_tokens_per_million
                &&& c.strike == strike
                &&& c.staking_options_state == spec_derived_id(
                    SO_STATE_SEED,
                    old(gso).so_states@.len() as u64,
                )
                &&& c.authority == ctx.authority
                &&& c.base_mint == ctx.so_base_mint
                &&& final(gso).ledger.account(vault_id(c)) == (TokenAccount {
                    id: spec_derived_id(BASE_VAULT_SEED, n),
                    mint: ctx.so_base_mint,
                    owner: spec_derived_id(BASE_VAULT_SEED, n),
                    balance: 0u64,
                })
                &&& final(gso).ledger.supply_of(x_mint_id(c)) == 0
            },
        },
{
    let ctx2 = GSOConfigV2 {
        authority: ctx.authority,
        so_base_account: ctx.so_base_account,
        so_quote_account: ctx.so_quote_account,
        so_base_mint: ctx.so_base_mint,
        so_quote_mint: ctx.so_quote_mint,
        lockup_mint: ctx.so_base_mint,
    };
    config_v2(
        gso,
        &ctx2,
        period_num,
        lockup_ratio_tokens_per_million,
        lockup_period_end,
        option_expiration,
        subscription_period_end,
        lot_size,
        num_tokens,
        project_name,
        strike,
        so_authority_bump,
    )
}

} // verus!
