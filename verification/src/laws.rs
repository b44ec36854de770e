//! The protocol's cross-cutting guarantees, stated and proved against the
//! orchestrators' contracts.

use vstd::prelude::*;
use crate::common::{
    Gso, has_campaign, campaign_of, x_mint_id, vault_id, campaign_wf, spec_key_taken,
};
use crate::config_v2::{config_v2_err, GSOConfigV2};
use crate::errors::ErrorCode;
use crate::ids::{
    spec_is_derived, lemma_derived_id_distinct, lemma_derived_id_is_derived,
    lemma_derived_id_exact,
};
use crate::issuance::so_state_wf;
use crate::ledger::{sum_for_mint, lemma_balance_le_supply, lemma_two_balances_le_supply};
use crate::stake::{stake, stake_err, GSOStake};
use crate::unstake::{unstake, unstake_err, GSOUnstake};
use crate::withdraw::withdraw_err;

verus! {

broadcast use lemma_derived_id_distinct, lemma_derived_id_is_derived, lemma_derived_id_exact;

/// Configuration succeeds at most once per (period number, project name): as
/// soon as some campaign carries the key, every further configuration call
/// with that key fails — and fails with the in-use error whenever it is not
/// already rejected for its signer or its period ordering. Together with
/// configuration's own contract, which records the key on success, the key is
/// configured exactly once.
pub proof fn lemma_config_exactly_once(
    gso: Gso,
    k: int,
    ctx: GSOConfigV2,
    period_num: u64,
    lockup_period_end: u64,
    subscription_period_end: u64,
    num_tokens: u64,
    project_name: Seq<char>,
    so_authority_bump: u8,
)
    requires
        0 <= k < gso.campaigns@.len(),
        gso.campaigns@[k].period_num == period_num,
        gso.campaigns@[k].project_name@ == project_name,
    ensures
        config_v2_err(
            gso,
            ctx,
            period_num,
            lockup_period_end,
            subscription_period_end,
            num_tokens,
            project_name,
            so_authority_bump,
        ) is Some,
        !spec_is_derived(ctx.authority) && lockup_period_end >= subscription_period_end
            ==> config_v2_err(
            gso,
            ctx,
            period_num,
            lockup_period_end,
            subscription_period_end,
            num_tokens,
            project_name,
            so_authority_bump,
        ) == Some(ErrorCode::AlreadyInUse),
{
    assert(spec_key_taken(gso.campaigns@, period_num, project_name));
}

/// The boundary of redemption is strict: at `now` equal to the lockup period
/// end, unstaking fails with the timing error (whenever it is not already
/// rejected for its signer or its campaign reference), while the contract of
/// `unstake` allows it from one second later on.
pub proof fn lemma_unstake_boundary_strict(gso: Gso, ctx: GSOUnstake, amount: u64)
    requires
        !spec_is_derived(ctx.authority),
        !spec_is_derived(ctx.user_base_account),
        !spec_is_derived(ctx.user_x_base_account),
        has_campaign(gso.campaigns@, ctx.gso_state),
    ensures
        unstake_err(
            gso,
            ctx,
            amount,
            campaign_of(gso.campaigns@, ctx.gso_state).lockup_period_end,
        ) == Some(ErrorCode::NotYetExpired),
        forall|t: u64|
            t > campaign_of(gso.campaigns@, ctx.gso_state).lockup_period_end ==> unstake_err(
                gso,
                ctx,
                amount,
                t,
            ) != Some(ErrorCode::NotYetExpired),
{
}

/// Withdraw is gated on the recorded configuring authority alone: any caller
/// other than that authority fails with the authorization error, whoever they
/// are and wherever they would send the collateral.
pub proof fn lemma_withdraw_authority_gate(gso: Gso, ctx: crate::withdraw::GSOWithdraw)
    requires
        has_campaign(gso.campaigns@, ctx.gso_state),
        ctx.authority != campaign_of(gso.campaigns@, ctx.gso_state).authority,
    ensures
        withdraw_err(gso, ctx) == Some(ErrorCode::AuthorizationError),
{
}

/// The custody invariant: in every well-formed world — so after any sequence
/// of configure, stake, unstake, withdraw and naming operations, each of which
/// preserves well-formedness by contract — the sum of all receipt balances of
/// a campaign equals both the receipt supply and the vault balance.
pub proof fn lemma_receipt_supply_matches_vault(gso: Gso, key: u128)
    requires
        gso.wf(),
        has_campaign(gso.campaigns@, key),
    ensures
        sum_for_mint(gso.ledger.accounts@, x_mint_id(campaign_of(gso.campaigns@, key)))
            == gso.ledger.balance_of(vault_id(campaign_of(gso.campaigns@, key))),
        gso.ledger.supply_of(x_mint_id(campaign_of(gso.campaigns@, key)))
            == gso.ledger.balance_of(vault_id(campaign_of(gso.campaigns@, key))),
{
    let c = campaign_of(gso.campaigns@, key);
    let k = crate::common::campaign_slot(key);
    assert(campaign_wf(gso.ledger, gso.so_states@, gso.campaigns@[k]));
    let xid = x_mint_id(c);
    let j = crate::ledger::mint_index(gso.ledger.mints@, xid);
    assert(crate::ledger::has_mint_entry(gso.ledger.mints@, xid));
    assert(0 <= j < gso.ledger.mints@.len() && gso.ledger.mints@[j].id == xid);
}

/// Round trip: staking `amount` and redeeming the same `amount` strictly after
/// expiry restores the vault balance, the receipt supply, and the depositor's
/// principal and receipt balances to their pre-stake values, for every amount
/// a stake accepts.
pub fn stake_unstake_round_trip(
    gso: &mut Gso,
    sctx: &GSOStake,
    uctx: &GSOUnstake,
    amount: u64,
    now: u64,
)
    requires
        old(gso).wf(),
        stake_err(*old(gso), *sctx, amount) is None,
        uctx.authority == sctx.authority,
        uctx.gso_state == sctx.gso_state,
        uctx.user_base_account == sctx.user_base_account,
        uctx.user_x_base_account == sctx.user_x_base_account,
        old(gso).ledger.account(sctx.user_x_base_account).owner == sctx.authority,
        now > campaign_of(old(gso).campaigns@, sctx.gso_state).lockup_period_end,
    ensures
        final(gso).wf(),
        final(gso).ledger.balance_of(vault_id(campaign_of(old(gso).campaigns@, sctx.gso_state)))
            == old(gso).ledger.balance_of(
            vault_id(campaign_of(old(gso).campaigns@, sctx.gso_state)),
        ),
        final(gso).ledger.supply_of(x_mint_id(campaign_of(old(gso).campaigns@, sctx.gso_state)))
            == old(gso).ledger.supply_of(
            x_mint_id(campaign_of(old(gso).campaigns@, sctx.gso_state)),
        ),
        final(gso).ledger.account(sctx.user_base_account).balance == old(gso).ledger.account(
            sctx.user_base_account,
        ).balance,
        final(gso).ledger.account(sctx.user_x_base_account).balance == old(gso).ledger.account(
            sctx.user_x_base_account,
        ).balance,
{
    let ghost c = campaign_of(old(gso).campaigns@, sctx.gso_state);
    proof {
        // The depositor's receipt balance is bounded by the receipt supply,
        // which equals the vault balance, so minting `amount` more receipts
        // cannot overflow it.
        assert(campaign_wf(
            old(gso).ledger,
            old(gso).so_states@,
            old(gso).campaigns@[crate::common::campaign_slot(sctx.gso_state)],
        ));
        lemma_balance_le_supply(old(gso).ledger, sctx.user_x_base_account);
    }
    let r1 = stake(gso, sctx, amount);
    proof {
        if r1 is Err {
            assert(false);
        }
        assert(unstake_err(*gso, *uctx, amount, now) is None);
    }
    let r2 = unstake(gso, uctx, amount, now);
    proof {
        if r2 is Err {
            assert(false);
        }
    }
}

/// Liquidity: receipt tokens are bearer claims. A depositor stakes, hands the
/// receipts to another holder through an ordinary ledger transfer, and that
/// holder — who never staked — redeems them after expiry and receives the
/// principal.
pub fn transferred_receipts_redeem(
    gso: &mut Gso,
    sctx: &GSOStake,
    holder_ctx: &GSOUnstake,
    amount: u64,
    now: u64,
)
    requires
        old(gso).wf(),
        stake_err(*old(gso), *sctx, amount) is None,
        old(gso).ledger.account(sctx.user_x_base_account).owner == sctx.authority,
        holder_ctx.gso_state == sctx.gso_state,
        now > campaign_of(old(gso).campaigns@, sctx.gso_state).lockup_period_end,
        // The holder's receipt account: a different, external account of the
        // receipt mint, owned by the holder.
        !spec_is_derived(holder_ctx.authority),
        !spec_is_derived(holder_ctx.user_x_base_account),
        !spec_is_derived(holder_ctx.user_base_account),
        holder_ctx.user_x_base_account != sctx.user_x_base_account,
        holder_ctx.user_x_base_account != sctx.user_base_account,
        holder_ctx.user_x_base_account != sctx.so_user_option_account,
        old(gso).ledger.has_account(holder_ctx.user_x_base_account),
        old(gso).ledger.account(holder_ctx.user_x_base_account).mint == x_mint_id(
            campaign_of(old(gso).campaigns@, sctx.gso_state),
        ),
        old(gso).ledger.account(holder_ctx.user_x_base_account).owner == holder_ctx.authority,
        // The holder's principal destination: an external account of the
        // locked mint, distinct from the depositor's accounts.
        old(gso).ledger.has_account(holder_ctx.user_base_account),
        old(gso).ledger.account(holder_ctx.user_base_account).mint == old(gso).ledger.account(
            vault_id(campaign_of(old(gso).campaigns@, sctx.gso_state)),
        ).mint,
        holder_ctx.user_base_account != sctx.user_base_account,
        holder_ctx.user_base_account != sctx.user_x_base_account,
        holder_ctx.user_base_account != sctx.so_user_option_account,
        holder_ctx.user_base_account != holder_ctx.user_x_base_account,
    ensures
        final(gso).wf(),
        // The holder ends with `amount` more principal, although they never
        // staked.
        final(gso).ledger.account(holder_ctx.user_base_account).balance == old(
            gso,
        ).ledger.account(holder_ctx.user_base_account).balance + amount,
        // The vault and the receipt supply are back at their pre-stake values.
        final(gso).ledger.balance_of(vault_id(campaign_of(old(gso).campaigns@, sctx.gso_state)))
            == old(gso).ledger.balance_of(
            vault_id(campaign_of(old(gso).campaigns@, sctx.gso_state)),
        ),
        final(gso).ledger.supply_of(x_mint_id(campaign_of(old(gso).campaigns@, sctx.gso_state)))
            == old(gso).ledger.supply_of(
            x_mint_id(campaign_of(old(gso).campaigns@, sctx.gso_state)),
        ),
{
    let ghost c = campaign_of(old(gso).campaigns@, sctx.gso_state);
    proof {
        assert(campaign_wf(
            old(gso).ledger,
            old(gso).so_states@,
            old(gso).campaigns@[crate::common::campaign_slot(sctx.gso_state)],
        ));
        // The depositor's receipt balance is bounded by the receipt supply,
        // which equals the vault balance, so minting `amount` more receipts
        // cannot overflow it.
        lemma_balance_le_supply(old(gso).ledger, sctx.user_x_base_account);
    }
    let r1 = stake(gso, sctx, amount);
    proof {
        if r1 is Err {
            assert(false);
        }
    }
    let ghost g1 = *gso;
    proof {
        // The holder's receipt account can absorb the transfer: both receipt
        // balances together are bounded by the receipt supply.
        lemma_two_balances_le_supply(
            g1.ledger,
            sctx.user_x_base_account,
            holder_ctx.user_x_base_account,
        );
    }
    let r2 = gso.ledger.transfer(
        sctx.user_x_base_account,
        holder_ctx.user_x_base_account,
        amount,
        sctx.authority,
    );
    proof {
        if r2 is Err {
            assert(false);
        }
        let g2 = *gso;
        // A receipt transfer between two external accounts moves no vault
        // balance and no supply: the world stays well-formed.
        assert forall|i: int| 0 <= i < g2.campaigns@.len() implies campaign_wf(
            g2.ledger,
            g2.so_states@,
            #[trigger] g2.campaigns@[i],
        ) by {
            let cx = g1.campaigns@[i];
            assert(campaign_wf(g1.ledger, g1.so_states@, cx));
            assert(g2.ledger.account(vault_id(cx)) == g1.ledger.account(vault_id(cx)));
        }
        assert forall|k: int| 0 <= k < g2.so_states@.len() implies so_state_wf(
            g2.ledger,
            #[trigger] g2.so_states@[k],
            k,
        ) by {
            assert(so_state_wf(g1.ledger, g1.so_states@[k], k));
            assert(g2.ledger.account(g2.so_states@[k].base_vault) == g1.ledger.account(
                g1.so_states@[k].base_vault,
            ));
        }
        assert(g2.wf());
        // The holder's payout cannot overflow: destination and vault hold the
        // same mint, so their combined balance is bounded by its supply.
        lemma_two_balances_le_supply(g2.ledger, holder_ctx.user_base_account, vault_id(c));
        assert(unstake_err(g2, *holder_ctx, amount, now) is None);
    }
    let r3 = unstake(gso, holder_ctx, amount, now);
    proof {
        if r3 is Err {
            assert(false);
        }
    }
}

} // verus!
