//! Withdraw: the configuring authority reclaims unused collateral held by the
//! issuance service. Gated on the recorded configuring authority alone; does
//! not touch the campaign vault or the receipt supply.

use vstd::prelude::*;
use crate::common::{
    Gso, has_campaign, campaign_of, x_mint_id, vault_id, so_authority_id, campaign_wf, unchanged,
};
use crate::errors::ErrorCode;
use crate::ids::{
    spec_is_derived, is_derived, derive_authority, lemma_derived_id_distinct,
    lemma_derived_id_is_derived, lemma_derived_id_exact, SO_AUTHORITY_SEED,
};
use crate::issuance::{so_of, so_slot, so_withdraw, so_withdraw_err, SoState};
use crate::ledger::with_balance;

verus! {

broadcast use lemma_derived_id_distinct, lemma_derived_id_is_derived, lemma_derived_id_exact;

/// The accounts a withdraw call references.
#[derive(Clone, Copy)]
pub struct GSOWithdraw {
    /// The caller; must be the campaign's recorded configuring authority.
    pub authority: u128,
    /// Key of the campaign whose collateral is reclaimed.
    pub gso_state: u128,
    /// The issuance state the campaign recorded; checked, not trusted.
    pub so_state: u128,
    /// Where the reclaimed collateral goes.
    pub user_base_account: u128,
}

/// Why `withdraw` fails, or `None` where it succeeds, in check order: a
/// derived signer or destination, an unknown campaign, a caller other than the
/// recorded configuring authority, an issuance-state reference other than the
/// recorded one, or whatever the issuance service's own withdraw refuses.
pub open spec fn withdraw_err(gso: Gso, ctx: GSOWithdraw) -> Option<ErrorCode> {
    if spec_is_derived(ctx.authority) || spec_is_derived(ctx.user_base_account) {
        Some(ErrorCode::AuthorizationError)
    } else if !has_campaign(gso.campaigns@, ctx.gso_state) {
        Some(ErrorCode::AccountNotFound)
    } else {
        let c = campaign_of(gso.campaigns@, ctx.gso_state);
        if ctx.authority != c.authority {
            Some(ErrorCode::AuthorizationError)
        } else if ctx.so_state != c.staking_options_state {
            Some(ErrorCode::StateMismatch)
        } else {
            so_withdraw_err(
                gso.ledger,
                gso.so_states@,
                ctx.so_state,
                ctx.user_base_account,
                so_authority_id(c),
            )
        }
    }
}

/// Reclaims all unused issuance collateral to the configuring authority's
/// account, signed by the campaign's issuance authority. Fails for every
/// caller other than the recorded configuring authority; never touches the
/// campaign vault or the receipt supply. Atomic: on any failure nothing is
/// changed.
pub fn withdraw(gso: &mut Gso, ctx: &GSOWithdraw) -> (r: Result<(), ErrorCode>)
    requires
        old(gso).wf(),
    ensures
        final(gso).wf(),
        match withdraw_err(*old(gso), *ctx) {
            Some(e) => r == Err::<(), ErrorCode>(e) && unchanged(*old(gso), *final(gso)),
            None => {
                let c = campaign_of(old(gso).campaigns@, ctx.gso_state);
                let so = so_of(old(gso).so_states@, c.staking_options_state);
                let l0 = old(gso).ledger;
                let l1 = final(gso).ledger;
                &&& r == Ok::<(), ErrorCode>(())
                &&& final(gso).campaigns@ == old(gso).campaigns@
                &&& final(gso).so_states@ == old(gso).so_states@.update(
                    so_slot(c.staking_options_state),
                    SoState { available: 0u64, ..so },
                )
                &&& l1.mints@ == l0.mints@
                &&& l1.balance_of(so.base_vault) == 0
                &&& l1.account(ctx.user_base_account) == with_balance(
                    l0.account(ctx.user_base_account),
                    (l0.account(ctx.user_base_account).balance + l0.balance_of(
                        so.base_vault,
                    )) as u64,
                )
                &&& forall|x: u128| l1.has_account(x) == l0.has_account(x)
                &&& forall|x: u128|
                    x != so.base_vault && x != ctx.user_base_account && l0.has_account(x)
                        ==> l1.account(x) == l0.account(x)
                &&& forall|i: int|
                    0 <= i < old(gso).campaigns@.len() ==> l1.balance_of(
                        vault_id(#[trigger] old(gso).campaigns@[i]),
                    ) == l0.balance_of(vault_id(old(gso).campaigns@[i])) && l1.supply_of(
                        x_mint_id(old(gso).campaigns@[i]),
                    ) == l0.supply_of(x_mint_id(old(gso).campaigns@[i]))
            },
        },
{
    if is_derived(ctx.authority) || is_derived(ctx.user_base_account) {
        return Err(ErrorCode::AuthorizationError);
    }
    let ci = match gso.find_campaign(ctx.gso_state) {
        Some(i) => i,
        None => { return Err(ErrorCode::AccountNotFound) },
    };
    proof {
        assert(campaign_wf(gso.ledger, gso.so_states@, gso.campaigns@[ci as int]));
    }
    if ctx.authority != gso.campaigns[ci].authority {
        return Err(ErrorCode::AuthorizationError);
    }
    if ctx.so_state != gso.campaigns[ci].staking_options_state {
        return Err(ErrorCode::StateMismatch);
    }
    let n = gso.campaigns[ci].campaign_id;
    let so_authority = match derive_authority(
        SO_AUTHORITY_SEED,
        n,
        gso.campaigns[ci].so_authority_bump,
    ) {
        Ok(a) => a,
        Err(_) => {
            proof {
                assert(false);
            }
            return Err(ErrorCode::AuthorizationError);
        },
    };
    let res = so_withdraw(
        &mut gso.ledger,
        &mut gso.so_states,
        ctx.so_state,
        ctx.user_base_account,
        so_authority,
    );
    proof {
        let post = *gso;
        let c = campaign_of(old(gso).campaigns@, ctx.gso_state);
        let so = so_of(old(gso).so_states@, c.staking_options_state);
        if res is Ok {
            // No campaign vault or receipt mint is touched: the collateral
            // vault and the destination are neither.
            assert forall|i: int| 0 <= i < post.campaigns@.len() implies campaign_wf(
                post.ledger,
                post.so_states@,
                #[trigger] post.campaigns@[i],
            ) by {
                let cx = old(gso).campaigns@[i];
                assert(campaign_wf(old(gso).ledger, old(gso).so_states@, cx));
                assert(cx.campaign_id == i);
                if ctx.user_base_account == vault_id(cx) {
                    assert(old(gso).ledger.account(vault_id(cx)).owner == vault_id(cx));
                }
                assert(post.ledger.account(vault_id(cx)) == old(gso).ledger.account(
                    vault_id(cx),
                ));
            }
            assert forall|i: int| 0 <= i < old(gso).campaigns@.len() implies post.ledger.balance_of(
                vault_id(#[trigger] old(gso).campaigns@[i]),
            ) == old(gso).ledger.balance_of(vault_id(old(gso).campaigns@[i]))
                && post.ledger.supply_of(x_mint_id(old(gso).campaigns@[i])) == old(
                gso,
            ).ledger.supply_of(x_mint_id(old(gso).campaigns@[i])) by {
                let cx = old(gso).campaigns@[i];
                assert(campaign_wf(old(gso).ledger, old(gso).so_states@, cx));
                if ctx.user_base_account == vault_id(cx) {
                    assert(old(gso).ledger.account(vault_id(cx)).owner == vault_id(cx));
                }
                assert(post.ledger.account(vault_id(cx)) == old(gso).ledger.account(
                    vault_id(cx),
                ));
            }
        }
    }
    match res {
        Ok(u) => Ok(u),
        Err(e) => Err(e),
    }
}

} // verus!
