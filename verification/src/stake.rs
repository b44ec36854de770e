//! Staking: locks principal and hands out claims.
//!
//! One atomic unit: moves `amount` principal from the depositor into the
//! campaign vault, mints `amount` receipt tokens to the depositor (signed by
//! the receipt mint's own derived identity), computes the proportional
//! option-claim quantity with a widened intermediate product, and asks the
//! issuance service to credit the depositor's claim account (signed by the
//! campaign's issuance authority). On any failure nothing is changed.

use vstd::prelude::*;
use crate::common::{
    Gso, has_campaign, campaign_of, x_mint_id, vault_id, campaign_wf, unchanged,
};
use crate::errors::ErrorCode;
use crate::ids::{
    spec_is_derived, derived_id, is_derived, derive_authority, lemma_derived_id_distinct,
    lemma_derived_id_is_derived, lemma_derived_id_exact, X_GSO_SEED, BASE_VAULT_SEED,
    SO_AUTHORITY_SEED,
};
use crate::issuance::{SoState, so_of, so_slot, so_issue, find_so};
use crate::ledger::{with_balance, with_supply, lemma_acc_index_of, lemma_mint_index_of};

verus! {

broadcast use lemma_derived_id_distinct, lemma_derived_id_is_derived, lemma_derived_id_exact;

/// The accounts a stake call references.
#[derive(Clone, Copy)]
pub struct GSOStake {
    /// The depositor; must own the principal account being debited.
    pub authority: u128,
    /// Key of the campaign staked into.
    pub gso_state: u128,
    /// The issuance state the campaign recorded; checked, not trusted.
    pub so_state: u128,
    /// The depositor's principal account.
    pub user_base_account: u128,
    /// The depositor's receipt account.
    pub user_x_base_account: u128,
    /// The depositor's option-claim account.
    pub so_user_option_account: u128,
}

/// The option-claim quantity a stake of `amount` earns at this lockup ratio:
/// the floor of `amount * ratio / 1_000_000`.
pub open spec fn spec_option_qty(amount: u64, ratio: u64) -> int {
    (amount * ratio) / 1_000_000
}

/// Computes the option-claim quantity with a widened intermediate product, so
/// the multiplication cannot overflow; fails only where the final quantity
/// itself cannot be represented.
pub fn num_staking_options(amount: u64, lockup_ratio_tokens_per_million: u64) -> (r: Result<
    u64,
    ErrorCode,
>)
    ensures
        spec_option_qty(amount, lockup_ratio_tokens_per_million) <= u64::MAX ==> r == Ok::<
            u64,
            ErrorCode,
        >(spec_option_qty(amount, lockup_ratio_tokens_per_million) as u64),
        spec_option_qty(amount, lockup_ratio_tokens_per_million) > u64::MAX ==> r == Err::<
            u64,
            ErrorCode,
        >(ErrorCode::ArithmeticError),
{
    proof {
        assert((amount as int) * (lockup_ratio_tokens_per_million as int) <= 0xffff_ffff_ffff_ffff
            * 0xffff_ffff_ffff_ffff) by (nonlinear_arith)
            requires
                amount <= 0xffff_ffff_ffff_ffffu64,
                lockup_ratio_tokens_per_million <= 0xffff_ffff_ffff_ffffu64,
        ;
    }
    let product: u128 = (amount as u128) * (lockup_ratio_tokens_per_million as u128);
    let qty: u128 = product / 1_000_000;
    if qty > u64::MAX as u128 {
        Err(ErrorCode::ArithmeticError)
    } else {
        Ok(qty as u64)
    }
}

/// Why `stake` fails, or `None` where it succeeds, in check order: a derived
/// signer or derived user account, an unknown campaign, an issuance-state
/// reference other than the recorded one, missing user accounts, a principal
/// account the signer does not own, accounts of the wrong mints, a short
/// principal balance, an overflowing vault balance, an unrepresentable claim
/// quantity, or more claims than the issuance collateral covers.
pub open spec fn stake_err(gso: Gso, ctx: GSOStake, amount: u64) -> Option<ErrorCode> {
    let l = gso.ledger;
    if spec_is_derived(ctx.authority) || spec_is_derived(ctx.user_base_account) || spec_is_derived(
        ctx.user_x_base_account,
    ) || spec_is_derived(ctx.so_user_option_account) {
        Some(ErrorCode::AuthorizationError)
    } else if !has_campaign(gso.campaigns@, ctx.gso_state) {
        Some(ErrorCode::AccountNotFound)
    } else {
        let c = campaign_of(gso.campaigns@, ctx.gso_state);
        let so = so_of(gso.so_states@, c.staking_options_state);
        if ctx.so_state != c.staking_options_state {
            Some(ErrorCode::StateMismatch)
        } else if !l.has_account(ctx.user_base_account) || !l.has_account(ctx.user_x_base_account)
            || !l.has_account(ctx.so_user_option_account) {
            Some(ErrorCode::AccountNotFound)
        } else if l.account(ctx.user_base_account).owner != ctx.authority {
            Some(ErrorCode::AuthorizationError)
        } else if l.account(ctx.user_base_account).mint != l.account(vault_id(c)).mint || l.account(
            ctx.user_x_base_account,
        ).mint != x_mint_id(c) || l.account(ctx.so_user_option_account).mint != so.option_mint {
            Some(ErrorCode::MintMismatch)
        } else if l.account(ctx.user_base_account).balance < amount {
            Some(ErrorCode::InsufficientFunds)
        } else if l.balance_of(vault_id(c)) + amount > u64::MAX {
            Some(ErrorCode::ArithmeticError)
        } else if spec_option_qty(amount, c.lockup_ratio_tokens_per_million) > u64::MAX {
            Some(ErrorCode::ArithmeticError)
        } else if spec_option_qty(amount, c.lockup_ratio_tokens_per_million) > so.available {
            Some(ErrorCode::InsufficientCollateral)
        } else {
            None
        }
    }
}

/// Stakes `amount` principal into a campaign: principal moves to the vault,
/// `amount` receipt tokens are minted to the depositor, and the proportional
/// option-claim quantity is issued to the depositor's claim account. Atomic:
/// on any failure nothing is changed.
pub fn stake(gso: &mut Gso, ctx: &GSOStake, amount: u64) -> (r: Result<(), ErrorCode>)
    requires
        old(gso).wf(),
    ensures
        final(gso).wf(),
        match stake_err(*old(gso), *ctx, amount) {
            Some(e) => r == Err::<(), ErrorCode>(e) && unchanged(*old(gso), *final(gso)),
            None => {
                let c = campaign_of(old(gso).campaigns@, ctx.gso_state);
                let so = so_of(old(gso).so_states@, c.staking_options_state);
                let qty = spec_option_qty(amount, c.lockup_ratio_tokens_per_million);
                let l0 = old(gso).ledger;
                let l1 = final(gso).ledger;
                &&& r == Ok::<(), ErrorCode>(())
                &&& final(gso).campaigns@ == old(gso).campaigns@
                &&& final(gso).so_states@ == old(gso).so_states@.update(
                    so_slot(c.staking_options_state),
                    SoState { available: (so.available - qty) as u64, ..so },
                )
                &&& l1.account(vault_id(c)) == with_balance(
                    l0.account(vault_id(c)),
                    (l0.balance_of(vault_id(c)) + amount) as u64,
                )
                &&& l1.balance_of(vault_id(c)) == l0.balance_of(vault_id(c)) + amount
                &&& l1.supply_of(x_mint_id(c)) == l0.supply_of(x_mint_id(c)) + amount
                &&& l1.account(ctx.user_base_account) == with_balance(
                    l0.account(ctx.user_base_account),
                    (l0.account(ctx.user_base_account).balance - amount) as u64,
                )
                &&& l1.account(ctx.user_x_base_account) == with_balance(
                    l0.account(ctx.user_x_base_account),
                    (l0.account(ctx.user_x_base_account).balance + amount) as u64,
                )
                &&& l1.account(ctx.so_user_option_account) == with_balance(
                    l0.account(ctx.so_user_option_account),
                    (l0.account(ctx.so_user_option_account).balance + qty) as u64,
                )
                &&& l1.supply_of(so.option_mint) == l0.supply_of(so.option_mint) + qty
                &&& forall|x: u128| l1.has_account(x) == l0.has_account(x)
                &&& forall|x: u128|
                    x != ctx.user_base_account && x != vault_id(c) && x != ctx.user_x_base_account
                        && x != ctx.so_user_option_account && l0.has_account(x) ==> l1.account(x)
                        == l0.account(x)
                &&& forall|x: u128| l1.has_mint(x) == l0.has_mint(x)
                &&& forall|x: u128|
                    x != x_mint_id(c) && x != so.option_mint && l0.has_mint(x) ==> l1.mint(x)
                        == l0.mint(x)
            },
        },
{
    if is_derived(ctx.authority) || is_derived(ctx.user_base_account) || is_derived(
        ctx.user_x_base_account,
    ) || is_derived(ctx.so_user_option_account) {
        return Err(ErrorCode::AuthorizationError);
    }
    let ci = match gso.find_campaign(ctx.gso_state) {
        Some(i) => i,
        None => { return Err(ErrorCode::AccountNotFound) },
    };
    if ctx.so_state != gso.campaigns[ci].staking_options_state {
        return Err(ErrorCode::StateMismatch);
    }
    proof {
        assert(campaign_wf(gso.ledger, gso.so_states@, gso.campaigns@[ci as int]));
    }
    let n = gso.campaigns[ci].campaign_id;
    let vid = derived_id(BASE_VAULT_SEED, n);
    let xid = derived_id(X_GSO_SEED, n);
    let so_j = match find_so(&gso.so_states, ctx.so_state) {
        Some(j) => j,
        None => {
            proof {
                assert(false);
            }
            return Err(ErrorCode::AccountNotFound);
        },
    };
    let opt = gso.so_states[so_j].option_mint;
    let ub_i = match gso.ledger.find_account(ctx.user_base_account) {
        Some(i) => i,
        None => { return Err(ErrorCode::AccountNotFound) },
    };
    let ux_i = match gso.ledger.find_account(ctx.user_x_base_account) {
        Some(i) => i,
        None => { return Err(ErrorCode::AccountNotFound) },
    };
    let uo_i = match gso.ledger.find_account(ctx.so_user_option_account) {
        Some(i) => i,
        None => { return Err(ErrorCode::AccountNotFound) },
    };
    let vault_i = match gso.ledger.find_account(vid) {
        Some(i) => i,
        None => {
            proof {
                assert(false);
            }
            return Err(ErrorCode::AccountNotFound);
        },
    };
    proof {
        lemma_acc_index_of(gso.ledger.accounts@, ub_i as int);
        lemma_acc_index_of(gso.ledger.accounts@, ux_i as int);
        lemma_acc_index_of(gso.ledger.accounts@, uo_i as int);
        lemma_acc_index_of(gso.ledger.accounts@, vault_i as int);
    }
    if gso.ledger.accounts[ub_i].owner != ctx.authority {
        return Err(ErrorCode::AuthorizationError);
    }
    if gso.ledger.accounts[ub_i].mint != gso.ledger.accounts[vault_i].mint
        || gso.ledger.accounts[ux_i].mint != xid || gso.ledger.accounts[uo_i].mint != opt {
        return Err(ErrorCode::MintMismatch);
    }
    if gso.ledger.accounts[ub_i].balance < amount {
        return Err(ErrorCode::InsufficientFunds);
    }
    if amount > u64::MAX - gso.ledger.accounts[vault_i].balance {
        return Err(ErrorCode::ArithmeticError);
    }
    let qty = match num_staking_options(amount, gso.campaigns[ci].lockup_ratio_tokens_per_million) {
        Ok(q) => q,
        Err(e) => { return Err(e) },
    };
    if qty > gso.so_states[so_j].available {
        return Err(ErrorCode::InsufficientCollateral);
    }
    let strike = gso.campaigns[ci].strike;
    let so_authority = match derive_authority(
        SO_AUTHORITY_SEED,
        n,
        gso.campaigns[ci].so_authority_bump,
    ) {
        Ok(a) => a,
        Err(_) => {
            proof {
                assert(false);
            }
            return Err(ErrorCode::AuthorizationError);
        },
    };
    // All preconditions of every step hold; from here the operation cannot
    // fail, which is what makes it atomic.
    gso.ledger.do_transfer(ub_i, vault_i, amount);
    let ghost mid1 = *gso;
    let xj = match gso.ledger.find_mint(xid) {
        Some(j) => j,
        None => {
            proof {
                assert(false);
            }
            return Err(ErrorCode::AccountNotFound);
        },
    };
    let ux_i2 = match gso.ledger.find_account(ctx.user_x_base_account) {
        Some(i) => i,
        None => {
            proof {
                assert(false);
            }
            return Err(ErrorCode::AccountNotFound);
        },
    };
    proof {
        lemma_mint_index_of(gso.ledger.mints@, xj as int);
        lemma_acc_index_of(gso.ledger.accounts@, ux_i2 as int);
        crate::ledger::lemma_balance_le_supply(gso.ledger, ctx.user_x_base_account);
    }
    gso.ledger.do_mint_to(xj, ux_i2, amount);
    let ghost mid2 = *gso;
    let issued = so_issue(
        &mut gso.ledger,
        &mut gso.so_states,
        ctx.so_state,
        qty,
        strike,
        ctx.so_user_option_account,
        so_authority,
    );
    proof {
        if issued is Err {
            assert(false);
        }
        let post = *gso;
        let c = campaign_of(old(gso).campaigns@, ctx.gso_state);
        // Every campaign's receipt supply still equals its vault balance: this
        // one grew by `amount` on both sides, and no other campaign's mint,
        // vault or issuance reference was touched.
        assert forall|i: int| 0 <= i < post.campaigns@.len() implies campaign_wf(
            post.ledger,
            post.so_states@,
            #[trigger] post.campaigns@[i],
        ) by {
            let cx = old(gso).campaigns@[i];
            assert(campaign_wf(old(gso).ledger, old(gso).so_states@, cx));
            assert(cx.campaign_id == i);
            assert(mid1.ledger.has_mint(x_mint_id(cx)) && mid1.ledger.mint(x_mint_id(cx)) == old(
                gso,
            ).ledger.mint(x_mint_id(cx)));
            if i != ci as int {
                assert(mid1.ledger.has_account(vault_id(cx)) && mid1.ledger.account(vault_id(cx))
                    == old(gso).ledger.account(vault_id(cx)));
                assert(mid2.ledger.has_account(vault_id(cx)) && mid2.ledger.account(vault_id(cx))
                    == mid1.ledger.account(vault_id(cx)));
                assert(mid2.ledger.has_mint(x_mint_id(cx)) && mid2.ledger.mint(x_mint_id(cx))
                    == mid1.ledger.mint(x_mint_id(cx)));
                assert(post.ledger.account(vault_id(cx)) == mid2.ledger.account(vault_id(cx)));
                assert(post.ledger.mint(x_mint_id(cx)) == mid2.ledger.mint(x_mint_id(cx)));
            } else {
                assert(mid2.ledger.account(vault_id(cx)) == mid1.ledger.account(vault_id(cx)));
                assert(post.ledger.account(vault_id(cx)) == mid2.ledger.account(vault_id(cx)));
                assert(post.ledger.mint(x_mint_id(cx)) == mid2.ledger.mint(x_mint_id(cx)));
            }
            assert(so_of(post.so_states@, cx.staking_options_state).authority == so_of(
                old(gso).so_states@,
                cx.staking_options_state,
            ).authority);
        }
        // The overall ledger frame, chained through the intermediate states.
        assert forall|x: u128| post.ledger.has_account(x) == old(gso).ledger.has_account(x) by {
            assert(mid1.ledger.has_account(x) == old(gso).ledger.has_account(x));
            assert(mid2.ledger.has_account(x) == mid1.ledger.has_account(x));
        }
        assert forall|x: u128|
            x != ctx.user_base_account && x != vault_id(c) && x != ctx.user_x_base_account && x
                != ctx.so_user_option_account && old(gso).ledger.has_account(
                x,
            ) implies post.ledger.account(x) == old(gso).ledger.account(x) by {
            assert(mid1.ledger.has_account(x) && mid1.ledger.account(x) == old(
                gso,
            ).ledger.account(x));
            assert(mid2.ledger.has_account(x) && mid2.ledger.account(x) == mid1.ledger.account(x));
        }
        assert forall|x: u128| post.ledger.has_mint(x) == old(gso).ledger.has_mint(x) by {
            assert(mid1.ledger.has_mint(x) == old(gso).ledger.has_mint(x));
            assert(mid2.ledger.has_mint(x) == mid1.ledger.has_mint(x));
        }
        assert forall|x: u128|
            x != x_mint_id(c) && x != so_of(old(gso).so_states@, c.staking_options_state).option_mint
                && old(gso).ledger.has_mint(x) implies post.ledger.mint(x) == old(gso).ledger.mint(
            x,
        ) by {
            assert(mid1.ledger.has_mint(x) && mid1.ledger.mint(x) == old(gso).ledger.mint(x));
            assert(mid2.ledger.has_mint(x) && mid2.ledger.mint(x) == mid1.ledger.mint(x));
        }
    }
    Ok(())
}

} // verus!
