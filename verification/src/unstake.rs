//! Unstaking: redeems receipt tokens for locked principal after expiry.
//!
//! Receipt tokens are bearer claims: nothing ties the redeemer to whoever
//! deposited. Time alone decides, and strictly so: redemption is allowed
//! only after the lockup period has ended. One atomic unit: burns `amount`
//! receipt tokens from the holder and releases `amount` principal from the
//! vault, signed by the vault's own derived identity. On any failure nothing
//! is changed.

use vstd::prelude::*;
use crate::common::{
    Gso, has_campaign, campaign_of, x_mint_id, vault_id, campaign_wf, unchanged,
};
use crate::errors::ErrorCode;
use crate::ids::{
    spec_is_derived, derived_id, is_derived, lemma_derived_id_distinct,
    lemma_derived_id_is_derived, lemma_derived_id_exact, X_GSO_SEED, BASE_VAULT_SEED,
};
use crate::issuance::{so_of, so_state_wf};
use crate::ledger::{
    with_balance, lemma_acc_index_of, lemma_mint_index_of, lemma_balance_le_supply,
    lemma_two_balances_le_supply,
};

verus! {

broadcast use lemma_derived_id_distinct, lemma_derived_id_is_derived, lemma_derived_id_exact;

/// The accounts an unstake call references.
#[derive(Clone, Copy)]
pub struct GSOUnstake {
    /// The redeeming holder; must own the receipt account being burned.
    pub authority: u128,
    /// Key of the campaign redeemed from.
    pub gso_state: u128,
    /// The holder's principal destination account.
    pub user_base_account: u128,
    /// The holder's receipt account.
    pub user_x_base_account: u128,
}

/// Why `unstake` fails, or `None` where it succeeds, in check order: a derived
/// signer or derived user account, an unknown campaign, a lockup period not
/// yet strictly passed, missing user accounts, a receipt account the signer
/// does not own, accounts of the wrong mints, or a short receipt balance.
/// Nothing else can fail: the vault always covers the burned receipts, and the
/// destination balance cannot overflow, both because the receipt supply equals
/// the vault balance.
pub open spec fn unstake_err(gso: Gso, ctx: GSOUnstake, amount: u64, now: u64) -> Option<
    ErrorCode,
> {
    let l = gso.ledger;
    if spec_is_derived(ctx.authority) || spec_is_derived(ctx.user_base_account) || spec_is_derived(
        ctx.user_x_base_account,
    ) {
        Some(ErrorCode::AuthorizationError)
    } else if !has_campaign(gso.campaigns@, ctx.gso_state) {
        Some(ErrorCode::AccountNotFound)
    } else {
        let c = campaign_of(gso.campaigns@, ctx.gso_state);
        if now <= c.lockup_period_end {
            Some(ErrorCode::NotYetExpired)
        } else if !l.has_account(ctx.user_base_account) || !l.has_account(
            ctx.user_x_base_account,
        ) {
            Some(ErrorCode::AccountNotFound)
        } else if l.account(ctx.user_x_base_account).owner != ctx.authority {
            Some(ErrorCode::AuthorizationError)
        } else if l.account(ctx.user_x_base_account).mint != x_mint_id(c) || l.account(
            ctx.user_base_account,
        ).mint != l.account(vault_id(c)).mint {
            Some(ErrorCode::MintMismatch)
        } else if l.account(ctx.user_x_base_account).balance < amount {
            Some(ErrorCode::InsufficientFunds)
        } else {
            None
        }
    }
}

/// Redeems `amount` receipt tokens for `amount` locked principal, allowed only
/// strictly after the lockup period end. Atomic: on any failure nothing is
/// changed.
pub fn unstake(gso: &mut Gso, ctx: &GSOUnstake, amount: u64, now: u64) -> (r: Result<
    (),
    ErrorCode,
>)
    requires
        old(gso).wf(),
    ensures
        final(gso).wf(),
        match unstake_err(*old(gso), *ctx, amount, now) {
            Some(e) => r == Err::<(), ErrorCode>(e) && unchanged(*old(gso), *final(gso)),
            None => {
                let c = campaign_of(old(gso).campaigns@, ctx.gso_state);
                let l0 = old(gso).ledger;
                let l1 = final(gso).ledger;
                &&& r == Ok::<(), ErrorCode>(())
                &&& final(gso).campaigns@ == old(gso).campaigns@
                &&& final(gso).so_states@ == old(gso).so_states@
                &&& l1.account(vault_id(c)) == with_balance(
                    l0.account(vault_id(c)),
                    (l0.balance_of(vault_id(c)) - amount) as u64,
                )
                &&& l1.balance_of(vault_id(c)) == l0.balance_of(vault_id(c)) - amount
                &&& l1.supply_of(x_mint_id(c)) == l0.supply_of(x_mint_id(c)) - amount
                &&& l1.account(ctx.user_x_base_account) == with_balance(
                    l0.account(ctx.user_x_base_account),
                    (l0.account(ctx.user_x_base_account).balance - amount) as u64,
                )
                &&& l1.account(ctx.user_base_account) == with_balance(
                    l0.account(ctx.user_base_account),
                    (l0.account(ctx.user_base_account).balance + amount) as u64,
                )
                &&& forall|x: u128| l1.has_account(x) == l0.has_account(x)
                &&& forall|x: u128|
                    x != ctx.user_base_account && x != vault_id(c) && x != ctx.user_x_base_account
                        && l0.has_account(x) ==> l1.account(x) == l0.account(x)
                &&& forall|x: u128| l1.has_mint(x) == l0.has_mint(x)
                &&& forall|x: u128|
                    x != x_mint_id(c) && l0.has_mint(x) ==> l1.mint(x) == l0.mint(x)
            },
        },
{
    if is_derived(ctx.authority) || is_derived(ctx.user_base_account) || is_derived(
        ctx.user_x_base_account,
    ) {
        return Err(ErrorCode::AuthorizationError);
    }
    let ci = match gso.find_campaign(ctx.gso_state) {
        Some(i) => i,
        None => { return Err(ErrorCode::AccountNotFound) },
    };
    proof {
        assert(campaign_wf(gso.ledger, gso.so_states@, gso.campaigns@[ci as int]));
    }
    let expiration = gso.campaigns[ci].lockup_period_end;
    if !(expiration < now) {
        return Err(ErrorCode::NotYetExpired);
    }
    let n = gso.campaigns[ci].campaign_id;
    let vid = derived_id(BASE_VAULT_SEED, n);
    let xid = derived_id(X_GSO_SEED, n);
    let ub_i = match gso.ledger.find_account(ctx.user_base_account) {
        Some(i) => i,
        None => { return Err(ErrorCode::AccountNotFound) },
    };
    let ux_i = match gso.ledger.find_account(ctx.user_x_base_account) {
        Some(i) => i,
        None => { return Err(ErrorCode::AccountNotFound) },
    };
    let vault_i = match gso.ledger.find_account(vid) {
        Some(i) => i,
        None => {
            proof {
                assert(false);
            }
            return Err(ErrorCode::AccountNotFound);
        },
    };
    proof {
        lemma_acc_index_of(gso.ledger.accounts@, ub_i as int);
        lemma_acc_index_of(gso.ledger.accounts@, ux_i as int);
        lemma_acc_index_of(gso.ledger.accounts@, vault_i as int);
    }
    if gso.ledger.accounts[ux_i].owner != ctx.authority {
        return Err(ErrorCode::AuthorizationError);
    }
    if gso.ledger.accounts[ux_i].mint != xid || gso.ledger.accounts[ub_i].mint
        != gso.ledger.accounts[vault_i].mint {
        return Err(ErrorCode::MintMismatch);
    }
    if gso.ledger.accounts[ux_i].balance < amount {
        return Err(ErrorCode::InsufficientFunds);
    }
    let xj = match gso.ledger.find_mint(xid) {
        Some(j) => j,
        None => {
            proof {
                assert(false);
            }
            return Err(ErrorCode::AccountNotFound);
        },
    };
    proof {
        lemma_mint_index_of(gso.ledger.mints@, xj as int);
        // The holder's receipt balance is covered by the receipt supply, which
        // equals the vault balance: the vault can always pay out.
        lemma_balance_le_supply(gso.ledger, ctx.user_x_base_account);
        // The destination and the vault hold the same mint, so their combined
        // balance is bounded by that mint's supply: the payout cannot
        // overflow the destination.
        lemma_two_balances_le_supply(gso.ledger, ctx.user_base_account, vid);
    }
    // All preconditions of both steps hold; from here the operation cannot
    // fail, which is what makes it atomic.
    gso.ledger.do_burn(xj, ux_i, amount);
    let ghost mid1 = *gso;
    let vault_i2 = match gso.ledger.find_account(vid) {
        Some(i) => i,
        None => {
            proof {
                assert(false);
            }
            return Err(ErrorCode::AccountNotFound);
        },
    };
    let ub_i2 = match gso.ledger.find_account(ctx.user_base_account) {
        Some(i) => i,
        None => {
            proof {
                assert(false);
            }
            return Err(ErrorCode::AccountNotFound);
        },
    };
    proof {
        lemma_acc_index_of(gso.ledger.accounts@, vault_i2 as int);
        lemma_acc_index_of(gso.ledger.accounts@, ub_i2 as int);
    }
    gso.ledger.do_transfer(vault_i2, ub_i2, amount);
    proof {
        let post = *gso;
        let c = campaign_of(old(gso).campaigns@, ctx.gso_state);
        // Every campaign's receipt supply still equals its vault balance: this
        // one shrank by `amount` on both sides, and no other campaign was
        // touched.
        assert forall|i: int| 0 <= i < post.campaigns@.len() implies campaign_wf(
            post.ledger,
            post.so_states@,
            #[trigger] post.campaigns@[i],
        ) by {
            let cx = old(gso).campaigns@[i];
            assert(campaign_wf(old(gso).ledger, old(gso).so_states@, cx));
            assert(cx.campaign_id == i);
            assert(mid1.ledger.has_mint(x_mint_id(cx)));
            if i != ci as int {
                assert(mid1.ledger.mint(x_mint_id(cx)) == old(gso).ledger.mint(x_mint_id(cx)));
                assert(post.ledger.mint(x_mint_id(cx)) == mid1.ledger.mint(x_mint_id(cx)));
            }
            assert(mid1.ledger.has_account(vault_id(cx)) && mid1.ledger.account(vault_id(cx))
                == old(gso).ledger.account(vault_id(cx)));
            if i != ci as int {
                assert(post.ledger.account(vault_id(cx)) == mid1.ledger.account(vault_id(cx)));
            }
        }
        // The issuance side is untouched: receipt mints and vaults are
        // disjoint from collateral vaults and option mints.
        assert forall|k: int| 0 <= k < post.so_states@.len() implies so_state_wf(
            post.ledger,
            #[trigger] post.so_states@[k],
            k,
        ) by {
            assert(so_state_wf(old(gso).ledger, old(gso).so_states@[k], k));
            assert(mid1.ledger.has_account(post.so_states@[k].base_vault)
                && mid1.ledger.account(post.so_states@[k].base_vault) == old(
                gso,
            ).ledger.account(post.so_states@[k].base_vault));
            assert(post.ledger.account(post.so_states@[k].base_vault) == mid1.ledger.account(
                post.so_states@[k].base_vault,
            ));
            assert(mid1.ledger.has_mint(post.so_states@[k].base_mint));
            if post.so_states@[k].has_strike {
                assert(mid1.ledger.has_mint(post.so_states@[k].option_mint)
                    && mid1.ledger.mint(post.so_states@[k].option_mint) == old(gso).ledger.mint(
                    post.so_states@[k].option_mint,
                ));
            }
        }
        // The overall ledger frame, chained through the intermediate state.
        assert forall|x: u128| post.ledger.has_account(x) == old(gso).ledger.has_account(x) by {
            assert(mid1.ledger.has_account(x) == old(gso).ledger.has_account(x));
        }
        assert forall|x: u128|
            x != ctx.user_base_account && x != vault_id(c) && x != ctx.user_x_base_account && old(
                gso,
            ).ledger.has_account(x) implies post.ledger.account(x) == old(gso).ledger.account(
            x,
        ) by {
            assert(mid1.ledger.has_account(x) && mid1.ledger.account(x) == old(
                gso,
            ).ledger.account(x));
        }
        assert forall|x: u128| post.ledger.has_mint(x) == old(gso).ledger.has_mint(x) by {
            assert(mid1.ledger.has_mint(x) == old(gso).ledger.has_mint(x));
        }
        assert forall|x: u128|
            x != x_mint_id(c) && old(gso).ledger.has_mint(x) implies post.ledger.mint(x) == old(
            gso,
        ).ledger.mint(x) by {
            assert(mid1.ledger.has_mint(x) && mid1.ledger.mint(x) == old(gso).ledger.mint(x));
        }
    }
    Ok(())
}

} // verus!
