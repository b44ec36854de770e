//! Campaign configuration, second revision: the locked (vault) mint may
//! differ from the mint the issuance service writes options over.
//!
//! One atomic operation: validates the lockup ordering and the registry key,
//! derives the campaign's signing authorities, bootstraps the issuance state
//! and its strike, creates the receipt mint (controlled by itself, so no
//! external key can ever mint receipts) and the vault (owned by itself), and
//! records the campaign. A repeat call with the same (period number, project
//! name) key fails; on any failure nothing is changed.

use vstd::prelude::*;
use vstd::string::StringExecFns;
use crate::common::{
    Gso, GSOState, x_mint_id, vault_id, so_authority_id, spec_key_taken, campaign_wf,
    same_campaign_key, unchanged,
};
use crate::errors::ErrorCode;
use crate::ids::{
    spec_derived_id, spec_canonical_bump, spec_is_derived, derived_id, canonical_bump, is_derived,
    derive_authority, lemma_derived_id_distinct, lemma_derived_id_is_derived,
    lemma_derived_id_exact, GSO_STATE_SEED,
    X_GSO_SEED, BASE_VAULT_SEED, SO_AUTHORITY_SEED, SO_STATE_SEED, SO_VAULT_SEED,
    SO_OPTION_MINT_SEED,
};
use crate::issuance::{SoState, so_config, so_config_err, so_init_strike, so_state_wf, so_of};
use crate::ledger::{TokenAccount, MintInfo};

verus! {

broadcast use lemma_derived_id_distinct, lemma_derived_id_is_derived, lemma_derived_id_exact;

/// The accounts a configuration call references.
#[derive(Clone, Copy)]
pub struct GSOConfigV2 {
    /// The configuring signer; pays the collateral and may later withdraw.
    pub authority: u128,
    /// The signer's collateral funding account.
    pub so_base_account: u128,
    /// A payment-token account handed to the issuance service.
    pub so_quote_account: u128,
    /// Mint the issuance service writes options over.
    pub so_base_mint: u128,
    /// Mint of the payment token.
    pub so_quote_mint: u128,
    /// Mint locked in the vault; may differ from the option base mint.
    pub lockup_mint: u128,
}

/// Why `config_v2` fails, or `None` where it succeeds, in check order: a
/// derived signer, a lockup period ending before the subscription period, a
/// (period number, project name) key already configured, a wrong issuance-
/// authority bump, a missing lockup mint, a receipt-mint, vault or option-mint
/// identity already in use, or whatever the issuance bootstrap refuses.
pub open spec fn config_v2_err(
    gso: Gso,
    ctx: GSOConfigV2,
    period_num: u64,
    lockup_period_end: u64,
    subscription_period_end: u64,
    num_tokens: u64,
    project_name: Seq<char>,
    so_authority_bump: u8,
) -> Option<ErrorCode> {
    let n = gso.campaigns@.len() as u64;
    let m = gso.so_states@.len() as u64;
    if spec_is_derived(ctx.authority) {
        Some(ErrorCode::AuthorizationError)
    } else if lockup_period_end < subscription_period_end {
        Some(ErrorCode::InvalidLockupEnd)
    } else if spec_key_taken(gso.campaigns@, period_num, project_name) {
        Some(ErrorCode::AlreadyInUse)
    } else if so_authority_bump != spec_canonical_bump(SO_AUTHORITY_SEED, n) {
        Some(ErrorCode::AuthorizationError)
    } else if !gso.ledger.has_mint(ctx.lockup_mint) {
        Some(ErrorCode::AccountNotFound)
    } else if gso.ledger.has_mint(spec_derived_id(X_GSO_SEED, n)) {
        Some(ErrorCode::AlreadyInUse)
    } else if gso.ledger.has_account(spec_derived_id(BASE_VAULT_SEED, n)) {
        Some(ErrorCode::AlreadyInUse)
    } else if gso.ledger.has_mint(spec_derived_id(SO_OPTION_MINT_SEED, m)) {
        Some(ErrorCode::AlreadyInUse)
    } else if so_config_err(
        gso.ledger,
        gso.so_states@,
        ctx.authority,
        ctx.so_base_account,
        ctx.so_quote_account,
        ctx.so_base_mint,
        ctx.so_quote_mint,
        num_tokens,
    ) is Some {
        so_config_err(
            gso.ledger,
            gso.so_states@,
            ctx.authority,
            ctx.so_base_account,
            ctx.so_quote_account,
            ctx.so_base_mint,
            ctx.so_quote_mint,
            num_tokens,
        )
    } else {
        None
    }
}

/// Configures a new campaign whose vault locks `ctx.lockup_mint`. Returns the
/// new campaign's key. Atomic: on any failure nothing is changed.
pub fn config_v2(
    gso: &mut Gso,
    ctx: &GSOConfigV2,
    period_num: u64,
    lockup_ratio_tokens_per_million: u64,
    lockup_period_end: u64,
    option_expiration: u64,
    subscription_period_end: u64,
    lot_size: u64,
    num_tokens: u64,
    project_name: String,
    strike: u64,
    so_authority_bump: u8,
) -> (r: Result<u128, ErrorCode>)
    requires
        old(gso).wf(),
        old(gso).campaigns@.len() + 1 < 0x1_0000_0000_0000_0000,
        old(gso).so_states@.len() + 1 < 0x1_0000_0000_0000_0000,
    ensures
        final(gso).wf(),
        match config_v2_err(
            *old(gso),
            *ctx,
            period_num,
            lockup_period_end,
            subscription_period_end,
            num_tokens,
            project_name@,
            so_authority_bump,
        ) {
            Some(e) => r == Err::<u128, ErrorCode>(e) && unchanged(*old(gso), *final(gso)),
            None => {
                let n = old(gso).campaigns@.len() as u64;
                let m = old(gso).so_states@.len() as u64;
                let xid = spec_derived_id(X_GSO_SEED, n);
                let vid = spec_derived_id(BASE_VAULT_SEED, n);
                let so_vid = spec_derived_id(SO_VAULT_SEED, m);
                let opt = spec_derived_id(SO_OPTION_MINT_SEED, m);
                let c = final(gso).campaigns@.last();
                &&& r == Ok::<u128, ErrorCode>(spec_derived_id(GSO_STATE_SEED, n))
                &&& final(gso).campaigns@.len() == old(gso).campaigns@.len() + 1
                &&& final(gso).campaigns@.subrange(0, n as int) == old(gso).campaigns@
                &&& c.campaign_id == n
                &&& c.period_num == period_num
                &&& c.subscription_period_end == subscription_period_end
                &&& c.lockup_ratio_tokens_per_million == lockup_ratio_tokens_per_million
                &&& c.strike == strike
                &&& c.project_name@ == project_name@
                &&& c.staking_options_state == spec_derived_id(SO_STATE_SEED, m)
                &&& c.authority == ctx.authority
                &&& c.base_mint == ctx.so_base_mint
                &&& c.lockup_period_end == lockup_period_end
                &&& c.so_authority_bump == so_authority_bump
                &&& final(gso).so_states@.len() == old(gso).so_states@.len() + 1
                &&& final(gso).so_states@.subrange(0, m as int) == old(gso).so_states@
                &&& final(gso).so_states@.last().name@ == "GSO"@ + project_name@
                &&& final(gso).so_states@.last().available == num_tokens
                &&& final(gso).so_states@.last().lot_size == lot_size
                &&& final(gso).so_states@.last().option_expiration == option_expiration
                &&& final(gso).so_states@.last().subscription_period_end
                    == subscription_period_end
                &&& final(gso).ledger.has_mint(xid)
                &&& final(gso).ledger.mint(xid) == (MintInfo {
                    id: xid,
                    authority: xid,
                    supply: 0u64,
                })
                &&& final(gso).ledger.has_account(vid)
                &&& final(gso).ledger.account(vid) == (TokenAccount {
                    id: vid,
                    mint: ctx.lockup_mint,
                    owner: vid,
                    balance: 0u64,
                })
                &&& final(gso).ledger.balance_of(so_vid) == num_tokens
                &&& final(gso).ledger.account(ctx.so_base_account).balance == old(
                    gso,
                ).ledger.account(ctx.so_base_account).balance - num_tokens
                &&& forall|x: u128|
                    x != vid && x != so_vid ==> final(gso).ledger.has_account(x) == old(
                        gso,
                    ).ledger.has_account(x)
                &&& forall|x: u128|
                    x != vid && x != so_vid && x != ctx.so_base_account && old(
                        gso,
                    ).ledger.has_account(x) ==> final(gso).ledger.account(x) == old(
                        gso,
                    ).ledger.account(x)
                &&& forall|x: u128|
                    x != xid && x != opt ==> final(gso).ledger.has_mint(x) == old(
                        gso,
                    ).ledger.has_mint(x)
                &&& forall|x: u128|
                    x != xid && x != opt && old(gso).ledger.has_mint(x) ==> final(gso).ledger.mint(
                        x,
                    ) == old(gso).ledger.mint(x)
            },
        },
{
    if is_derived(ctx.authority) {
        return Err(ErrorCode::AuthorizationError);
    }
    if lockup_period_end < subscription_period_end {
        return Err(ErrorCode::InvalidLockupEnd);
    }
    if gso.campaign_key_taken(period_num, &project_name) {
        return Err(ErrorCode::AlreadyInUse);
    }
    let n: u64 = gso.campaigns.len() as u64;
    let m: u64 = gso.so_states.len() as u64;
    let so_authority = match derive_authority(SO_AUTHORITY_SEED, n, so_authority_bump) {
        Ok(a) => a,
        Err(e) => { return Err(e) },
    };
    if gso.ledger.find_mint(ctx.lockup_mint).is_none() {
        return Err(ErrorCode::AccountNotFound);
    }
    let xid = derived_id(X_GSO_SEED, n);
    let vid = derived_id(BASE_VAULT_SEED, n);
    let opt = derived_id(SO_OPTION_MINT_SEED, m);
    if gso.ledger.find_mint(xid).is_some() {
        return Err(ErrorCode::AlreadyInUse);
    }
    if gso.ledger.find_account(vid).is_some() {
        return Err(ErrorCode::AlreadyInUse);
    }
    if gso.ledger.find_mint(opt).is_some() {
        return Err(ErrorCode::AlreadyInUse);
    }
    // Bootstrap the issuance state, signed for by the derived authority.
    let so_name = String::from_str("GSO").concat(project_name.as_str());
    let so_id = match so_config(
        &mut gso.ledger,
        &mut gso.so_states,
        ctx.authority,
        so_authority,
        ctx.so_base_account,
        ctx.so_quote_account,
        ctx.so_base_mint,
        ctx.so_quote_mint,
        option_expiration,
        subscription_period_end,
        num_tokens,
        lot_size,
        so_name,
    ) {
        Ok(id) => id,
        Err(e) => { return Err(e) },
    };
    // Register the strike; its preconditions were all established above, so
    // this cannot fail and the operation stays atomic.
    let ghost mid1 = *gso;
    match so_init_strike(&mut gso.ledger, &mut gso.so_states, so_id, strike, so_authority) {
        Ok(u) => u,
        Err(e) => {
            proof {
                assert(false);
            }
            return Err(e);
        },
    };
    let ghost mid2 = *gso;
    // Create the receipt mint, controlled by its own derived identity, and the
    // vault, owned by its own derived identity.
    gso.ledger.do_create_mint(xid, xid);
    gso.ledger.do_create_account(vid, ctx.lockup_mint, vid);
    let c = GSOState {
        campaign_id: n,
        period_num,
        subscription_period_end,
        lockup_ratio_tokens_per_million,
        gso_state_bump: canonical_bump(GSO_STATE_SEED, n),
        so_authority_bump,
        x_base_mint_bump: canonical_bump(X_GSO_SEED, n),
        base_vault_bump: canonical_bump(BASE_VAULT_SEED, n),
        strike,
        project_name,
        staking_options_state: so_id,
        authority: ctx.authority,
        base_mint: ctx.so_base_mint,
        lockup_period_end,
    };
    gso.campaigns.push(c);
    proof {
        let post = *gso;
        assert(post.campaigns@.subrange(0, n as int) =~= old(gso).campaigns@);
        assert(post.so_states@.subrange(0, m as int) =~= old(gso).so_states@);
        // The issuance side stayed well-formed through the two ledger
        // creations: they touch no issuance vault, collateral mint or option
        // mint.
        assert forall|k: int| 0 <= k < post.so_states@.len() implies so_state_wf(
            post.ledger,
            #[trigger] post.so_states@[k],
            k,
        ) by {
            assert(so_state_wf(mid2.ledger, mid2.so_states@[k], k));
        }
        // Every earlier campaign is untouched: its receipt mint, vault and
        // issuance state all differ from everything this call created.
        assert forall|i: int| 0 <= i < n implies campaign_wf(
            post.ledger,
            post.so_states@,
            #[trigger] post.campaigns@[i],
        ) by {
            let ci = old(gso).campaigns@[i];
            assert(campaign_wf(old(gso).ledger, old(gso).so_states@, ci));
            assert(post.campaigns@[i] == ci);
            assert(ci.campaign_id == i);
            assert(x_mint_id(ci) != spec_derived_id(X_GSO_SEED, n));
            assert(x_mint_id(ci) != spec_derived_id(SO_OPTION_MINT_SEED, m));
            assert(vault_id(ci) != spec_derived_id(BASE_VAULT_SEED, n));
            assert(vault_id(ci) != spec_derived_id(SO_VAULT_SEED, m));
            assert(mid1.ledger.mints@ == old(gso).ledger.mints@);
            assert(crate::issuance::so_slot(so_id) == m as int);
            assert(mid1.ledger.has_mint(x_mint_id(ci)));
            assert(mid2.ledger.has_mint(x_mint_id(ci)) && mid2.ledger.mint(x_mint_id(ci))
                == mid1.ledger.mint(x_mint_id(ci)));
            assert(post.ledger.has_mint(x_mint_id(ci)) && post.ledger.mint(x_mint_id(ci))
                == mid2.ledger.mint(x_mint_id(ci)));
            // The funding account cannot be an earlier campaign's vault: the
            // vault owns itself, a derived identity, while the funding account
            // is owned by the external signer.
            if ctx.so_base_account == vault_id(ci) {
                assert(old(gso).ledger.account(vault_id(ci)).owner == vault_id(ci));
                assert(!spec_is_derived(ctx.authority));
            }
            assert(mid1.ledger.has_account(vault_id(ci)) && mid1.ledger.account(vault_id(ci))
                == old(gso).ledger.account(vault_id(ci)));
            assert(mid2.ledger.has_account(vault_id(ci)) && mid2.ledger.account(vault_id(ci))
                == mid1.ledger.account(vault_id(ci)));
            assert(post.ledger.account(vault_id(ci)) == mid2.ledger.account(vault_id(ci)));
            assert(post.ledger.mint(x_mint_id(ci)) == old(gso).ledger.mint(x_mint_id(ci)));
            assert(crate::issuance::so_of(post.so_states@, ci.staking_options_state) == so_of(
                old(gso).so_states@,
                ci.staking_options_state,
            ));
        }
        // The ledger frame of the whole operation, chained through the
        // intermediate states.
        let xid = spec_derived_id(X_GSO_SEED, n);
        let vid = spec_derived_id(BASE_VAULT_SEED, n);
        let so_vid = spec_derived_id(SO_VAULT_SEED, m);
        let opt = spec_derived_id(SO_OPTION_MINT_SEED, m);
        assert(crate::issuance::so_slot(so_id) == m as int);
        assert forall|x: u128| x != vid && x != so_vid implies post.ledger.has_account(x) == old(
            gso,
        ).ledger.has_account(x) by {
            assert(mid1.ledger.has_account(x) == old(gso).ledger.has_account(x));
            assert(mid2.ledger.has_account(x) == mid1.ledger.has_account(x));
        }
        assert forall|x: u128|
            x != vid && x != so_vid && x != ctx.so_base_account && old(
                gso,
            ).ledger.has_account(x) implies post.ledger.account(x) == old(gso).ledger.account(
            x,
        ) by {
            assert(mid1.ledger.has_account(x) && mid1.ledger.account(x) == old(
                gso,
            ).ledger.account(x));
            assert(mid2.ledger.has_account(x) && mid2.ledger.account(x) == mid1.ledger.account(x));
        }
        assert forall|x: u128| x != xid && x != opt implies post.ledger.has_mint(x) == old(
            gso,
        ).ledger.has_mint(x) by {
            assert(mid1.ledger.mints@ == old(gso).ledger.mints@);
            assert(mid2.ledger.has_mint(x) == mid1.ledger.has_mint(x));
        }
        assert forall|x: u128|
            x != xid && x != opt && old(gso).ledger.has_mint(x) implies post.ledger.mint(x) == old(
            gso,
        ).ledger.mint(x) by {
            assert(mid1.ledger.mints@ == old(gso).ledger.mints@);
            assert(mid2.ledger.has_mint(x) && mid2.ledger.mint(x) == mid1.ledger.mint(x));
        }
        // And the new campaign is well-formed: empty vault, empty receipt
        // supply, a fresh issuance state answering to its derived authority.
        let cnew = post.campaigns@.last();
        assert(so_of(post.so_states@, so_id).authority == so_authority_id(cnew));
        assert(campaign_wf(post.ledger, post.so_states@, cnew));
        assert forall|i: int, j: int| 0 <= i < j < post.campaigns@.len() implies !same_campaign_key(
            post.campaigns@[i],
            post.campaigns@[j],
        ) by {
            if j == n as int {
                assert(!spec_key_taken(old(gso).campaigns@, period_num, project_name@));
                assert(post.campaigns@[i] == old(gso).campaigns@[i]);
            }
        }
    }
    Ok(derived_id(GSO_STATE_SEED, n))
}

} // verus!
