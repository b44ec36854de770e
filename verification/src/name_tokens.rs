//! Cosmetic naming: asks the issuance service to label the option-claim mint,
//! and produces the descriptive metadata for the receipt mint. No custody or
//! accounting state is touched; a failure here can never affect funds.

use vstd::prelude::*;
use vstd::string::{StringExecFns, StrSliceExecFns};
use crate::common::{
    Gso, has_campaign, campaign_of, x_mint_id, so_authority_id, campaign_wf, unchanged,
};
use crate::errors::ErrorCode;
use crate::ids::{
    spec_is_derived, is_derived, derive_authority, lemma_derived_id_distinct,
    lemma_derived_id_is_derived, lemma_derived_id_exact, SO_AUTHORITY_SEED,
};
use crate::issuance::{
    so_of, so_slot, so_name_token, so_name_token_err, lemma_named_preserves_so_wf, SoState,
};

verus! {

broadcast use lemma_derived_id_distinct, lemma_derived_id_is_derived, lemma_derived_id_exact;

/// Descriptive metadata to attach to a mint. Purely cosmetic.
pub struct TokenMetadata {
    /// The mint being labelled.
    pub mint: u128,
    /// Display name.
    pub name: String,
    /// Display symbol.
    pub symbol: String,
    /// Where the logo lives.
    pub uri: String,
}

/// The accounts a naming call references.
#[derive(Clone, Copy)]
pub struct GSONameTokens {
    /// The caller; must be the campaign's recorded configuring authority.
    pub authority: u128,
    /// Key of the campaign being labelled.
    pub gso_state: u128,
    /// The issuance state the campaign recorded; checked, not trusted.
    pub so_state: u128,
}

/// The display name the receipt mint gets: a fixed prefix followed by at most
/// the first fifteen characters of the project name.
pub open spec fn spec_receipt_name(project_name: Seq<char>) -> Seq<char> {
    "DUAL-GSO-"@ + if project_name.len() <= 15 {
        project_name
    } else {
        project_name.take(15)
    }
}

/// Why `name_tokens` fails, or `None` where it succeeds, in check order: a
/// derived signer, an unknown campaign, a caller other than the recorded
/// configuring authority, an issuance-state reference other than the recorded
/// one, or whatever the issuance service's own naming call refuses.
pub open spec fn name_tokens_err(gso: Gso, ctx: GSONameTokens) -> Option<ErrorCode> {
    if spec_is_derived(ctx.authority) {
        Some(ErrorCode::AuthorizationError)
    } else if !has_campaign(gso.campaigns@, ctx.gso_state) {
        Some(ErrorCode::AccountNotFound)
    } else {
        let c = campaign_of(gso.campaigns@, ctx.gso_state);
        if ctx.authority != c.authority {
            Some(ErrorCode::AuthorizationError)
        } else if ctx.so_state != c.staking_options_state {
            Some(ErrorCode::StateMismatch)
        } else {
            so_name_token_err(gso.so_states@, ctx.so_state, so_authority_id(c))
        }
    }
}

/// Labels the campaign's option mint through the issuance service and returns
/// the metadata to attach to the receipt mint. Touches no balance, no supply
/// and no campaign record.
pub fn name_tokens(gso: &mut Gso, ctx: &GSONameTokens) -> (r: Result<TokenMetadata, ErrorCode>)
    requires
        old(gso).wf(),
    ensures
        final(gso).wf(),
        final(gso).ledger == old(gso).ledger,
        final(gso).campaigns@ == old(gso).campaigns@,
        match name_tokens_err(*old(gso), *ctx) {
            Some(e) => r == Err::<TokenMetadata, ErrorCode>(e) && unchanged(
                *old(gso),
                *final(gso),
            ),
            None => {
                let c = campaign_of(old(gso).campaigns@, ctx.gso_state);
                let so = so_of(old(gso).so_states@, c.staking_options_state);
                &&& r is Ok
                &&& r->Ok_0.mint == x_mint_id(c)
                &&& r->Ok_0.name@ == spec_receipt_name(c.project_name@)
                &&& r->Ok_0.symbol@ == "DUAL-GSO"@
                &&& final(gso).so_states@ == old(gso).so_states@.update(
                    so_slot(c.staking_options_state),
                    SoState { named: true, ..so },
                )
            },
        },
{
    if is_derived(ctx.authority) {
        return Err(ErrorCode::AuthorizationError);
    }
    let ci = match gso.find_campaign(ctx.gso_state) {
        Some(i) => i,
        None => { return Err(ErrorCode::AccountNotFound) },
    };
    proof {
        assert(campaign_wf(gso.ledger, gso.so_states@, gso.campaigns@[ci as int]));
    }
    if ctx.authority != gso.campaigns[ci].authority {
        return Err(ErrorCode::AuthorizationError);
    }
    if ctx.so_state != gso.campaigns[ci].staking_options_state {
        return Err(ErrorCode::StateMismatch);
    }
    let n = gso.campaigns[ci].campaign_id;
    let so_authority = match derive_authority(
        SO_AUTHORITY_SEED,
        n,
        gso.campaigns[ci].so_authority_bump,
    ) {
        Ok(a) => a,
        Err(_) => {
            proof {
                assert(false);
            }
            return Err(ErrorCode::AuthorizationError);
        },
    };
    match so_name_token(&mut gso.so_states, ctx.so_state, so_authority) {
        Ok(u) => u,
        Err(e) => {
            proof {
                assert(false);
            }
            return Err(e);
        },
    };
    let xid = crate::ids::derived_id(crate::ids::X_GSO_SEED, n);
    let pn = gso.campaigns[ci].project_name.as_str();
    let full = pn.unicode_len();
    let cut = if full > 15 {
        15
    } else {
        full
    };
    let shortened = pn.substring_char(0, cut);
    let mut display = String::from_str("DUAL-GSO-");
    display.append(shortened);
    let metadata = TokenMetadata {
        mint: xid,
        name: display,
        symbol: String::from_str("DUAL-GSO"),
        uri: String::from_str("https://www.dual.finance/images/token-logos/gso-collateral"),
    };
    proof {
        let c = campaign_of(old(gso).campaigns@, ctx.gso_state);
        let so = so_of(old(gso).so_states@, c.staking_options_state);
        assert(c.project_name@.subrange(0, cut as int) == if c.project_name@.len() <= 15 {
            c.project_name@
        } else {
            c.project_name@.take(15)
        });
        lemma_named_preserves_so_wf(
            gso.ledger,
            old(gso).so_states@,
            gso.so_states@,
            so_slot(ctx.so_state),
        );
        assert forall|i: int| 0 <= i < gso.campaigns@.len() implies campaign_wf(
            gso.ledger,
            gso.so_states@,
            #[trigger] gso.campaigns@[i],
        ) by {
            assert(campaign_wf(old(gso).ledger, old(gso).so_states@, old(gso).campaigns@[i]));
        }
    }
    Ok(metadata)
}

} // verus!
