//! A custodial token-lockup protocol: depositors lock a principal token in a
//! campaign vault for a fixed period and receive a liquid receipt token,
//! redeemable one-for-one after expiry, together with option-claim tokens
//! issued by a collaborating derivative-issuance service in proportion to the
//! amount locked.
//!
//! The crate models the whole observable world of the protocol — a fungible
//! token ledger, the campaign registry, and the issuance collaborator's state —
//! as plain data, and verifies the orchestrators that move funds through it:
//! configuration, stake, unstake, withdraw and cosmetic naming.

mod common;
mod config;
mod config_v2;
mod errors;
mod ids;
mod issuance;
mod laws;
mod ledger;
mod name_tokens;
mod stake;
mod unstake;
mod withdraw;

pub use crate::common::{
    campaign_of, gso_key, has_campaign, so_authority_id, vault_id, x_mint_id, Gso, GSOState,
};
pub use crate::config::{config, GSOConfig};
pub use crate::config_v2::{config_v2, config_v2_err, GSOConfigV2};
pub use crate::errors::ErrorCode;
pub use crate::ids::{
    canonical_bump, derive_authority, derived_id, is_derived, BASE_VAULT_SEED, GSO_STATE_SEED,
    SO_AUTHORITY_SEED, SO_OPTION_MINT_SEED, SO_STATE_SEED, SO_VAULT_SEED, X_GSO_SEED,
};
pub use crate::issuance::{has_so, so_of, SoState};
pub use crate::laws::{
    lemma_config_exactly_once, lemma_receipt_supply_matches_vault, lemma_unstake_boundary_strict,
    lemma_withdraw_authority_gate, stake_unstake_round_trip, transferred_receipts_redeem,
};
pub use crate::ledger::{sum_for_mint, Ledger, MintInfo, TokenAccount};
pub use crate::name_tokens::{name_tokens, name_tokens_err, GSONameTokens, TokenMetadata};
pub use crate::stake::{num_staking_options, spec_option_qty, stake, stake_err, GSOStake};
pub use crate::unstake::{unstake, unstake_err, GSOUnstake};
pub use crate::withdraw::{withdraw, withdraw_err, GSOWithdraw};
