//! End-to-end scenarios against the in-memory world: configuration, staking,
//! redemption, withdrawal and naming.

use gso::{
    canonical_bump, config_v2, derived_id, name_tokens, stake, unstake, withdraw, ErrorCode, Gso,
    GSOConfigV2, GSONameTokens, GSOStake, GSOUnstake, GSOWithdraw, BASE_VAULT_SEED,
    SO_AUTHORITY_SEED, X_GSO_SEED,
};

const ADMIN: u128 = 1;
const ALICE: u128 = 2;
const BOB: u128 = 3;
const BASE_MINT: u128 = 10;
const QUOTE_MINT: u128 = 11;
const ADMIN_BASE: u128 = 100;
const ADMIN_QUOTE: u128 = 101;
const ALICE_BASE: u128 = 110;
const ALICE_X: u128 = 111;
const ALICE_OPT: u128 = 112;
const BOB_BASE: u128 = 120;
const BOB_X: u128 = 121;

const LOCKUP_END: u64 = 2_000;
const SUB_END: u64 = 1_000;
const RATIO: u64 = 250_000;
const COLLATERAL: u64 = 1_000_000_000;

fn balance(gso: &Gso, id: u128) -> u64 {
    for a in gso.ledger.accounts.iter() {
        if a.id == id {
            return a.balance;
        }
    }
    panic!("no account {}", id);
}

fn supply(gso: &Gso, id: u128) -> u64 {
    for m in gso.ledger.mints.iter() {
        if m.id == id {
            return m.supply;
        }
    }
    panic!("no mint {}", id);
}

fn receipt_balance_sum(gso: &Gso, x_mint: u128) -> u64 {
    let mut total: u64 = 0;
    for a in gso.ledger.accounts.iter() {
        if a.mint == x_mint {
            total += a.balance;
        }
    }
    total
}

/// A world with two external mints, a funded admin, and funded depositors.
fn world() -> Gso {
    let mut gso = Gso::new();
    gso.ledger.create_mint(BASE_MINT, ADMIN).unwrap();
    gso.ledger.create_mint(QUOTE_MINT, ADMIN).unwrap();
    gso.ledger.create_account(ADMIN_BASE, BASE_MINT, ADMIN).unwrap();
    gso.ledger.create_account(ADMIN_QUOTE, QUOTE_MINT, ADMIN).unwrap();
    gso.ledger.create_account(ALICE_BASE, BASE_MINT, ALICE).unwrap();
    gso.ledger.create_account(BOB_BASE, BASE_MINT, BOB).unwrap();
    gso.ledger.mint_to(BASE_MINT, ADMIN_BASE, 2 * COLLATERAL, ADMIN).unwrap();
    gso.ledger.mint_to(BASE_MINT, ALICE_BASE, 10_000_000, ADMIN).unwrap();
    gso
}

fn config_ctx() -> GSOConfigV2 {
    GSOConfigV2 {
        authority: ADMIN,
        so_base_account: ADMIN_BASE,
        so_quote_account: ADMIN_QUOTE,
        so_base_mint: BASE_MINT,
        so_quote_mint: QUOTE_MINT,
        lockup_mint: BASE_MINT,
    }
}

/// Configures the default campaign and opens Alice's receipt and claim
/// accounts. Returns the world and the campaign key.
fn configured_world() -> (Gso, u128) {
    let mut gso = world();
    let bump = canonical_bump(SO_AUTHORITY_SEED, 0);
    let key = config_v2(
        &mut gso,
        &config_ctx(),
        7,
        RATIO,
        LOCKUP_END,
        3_000,
        SUB_END,
        1,
        COLLATERAL,
        String::from("DUAL"),
        1_500,
        bump,
    )
    .unwrap();
    let x_mint = derived_id(X_GSO_SEED, 0);
    let opt_mint = derived_id(gso::SO_OPTION_MINT_SEED, 0);
    gso.ledger.create_account(ALICE_X, x_mint, ALICE).unwrap();
    gso.ledger.create_account(ALICE_OPT, opt_mint, ALICE).unwrap();
    (gso, key)
}

fn stake_ctx(key: u128) -> GSOStake {
    GSOStake {
        authority: ALICE,
        gso_state: key,
        so_state: derived_id(gso::SO_STATE_SEED, 0),
        user_base_account: ALICE_BASE,
        user_x_base_account: ALICE_X,
        so_user_option_account: ALICE_OPT,
    }
}

fn unstake_ctx(key: u128) -> GSOUnstake {
    GSOUnstake {
        authority: ALICE,
        gso_state: key,
        user_base_account: ALICE_BASE,
        user_x_base_account: ALICE_X,
    }
}

#[test]
fn config_succeeds_once_per_key() {
    let (mut gso, _key) = configured_world();
    let bump = canonical_bump(SO_AUTHORITY_SEED, 1);
    // Same period number and project name: refused.
    let repeat = config_v2(
        &mut gso,
        &config_ctx(),
        7,
        RATIO,
        LOCKUP_END,
        3_000,
        SUB_END,
        1,
        COLLATERAL,
        String::from("DUAL"),
        1_500,
        bump,
    );
    assert_eq!(repeat, Err(ErrorCode::AlreadyInUse));
    // Another project name under the same period: fine.
    let other = config_v2(
        &mut gso,
        &config_ctx(),
        7,
        RATIO,
        LOCKUP_END,
        3_000,
        SUB_END,
        1,
        COLLATERAL,
        String::from("OTHER"),
        1_500,
        bump,
    );
    assert!(other.is_ok());
}

#[test]
fn config_rejects_inverted_lockup() {
    let mut gso = world();
    let bump = canonical_bump(SO_AUTHORITY_SEED, 0);
    let r = config_v2(
        &mut gso,
        &config_ctx(),
        7,
        RATIO,
        100,
        3_000,
        200,
        1,
        COLLATERAL,
        String::from("DUAL"),
        1_500,
        bump,
    );
    assert_eq!(r, Err(ErrorCode::InvalidLockupEnd));
    let r2 = config_v2(
        &mut gso,
        &config_ctx(),
        7,
        RATIO,
        200,
        3_000,
        100,
        1,
        COLLATERAL,
        String::from("DUAL"),
        1_500,
        bump,
    );
    assert!(r2.is_ok());
}

#[test]
fn config_rejects_wrong_bump() {
    let mut gso = world();
    let bump = canonical_bump(SO_AUTHORITY_SEED, 0).wrapping_add(1);
    let r = config_v2(
        &mut gso,
        &config_ctx(),
        7,
        RATIO,
        LOCKUP_END,
        3_000,
        SUB_END,
        1,
        COLLATERAL,
        String::from("DUAL"),
        1_500,
        bump,
    );
    assert_eq!(r, Err(ErrorCode::AuthorizationError));
}

#[test]
fn stake_moves_principal_and_mints_receipts() {
    let (mut gso, key) = configured_world();
    let vault = derived_id(BASE_VAULT_SEED, 0);
    let x_mint = derived_id(X_GSO_SEED, 0);
    let alice_before = balance(&gso, ALICE_BASE);
    stake(&mut gso, &stake_ctx(key), 1_000_000).unwrap();
    assert_eq!(balance(&gso, ALICE_BASE), alice_before - 1_000_000);
    assert_eq!(balance(&gso, vault), 1_000_000);
    assert_eq!(balance(&gso, ALICE_X), 1_000_000);
    assert_eq!(supply(&gso, x_mint), 1_000_000);
    // amount = 1_000_000, ratio = 250_000 per million: 250_000 claims.
    assert_eq!(balance(&gso, ALICE_OPT), 250_000);
}

#[test]
fn proportional_issuance_floors() {
    let (mut gso, _key) = configured_world();
    // amount = 7 at ratio 500_000 per million is 3.5, floored to 3.
    let bump = canonical_bump(SO_AUTHORITY_SEED, 1);
    let key2 = config_v2(
        &mut gso,
        &config_ctx(),
        8,
        500_000,
        LOCKUP_END,
        3_000,
        SUB_END,
        1,
        COLLATERAL,
        String::from("HALF"),
        1_500,
        bump,
    )
    .unwrap();
    let x2 = derived_id(X_GSO_SEED, 1);
    let opt2 = derived_id(gso::SO_OPTION_MINT_SEED, 1);
    const ALICE_X2: u128 = 113;
    const ALICE_OPT2: u128 = 114;
    gso.ledger.create_account(ALICE_X2, x2, ALICE).unwrap();
    gso.ledger.create_account(ALICE_OPT2, opt2, ALICE).unwrap();
    let ctx = GSOStake {
        authority: ALICE,
        gso_state: key2,
        so_state: derived_id(gso::SO_STATE_SEED, 1),
        user_base_account: ALICE_BASE,
        user_x_base_account: ALICE_X2,
        so_user_option_account: ALICE_OPT2,
    };
    stake(&mut gso, &ctx, 7).unwrap();
    assert_eq!(balance(&gso, ALICE_OPT2), 3);
}

#[test]
fn option_qty_formula() {
    assert_eq!(gso::num_staking_options(1_000_000, 250_000), Ok(250_000));
    assert_eq!(gso::num_staking_options(7, 500_000), Ok(3));
    assert_eq!(gso::num_staking_options(0, 250_000), Ok(0));
    // The widened product divided down still exceeds u64: refused, not
    // truncated.
    assert_eq!(
        gso::num_staking_options(u64::MAX, u64::MAX),
        Err(ErrorCode::ArithmeticError)
    );
}

#[test]
fn unstake_boundary_is_strict() {
    let (mut gso, key) = configured_world();
    stake(&mut gso, &stake_ctx(key), 500).unwrap();
    let at_end = unstake(&mut gso, &unstake_ctx(key), 500, LOCKUP_END);
    assert_eq!(at_end, Err(ErrorCode::NotYetExpired));
    let after_end = unstake(&mut gso, &unstake_ctx(key), 500, LOCKUP_END + 1);
    assert!(after_end.is_ok());
}

#[test]
fn round_trip_restores_balances() {
    let (mut gso, key) = configured_world();
    let vault = derived_id(BASE_VAULT_SEED, 0);
    let x_mint = derived_id(X_GSO_SEED, 0);
    let alice_before = balance(&gso, ALICE_BASE);
    let vault_before = balance(&gso, vault);
    let supply_before = supply(&gso, x_mint);
    stake(&mut gso, &stake_ctx(key), 123_456).unwrap();
    unstake(&mut gso, &unstake_ctx(key), 123_456, LOCKUP_END + 1).unwrap();
    assert_eq!(balance(&gso, ALICE_BASE), alice_before);
    assert_eq!(balance(&gso, vault), vault_before);
    assert_eq!(supply(&gso, x_mint), supply_before);
    assert_eq!(balance(&gso, ALICE_X), 0);
}

#[test]
fn transferred_receipts_redeem_for_holder() {
    let (mut gso, key) = configured_world();
    let x_mint = derived_id(X_GSO_SEED, 0);
    gso.ledger.create_account(BOB_X, x_mint, BOB).unwrap();
    stake(&mut gso, &stake_ctx(key), 4_000).unwrap();
    // Alice hands her receipts to Bob over the plain ledger.
    gso.ledger.transfer(ALICE_X, BOB_X, 4_000, ALICE).unwrap();
    // Bob, who never staked, redeems after expiry.
    let bob_ctx = GSOUnstake {
        authority: BOB,
        gso_state: key,
        user_base_account: BOB_BASE,
        user_x_base_account: BOB_X,
    };
    unstake(&mut gso, &bob_ctx, 4_000, LOCKUP_END + 1).unwrap();
    assert_eq!(balance(&gso, BOB_BASE), 4_000);
    assert_eq!(balance(&gso, BOB_X), 0);
    // And Alice cannot redeem what she no longer holds.
    let r = unstake(&mut gso, &unstake_ctx(key), 1, LOCKUP_END + 1);
    assert_eq!(r, Err(ErrorCode::InsufficientFunds));
}

#[test]
fn withdraw_gated_on_configuring_authority() {
    let (mut gso, key) = configured_world();
    stake(&mut gso, &stake_ctx(key), 1_000_000).unwrap();
    let vault = derived_id(BASE_VAULT_SEED, 0);
    let x_mint = derived_id(X_GSO_SEED, 0);
    let vault_before = balance(&gso, vault);
    let supply_before = supply(&gso, x_mint);
    // Any caller other than the configuring authority is refused.
    let intruder = GSOWithdraw {
        authority: ALICE,
        gso_state: key,
        so_state: derived_id(gso::SO_STATE_SEED, 0),
        user_base_account: ALICE_BASE,
    };
    assert_eq!(withdraw(&mut gso, &intruder), Err(ErrorCode::AuthorizationError));
    // The configuring authority reclaims the unissued collateral without
    // touching the vault or the receipt supply.
    let admin_before = balance(&gso, ADMIN_BASE);
    let so_vault = derived_id(gso::SO_VAULT_SEED, 0);
    let collateral_held = balance(&gso, so_vault);
    let ctx = GSOWithdraw {
        authority: ADMIN,
        gso_state: key,
        so_state: derived_id(gso::SO_STATE_SEED, 0),
        user_base_account: ADMIN_BASE,
    };
    withdraw(&mut gso, &ctx).unwrap();
    assert_eq!(balance(&gso, ADMIN_BASE), admin_before + collateral_held);
    assert_eq!(balance(&gso, so_vault), 0);
    assert_eq!(balance(&gso, vault), vault_before);
    assert_eq!(supply(&gso, x_mint), supply_before);
    // With the collateral gone, further issuance is refused.
    let r = stake(&mut gso, &stake_ctx(key), 1_000_000);
    assert_eq!(r, Err(ErrorCode::InsufficientCollateral));
}

#[test]
fn receipt_sum_equals_vault_after_any_sequence() {
    let (mut gso, key) = configured_world();
    let vault = derived_id(BASE_VAULT_SEED, 0);
    let x_mint = derived_id(X_GSO_SEED, 0);
    gso.ledger.create_account(BOB_X, x_mint, BOB).unwrap();
    stake(&mut gso, &stake_ctx(key), 300).unwrap();
    stake(&mut gso, &stake_ctx(key), 700).unwrap();
    gso.ledger.transfer(ALICE_X, BOB_X, 250, ALICE).unwrap();
    assert_eq!(receipt_balance_sum(&gso, x_mint), balance(&gso, vault));
    unstake(&mut gso, &unstake_ctx(key), 400, LOCKUP_END + 1).unwrap();
    assert_eq!(receipt_balance_sum(&gso, x_mint), balance(&gso, vault));
    let bob_ctx = GSOUnstake {
        authority: BOB,
        gso_state: key,
        user_base_account: BOB_BASE,
        user_x_base_account: BOB_X,
    };
    unstake(&mut gso, &bob_ctx, 250, LOCKUP_END + 1).unwrap();
    assert_eq!(receipt_balance_sum(&gso, x_mint), balance(&gso, vault));
    assert_eq!(receipt_balance_sum(&gso, x_mint), 350);
}

#[test]
fn stake_failure_modes() {
    let (mut gso, key) = configured_world();
    // More than the depositor holds.
    let r = stake(&mut gso, &stake_ctx(key), 10_000_001);
    assert_eq!(r, Err(ErrorCode::InsufficientFunds));
    // An unknown campaign key.
    let mut ctx = stake_ctx(key);
    ctx.gso_state = key + 999;
    assert_eq!(stake(&mut gso, &ctx, 1), Err(ErrorCode::AccountNotFound));
    // A different issuance state than the campaign recorded.
    let mut ctx2 = stake_ctx(key);
    ctx2.so_state = derived_id(gso::SO_STATE_SEED, 5);
    assert_eq!(stake(&mut gso, &ctx2, 1), Err(ErrorCode::StateMismatch));
    // A receipt account of the wrong mint.
    let mut ctx3 = stake_ctx(key);
    ctx3.user_x_base_account = ALICE_BASE;
    assert_eq!(stake(&mut gso, &ctx3, 1), Err(ErrorCode::MintMismatch));
    // A derived identity can never be a signer.
    let mut ctx4 = stake_ctx(key);
    ctx4.authority = derived_id(BASE_VAULT_SEED, 0);
    assert_eq!(stake(&mut gso, &ctx4, 1), Err(ErrorCode::AuthorizationError));
    // A signer who does not own the debited principal account.
    let mut ctx5 = stake_ctx(key);
    ctx5.authority = BOB;
    assert_eq!(stake(&mut gso, &ctx5, 1), Err(ErrorCode::AuthorizationError));
}

#[test]
fn naming_is_cosmetic() {
    let (mut gso, key) = configured_world();
    stake(&mut gso, &stake_ctx(key), 1_000).unwrap();
    let vault = derived_id(BASE_VAULT_SEED, 0);
    let x_mint = derived_id(X_GSO_SEED, 0);
    let vault_before = balance(&gso, vault);
    let supply_before = supply(&gso, x_mint);
    // Only the configuring authority may label the campaign.
    let intruder = GSONameTokens {
        authority: ALICE,
        gso_state: key,
        so_state: derived_id(gso::SO_STATE_SEED, 0),
    };
    assert_eq!(
        name_tokens(&mut gso, &intruder).err(),
        Some(ErrorCode::AuthorizationError)
    );
    let ctx = GSONameTokens {
        authority: ADMIN,
        gso_state: key,
        so_state: derived_id(gso::SO_STATE_SEED, 0),
    };
    let metadata = name_tokens(&mut gso, &ctx).unwrap();
    assert_eq!(metadata.mint, x_mint);
    assert_eq!(metadata.name, "DUAL-GSO-DUAL");
    assert_eq!(metadata.symbol, "DUAL-GSO");
    assert!(gso.so_states[0].named);
    // The issuance state carries the prefixed project name.
    assert_eq!(gso.so_states[0].name, "GSODUAL");
    // Nothing custodial moved.
    assert_eq!(balance(&gso, vault), vault_before);
    assert_eq!(supply(&gso, x_mint), supply_before);
}

#[test]
fn naming_truncates_long_project_names() {
    let mut gso = world();
    let bump = canonical_bump(SO_AUTHORITY_SEED, 0);
    let key = config_v2(
        &mut gso,
        &config_ctx(),
        7,
        RATIO,
        LOCKUP_END,
        3_000,
        SUB_END,
        1,
        COLLATERAL,
        String::from("AVeryLongProjectName"),
        1_500,
        bump,
    )
    .unwrap();
    let ctx = GSONameTokens {
        authority: ADMIN,
        gso_state: key,
        so_state: derived_id(gso::SO_STATE_SEED, 0),
    };
    let metadata = name_tokens(&mut gso, &ctx).unwrap();
    assert_eq!(metadata.name, "DUAL-GSO-AVeryLongProjec");
}

#[test]
fn derivation_accepts_only_the_canonical_bump() {
    let good = canonical_bump(SO_AUTHORITY_SEED, 3);
    assert!(gso::derive_authority(SO_AUTHORITY_SEED, 3, good).is_ok());
    assert_eq!(
        gso::derive_authority(SO_AUTHORITY_SEED, 3, good.wrapping_add(1)),
        Err(ErrorCode::AuthorizationError)
    );
    assert!(gso::is_derived(gso::derive_authority(SO_AUTHORITY_SEED, 3, good).unwrap()));
    assert!(!gso::is_derived(ALICE));
}

#[test]
fn stake_of_zero_is_accepted_with_no_effect() {
    let (mut gso, key) = configured_world();
    let vault = derived_id(BASE_VAULT_SEED, 0);
    let alice_before = balance(&gso, ALICE_BASE);
    stake(&mut gso, &stake_ctx(key), 0).unwrap();
    assert_eq!(balance(&gso, ALICE_BASE), alice_before);
    assert_eq!(balance(&gso, vault), 0);
    assert_eq!(balance(&gso, ALICE_X), 0);
    assert_eq!(balance(&gso, ALICE_OPT), 0);
}

#[test]
fn first_revision_config_locks_the_base_mint() {
    let mut gso = world();
    let bump = canonical_bump(SO_AUTHORITY_SEED, 0);
    let ctx = gso::GSOConfig {
        authority: ADMIN,
        so_base_account: ADMIN_BASE,
        so_quote_account: ADMIN_QUOTE,
        so_base_mint: BASE_MINT,
        so_quote_mint: QUOTE_MINT,
    };
    let key = gso::config(
        &mut gso,
        &ctx,
        7,
        RATIO,
        LOCKUP_END,
        3_000,
        SUB_END,
        1,
        COLLATERAL,
        String::from("DUAL"),
        1_500,
        bump,
    )
    .unwrap();
    // The vault locks the option base mint itself.
    let vault = derived_id(BASE_VAULT_SEED, 0);
    let vault_acc = gso
        .ledger
        .accounts
        .iter()
        .find(|a| a.id == vault)
        .expect("vault exists");
    assert_eq!(vault_acc.mint, BASE_MINT);
    // And staking against it works as usual.
    let x_mint = derived_id(X_GSO_SEED, 0);
    let opt_mint = derived_id(gso::SO_OPTION_MINT_SEED, 0);
    gso.ledger.create_account(ALICE_X, x_mint, ALICE).unwrap();
    gso.ledger.create_account(ALICE_OPT, opt_mint, ALICE).unwrap();
    stake(&mut gso, &stake_ctx(key), 1_000).unwrap();
    assert_eq!(balance(&gso, vault), 1_000);
}

#[test]
fn unstake_failure_modes() {
    let (mut gso, key) = configured_world();
    stake(&mut gso, &stake_ctx(key), 2_000).unwrap();
    // A signer who does not own the receipt account being burned.
    let mut ctx = unstake_ctx(key);
    ctx.authority = BOB;
    assert_eq!(
        unstake(&mut gso, &ctx, 1, LOCKUP_END + 1),
        Err(ErrorCode::AuthorizationError)
    );
    // A destination of a different mint than the vault holds.
    let mut ctx2 = unstake_ctx(key);
    ctx2.user_base_account = ADMIN_QUOTE;
    assert_eq!(
        unstake(&mut gso, &ctx2, 1, LOCKUP_END + 1),
        Err(ErrorCode::MintMismatch)
    );
    // An unknown campaign key.
    let mut ctx3 = unstake_ctx(key);
    ctx3.gso_state = key + 1;
    assert_eq!(
        unstake(&mut gso, &ctx3, 1, LOCKUP_END + 1),
        Err(ErrorCode::AccountNotFound)
    );
    // More receipts than the holder has.
    assert_eq!(
        unstake(&mut gso, &unstake_ctx(key), 2_001, LOCKUP_END + 1),
        Err(ErrorCode::InsufficientFunds)
    );
    // And the well-formed redemption still goes through afterwards.
    unstake(&mut gso, &unstake_ctx(key), 2_000, LOCKUP_END + 1).unwrap();
}
