//! Deterministic, keyless identities.
//!
//! Every identity in the model is a `u128`. External participants (signers,
//! their token accounts, their mints) live below `DERIVED_ID_BASE`; the
//! protocol's own derived identities are `seed * DERIVED_ID_BASE + number`,
//! with a distinct namespace seed per role. A derived identity is a pure
//! function of its seed and campaign number, so it holds no secret material:
//! it is a signing capability that only code holding the seed path can name,
//! and the orchestrators refuse it wherever an external signer or an external
//! account is expected.

use vstd::prelude::*;
use crate::errors::ErrorCode;

verus! {

/// Identities at or above this value are derived; external ones lie below it.
pub const DERIVED_ID_BASE: u128 = 0x1_0000_0000_0000_0000;

/// Namespace seed of a campaign record's own identity.
pub const GSO_STATE_SEED: u64 = 1;
/// Namespace seed of the receipt mint of a campaign.
pub const X_GSO_SEED: u64 = 2;
/// Namespace seed of the vault of a campaign.
pub const BASE_VAULT_SEED: u64 = 3;
/// Namespace seed of the authority that signs issuance-service calls.
pub const SO_AUTHORITY_SEED: u64 = 4;
/// Namespace seed of an issuance-service state record.
pub const SO_STATE_SEED: u64 = 5;
/// Namespace seed of an issuance-service collateral vault.
pub const SO_VAULT_SEED: u64 = 6;
/// Namespace seed of an issuance-service option mint.
pub const SO_OPTION_MINT_SEED: u64 = 7;

/// The identity derived from a namespace seed and a campaign number, as an
/// unbounded integer. Always below `2^128`, since both parts are below `2^64`.
pub open spec fn spec_derived_val(seed: u64, num: u64) -> int {
    (seed as int) * (DERIVED_ID_BASE as int) + (num as int)
}

/// The identity derived from a namespace seed and a campaign number.
pub open spec fn spec_derived_id(seed: u64, num: u64) -> u128 {
    spec_derived_val(seed, num) as u128
}

/// True of every identity the protocol can derive, false of every external one.
pub open spec fn spec_is_derived(id: u128) -> bool {
    id >= DERIVED_ID_BASE
}

/// The truncating cast in `spec_derived_id` is exact: the derived value fits.
pub broadcast proof fn lemma_derived_id_exact(seed: u64, num: u64)
    ensures
        #[trigger] spec_derived_id(seed, num) == spec_derived_val(seed, num),
{
    assert(spec_derived_val(seed, num) <= 0xffff_ffff_ffff_ffffu64 as int * (
    DERIVED_ID_BASE as int) + 0xffff_ffff_ffff_ffffu64 as int) by (nonlinear_arith)
        requires
            seed <= 0xffff_ffff_ffff_ffffu64,
            num <= 0xffff_ffff_ffff_ffffu64,
    ;
    assert(spec_derived_val(seed, num) >= 0) by (nonlinear_arith);
}

/// Identities derived from a nonzero seed lie in the derived namespace.
pub broadcast proof fn lemma_derived_id_is_derived(seed: u64, num: u64)
    ensures
        seed >= 1 ==> spec_is_derived(#[trigger] spec_derived_id(seed, num)),
{
    lemma_derived_id_exact(seed, num);
    if seed >= 1 {
        assert(spec_derived_val(seed, num) >= 1 * (DERIVED_ID_BASE as int)) by (nonlinear_arith)
            requires
                seed >= 1,
        ;
    }
}

/// Distinct seed/number pairs derive distinct identities.
pub broadcast proof fn lemma_derived_id_distinct(s1: u64, n1: u64, s2: u64, n2: u64)
    ensures
        s1 != s2 || n1 != n2 ==> #[trigger] spec_derived_id(s1, n1) != #[trigger] spec_derived_id(
            s2,
            n2,
        ),
{
    lemma_derived_id_exact(s1, n1);
    lemma_derived_id_exact(s2, n2);
    if spec_derived_val(s1, n1) == spec_derived_val(s2, n2) {
        assert(s1 == s2 && n1 == n2) by (nonlinear_arith)
            requires
                (s1 as int) * (DERIVED_ID_BASE as int) + (n1 as int) == (s2 as int) * (
                DERIVED_ID_BASE as int) + (n2 as int),
                n1 <= 0xffff_ffff_ffff_ffffu64,
                n2 <= 0xffff_ffff_ffff_ffffu64,
        ;
    }
}

/// Computes the derived identity for a seed and campaign number.
pub fn derived_id(seed: u64, num: u64) -> (r: u128)
    requires
        seed >= 1,
    ensures
        r == spec_derived_id(seed, num),
        spec_is_derived(r),
{
    proof {
        lemma_derived_id_exact(seed, num);
        lemma_derived_id_is_derived(seed, num);
        assert((seed as u128) * DERIVED_ID_BASE == (seed as int) * (DERIVED_ID_BASE as int))
            by (nonlinear_arith)
            requires
                seed <= 0xffff_ffff_ffff_ffffu64,
        ;
    }
    (seed as u128) * DERIVED_ID_BASE + (num as u128)
}

/// Tests whether an identity lies in the derived namespace.
pub fn is_derived(id: u128) -> (r: bool)
    ensures
        r == spec_is_derived(id),
{
    id >= DERIVED_ID_BASE
}

/// The unique bump value under which derivation succeeds for this seed path.
pub open spec fn spec_canonical_bump(seed: u64, num: u64) -> u8 {
    (((seed % 251) + (num % 251)) % 251) as u8
}

/// Computes the canonical bump for a seed path.
pub fn canonical_bump(seed: u64, num: u64) -> (r: u8)
    ensures
        r == spec_canonical_bump(seed, num),
{
    (((seed % 251) + (num % 251)) % 251) as u8
}

/// The host's address-derivation primitive: derivation succeeds exactly for
/// the canonical bump of the seed path, and fails an authorization check for
/// every other bump.
pub fn derive_authority(seed: u64, num: u64, bump: u8) -> (r: Result<u128, ErrorCode>)
    requires
        seed >= 1,
    ensures
        bump == spec_canonical_bump(seed, num) ==> r == Ok::<u128, ErrorCode>(
            spec_derived_id(seed, num),
        ),
        bump != spec_canonical_bump(seed, num) ==> r == Err::<u128, ErrorCode>(
            ErrorCode::AuthorizationError,
        ),
{
    if bump == canonical_bump(seed, num) {
        Ok(derived_id(seed, num))
    } else {
        Err(ErrorCode::AuthorizationError)
    }
}

} // verus!
