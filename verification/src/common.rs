//! The campaign record and the protocol's world state.
//!
//! A campaign (`GSOState`) is created exactly once per (period number, project
//! name) pair and is immutable afterwards. `Gso` holds everything the
//! orchestrators touch: the token ledger, the campaign registry and the
//! issuance collaborator's states. Its well-formedness carries the protocol's
//! central invariant: for every campaign, the receipt-token supply equals the
//! vault balance.

use vstd::prelude::*;
use crate::ids::{
    spec_derived_id, spec_canonical_bump, spec_is_derived, derived_id, lemma_derived_id_distinct,
    lemma_derived_id_is_derived, GSO_STATE_SEED, X_GSO_SEED, BASE_VAULT_SEED, SO_AUTHORITY_SEED,
};
use crate::issuance::{SoState, so_wf, has_so, so_of};
use crate::ledger::Ledger;

verus! {

broadcast use lemma_derived_id_distinct, lemma_derived_id_is_derived;

/// One configured lockup campaign. Created exactly once per (period number,
/// project name) pair; never updated or deleted.
pub struct GSOState {
    /// Registry slot of this campaign; all of its derived identities use it.
    pub campaign_id: u64,
    /// Number of the period. Informational; part of the identity key.
    pub period_num: u64,
    /// End of the issuance subscription period, in seconds.
    pub subscription_period_end: u64,
    /// How many option claims per million locked principal atoms.
    pub lockup_ratio_tokens_per_million: u64,
    /// Bump of the campaign record's own derived identity.
    pub gso_state_bump: u8,
    /// Bump of the issuance-signing authority.
    pub so_authority_bump: u8,
    /// Bump of the receipt mint's identity.
    pub x_base_mint_bump: u8,
    /// Bump of the vault's identity.
    pub base_vault_bump: u8,
    /// Strike price, in payment atoms.
    pub strike: u64,
    /// Project name; part of the identity key, forwarded with a fixed prefix
    /// to the issuance service.
    pub project_name: String,
    /// Identity of the issuance state this campaign drives.
    pub staking_options_state: u128,
    /// The configuring authority: the only identity allowed to withdraw.
    pub authority: u128,
    /// Mint the issuance service writes options over.
    pub base_mint: u128,
    /// Time in seconds after which holders can unstake (strict).
    pub lockup_period_end: u64,
}

/// The derived identity of the campaign record itself: the key callers
/// reference it by.
pub open spec fn gso_key(c: GSOState) -> u128 {
    spec_derived_id(GSO_STATE_SEED, c.campaign_id)
}

/// The derived identity of the campaign's receipt mint.
pub open spec fn x_mint_id(c: GSOState) -> u128 {
    spec_derived_id(X_GSO_SEED, c.campaign_id)
}

/// The derived identity of the campaign's vault.
pub open spec fn vault_id(c: GSOState) -> u128 {
    spec_derived_id(BASE_VAULT_SEED, c.campaign_id)
}

/// The derived identity that signs the campaign's issuance-service calls.
pub open spec fn so_authority_id(c: GSOState) -> u128 {
    spec_derived_id(SO_AUTHORITY_SEED, c.campaign_id)
}

/// Two campaigns collide when they share period number and project name.
pub open spec fn same_campaign_key(a: GSOState, b: GSOState) -> bool {
    a.period_num == b.period_num && a.project_name@ == b.project_name@
}

/// Some campaign already uses this period number and project name.
pub open spec fn spec_key_taken(cs: Seq<GSOState>, period_num: u64, name: Seq<char>) -> bool {
    exists|i: int|
        0 <= i < cs.len() && (#[trigger] cs[i]).period_num == period_num && cs[i].project_name@
            == name
}

/// The registry slot a campaign key denotes (the campaign at slot `i` carries
/// key `derived(GSO_STATE_SEED, i)`).
pub open spec fn campaign_slot(key: u128) -> int {
    key - (GSO_STATE_SEED as int) * (crate::ids::DERIVED_ID_BASE as int)
}

/// Whether this key denotes a campaign of the registry.
pub open spec fn has_campaign(cs: Seq<GSOState>, key: u128) -> bool {
    0 <= campaign_slot(key) < cs.len() && gso_key(cs[campaign_slot(key)]) == key
}

/// The campaign this key denotes.
pub open spec fn campaign_of(cs: Seq<GSOState>, key: u128) -> GSOState {
    cs[campaign_slot(key)]
}

/// Well-formedness of one campaign against the ledger and the issuance side:
/// its bumps are the canonical ones, its receipt mint is controlled by itself,
/// its vault is owned by itself and holds a mint other than the receipt mint,
/// the receipt supply equals the vault balance, and the issuance state it
/// references answers to its issuance authority at its strike.
pub open spec fn campaign_wf(l: Ledger, sos: Seq<SoState>, c: GSOState) -> bool {
    &&& c.gso_state_bump == spec_canonical_bump(GSO_STATE_SEED, c.campaign_id)
    &&& c.so_authority_bump == spec_canonical_bump(SO_AUTHORITY_SEED, c.campaign_id)
    &&& c.x_base_mint_bump == spec_canonical_bump(X_GSO_SEED, c.campaign_id)
    &&& c.base_vault_bump == spec_canonical_bump(BASE_VAULT_SEED, c.campaign_id)
    &&& !spec_is_derived(c.authority)
    &&& l.has_mint(x_mint_id(c))
    &&& l.mint(x_mint_id(c)).authority == x_mint_id(c)
    &&& l.has_account(vault_id(c))
    &&& l.account(vault_id(c)).owner == vault_id(c)
    &&& l.account(vault_id(c)).mint != x_mint_id(c)
    &&& l.supply_of(x_mint_id(c)) == l.balance_of(vault_id(c))
    &&& has_so(sos, c.staking_options_state)
    &&& so_of(sos, c.staking_options_state).authority == so_authority_id(c)
    &&& so_of(sos, c.staking_options_state).has_strike
    &&& so_of(sos, c.staking_options_state).strike == c.strike
    &&& so_of(sos, c.staking_options_state).base_mint == c.base_mint
    &&& l.account(vault_id(c)).mint != so_of(sos, c.staking_options_state).option_mint
    &&& c.lockup_period_end >= c.subscription_period_end
}

/// The two worlds hold exactly the same ledger, campaigns and issuance
/// states: how a failed operation leaves the world.
pub open spec fn unchanged(pre: Gso, post: Gso) -> bool {
    &&& post.ledger == pre.ledger
    &&& post.campaigns@ == pre.campaigns@
    &&& post.so_states@ == pre.so_states@
}

/// The whole world the orchestrators act on: the token ledger, the campaign
/// registry, and the issuance collaborator's states.
pub struct Gso {
    pub ledger: Ledger,
    pub campaigns: Vec<GSOState>,
    pub so_states: Vec<SoState>,
}

impl Gso {
    /// Well-formedness of the world: the ledger and the issuance side are
    /// well-formed, campaigns sit at the slot their identities are derived
    /// from, no two campaigns share a (period number, project name) key, and
    /// every campaign is well-formed — in particular, every campaign's receipt
    /// supply equals its vault balance.
    pub open spec fn wf(self) -> bool {
        &&& self.ledger.wf()
        &&& so_wf(self.ledger, self.so_states@)
        &&& self.campaigns@.len() < 0x1_0000_0000_0000_0000
        &&& forall|i: int|
            0 <= i < self.campaigns@.len() ==> (#[trigger] self.campaigns@[i]).campaign_id == i
        &&& forall|i: int, j: int|
            0 <= i < j < self.campaigns@.len() ==> !same_campaign_key(
                self.campaigns@[i],
                self.campaigns@[j],
            )
        &&& forall|i: int|
            0 <= i < self.campaigns@.len() ==> campaign_wf(
                self.ledger,
                self.so_states@,
                #[trigger] self.campaigns@[i],
            )
    }

    /// An empty world: no accounts, no mints, no campaigns, no issuance state.
    pub fn new() -> (r: Gso)
        ensures
            r.wf(),
            r.campaigns@.len() == 0,
            r.so_states@.len() == 0,
            r.ledger.accounts@.len() == 0,
            r.ledger.mints@.len() == 0,
    {
        Gso { ledger: Ledger::new(), campaigns: Vec::new(), so_states: Vec::new() }
    }

    /// Finds the registry slot of the campaign with this key.
    pub fn find_campaign(&self, key: u128) -> (r: Option<usize>)
        ensures
            match r {
                Some(i) => i < self.campaigns@.len() && gso_key(self.campaigns@[i as int]) == key
                    && has_campaign(self.campaigns@, key) && campaign_slot(key) == i,
                None => !has_campaign(self.campaigns@, key),
            },
    {
        proof {
            crate::ids::lemma_derived_id_exact(GSO_STATE_SEED, 0);
        }
        let lo = derived_id(GSO_STATE_SEED, 0);
        if key < lo {
            return None;
        }
        let off = key - lo;
        if off >= self.campaigns.len() as u128 {
            return None;
        }
        let i = off as usize;
        proof {
            crate::ids::lemma_derived_id_exact(
                GSO_STATE_SEED,
                self.campaigns@[i as int].campaign_id,
            );
        }
        if derived_id(GSO_STATE_SEED, self.campaigns[i].campaign_id) == key {
            Some(i)
        } else {
            None
        }
    }

    /// Tests whether some campaign already uses this period number and
    /// project name.
    pub fn campaign_key_taken(&self, period_num: u64, project_name: &String) -> (r: bool)
        ensures
            r == spec_key_taken(self.campaigns@, period_num, project_name@),
    {
        let mut i: usize = 0;
        while i < self.campaigns.len()
            invariant
                i <= self.campaigns@.len(),
                forall|k: int|
                    0 <= k < i ==> !((#[trigger] self.campaigns@[k]).period_num == period_num
                        && self.campaigns@[k].project_name@ == project_name@),
            decreases self.campaigns@.len() - i,
        {
            if self.campaigns[i].period_num == period_num && self.campaigns[i].project_name.eq(
                project_name,
            ) {
                return true;
            }
            i = i + 1;
        }
        false
    }
}

} // verus!
