//! Model of the derivative-issuance collaborator. A campaign bootstraps one
//! issuance state, funds its collateral vault, registers a strike (which
//! creates the option-claim mint), and later asks it to issue option claims or
//! to hand back unused collateral. Its internal pricing mechanics are out of
//! scope; what is modelled is exactly what the lockup protocol relies on:
//! custody of collateral, the issued quantity, and the authority checks.

use vstd::prelude::*;
use crate::errors::ErrorCode;
use crate::ids::{
    spec_derived_id, derived_id, lemma_derived_id_distinct, lemma_derived_id_is_derived,
    SO_STATE_SEED, SO_VAULT_SEED, SO_OPTION_MINT_SEED, DERIVED_ID_BASE,
};
use crate::ledger::{
    Ledger, MintInfo, with_balance, with_supply, same_accounts_except, same_mints_except,
};

verus! {

broadcast use lemma_derived_id_distinct, lemma_derived_id_is_derived;

/// One issuance-service state: the collateral it holds, the strike it issues
/// at, and the delegated authority allowed to drive it.
pub struct SoState {
    /// Derived identity of this state; callers reference it by this value.
    pub id: u128,
    /// The only identity accepted for issue, withdraw and naming calls.
    pub authority: u128,
    /// Mint of the collateral (the token options are written over).
    pub base_mint: u128,
    /// Mint of the payment token (unused by the lockup core).
    pub quote_mint: u128,
    /// Ledger account holding the collateral, owned by this state itself.
    pub base_vault: u128,
    /// Mint of the option-claim token; meaningful once a strike is set.
    pub option_mint: u128,
    /// Whether a strike has been registered yet.
    pub has_strike: bool,
    /// The registered strike, in payment atoms.
    pub strike: u64,
    /// Collateral not yet promised to issued claims, in collateral atoms.
    pub available: u64,
    /// End of the subscription period, in seconds.
    pub subscription_period_end: u64,
    /// Expiration of the options, in seconds.
    pub option_expiration: u64,
    /// Collateral atoms per option lot.
    pub lot_size: u64,
    /// Display name handed over at bootstrap.
    pub name: String,
    /// Whether the cosmetic naming call has run.
    pub named: bool,
}

/// The slot an issuance-state identity denotes, as an integer (the state at
/// index `j` carries identity `derived(SO_STATE_SEED, j)`).
pub open spec fn so_slot(id: u128) -> int {
    id - (SO_STATE_SEED as int) * (DERIVED_ID_BASE as int)
}

/// Whether this identity denotes an issuance state of the sequence.
pub open spec fn has_so(sos: Seq<SoState>, id: u128) -> bool {
    0 <= so_slot(id) < sos.len() && sos[so_slot(id)].id == id
}

/// The issuance state this identity denotes.
pub open spec fn so_of(sos: Seq<SoState>, id: u128) -> SoState {
    sos[so_slot(id)]
}

/// Well-formedness of one issuance state at its slot: its identity and vault
/// are the derived ones of the slot, the vault is an account of the collateral
/// mint owned by the state itself, and, once a strike is set, the option mint
/// exists, is controlled by the state itself, and can still absorb the
/// remaining collateral without overflowing its supply.
pub open spec fn so_state_wf(l: Ledger, st: SoState, j: int) -> bool {
    &&& st.id == spec_derived_id(SO_STATE_SEED, j as u64)
    &&& st.base_vault == spec_derived_id(SO_VAULT_SEED, j as u64)
    &&& l.has_account(st.base_vault)
    &&& l.account(st.base_vault).owner == st.id
    &&& l.account(st.base_vault).mint == st.base_mint
    &&& l.has_mint(st.base_mint)
    &&& st.has_strike ==> {
        &&& st.option_mint == spec_derived_id(SO_OPTION_MINT_SEED, j as u64)
        &&& l.has_mint(st.option_mint)
        &&& l.mint(st.option_mint).authority == st.id
        &&& l.supply_of(st.option_mint) + st.available <= u64::MAX
    }
}

/// Well-formedness of the whole issuance side.
pub open spec fn so_wf(l: Ledger, sos: Seq<SoState>) -> bool {
    &&& sos.len() < 0x1_0000_0000_0000_0000
    &&& forall|j: int| 0 <= j < sos.len() ==> so_state_wf(l, #[trigger] sos[j], j)
}

/// Why `so_config` fails, or `None` where it succeeds: missing mints or
/// accounts, a funding account the payer does not own or of the wrong mint,
/// too little collateral, or a collateral-vault identity already in use.
pub open spec fn so_config_err(
    l: Ledger,
    sos: Seq<SoState>,
    authority: u128,
    base_account: u128,
    quote_account: u128,
    base_mint: u128,
    quote_mint: u128,
    num_tokens: u64,
) -> Option<ErrorCode> {
    let vault_id = spec_derived_id(SO_VAULT_SEED, sos.len() as u64);
    if !l.has_mint(base_mint) || !l.has_mint(quote_mint) || !l.has_account(base_account)
        || !l.has_account(quote_account) {
        Some(ErrorCode::AccountNotFound)
    } else if l.account(base_account).owner != authority {
        Some(ErrorCode::AuthorizationError)
    } else if l.account(base_account).mint != base_mint || l.account(quote_account).mint
        != quote_mint {
        Some(ErrorCode::MintMismatch)
    } else if l.account(base_account).balance < num_tokens {
        Some(ErrorCode::InsufficientFunds)
    } else if l.has_account(vault_id) {
        Some(ErrorCode::AlreadyInUse)
    } else {
        None
    }
}

/// Finds the slot of the issuance state with this identity.
pub fn find_so(sos: &Vec<SoState>, id: u128) -> (r: Option<usize>)
    ensures
        match r {
            Some(j) => j < sos@.len() && sos@[j as int].id == id && has_so(sos@, id) && so_slot(id)
                == j,
            None => !has_so(sos@, id),
        },
{
    proof {
        crate::ids::lemma_derived_id_exact(SO_STATE_SEED, 0);
    }
    let lo = derived_id(SO_STATE_SEED, 0);
    if id < lo {
        return None;
    }
    let off = id - lo;
    if off >= sos.len() as u128 {
        return None;
    }
    let j = off as usize;
    if sos[j].id == id {
        Some(j)
    } else {
        None
    }
}

/// Why `so_init_strike` fails, or `None` where it succeeds: a missing state,
/// a signer other than the state's authority, a strike already set, or an
/// option-mint identity already in use.
pub open spec fn so_init_strike_err(
    l: Ledger,
    sos: Seq<SoState>,
    so_state: u128,
    authority: u128,
) -> Option<ErrorCode> {
    if !has_so(sos, so_state) {
        Some(ErrorCode::AccountNotFound)
    } else if so_of(sos, so_state).authority != authority {
        Some(ErrorCode::AuthorizationError)
    } else if so_of(sos, so_state).has_strike {
        Some(ErrorCode::AlreadyInUse)
    } else if l.has_mint(spec_derived_id(SO_OPTION_MINT_SEED, so_slot(so_state) as u64)) {
        Some(ErrorCode::AlreadyInUse)
    } else {
        None
    }
}

/// Registers the strike of an issuance state and creates its option-claim
/// mint, controlled by the state itself. Atomic: on any failure nothing is
/// changed.
pub fn so_init_strike(l: &mut Ledger, sos: &mut Vec<SoState>, so_state: u128, strike: u64, authority: u128) -> (r:
    Result<(), ErrorCode>)
    requires
        old(l).wf(),
        so_wf(*old(l), old(sos)@),
    ensures
        final(l).wf(),
        so_wf(*final(l), final(sos)@),
        match so_init_strike_err(*old(l), old(sos)@, so_state, authority) {
            Some(e) => r == Err::<(), ErrorCode>(e) && *final(l) == *old(l) && final(sos)@ == old(
                sos,
            )@,
            None => {
                let j = so_slot(so_state);
                let opt = spec_derived_id(SO_OPTION_MINT_SEED, j as u64);
                &&& r == Ok::<(), ErrorCode>(())
                &&& final(sos)@ == old(sos)@.update(
                    j,
                    SoState { option_mint: opt, has_strike: true, strike, ..old(sos)@[j] },
                )
                &&& final(l).accounts@ == old(l).accounts@
                &&& final(l).has_mint(opt)
                &&& final(l).mint(opt) == (MintInfo { id: opt, authority: so_state, supply: 0u64 })
                &&& forall|x: u128| x != opt ==> final(l).has_mint(x) == old(l).has_mint(x)
                &&& forall|x: u128|
                    x != opt && old(l).has_mint(x) ==> final(l).mint(x) == old(l).mint(x)
            },
        },
{
    let j = match find_so(sos, so_state) {
        Some(j) => j,
        None => { return Err(ErrorCode::AccountNotFound) },
    };
    if sos[j].authority != authority {
        return Err(ErrorCode::AuthorizationError);
    }
    if sos[j].has_strike {
        return Err(ErrorCode::AlreadyInUse);
    }
    let opt = derived_id(SO_OPTION_MINT_SEED, j as u64);
    if l.find_mint(opt).is_some() {
        return Err(ErrorCode::AlreadyInUse);
    }
    l.do_create_mint(opt, so_state);
    let st = &mut sos[j];
    st.option_mint = opt;
    st.has_strike = true;
    st.strike = strike;
    proof {
        assert forall|k: int| 0 <= k < sos@.len() implies so_state_wf(
            *l,
            #[trigger] sos@[k],
            k,
        ) by {
            assert(so_state_wf(*old(l), old(sos)@[k], k));
        }
    }
    Ok(())
}

/// Why `so_issue` fails, or `None` where it succeeds: a missing state, a
/// signer other than the state's authority, an unset or different strike, a
/// missing or mismatched recipient account, or more claims asked for than the
/// remaining collateral covers.
pub open spec fn so_issue_err(
    l: Ledger,
    sos: Seq<SoState>,
    so_state: u128,
    qty: u64,
    strike: u64,
    user_so_account: u128,
    authority: u128,
) -> Option<ErrorCode> {
    if !has_so(sos, so_state) {
        Some(ErrorCode::AccountNotFound)
    } else if so_of(sos, so_state).authority != authority {
        Some(ErrorCode::AuthorizationError)
    } else if !so_of(sos, so_state).has_strike || so_of(sos, so_state).strike != strike {
        Some(ErrorCode::StateMismatch)
    } else if !l.has_account(user_so_account) {
        Some(ErrorCode::AccountNotFound)
    } else if l.account(user_so_account).mint != so_of(sos, so_state).option_mint {
        Some(ErrorCode::MintMismatch)
    } else if qty > so_of(sos, so_state).available {
        Some(ErrorCode::InsufficientCollateral)
    } else {
        None
    }
}

/// Issues `qty` option claims against the state's collateral: mints them to
/// the recipient and reserves that much collateral. Atomic: on any failure
/// nothing is changed.
pub fn so_issue(
    l: &mut Ledger,
    sos: &mut Vec<SoState>,
    so_state: u128,
    qty: u64,
    strike: u64,
    user_so_account: u128,
    authority: u128,
) -> (r: Result<(), ErrorCode>)
    requires
        old(l).wf(),
        so_wf(*old(l), old(sos)@),
    ensures
        final(l).wf(),
        so_wf(*final(l), final(sos)@),
        match so_issue_err(*old(l), old(sos)@, so_state, qty, strike, user_so_account, authority) {
            Some(e) => r == Err::<(), ErrorCode>(e) && *final(l) == *old(l) && final(sos)@ == old(
                sos,
            )@,
            None => {
                let j = so_slot(so_state);
                let opt = old(sos)@[j].option_mint;
                &&& r == Ok::<(), ErrorCode>(())
                &&& final(sos)@ == old(sos)@.update(
                    j,
                    SoState { available: (old(sos)@[j].available - qty) as u64, ..old(sos)@[j] },
                )
                &&& same_accounts_except(*old(l), *final(l), user_so_account, user_so_account)
                &&& same_mints_except(*old(l), *final(l), opt)
                &&& final(l).account(user_so_account) == with_balance(
                    old(l).account(user_so_account),
                    (old(l).account(user_so_account).balance + qty) as u64,
                )
                &&& final(l).mint(opt) == with_supply(
                    old(l).mint(opt),
                    (old(l).supply_of(opt) + qty) as u64,
                )
            },
        },
{
    let j = match find_so(sos, so_state) {
        Some(j) => j,
        None => { return Err(ErrorCode::AccountNotFound) },
    };
    if sos[j].authority != authority {
        return Err(ErrorCode::AuthorizationError);
    }
    if !sos[j].has_strike || sos[j].strike != strike {
        return Err(ErrorCode::StateMismatch);
    }
    let opt = sos[j].option_mint;
    let user_i = match l.find_account(user_so_account) {
        Some(i) => i,
        None => { return Err(ErrorCode::AccountNotFound) },
    };
    proof {
        crate::ledger::lemma_acc_index_of(l.accounts@, user_i as int);
    }
    if l.accounts[user_i].mint != opt {
        return Err(ErrorCode::MintMismatch);
    }
    if qty > sos[j].available {
        return Err(ErrorCode::InsufficientCollateral);
    }
    let opt_j = match l.find_mint(opt) {
        Some(k) => k,
        None => { return Err(ErrorCode::AccountNotFound) },
    };
    proof {
        crate::ledger::lemma_mint_index_of(l.mints@, opt_j as int);
        assert(so_state_wf(*old(l), old(sos)@[j as int], j as int));
    }
    l.do_mint_to(opt_j, user_i, qty);
    let st = &mut sos[j];
    st.available = st.available - qty;
    proof {
        assert forall|k: int| 0 <= k < sos@.len() implies so_state_wf(
            *l,
            #[trigger] sos@[k],
            k,
        ) by {
            assert(so_state_wf(*old(l), old(sos)@[k], k));
        }
    }
    Ok(())
}

/// Why `so_withdraw` fails, or `None` where it succeeds: a missing state, a
/// signer other than the state's authority, a missing destination, the
/// collateral vault itself as destination, a destination of another mint, or
/// an overflowing destination balance.
pub open spec fn so_withdraw_err(
    l: Ledger,
    sos: Seq<SoState>,
    so_state: u128,
    dest: u128,
    authority: u128,
) -> Option<ErrorCode> {
    if !has_so(sos, so_state) {
        Some(ErrorCode::AccountNotFound)
    } else if so_of(sos, so_state).authority != authority {
        Some(ErrorCode::AuthorizationError)
    } else if !l.has_account(dest) {
        Some(ErrorCode::AccountNotFound)
    } else if dest == so_of(sos, so_state).base_vault {
        Some(ErrorCode::StateMismatch)
    } else if l.account(dest).mint != so_of(sos, so_state).base_mint {
        Some(ErrorCode::MintMismatch)
    } else if l.account(dest).balance + l.balance_of(so_of(sos, so_state).base_vault) > u64::MAX {
        Some(ErrorCode::ArithmeticError)
    } else {
        None
    }
}

/// Returns all remaining collateral of an issuance state to a destination
/// account and stops further issuance. Atomic: on any failure nothing is
/// changed.
pub fn so_withdraw(l: &mut Ledger, sos: &mut Vec<SoState>, so_state: u128, dest: u128, authority: u128) -> (r:
    Result<(), ErrorCode>)
    requires
        old(l).wf(),
        so_wf(*old(l), old(sos)@),
    ensures
        final(l).wf(),
        so_wf(*final(l), final(sos)@),
        match so_withdraw_err(*old(l), old(sos)@, so_state, dest, authority) {
            Some(e) => r == Err::<(), ErrorCode>(e) && *final(l) == *old(l) && final(sos)@ == old(
                sos,
            )@,
            None => {
                let j = so_slot(so_state);
                let vault = old(sos)@[j].base_vault;
                &&& r == Ok::<(), ErrorCode>(())
                &&& final(sos)@ == old(sos)@.update(
                    j,
                    SoState { available: 0u64, ..old(sos)@[j] },
                )
                &&& final(l).mints@ == old(l).mints@
                &&& same_accounts_except(*old(l), *final(l), vault, dest)
                &&& final(l).account(vault) == with_balance(old(l).account(vault), 0u64)
                &&& final(l).account(dest) == with_balance(
                    old(l).account(dest),
                    (old(l).account(dest).balance + old(l).balance_of(vault)) as u64,
                )
            },
        },
{
    let j = match find_so(sos, so_state) {
        Some(j) => j,
        None => { return Err(ErrorCode::AccountNotFound) },
    };
    if sos[j].authority != authority {
        return Err(ErrorCode::AuthorizationError);
    }
    let vault = sos[j].base_vault;
    let dest_i = match l.find_account(dest) {
        Some(i) => i,
        None => { return Err(ErrorCode::AccountNotFound) },
    };
    if dest == vault {
        return Err(ErrorCode::StateMismatch);
    }
    let vault_i = match l.find_account(vault) {
        Some(i) => i,
        None => { return Err(ErrorCode::AccountNotFound) },
    };
    proof {
        crate::ledger::lemma_acc_index_of(l.accounts@, dest_i as int);
        crate::ledger::lemma_acc_index_of(l.accounts@, vault_i as int);
        assert(so_state_wf(*old(l), old(sos)@[j as int], j as int));
    }
    if l.accounts[dest_i].mint != sos[j].base_mint {
        return Err(ErrorCode::MintMismatch);
    }
    let amount = l.accounts[vault_i].balance;
    if amount > u64::MAX - l.accounts[dest_i].balance {
        return Err(ErrorCode::ArithmeticError);
    }
    l.do_transfer(vault_i, dest_i, amount);
    let st = &mut sos[j];
    st.available = 0;
    proof {
        assert forall|k: int| 0 <= k < sos@.len() implies so_state_wf(
            *l,
            #[trigger] sos@[k],
            k,
        ) by {
            assert(so_state_wf(*old(l), old(sos)@[k], k));
        }
    }
    Ok(())
}

/// Why `so_name_token` fails, or `None` where it succeeds: a missing state, a
/// signer other than the state's authority, or no strike registered yet.
pub open spec fn so_name_token_err(
    sos: Seq<SoState>,
    so_state: u128,
    authority: u128,
) -> Option<ErrorCode> {
    if !has_so(sos, so_state) {
        Some(ErrorCode::AccountNotFound)
    } else if so_of(sos, so_state).authority != authority {
        Some(ErrorCode::AuthorizationError)
    } else if !so_of(sos, so_state).has_strike {
        Some(ErrorCode::StateMismatch)
    } else {
        None
    }
}

/// Marks the option mint of an issuance state as cosmetically named. Touches
/// no custody or accounting state.
pub fn so_name_token(sos: &mut Vec<SoState>, so_state: u128, authority: u128) -> (r: Result<
    (),
    ErrorCode,
>)
    ensures
        match so_name_token_err(old(sos)@, so_state, authority) {
            Some(e) => r == Err::<(), ErrorCode>(e) && final(sos)@ == old(sos)@,
            None => {
                let j = so_slot(so_state);
                &&& r == Ok::<(), ErrorCode>(())
                &&& final(sos)@ == old(sos)@.update(
                    j,
                    SoState { named: true, ..old(sos)@[j] },
                )
            },
        },
{
    let j = match find_so(sos, so_state) {
        Some(j) => j,
        None => { return Err(ErrorCode::AccountNotFound) },
    };
    if sos[j].authority != authority {
        return Err(ErrorCode::AuthorizationError);
    }
    if !sos[j].has_strike {
        return Err(ErrorCode::StateMismatch);
    }
    let st = &mut sos[j];
    st.named = true;
    Ok(())
}

/// Renaming a state cosmetically keeps the issuance side well-formed: nothing
/// that well-formedness speaks of changes.
pub proof fn lemma_named_preserves_so_wf(l: Ledger, sos1: Seq<SoState>, sos2: Seq<SoState>, j: int)
    requires
        so_wf(l, sos1),
        0 <= j < sos1.len(),
        sos2 == sos1.update(j, SoState { named: true, ..sos1[j] }),
    ensures
        so_wf(l, sos2),
{
    assert forall|k: int| 0 <= k < sos2.len() implies so_state_wf(l, #[trigger] sos2[k], k) by {
        assert(so_state_wf(l, sos1[k], k));
    }
}

/// Bootstraps one issuance state: creates its collateral vault, moves
/// `num_tokens` of collateral into it from the payer's funding account, and
/// records the delegated authority that may drive the state from now on.
/// Atomic: on any failure nothing is changed.
pub fn so_config(
    l: &mut Ledger,
    sos: &mut Vec<SoState>,
    authority: u128,
    so_authority: u128,
    base_account: u128,
    quote_account: u128,
    base_mint: u128,
    quote_mint: u128,
    option_expiration: u64,
    subscription_period_end: u64,
    num_tokens: u64,
    lot_size: u64,
    name: String,
) -> (r: Result<u128, ErrorCode>)
    requires
        old(l).wf(),
        so_wf(*old(l), old(sos)@),
        old(sos)@.len() + 1 < 0x1_0000_0000_0000_0000,
    ensures
        final(l).wf(),
        so_wf(*final(l), final(sos)@),
        match so_config_err(
            *old(l),
            old(sos)@,
            authority,
            base_account,
            quote_account,
            base_mint,
            quote_mint,
            num_tokens,
        ) {
            Some(e) => r == Err::<u128, ErrorCode>(e) && *final(l) == *old(l) && final(sos)@ == old(
                sos,
            )@,
            None => {
                &&& r == Ok::<u128, ErrorCode>(
                    spec_derived_id(SO_STATE_SEED, old(sos)@.len() as u64),
                )
                &&& final(sos)@.len() == old(sos)@.len() + 1
                &&& final(sos)@.subrange(0, old(sos)@.len() as int) == old(sos)@
                &&& final(sos)@.last() == (SoState {
                    id: spec_derived_id(SO_STATE_SEED, old(sos)@.len() as u64),
                    authority: so_authority,
                    base_mint,
                    quote_mint,
                    base_vault: spec_derived_id(SO_VAULT_SEED, old(sos)@.len() as u64),
                    option_mint: 0u128,
                    has_strike: false,
                    strike: 0u64,
                    available: num_tokens,
                    subscription_period_end,
                    option_expiration,
                    lot_size,
                    name,
                    named: false,
                })
                &&& final(l).mints@ == old(l).mints@
                &&& forall|x: u128|
                    x != spec_derived_id(SO_VAULT_SEED, old(sos)@.len() as u64)
                        ==> final(l).has_account(x) == old(l).has_account(x)
                &&& forall|x: u128|
                    x != spec_derived_id(SO_VAULT_SEED, old(sos)@.len() as u64) && x
                        != base_account && old(l).has_account(x)
                        ==> final(l).account(x) == old(l).account(x)
                &&& final(l).account(base_account) == with_balance(
                    old(l).account(base_account),
                    (old(l).account(base_account).balance - num_tokens) as u64,
                )
                &&& final(l).has_account(
                    spec_derived_id(SO_VAULT_SEED, old(sos)@.len() as u64),
                )
                &&& final(l).balance_of(
                    spec_derived_id(SO_VAULT_SEED, old(sos)@.len() as u64),
                ) == num_tokens
            },
        },
{
    let num: u64 = sos.len() as u64;
    let vault_id = derived_id(SO_VAULT_SEED, num);
    let so_id = derived_id(SO_STATE_SEED, num);
    let base_ok = l.find_mint(base_mint).is_some();
    let quote_ok = l.find_mint(quote_mint).is_some();
    let quote_acc_i = l.find_account(quote_account);
    let base_acc_i = match l.find_account(base_account) {
        Some(i) => i,
        None => { return Err(ErrorCode::AccountNotFound) },
    };
    if !base_ok || !quote_ok || quote_acc_i.is_none() {
        return Err(ErrorCode::AccountNotFound);
    }
    proof {
        crate::ledger::lemma_acc_index_of(l.accounts@, base_acc_i as int);
        crate::ledger::lemma_acc_index_of(l.accounts@, quote_acc_i.unwrap() as int);
    }
    let base_acc = l.accounts[base_acc_i];
    let quote_acc = l.accounts[quote_acc_i.unwrap()];
    if base_acc.owner != authority {
        return Err(ErrorCode::AuthorizationError);
    }
    if base_acc.mint != base_mint || quote_acc.mint != quote_mint {
        return Err(ErrorCode::MintMismatch);
    }
    if base_acc.balance < num_tokens {
        return Err(ErrorCode::InsufficientFunds);
    }
    if l.find_account(vault_id).is_some() {
        return Err(ErrorCode::AlreadyInUse);
    }
    l.do_create_account(vault_id, base_mint, so_id);
    let vault_i = match l.find_account(vault_id) {
        Some(i) => i,
        None => { return Err(ErrorCode::AccountNotFound) },
    };
    let from_i = match l.find_account(base_account) {
        Some(i) => i,
        None => { return Err(ErrorCode::AccountNotFound) },
    };
    proof {
        crate::ledger::lemma_acc_index_of(l.accounts@, vault_i as int);
        crate::ledger::lemma_acc_index_of(l.accounts@, from_i as int);
    }
    l.do_transfer(from_i, vault_i, num_tokens);
    let st = SoState {
        id: so_id,
        authority: so_authority,
        base_mint,
        quote_mint,
        base_vault: vault_id,
        option_mint: 0,
        has_strike: false,
        strike: 0,
        available: num_tokens,
        subscription_period_end,
        option_expiration,
        lot_size,
        name,
        named: false,
    };
    sos.push(st);
    proof {
        assert forall|j: int| 0 <= j < sos@.len() implies so_state_wf(
            *l,
            #[trigger] sos@[j],
            j,
        ) by {
            if j < sos@.len() - 1 {
                assert(so_state_wf(*old(l), old(sos)@[j], j));
            }
        }
        assert(sos@.subrange(0, old(sos)@.len() as int) =~= old(sos)@);
    }
    Ok(so_id)
}

} // verus!
