//! The fungible-token ledger the protocol runs against: mints with a recorded
//! supply and a minting authority, and token accounts with an owner and a
//! balance. Transfers, mints and burns are atomic and authority-checked.
//!
//! The ledger's well-formedness ties every mint's recorded supply to the sum
//! of the balances of that mint's accounts, which is what makes the receipt
//! accounting of the protocol provable: the receipt supply *is* the sum of all
//! receipt balances.

use vstd::prelude::*;
use crate::errors::ErrorCode;

verus! {

/// A token account: a holding of one mint, debitable only by its owner.
#[derive(Clone, Copy, PartialEq, Eq, Structural, Debug)]
pub struct TokenAccount {
    pub id: u128,
    pub mint: u128,
    pub owner: u128,
    pub balance: u64,
}

/// A mint: the identity of one fungible token, its total supply, and the sole
/// authority allowed to mint it.
#[derive(Clone, Copy, PartialEq, Eq, Structural, Debug)]
pub struct MintInfo {
    pub id: u128,
    pub authority: u128,
    pub supply: u64,
}

/// The ledger: all accounts and all mints.
#[derive(Debug)]
pub struct Ledger {
    pub accounts: Vec<TokenAccount>,
    pub mints: Vec<MintInfo>,
}

/// No two accounts share an identity.
pub open spec fn unique_acc_ids(accs: Seq<TokenAccount>) -> bool {
    forall|i: int, j: int| 0 <= i < j < accs.len() ==> accs[i].id != accs[j].id
}

/// Some account has this identity.
pub open spec fn has_acc(accs: Seq<TokenAccount>, id: u128) -> bool {
    exists|i: int| 0 <= i < accs.len() && accs[i].id == id
}

/// The index of the account with this identity (meaningful under uniqueness).
pub open spec fn acc_index(accs: Seq<TokenAccount>, id: u128) -> int {
    choose|i: int| 0 <= i < accs.len() && accs[i].id == id
}

/// The account with this identity (meaningful under uniqueness).
pub open spec fn acc_of(accs: Seq<TokenAccount>, id: u128) -> TokenAccount {
    accs[acc_index(accs, id)]
}

/// No two mints share an identity.
pub open spec fn unique_mint_ids(mints: Seq<MintInfo>) -> bool {
    forall|i: int, j: int| 0 <= i < j < mints.len() ==> mints[i].id != mints[j].id
}

/// Some mint has this identity.
pub open spec fn has_mint_entry(mints: Seq<MintInfo>, id: u128) -> bool {
    exists|i: int| 0 <= i < mints.len() && mints[i].id == id
}

/// The index of the mint with this identity (meaningful under uniqueness).
pub open spec fn mint_index(mints: Seq<MintInfo>, id: u128) -> int {
    choose|i: int| 0 <= i < mints.len() && mints[i].id == id
}

/// The mint with this identity (meaningful under uniqueness).
pub open spec fn mint_of(mints: Seq<MintInfo>, id: u128) -> MintInfo {
    mints[mint_index(mints, id)]
}

/// The sum of the balances of all accounts of one mint.
pub open spec fn sum_for_mint(accs: Seq<TokenAccount>, mint: u128) -> int
    decreases accs.len(),
{
    if accs.len() == 0 {
        0
    } else {
        sum_for_mint(accs.drop_last(), mint) + if accs.last().mint == mint {
            accs.last().balance as int
        } else {
            0
        }
    }
}

/// The sum of balances of one mint never goes negative.
pub proof fn lemma_sum_nonneg(accs: Seq<TokenAccount>, mint: u128)
    ensures
        sum_for_mint(accs, mint) >= 0,
    decreases accs.len(),
{
    if accs.len() > 0 {
        lemma_sum_nonneg(accs.drop_last(), mint);
    }
}

/// Replacing one account with another of the same mint moves the sum for that
/// mint by the balance difference, and leaves every other mint's sum alone.
pub proof fn lemma_sum_update(accs: Seq<TokenAccount>, i: int, a2: TokenAccount, mint: u128)
    requires
        0 <= i < accs.len(),
        a2.mint == accs[i].mint,
    ensures
        sum_for_mint(accs.update(i, a2), mint) == sum_for_mint(accs, mint) + if a2.mint == mint {
            a2.balance - accs[i].balance
        } else {
            0
        },
    decreases accs.len(),
{
    let upd = accs.update(i, a2);
    if i == accs.len() - 1 {
        assert(upd.drop_last() =~= accs.drop_last());
    } else {
        assert(upd.drop_last() =~= accs.drop_last().update(i, a2));
        lemma_sum_update(accs.drop_last(), i, a2, mint);
    }
}

/// Appending an account adds its balance to its own mint's sum and nothing to
/// any other mint's sum.
pub proof fn lemma_sum_push(accs: Seq<TokenAccount>, a: TokenAccount, mint: u128)
    ensures
        sum_for_mint(accs.push(a), mint) == sum_for_mint(accs, mint) + if a.mint == mint {
            a.balance as int
        } else {
            0
        },
{
    assert(accs.push(a).drop_last() =~= accs);
}

/// A mint's sum dominates the balance of each single account of that mint.
pub proof fn lemma_sum_ge_at(accs: Seq<TokenAccount>, i: int, mint: u128)
    requires
        0 <= i < accs.len(),
        accs[i].mint == mint,
    ensures
        sum_for_mint(accs, mint) >= accs[i].balance,
    decreases accs.len(),
{
    if i == accs.len() - 1 {
        lemma_sum_nonneg(accs.drop_last(), mint);
    } else {
        lemma_sum_ge_at(accs.drop_last(), i, mint);
    }
}

/// A mint's sum dominates the combined balance of two distinct accounts of
/// that mint.
pub proof fn lemma_sum_ge_two(accs: Seq<TokenAccount>, i: int, j: int, mint: u128)
    requires
        0 <= i < j < accs.len(),
        accs[i].mint == mint,
        accs[j].mint == mint,
    ensures
        sum_for_mint(accs, mint) >= accs[i].balance + accs[j].balance,
    decreases accs.len(),
{
    if j == accs.len() - 1 {
        lemma_sum_ge_at(accs.drop_last(), i, mint);
    } else {
        lemma_sum_ge_two(accs.drop_last(), i, j, mint);
    }
}

/// A mint no account belongs to has sum zero.
pub proof fn lemma_sum_absent(accs: Seq<TokenAccount>, mint: u128)
    requires
        forall|k: int| 0 <= k < accs.len() ==> accs[k].mint != mint,
    ensures
        sum_for_mint(accs, mint) == 0,
    decreases accs.len(),
{
    if accs.len() > 0 {
        lemma_sum_absent(accs.drop_last(), mint);
    }
}

/// Under unique identities, the account found for the identity of entry `i`
/// is entry `i` itself.
pub proof fn lemma_acc_index_of(accs: Seq<TokenAccount>, i: int)
    requires
        unique_acc_ids(accs),
        0 <= i < accs.len(),
    ensures
        has_acc(accs, accs[i].id),
        acc_index(accs, accs[i].id) == i,
        acc_of(accs, accs[i].id) == accs[i],
{
    assert(0 <= i < accs.len() && accs[i].id == accs[i].id);
    let j = acc_index(accs, accs[i].id);
    if i < j {
        assert(accs[i].id != accs[j].id);
    } else if j < i {
        assert(accs[j].id != accs[i].id);
    }
}

/// Replacing entry `i` by an account with the same identity keeps identities
/// unique, keeps the same set of identities, and moves only that identity's
/// entry.
pub proof fn lemma_acc_update_map(accs: Seq<TokenAccount>, i: int, a2: TokenAccount)
    requires
        unique_acc_ids(accs),
        0 <= i < accs.len(),
        a2.id == accs[i].id,
    ensures
        unique_acc_ids(accs.update(i, a2)),
        forall|x: u128| has_acc(accs.update(i, a2), x) == has_acc(accs, x),
        acc_of(accs.update(i, a2), a2.id) == a2,
        forall|x: u128|
            x != a2.id && has_acc(accs, x) ==> acc_of(accs.update(i, a2), x) == acc_of(accs, x)
                && acc_index(accs.update(i, a2), x) == acc_index(accs, x),
{
    let upd = accs.update(i, a2);
    assert(forall|k: int| 0 <= k < upd.len() ==> upd[k].id == accs[k].id);
    assert forall|x: u128| has_acc(upd, x) == has_acc(accs, x) by {
        if has_acc(upd, x) {
            let k = choose|k: int| 0 <= k < upd.len() && upd[k].id == x;
            assert(accs[k].id == x);
        }
        if has_acc(accs, x) {
            let k = choose|k: int| 0 <= k < accs.len() && accs[k].id == x;
            assert(upd[k].id == x);
        }
    }
    lemma_acc_index_of(upd, i);
    assert forall|x: u128| x != a2.id && has_acc(accs, x) implies acc_of(upd, x) == acc_of(accs, x)
        && acc_index(upd, x) == acc_index(accs, x) by {
        let k = acc_index(accs, x);
        assert(0 <= k < accs.len() && accs[k].id == x);
        assert(k != i);
        lemma_acc_index_of(upd, k);
        lemma_acc_index_of(accs, k);
    }
}

/// Appending an account with a fresh identity keeps identities unique, adds
/// exactly that identity, and moves no existing entry.
pub proof fn lemma_acc_push_map(accs: Seq<TokenAccount>, a: TokenAccount)
    requires
        unique_acc_ids(accs),
        !has_acc(accs, a.id),
    ensures
        unique_acc_ids(accs.push(a)),
        has_acc(accs.push(a), a.id),
        acc_of(accs.push(a), a.id) == a,
        forall|x: u128| x != a.id ==> has_acc(accs.push(a), x) == has_acc(accs, x),
        forall|x: u128|
            x != a.id && has_acc(accs, x) ==> acc_of(accs.push(a), x) == acc_of(accs, x),
{
    let pushed = accs.push(a);
    assert(forall|k: int| 0 <= k < accs.len() ==> accs[k].id != a.id);
    assert(pushed[accs.len() as int] == a);
    lemma_acc_index_of(pushed, accs.len() as int);
    assert forall|x: u128| x != a.id implies has_acc(pushed, x) == has_acc(accs, x) by {
        if has_acc(pushed, x) {
            let k = choose|k: int| 0 <= k < pushed.len() && pushed[k].id == x;
            assert(k < accs.len());
            assert(accs[k].id == x);
        }
        if has_acc(accs, x) {
            let k = choose|k: int| 0 <= k < accs.len() && accs[k].id == x;
            assert(pushed[k].id == x);
        }
    }
    assert forall|x: u128| x != a.id && has_acc(accs, x) implies acc_of(pushed, x) == acc_of(
        accs,
        x,
    ) by {
        let k = acc_index(accs, x);
        assert(0 <= k < accs.len() && accs[k].id == x);
        lemma_acc_index_of(pushed, k);
        lemma_acc_index_of(accs, k);
    }
}

/// Under unique identities, the mint found for the identity of entry `i` is
/// entry `i` itself.
pub proof fn lemma_mint_index_of(mints: Seq<MintInfo>, i: int)
    requires
        unique_mint_ids(mints),
        0 <= i < mints.len(),
    ensures
        has_mint_entry(mints, mints[i].id),
        mint_index(mints, mints[i].id) == i,
        mint_of(mints, mints[i].id) == mints[i],
{
    assert(0 <= i < mints.len() && mints[i].id == mints[i].id);
    let j = mint_index(mints, mints[i].id);
    if i < j {
        assert(mints[i].id != mints[j].id);
    } else if j < i {
        assert(mints[j].id != mints[i].id);
    }
}

/// Replacing entry `i` by a mint with the same identity keeps identities
/// unique, keeps the same set of identities, and moves only that identity's
/// entry.
pub proof fn lemma_mint_update_map(mints: Seq<MintInfo>, i: int, m2: MintInfo)
    requires
        unique_mint_ids(mints),
        0 <= i < mints.len(),
        m2.id == mints[i].id,
    ensures
        unique_mint_ids(mints.update(i, m2)),
        forall|x: u128| has_mint_entry(mints.update(i, m2), x) == has_mint_entry(mints, x),
        mint_of(mints.update(i, m2), m2.id) == m2,
        forall|x: u128|
            x != m2.id && has_mint_entry(mints, x) ==> mint_of(mints.update(i, m2), x) == mint_of(
                mints,
                x,
            ),
{
    let upd = mints.update(i, m2);
    assert(forall|k: int| 0 <= k < upd.len() ==> upd[k].id == mints[k].id);
    assert forall|x: u128| has_mint_entry(upd, x) == has_mint_entry(mints, x) by {
        if has_mint_entry(upd, x) {
            let k = choose|k: int| 0 <= k < upd.len() && upd[k].id == x;
            assert(mints[k].id == x);
        }
        if has_mint_entry(mints, x) {
            let k = choose|k: int| 0 <= k < mints.len() && mints[k].id == x;
            assert(upd[k].id == x);
        }
    }
    lemma_mint_index_of(upd, i);
    assert forall|x: u128| x != m2.id && has_mint_entry(mints, x) implies mint_of(upd, x)
        == mint_of(mints, x) by {
        let k = mint_index(mints, x);
        assert(0 <= k < mints.len() && mints[k].id == x);
        assert(k != i);
        lemma_mint_index_of(upd, k);
        lemma_mint_index_of(mints, k);
    }
}

/// Appending a mint with a fresh identity keeps identities unique, adds
/// exactly that identity, and moves no existing entry.
pub proof fn lemma_mint_push_map(mints: Seq<MintInfo>, m: MintInfo)
    requires
        unique_mint_ids(mints),
        !has_mint_entry(mints, m.id),
    ensures
        unique_mint_ids(mints.push(m)),
        has_mint_entry(mints.push(m), m.id),
        mint_of(mints.push(m), m.id) == m,
        forall|x: u128| x != m.id ==> has_mint_entry(mints.push(m), x) == has_mint_entry(mints, x),
        forall|x: u128|
            x != m.id && has_mint_entry(mints, x) ==> mint_of(mints.push(m), x) == mint_of(
                mints,
                x,
            ),
{
    let pushed = mints.push(m);
    assert(forall|k: int| 0 <= k < mints.len() ==> mints[k].id != m.id);
    assert(pushed[mints.len() as int] == m);
    lemma_mint_index_of(pushed, mints.len() as int);
    assert forall|x: u128| x != m.id implies has_mint_entry(pushed, x) == has_mint_entry(
        mints,
        x,
    ) by {
        if has_mint_entry(pushed, x) {
            let k = choose|k: int| 0 <= k < pushed.len() && pushed[k].id == x;
            assert(k < mints.len());
            assert(mints[k].id == x);
        }
        if has_mint_entry(mints, x) {
            let k = choose|k: int| 0 <= k < mints.len() && mints[k].id == x;
            assert(pushed[k].id == x);
        }
    }
    assert forall|x: u128| x != m.id && has_mint_entry(mints, x) implies mint_of(pushed, x)
        == mint_of(mints, x) by {
        let k = mint_index(mints, x);
        assert(0 <= k < mints.len() && mints[k].id == x);
        lemma_mint_index_of(pushed, k);
        lemma_mint_index_of(mints, k);
    }
}

/// The same account with another balance.
pub open spec fn with_balance(a: TokenAccount, b: u64) -> TokenAccount {
    TokenAccount { balance: b, ..a }
}

/// The same mint with another supply.
pub open spec fn with_supply(m: MintInfo, s: u64) -> MintInfo {
    MintInfo { supply: s, ..m }
}

/// The two ledgers hold the same account identities, and agree on every
/// account other than the two named ones.
pub open spec fn same_accounts_except(pre: Ledger, post: Ledger, x1: u128, x2: u128) -> bool {
    &&& forall|x: u128| post.has_account(x) == pre.has_account(x)
    &&& forall|x: u128|
        x != x1 && x != x2 && pre.has_account(x) ==> post.account(x) == pre.account(x)
}

/// The two ledgers hold the same mint identities, and agree on every mint
/// other than the named one.
pub open spec fn same_mints_except(pre: Ledger, post: Ledger, m1: u128) -> bool {
    &&& forall|x: u128| post.has_mint(x) == pre.has_mint(x)
    &&& forall|x: u128| x != m1 && pre.has_mint(x) ==> post.mint(x) == pre.mint(x)
}

impl Ledger {
    /// Well-formedness: identities are unique, every account's mint exists,
    /// and every mint's recorded supply equals the sum of its balances.
    pub open spec fn wf(self) -> bool {
        &&& unique_acc_ids(self.accounts@)
        &&& unique_mint_ids(self.mints@)
        &&& forall|k: int|
            0 <= k < self.accounts@.len() ==> has_mint_entry(
                self.mints@,
                #[trigger] self.accounts@[k].mint,
            )
        &&& forall|j: int|
            0 <= j < self.mints@.len() ==> (#[trigger] self.mints@[j]).supply == sum_for_mint(
                self.accounts@,
                self.mints@[j].id,
            )
    }

    /// Some account has this identity.
    pub open spec fn has_account(self, id: u128) -> bool {
        has_acc(self.accounts@, id)
    }

    /// The account with this identity.
    pub open spec fn account(self, id: u128) -> TokenAccount {
        acc_of(self.accounts@, id)
    }

    /// The balance of the account with this identity.
    pub open spec fn balance_of(self, id: u128) -> u64 {
        self.account(id).balance
    }

    /// Some mint has this identity.
    pub open spec fn has_mint(self, id: u128) -> bool {
        has_mint_entry(self.mints@, id)
    }

    /// The mint with this identity.
    pub open spec fn mint(self, id: u128) -> MintInfo {
        mint_of(self.mints@, id)
    }

    /// The supply of the mint with this identity.
    pub open spec fn supply_of(self, id: u128) -> u64 {
        self.mint(id).supply
    }

    /// An empty ledger.
    pub fn new() -> (r: Ledger)
        ensures
            r.wf(),
            r.accounts@.len() == 0,
            r.mints@.len() == 0,
            forall|x: u128| !r.has_account(x),
            forall|x: u128| !r.has_mint(x),
    {
        Ledger { accounts: Vec::new(), mints: Vec::new() }
    }

    /// Finds the index of the account with this identity.
    pub fn find_account(&self, id: u128) -> (r: Option<usize>)
        ensures
            match r {
                Some(i) => i < self.accounts@.len() && self.accounts@[i as int].id == id,
                None => !self.has_account(id),
            },
    {
        let mut i: usize = 0;
        while i < self.accounts.len()
            invariant
                i <= self.accounts@.len(),
                forall|k: int| 0 <= k < i ==> self.accounts@[k].id != id,
            decreases self.accounts@.len() - i,
        {
            if self.accounts[i].id == id {
                return Some(i);
            }
            i = i + 1;
        }
        None
    }

    /// Moves `amount` between two distinct accounts of one mint. Total: every
    /// failure is ruled out by the preconditions, so a caller that has checked
    /// them can chain moves without observing a partial state.
    pub fn do_transfer(&mut self, from_i: usize, to_i: usize, amount: u64)
        requires
            old(self).wf(),
            from_i < old(self).accounts@.len(),
            to_i < old(self).accounts@.len(),
            from_i != to_i,
            old(self).accounts@[from_i as int].mint == old(self).accounts@[to_i as int].mint,
            old(self).accounts@[from_i as int].balance >= amount,
            old(self).accounts@[to_i as int].balance + amount <= u64::MAX,
        ensures
            final(self).wf(),
            final(self).mints@ == old(self).mints@,
            same_accounts_except(
                *old(self),
                *final(self),
                old(self).accounts@[from_i as int].id,
                old(self).accounts@[to_i as int].id,
            ),
            final(self).account(old(self).accounts@[from_i as int].id) == with_balance(
                old(self).accounts@[from_i as int],
                (old(self).accounts@[from_i as int].balance - amount) as u64,
            ),
            final(self).account(old(self).accounts@[to_i as int].id) == with_balance(
                old(self).accounts@[to_i as int],
                (old(self).accounts@[to_i as int].balance + amount) as u64,
            ),
    {
        let ghost pre = self.accounts@;
        let from_acc = self.accounts[from_i];
        let to_acc = self.accounts[to_i];
        let new_from = TokenAccount { balance: from_acc.balance - amount, ..from_acc };
        let new_to = TokenAccount { balance: to_acc.balance + amount, ..to_acc };
        self.accounts.set(from_i, new_from);
        self.accounts.set(to_i, new_to);
        proof {
            let mid = pre.update(from_i as int, new_from);
            let post = self.accounts@;
            assert(post =~= mid.update(to_i as int, new_to));
            lemma_acc_update_map(pre, from_i as int, new_from);
            lemma_acc_update_map(mid, to_i as int, new_to);
            assert(pre[from_i as int].id != pre[to_i as int].id);
            assert forall|j: int| 0 <= j < self.mints@.len() implies (
            #[trigger] self.mints@[j]).supply == sum_for_mint(post, self.mints@[j].id) by {
                lemma_sum_update(pre, from_i as int, new_from, self.mints@[j].id);
                lemma_sum_update(mid, to_i as int, new_to, self.mints@[j].id);
            }
            assert(forall|k: int| 0 <= k < post.len() ==> post[k].mint == pre[k].mint);
        }
    }

    /// Mints `amount` to one account of the mint, growing the supply. Total
    /// under the preconditions; the recipient's balance cannot overflow
    /// because it is bounded by the supply.
    pub fn do_mint_to(&mut self, mint_j: usize, to_i: usize, amount: u64)
        requires
            old(self).wf(),
            mint_j < old(self).mints@.len(),
            to_i < old(self).accounts@.len(),
            old(self).accounts@[to_i as int].mint == old(self).mints@[mint_j as int].id,
            old(self).mints@[mint_j as int].supply + amount <= u64::MAX,
        ensures
            final(self).wf(),
            same_accounts_except(
                *old(self),
                *final(self),
                old(self).accounts@[to_i as int].id,
                old(self).accounts@[to_i as int].id,
            ),
            same_mints_except(*old(self), *final(self), old(self).mints@[mint_j as int].id),
            final(self).account(old(self).accounts@[to_i as int].id) == with_balance(
                old(self).accounts@[to_i as int],
                (old(self).accounts@[to_i as int].balance + amount) as u64,
            ),
            final(self).mint(old(self).mints@[mint_j as int].id) == with_supply(
                old(self).mints@[mint_j as int],
                (old(self).mints@[mint_j as int].supply + amount) as u64,
            ),
    {
        let ghost pre = self.accounts@;
        let ghost pre_mints = self.mints@;
        proof {
            lemma_sum_ge_at(pre, to_i as int, pre_mints[mint_j as int].id);
        }
        let to_acc = self.accounts[to_i];
        let new_to = TokenAccount { balance: to_acc.balance + amount, ..to_acc };
        self.accounts.set(to_i, new_to);
        let m = self.mints[mint_j];
        let new_m = MintInfo { supply: m.supply + amount, ..m };
        self.mints.set(mint_j, new_m);
        proof {
            let post = self.accounts@;
            let post_mints = self.mints@;
            lemma_acc_update_map(pre, to_i as int, new_to);
            lemma_mint_update_map(pre_mints, mint_j as int, new_m);
            assert forall|j: int| 0 <= j < post_mints.len() implies (
            #[trigger] post_mints[j]).supply == sum_for_mint(post, post_mints[j].id) by {
                lemma_sum_update(pre, to_i as int, new_to, post_mints[j].id);
                if j != mint_j as int {
                    assert(post_mints[j] == pre_mints[j]);
                    assert(pre_mints[j].id != pre_mints[mint_j as int].id);
                }
            }
            assert(forall|k: int| 0 <= k < post.len() ==> post[k].mint == pre[k].mint);
            assert(forall|k: int| 0 <= k < post_mints.len() ==> post_mints[k].id == pre_mints[k].id);
        }
    }

    /// Burns `amount` from one account of the mint, shrinking the supply.
    /// Total under the preconditions; the supply cannot underflow because it
    /// dominates the debited balance.
    pub fn do_burn(&mut self, mint_j: usize, from_i: usize, amount: u64)
        requires
            old(self).wf(),
            mint_j < old(self).mints@.len(),
            from_i < old(self).accounts@.len(),
            old(self).accounts@[from_i as int].mint == old(self).mints@[mint_j as int].id,
            old(self).accounts@[from_i as int].balance >= amount,
        ensures
            final(self).wf(),
            same_accounts_except(
                *old(self),
                *final(self),
                old(self).accounts@[from_i as int].id,
                old(self).accounts@[from_i as int].id,
            ),
            same_mints_except(*old(self), *final(self), old(self).mints@[mint_j as int].id),
            final(self).account(old(self).accounts@[from_i as int].id) == with_balance(
                old(self).accounts@[from_i as int],
                (old(self).accounts@[from_i as int].balance - amount) as u64,
            ),
            final(self).mint(old(self).mints@[mint_j as int].id) == with_supply(
                old(self).mints@[mint_j as int],
                (old(self).mints@[mint_j as int].supply - amount) as u64,
            ),
    {
        let ghost pre = self.accounts@;
        let ghost pre_mints = self.mints@;
        proof {
            lemma_sum_ge_at(pre, from_i as int, pre_mints[mint_j as int].id);
        }
        let from_acc = self.accounts[from_i];
        let new_from = TokenAccount { balance: from_acc.balance - amount, ..from_acc };
        self.accounts.set(from_i, new_from);
        let m = self.mints[mint_j];
        let new_m = MintInfo { supply: m.supply - amount, ..m };
        self.mints.set(mint_j, new_m);
        proof {
            let post = self.accounts@;
            let post_mints = self.mints@;
            lemma_acc_update_map(pre, from_i as int, new_from);
            lemma_mint_update_map(pre_mints, mint_j as int, new_m);
            assert forall|j: int| 0 <= j < post_mints.len() implies (
            #[trigger] post_mints[j]).supply == sum_for_mint(post, post_mints[j].id) by {
                lemma_sum_update(pre, from_i as int, new_from, post_mints[j].id);
                if j != mint_j as int {
                    assert(post_mints[j] == pre_mints[j]);
                    assert(pre_mints[j].id != pre_mints[mint_j as int].id);
                }
            }
            assert(forall|k: int| 0 <= k < post.len() ==> post[k].mint == pre[k].mint);
            assert(forall|k: int| 0 <= k < post_mints.len() ==> post_mints[k].id == pre_mints[k].id);
        }
    }

    /// Creates a fresh, empty token account of an existing mint.
    pub fn do_create_account(&mut self, id: u128, mint: u128, owner: u128)
        requires
            old(self).wf(),
            !old(self).has_account(id),
            old(self).has_mint(mint),
        ensures
            final(self).wf(),
            final(self).mints@ == old(self).mints@,
            final(self).has_account(id),
            final(self).account(id) == (TokenAccount { id, mint, owner, balance: 0u64 }),
            forall|x: u128| x != id ==> final(self).has_account(x) == old(self).has_account(x),
            forall|x: u128|
                x != id && old(self).has_account(x) ==> final(self).account(x) == old(self).account(x),
    {
        let ghost pre = self.accounts@;
        let a = TokenAccount { id, mint, owner, balance: 0 };
        self.accounts.push(a);
        proof {
            let post = self.accounts@;
            assert(post =~= pre.push(a));
            lemma_acc_push_map(pre, a);
            let k = mint_index(self.mints@, mint);
            assert forall|j: int| 0 <= j < self.mints@.len() implies (
            #[trigger] self.mints@[j]).supply == sum_for_mint(post, self.mints@[j].id) by {
                lemma_sum_push(pre, a, self.mints@[j].id);
            }
        }
    }

    /// Creates a fresh mint with supply zero and the given minting authority.
    pub fn do_create_mint(&mut self, id: u128, authority: u128)
        requires
            old(self).wf(),
            !old(self).has_mint(id),
        ensures
            final(self).wf(),
            final(self).accounts@ == old(self).accounts@,
            final(self).has_mint(id),
            final(self).mint(id) == (MintInfo { id, authority, supply: 0u64 }),
            forall|x: u128| x != id ==> final(self).has_mint(x) == old(self).has_mint(x),
            forall|x: u128|
                x != id && old(self).has_mint(x) ==> final(self).mint(x) == old(self).mint(x),
    {
        let ghost pre_mints = self.mints@;
        let m = MintInfo { id, authority, supply: 0 };
        self.mints.push(m);
        proof {
            let post_mints = self.mints@;
            assert(post_mints =~= pre_mints.push(m));
            lemma_mint_push_map(pre_mints, m);
            assert forall|k: int| 0 <= k < self.accounts@.len() implies self.accounts@[k].mint
                != id by {
                assert(has_mint_entry(pre_mints, self.accounts@[k].mint));
            }
            lemma_sum_absent(self.accounts@, id);
            assert forall|j: int| 0 <= j < post_mints.len() implies (
            #[trigger] post_mints[j]).supply == sum_for_mint(self.accounts@, post_mints[j].id) by {
                if j < pre_mints.len() {
                    assert(post_mints[j] == pre_mints[j]);
                }
            }
        }
    }

    /// Why `transfer` fails, or `None` where it succeeds: missing accounts,
    /// a signer that does not own the source, mixed mints, a short balance,
    /// or an overflowing destination, in that order.
    pub open spec fn transfer_err(
        self,
        from: u128,
        to: u128,
        amount: u64,
        authority: u128,
    ) -> Option<ErrorCode> {
        if !self.has_account(from) || !self.has_account(to) {
            Some(ErrorCode::AccountNotFound)
        } else if self.account(from).owner != authority {
            Some(ErrorCode::AuthorizationError)
        } else if self.account(from).mint != self.account(to).mint {
            Some(ErrorCode::MintMismatch)
        } else if self.account(from).balance < amount {
            Some(ErrorCode::InsufficientFunds)
        } else if from != to && self.account(to).balance + amount > u64::MAX {
            Some(ErrorCode::ArithmeticError)
        } else {
            None
        }
    }

    /// Moves `amount` from one account to another, authorized by the source
    /// owner. Atomic: on any failure the ledger is untouched.
    pub fn transfer(&mut self, from: u128, to: u128, amount: u64, authority: u128) -> (r: Result<
        (),
        ErrorCode,
    >)
        requires
            old(self).wf(),
        ensures
            final(self).wf(),
            match old(self).transfer_err(from, to, amount, authority) {
                Some(e) => r == Err::<(), ErrorCode>(e) && *final(self) == *old(self),
                None => {
                    &&& r == Ok::<(), ErrorCode>(())
                    &&& final(self).mints@ == old(self).mints@
                    &&& same_accounts_except(*old(self), *final(self), from, to)
                    &&& from != to ==> final(self).account(from) == with_balance(
                        old(self).account(from),
                        (old(self).account(from).balance - amount) as u64,
                    )
                    &&& from != to ==> final(self).account(to) == with_balance(
                        old(self).account(to),
                        (old(self).account(to).balance + amount) as u64,
                    )
                    &&& from == to ==> *final(self) == *old(self)
                },
            },
    {
        let from_i = match self.find_account(from) {
            Some(i) => i,
            None => { return Err(ErrorCode::AccountNotFound) },
        };
        let to_i = match self.find_account(to) {
            Some(i) => i,
            None => { return Err(ErrorCode::AccountNotFound) },
        };
        proof {
            lemma_acc_index_of(self.accounts@, from_i as int);
            lemma_acc_index_of(self.accounts@, to_i as int);
        }
        let from_acc = self.accounts[from_i];
        let to_acc = self.accounts[to_i];
        if from_acc.owner != authority {
            return Err(ErrorCode::AuthorizationError);
        }
        if from_acc.mint != to_acc.mint {
            return Err(ErrorCode::MintMismatch);
        }
        if from_acc.balance < amount {
            return Err(ErrorCode::InsufficientFunds);
        }
        if from == to {
            return Ok(());
        }
        if amount > u64::MAX - to_acc.balance {
            return Err(ErrorCode::ArithmeticError);
        }
        self.do_transfer(from_i, to_i, amount);
        Ok(())
    }

    /// Why `mint_to` fails, or `None` where it succeeds: a missing mint or
    /// account, a signer that is not the minting authority, an account of
    /// another mint, or an overflowing supply, in that order.
    pub open spec fn mint_to_err(
        self,
        mint: u128,
        to: u128,
        amount: u64,
        authority: u128,
    ) -> Option<ErrorCode> {
        if !self.has_mint(mint) || !self.has_account(to) {
            Some(ErrorCode::AccountNotFound)
        } else if self.mint(mint).authority != authority {
            Some(ErrorCode::AuthorizationError)
        } else if self.account(to).mint != mint {
            Some(ErrorCode::MintMismatch)
        } else if self.supply_of(mint) + amount > u64::MAX {
            Some(ErrorCode::ArithmeticError)
        } else {
            None
        }
    }

    /// Mints `amount` of a mint to an account, authorized by the minting
    /// authority. Atomic: on any failure the ledger is untouched.
    pub fn mint_to(&mut self, mint: u128, to: u128, amount: u64, authority: u128) -> (r: Result<
        (),
        ErrorCode,
    >)
        requires
            old(self).wf(),
        ensures
            final(self).wf(),
            match old(self).mint_to_err(mint, to, amount, authority) {
                Some(e) => r == Err::<(), ErrorCode>(e) && *final(self) == *old(self),
                None => {
                    &&& r == Ok::<(), ErrorCode>(())
                    &&& same_accounts_except(*old(self), *final(self), to, to)
                    &&& same_mints_except(*old(self), *final(self), mint)
                    &&& final(self).account(to) == with_balance(
                        old(self).account(to),
                        (old(self).account(to).balance + amount) as u64,
                    )
                    &&& final(self).mint(mint) == with_supply(
                        old(self).mint(mint),
                        (old(self).supply_of(mint) + amount) as u64,
                    )
                },
            },
    {
        let mint_j = match self.find_mint(mint) {
            Some(j) => j,
            None => { return Err(ErrorCode::AccountNotFound) },
        };
        let to_i = match self.find_account(to) {
            Some(i) => i,
            None => { return Err(ErrorCode::AccountNotFound) },
        };
        proof {
            lemma_mint_index_of(self.mints@, mint_j as int);
            lemma_acc_index_of(self.accounts@, to_i as int);
        }
        let m = self.mints[mint_j];
        let to_acc = self.accounts[to_i];
        if m.authority != authority {
            return Err(ErrorCode::AuthorizationError);
        }
        if to_acc.mint != mint {
            return Err(ErrorCode::MintMismatch);
        }
        if amount > u64::MAX - m.supply {
            return Err(ErrorCode::ArithmeticError);
        }
        self.do_mint_to(mint_j, to_i, amount);
        Ok(())
    }

    /// Why `burn` fails, or `None` where it succeeds: a missing mint or
    /// account, a signer that does not own the account, an account of another
    /// mint, or a short balance, in that order.
    pub open spec fn burn_err(
        self,
        mint: u128,
        from: u128,
        amount: u64,
        authority: u128,
    ) -> Option<ErrorCode> {
        if !self.has_mint(mint) || !self.has_account(from) {
            Some(ErrorCode::AccountNotFound)
        } else if self.account(from).owner != authority {
            Some(ErrorCode::AuthorizationError)
        } else if self.account(from).mint != mint {
            Some(ErrorCode::MintMismatch)
        } else if self.account(from).balance < amount {
            Some(ErrorCode::InsufficientFunds)
        } else {
            None
        }
    }

    /// Burns `amount` of a mint from an account, authorized by the account
    /// owner. Atomic: on any failure the ledger is untouched.
    pub fn burn(&mut self, mint: u128, from: u128, amount: u64, authority: u128) -> (r: Result<
        (),
        ErrorCode,
    >)
        requires
            old(self).wf(),
        ensures
            final(self).wf(),
            match old(self).burn_err(mint, from, amount, authority) {
                Some(e) => r == Err::<(), ErrorCode>(e) && *final(self) == *old(self),
                None => {
                    &&& r == Ok::<(), ErrorCode>(())
                    &&& same_accounts_except(*old(self), *final(self), from, from)
                    &&& same_mints_except(*old(self), *final(self), mint)
                    &&& final(self).account(from) == with_balance(
                        old(self).account(from),
                        (old(self).account(from).balance - amount) as u64,
                    )
                    &&& final(self).mint(mint) == with_supply(
                        old(self).mint(mint),
                        (old(self).supply_of(mint) - amount) as u64,
                    )
                },
            },
    {
        let mint_j = match self.find_mint(mint) {
            Some(j) => j,
            None => { return Err(ErrorCode::AccountNotFound) },
        };
        let from_i = match self.find_account(from) {
            Some(i) => i,
            None => { return Err(ErrorCode::AccountNotFound) },
        };
        proof {
            lemma_mint_index_of(self.mints@, mint_j as int);
            lemma_acc_index_of(self.accounts@, from_i as int);
        }
        let from_acc = self.accounts[from_i];
        if from_acc.owner != authority {
            return Err(ErrorCode::AuthorizationError);
        }
        if from_acc.mint != mint {
            return Err(ErrorCode::MintMismatch);
        }
        if from_acc.balance < amount {
            return Err(ErrorCode::InsufficientFunds);
        }
        self.do_burn(mint_j, from_i, amount);
        Ok(())
    }

    /// Creates a fresh mint, failing if the identity is taken.
    pub fn create_mint(&mut self, id: u128, authority: u128) -> (r: Result<(), ErrorCode>)
        requires
            old(self).wf(),
        ensures
            final(self).wf(),
            old(self).has_mint(id) ==> r == Err::<(), ErrorCode>(ErrorCode::AlreadyInUse)
                && *final(self) == *old(self),
            !old(self).has_mint(id) ==> {
                &&& r == Ok::<(), ErrorCode>(())
                &&& final(self).accounts@ == old(self).accounts@
                &&& final(self).has_mint(id)
                &&& final(self).mint(id) == (MintInfo { id, authority, supply: 0u64 })
                &&& forall|x: u128| x != id ==> final(self).has_mint(x) == old(self).has_mint(x)
                &&& forall|x: u128|
                    x != id && old(self).has_mint(x) ==> final(self).mint(x) == old(self).mint(x)
            },
    {
        match self.find_mint(id) {
            Some(_) => Err(ErrorCode::AlreadyInUse),
            None => {
                self.do_create_mint(id, authority);
                Ok(())
            },
        }
    }

    /// Creates a fresh, empty account of an existing mint, failing if the
    /// identity is taken or the mint is missing.
    pub fn create_account(&mut self, id: u128, mint: u128, owner: u128) -> (r: Result<
        (),
        ErrorCode,
    >)
        requires
            old(self).wf(),
        ensures
            final(self).wf(),
            old(self).has_account(id) ==> r == Err::<(), ErrorCode>(ErrorCode::AlreadyInUse)
                && *final(self) == *old(self),
            !old(self).has_account(id) && !old(self).has_mint(mint) ==> r == Err::<(), ErrorCode>(
                ErrorCode::AccountNotFound,
            ) && *final(self) == *old(self),
            !old(self).has_account(id) && old(self).has_mint(mint) ==> {
                &&& r == Ok::<(), ErrorCode>(())
                &&& final(self).mints@ == old(self).mints@
                &&& final(self).has_account(id)
                &&& final(self).account(id) == (TokenAccount { id, mint, owner, balance: 0u64 })
                &&& forall|x: u128| x != id ==> final(self).has_account(x) == old(self).has_account(x)
                &&& forall|x: u128|
                    x != id && old(self).has_account(x) ==> final(self).account(x) == old(
                        self,
                    ).account(x)
            },
    {
        if let Some(_) = self.find_account(id) {
            return Err(ErrorCode::AlreadyInUse);
        }
        match self.find_mint(mint) {
            None => Err(ErrorCode::AccountNotFound),
            Some(_) => {
                self.do_create_account(id, mint, owner);
                Ok(())
            },
        }
    }

    /// Finds the index of the mint with this identity.
    pub fn find_mint(&self, id: u128) -> (r: Option<usize>)
        ensures
            match r {
                Some(i) => i < self.mints@.len() && self.mints@[i as int].id == id,
                None => !self.has_mint(id),
            },
    {
        let mut i: usize = 0;
        while i < self.mints.len()
            invariant
                i <= self.mints@.len(),
                forall|k: int| 0 <= k < i ==> self.mints@[k].id != id,
            decreases self.mints@.len() - i,
        {
            if self.mints[i].id == id {
                return Some(i);
            }
            i = i + 1;
        }
        None
    }
}

/// In a well-formed ledger, no account's balance exceeds its mint's supply.
pub proof fn lemma_balance_le_supply(l: Ledger, id: u128)
    requires
        l.wf(),
        l.has_account(id),
    ensures
        l.has_mint(l.account(id).mint),
        l.account(id).balance <= l.supply_of(l.account(id).mint),
{
    let i = acc_index(l.accounts@, id);
    assert(0 <= i < l.accounts@.len() && l.accounts@[i].id == id);
    let m = l.accounts@[i].mint;
    let j = mint_index(l.mints@, m);
    assert(has_mint_entry(l.mints@, m));
    assert(0 <= j < l.mints@.len() && l.mints@[j].id == m);
    lemma_sum_ge_at(l.accounts@, i, m);
}

/// In a well-formed ledger, the supply of a mint dominates the combined
/// balance of any two distinct accounts of that mint.
pub proof fn lemma_two_balances_le_supply(l: Ledger, id1: u128, id2: u128)
    requires
        l.wf(),
        l.has_account(id1),
        l.has_account(id2),
        id1 != id2,
        l.account(id1).mint == l.account(id2).mint,
    ensures
        l.account(id1).balance + l.account(id2).balance <= l.supply_of(l.account(id1).mint),
{
    let i1 = acc_index(l.accounts@, id1);
    let i2 = acc_index(l.accounts@, id2);
    assert(0 <= i1 < l.accounts@.len() && l.accounts@[i1].id == id1);
    assert(0 <= i2 < l.accounts@.len() && l.accounts@[i2].id == id2);
    let m = l.accounts@[i1].mint;
    let j = mint_index(l.mints@, m);
    assert(has_mint_entry(l.mints@, m));
    assert(0 <= j < l.mints@.len() && l.mints@[j].id == m);
    if i1 < i2 {
        lemma_sum_ge_two(l.accounts@, i1, i2, m);
    } else {
        lemma_sum_ge_two(l.accounts@, i2, i1, m);
    }
}

} // verus!
