use vstd::prelude::*;
use std::collections::HashMap;

use crate::constants::CONTRACT_ACCOUNT;
use crate::errors::ContractError;
use crate::grants::{credit_funder, spec_credit_fits, spec_credit_funder, Grant, GrantBook};
use crate::keys::{lemma_pair_key_injective, pair_key, spec_pair_key, Transfer};
use crate::types::AccountId;

verus! {

broadcast use vstd::std_specs::hash::group_hash_axioms;

/// The escrow that holds a grant's funds.
#[derive(Clone, Copy, Debug, PartialEq, Eq, Structural)]
pub struct EscrowAccount {
    pub owner: AccountId,
    pub token: AccountId,
    pub balance: i128,
    pub total_deposited: i128,
    pub total_released: i128,
    pub locked: bool,
}

/// What one funder has put into, and taken back from, a grant's escrow.
#[derive(Clone, Copy, Debug, PartialEq, Eq, Structural)]
pub struct FunderLedger {
    pub funder: AccountId,
    pub contributed: i128,
    pub refunded: i128,
    pub last_contribution_at: u64,
}

/// Escrow accounts by grant, funder ledgers by (grant, funder), and the funders of each
/// grant in the order in which they first deposited.
pub struct EscrowBook {
    accounts: HashMap<u64, EscrowAccount>,
    ledgers: HashMap<u128, FunderLedger>,
    funders: HashMap<u64, Vec<AccountId>>,
}

impl EscrowBook {
    pub closed spec fn accounts(&self) -> Map<u64, EscrowAccount> {
        self.accounts@
    }

    /// The ledger of `funder` in the escrow of `grant_id`, if any.
    pub closed spec fn ledger(&self, grant_id: u64, funder: AccountId) -> Option<FunderLedger> {
        if self.ledgers@.contains_key(spec_pair_key(grant_id, funder)) {
            Some(self.ledgers@[spec_pair_key(grant_id, funder)])
        } else {
            None
        }
    }

    /// The funders of `grant_id`, in order of first deposit.
    pub closed spec fn funder_list(&self, grant_id: u64) -> Seq<AccountId> {
        if self.funders@.contains_key(grant_id) { self.funders@[grant_id]@ } else { Seq::empty() }
    }

    /// Well-formedness: no grant lists a funder twice.
    pub open spec fn wf(&self) -> bool {
        forall|g: u64| #[trigger] self.funder_list(g).no_duplicates()
    }

    /// A copy of the book with the same accounts, ledgers and funder lists.
    pub fn duplicate(&self) -> (r: EscrowBook)
        ensures
            r.accounts() == self.accounts(),
            forall|g: u64, f: AccountId| #[trigger] r.ledger(g, f) == self.ledger(g, f),
            forall|g: u64| #[trigger] r.funder_list(g) == self.funder_list(g),
            self.wf() ==> r.wf(),
    {
        let r = EscrowBook { accounts: self.accounts.clone(), ledgers: self.ledgers.clone(), funders: self.funders.clone() };
        proof {
            if self.wf() {
                assert forall|g: u64| #[trigger] r.funder_list(g).no_duplicates() by {
                    assert(r.funder_list(g) == self.funder_list(g));
                }
            }
        }
        r
    }

    pub fn new() -> (b: EscrowBook)
        ensures
            b.wf(),
            b.accounts() == Map::<u64, EscrowAccount>::empty(),
            forall|g: u64, f: AccountId| b.ledger(g, f) is None,
            forall|g: u64| b.funder_list(g) == Seq::<AccountId>::empty(),
    {
        EscrowBook { accounts: HashMap::new(), ledgers: HashMap::new(), funders: HashMap::new() }
    }

    pub fn get_account(&self, grant_id: u64) -> (r: Result<EscrowAccount, ContractError>)
        ensures
            self.accounts().contains_key(grant_id) ==> r == Ok::<EscrowAccount, ContractError>(self.accounts()[grant_id]),
            !self.accounts().contains_key(grant_id) ==> r == Err::<EscrowAccount, ContractError>(ContractError::EscrowNotFound),
    {
        match self.accounts.get(&grant_id) {
            Some(a) => Ok(*a),
            None => Err(ContractError::EscrowNotFound),
        }
    }

    pub fn get_funder_ledger(&self, grant_id: u64, funder: AccountId) -> (r: Option<FunderLedger>)
        ensures
            r == self.ledger(grant_id, funder),
    {
        let k = pair_key(grant_id, funder);
        match self.ledgers.get(&k) {
            Some(l) => Some(*l),
            None => None,
        }
    }

    fn set_ledger(&mut self, grant_id: u64, funder: AccountId, ledger: FunderLedger)
        ensures
            final(self).accounts() == old(self).accounts(),
            final(self).ledgers@ == old(self).ledgers@.insert(spec_pair_key(grant_id, funder), ledger),
            final(self).funders@ == old(self).funders@,
            forall|g: u64| #[trigger] final(self).funder_list(g) == old(self).funder_list(g),
            forall|g: u64, f: AccountId| #[trigger] final(self).ledger(g, f) == if g == grant_id && f == funder {
                Some(ledger) } else { old(self).ledger(g, f) },
    {
        let k = pair_key(grant_id, funder);
        self.ledgers.insert(k, ledger);
        assert forall|g: u64, f: AccountId| #[trigger] self.ledger(g, f) == if g == grant_id && f == funder {
            Some(ledger) } else { old(self).ledger(g, f) } by {
            lemma_pair_key_injective(g, f, grant_id, funder);
        }
    }

    /// Open an empty escrow for a new grant.
    pub fn open(&mut self, grant_id: u64, owner: AccountId, token: AccountId) -> (r: Result<(), ContractError>)
        ensures
            old(self).accounts().contains_key(grant_id) ==> r == Err::<(), ContractError>(ContractError::EscrowAlreadyOpen)
                && final(self).accounts() == old(self).accounts(),
            !old(self).accounts().contains_key(grant_id) ==> r is Ok && final(self).accounts() == old(self).accounts().insert(
                grant_id, EscrowAccount { owner, token, balance: 0, total_deposited: 0, total_released: 0, locked: false }),
            forall|g: u64, f: AccountId| #[trigger] final(self).ledger(g, f) == old(self).ledger(g, f),
            forall|g: u64| #[trigger] final(self).funder_list(g) == old(self).funder_list(g),
            old(self).wf() ==> final(self).wf(),
    {
        if self.accounts.contains_key(&grant_id) {
            return Err(ContractError::EscrowAlreadyOpen);
        }
        self.accounts.insert(
            grant_id,
            EscrowAccount { owner, token, balance: 0, total_deposited: 0, total_released: 0, locked: false },
        );
        proof {
            if old(self).wf() {
                assert forall|g: u64| #[trigger] self.funder_list(g).no_duplicates() by {
                    assert(self.funder_list(g) == old(self).funder_list(g));
                }
            }
        }
        Ok(())
    }

    /// Set the lock flag of an escrow (a locked escrow releases nothing).
    pub fn set_locked(&mut self, grant_id: u64, locked: bool) -> (r: Result<(), ContractError>)
        ensures
            old(self).accounts().contains_key(grant_id) ==> r is Ok && final(self).accounts() == old(self).accounts().insert(
                grant_id, EscrowAccount { locked, ..old(self).accounts()[grant_id] }),
            !old(self).accounts().contains_key(grant_id) ==> r == Err::<(), ContractError>(ContractError::EscrowNotFound)
                && final(self).accounts() == old(self).accounts(),
            forall|g: u64, f: AccountId| #[trigger] final(self).ledger(g, f) == old(self).ledger(g, f),
            forall|g: u64| #[trigger] final(self).funder_list(g) == old(self).funder_list(g),
            old(self).wf() ==> final(self).wf(),
    {
        match self.accounts.get(&grant_id) {
            Some(a) => {
                let acc = EscrowAccount { locked, ..*a };
                self.accounts.insert(grant_id, acc);
                assert forall|g: u64| #[trigger] self.funder_list(g) == old(self).funder_list(g) by {}
                Ok(())
            },
            None => Err(ContractError::EscrowNotFound),
        }
    }

    /// Lock an escrow during a dispute.
    pub fn lock(&mut self, grant_id: u64) -> (r: Result<(), ContractError>)
        ensures
            old(self).accounts().contains_key(grant_id) ==> r is Ok && final(self).accounts() == old(self).accounts().insert(
                grant_id, EscrowAccount { locked: true, ..old(self).accounts()[grant_id] }),
            !old(self).accounts().contains_key(grant_id) ==> r == Err::<(), ContractError>(ContractError::EscrowNotFound)
                && final(self).accounts() == old(self).accounts(),
            forall|g: u64, f: AccountId| #[trigger] final(self).ledger(g, f) == old(self).ledger(g, f),
            forall|g: u64| #[trigger] final(self).funder_list(g) == old(self).funder_list(g),
            old(self).wf() ==> final(self).wf(),
    {
        self.set_locked(grant_id, true)
    }

    /// Unlock an escrow after a dispute.
    pub fn unlock(&mut self, grant_id: u64) -> (r: Result<(), ContractError>)
        ensures
            old(self).accounts().contains_key(grant_id) ==> r is Ok && final(self).accounts() == old(self).accounts().insert(
                grant_id, EscrowAccount { locked: false, ..old(self).accounts()[grant_id] }),
            !old(self).accounts().contains_key(grant_id) ==> r == Err::<(), ContractError>(ContractError::EscrowNotFound)
                && final(self).accounts() == old(self).accounts(),
            forall|g: u64, f: AccountId| #[trigger] final(self).ledger(g, f) == old(self).ledger(g, f),
            forall|g: u64| #[trigger] final(self).funder_list(g) == old(self).funder_list(g),
            old(self).wf() ==> final(self).wf(),
    {
        self.set_locked(grant_id, false)
    }
}

/// `funder_net * total_balance / total_net` rounded toward zero (the product saturating),
/// and nothing when either total is zero.
pub open spec fn spec_proportional_share(funder_net: int, total_net: int, total_balance: int) -> int {
    if total_net == 0 || total_balance == 0 {
        0
    } else {
        crate::arith::div_trunc_signed(crate::arith::clamp_i128(funder_net * total_balance), total_net)
    }
}

/// `funder_net * total_balance / total_net` rounded toward zero (the product saturating),
/// and nothing when either total is zero.
pub fn proportional_share(funder_net: i128, total_net: i128, total_balance: i128) -> (r: i128)
    ensures
        r == spec_proportional_share(funder_net as int, total_net as int, total_balance as int),
{
    if total_net == 0 || total_balance == 0 {
        return 0;
    }
    let p = crate::arith::sat_mul_i128(funder_net, total_balance);
    match p.checked_div(total_net) {
        Some(q) => q,
        None => 0,
    }
}

/// Whether a deposit of `amount` by `funder` into the escrow of `grant_id` stays within `i128`
/// everywhere it is recorded.
pub open spec fn spec_deposit_fits(escrow: &EscrowBook, grants: &GrantBook, grant_id: u64, funder: AccountId,
    amount: int) -> bool {
    &&& spec_escrow_deposit_fits(escrow, grant_id, funder, amount)
    &&& spec_credit_fits(grants.grants()[grant_id].funders@, funder, amount)
}

/// Whether the escrow's balance, its total deposited and the funder's ledger can take `amount`.
pub open spec fn spec_escrow_deposit_fits(escrow: &EscrowBook, grant_id: u64, funder: AccountId, amount: int) -> bool {
    let acc = escrow.accounts()[grant_id];
    &&& acc.balance + amount <= i128::MAX
    &&& acc.total_deposited + amount <= i128::MAX
    &&& (escrow.ledger(grant_id, funder) matches Some(l) ==> l.contributed + amount <= i128::MAX)
}

/// The funder's ledger after depositing `amount` at `now`.
pub open spec fn spec_ledger_after_deposit(old_ledger: Option<FunderLedger>, funder: AccountId, amount: int,
    now: u64) -> FunderLedger {
    match old_ledger {
        Some(l) => FunderLedger { contributed: (l.contributed + amount) as i128, last_contribution_at: now, ..l },
        None => FunderLedger { funder, contributed: amount as i128, refunded: 0, last_contribution_at: now },
    }
}

/// The effect of a successful deposit of `amount` by `funder` into the escrow of `grant_id`:
/// the balances, the funder's ledger, the funder list, the grant's funders, and the transfer.
pub open spec fn spec_deposited(
    old_escrow: &EscrowBook,
    new_escrow: &EscrowBook,
    old_grants: &GrantBook,
    new_grants: &GrantBook,
    old_transfers: Seq<Transfer>,
    new_transfers: Seq<Transfer>,
    grant_id: u64,
    funder: AccountId,
    amount: i128,
    now: u64,
) -> bool {
    let acc = old_escrow.accounts()[grant_id];
    let new_balance = (acc.balance + amount) as i128;
    let g = old_grants.grants()[grant_id];
    &&& new_escrow.accounts() =~= old_escrow.accounts().insert(grant_id, EscrowAccount {
        balance: new_balance, total_deposited: (acc.total_deposited + amount) as i128, ..acc })
    &&& forall|gid: u64, f: AccountId| #[trigger] new_escrow.ledger(gid, f) == if gid == grant_id && f == funder {
        Some(spec_ledger_after_deposit(old_escrow.ledger(grant_id, funder), funder, amount as int, now))
    } else { old_escrow.ledger(gid, f) }
    &&& forall|gid: u64| #[trigger] new_escrow.funder_list(gid) == if gid == grant_id && !old_escrow.funder_list(
        grant_id).contains(funder) { old_escrow.funder_list(grant_id).push(funder) } else { old_escrow.funder_list(gid) }
    &&& new_grants.grants() =~= old_grants.grants().insert(grant_id, Grant {
        escrow_balance: new_balance, funders: new_grants.grants()[grant_id].funders, ..g })
    &&& new_grants.grants()[grant_id].funders@ == spec_credit_funder(g.funders@, funder, amount as int)
    &&& new_transfers == old_transfers.push(Transfer { token: acc.token, from: funder, to: CONTRACT_ACCOUNT, amount })
}

/// The outcome a deposit would have, without making it.
pub fn deposit_check(escrow: &EscrowBook, grants: &GrantBook, grant_id: u64, funder: AccountId, amount: i128) -> (r: Result<
    (),
    ContractError,
>)
    requires
        escrow.wf(),
    ensures
        amount <= 0 ==> r == Err::<(), ContractError>(ContractError::ZeroAmount),
        amount > 0 && !escrow.accounts().contains_key(grant_id) ==> r == Err::<(), ContractError>(ContractError::EscrowNotFound),
        amount > 0 && escrow.accounts().contains_key(grant_id) && !spec_escrow_deposit_fits(escrow, grant_id, funder,
            amount as int) ==> r == Err::<(), ContractError>(ContractError::InvalidInput),
        amount > 0 && escrow.accounts().contains_key(grant_id) && spec_escrow_deposit_fits(escrow, grant_id, funder,
            amount as int) && !grants.grants().contains_key(grant_id) ==> r == Err::<(), ContractError>(
            ContractError::GrantNotFound),
        amount > 0 && escrow.accounts().contains_key(grant_id) && grants.grants().contains_key(grant_id)
            && !spec_deposit_fits(escrow, grants, grant_id, funder, amount as int) ==> r == Err::<(), ContractError>(
            ContractError::InvalidInput),
        r is Ok <==> amount > 0 && escrow.accounts().contains_key(grant_id) && grants.grants().contains_key(grant_id)
            && spec_deposit_fits(escrow, grants, grant_id, funder, amount as int),
{
    if amount <= 0 {
        return Err(ContractError::ZeroAmount);
    }
    let acc = match escrow.accounts.get(&grant_id) {
        Some(a) => *a,
        None => return Err(ContractError::EscrowNotFound),
    };
    if acc.balance.checked_add(amount).is_none() || acc.total_deposited.checked_add(amount).is_none() {
        return Err(ContractError::InvalidInput);
    }
    match escrow.get_funder_ledger(grant_id, funder) {
        Some(l) => {
            if l.contributed.checked_add(amount).is_none() {
                return Err(ContractError::InvalidInput);
            }
        },
        None => {},
    }
    if !grants.contains(grant_id) {
        return Err(ContractError::GrantNotFound);
    }
    let gref = grants.get(grant_id).unwrap();
    let idx = crate::grants::find_funder(&gref.funders, funder);
    if idx < gref.funders.len() && gref.funders[idx].amount.checked_add(amount).is_none() {
        return Err(ContractError::InvalidInput);
    }
    Ok(())
}

/// Deposit `amount` of the grant's token from `funder` into the grant's escrow.
pub fn deposit(
    escrow: &mut EscrowBook,
    grants: &mut GrantBook,
    grant_id: u64,
    funder: AccountId,
    amount: i128,
    now: u64,
    transfers: &mut Vec<Transfer>,
) -> (r: Result<(), ContractError>)
    requires
        old(escrow).wf(),
    ensures
        amount <= 0 ==> r == Err::<(), ContractError>(ContractError::ZeroAmount),
        amount > 0 && !old(escrow).accounts().contains_key(grant_id) ==> r == Err::<(), ContractError>(
            ContractError::EscrowNotFound),
        amount > 0 && old(escrow).accounts().contains_key(grant_id) && !spec_escrow_deposit_fits(old(escrow), grant_id,
            funder, amount as int) ==> r == Err::<(), ContractError>(ContractError::InvalidInput),
        amount > 0 && old(escrow).accounts().contains_key(grant_id) && spec_escrow_deposit_fits(old(escrow), grant_id,
            funder, amount as int) && !old(grants).grants().contains_key(grant_id) ==> r == Err::<(), ContractError>(
            ContractError::GrantNotFound),
        amount > 0 && old(escrow).accounts().contains_key(grant_id) && old(grants).grants().contains_key(grant_id)
            && !spec_deposit_fits(old(escrow), old(grants), grant_id, funder, amount as int)
            ==> r == Err::<(), ContractError>(ContractError::InvalidInput),
        r is Ok <==> amount > 0 && old(escrow).accounts().contains_key(grant_id) && old(grants).grants().contains_key(
            grant_id) && spec_deposit_fits(old(escrow), old(grants), grant_id, funder, amount as int),
        r is Err ==> final(escrow).accounts() == old(escrow).accounts() && final(grants).grants() == old(grants).grants()
            && final(transfers)@ == old(transfers)@
            && (forall|g: u64, f: AccountId| #[trigger] final(escrow).ledger(g, f) == old(escrow).ledger(g, f))
            && (forall|g: u64| #[trigger] final(escrow).funder_list(g) == old(escrow).funder_list(g)),
        r is Ok ==> spec_deposited(old(escrow), final(escrow), old(grants), final(grants), old(transfers)@, final(transfers)@,
            grant_id, funder, amount, now),
        final(grants).counter() == old(grants).counter(),
        final(escrow).wf(),
{
    if amount <= 0 {
        return Err(ContractError::ZeroAmount);
    }
    let acc = match escrow.accounts.get(&grant_id) {
        Some(a) => *a,
        None => return Err(ContractError::EscrowNotFound),
    };
    let new_balance = match acc.balance.checked_add(amount) {
        Some(b) => b,
        None => return Err(ContractError::InvalidInput),
    };
    let new_total = match acc.total_deposited.checked_add(amount) {
        Some(t) => t,
        None => return Err(ContractError::InvalidInput),
    };
    let old_ledger = escrow.get_funder_ledger(grant_id, funder);
    let ledger = match old_ledger {
        Some(l) => match l.contributed.checked_add(amount) {
            Some(c) => FunderLedger { contributed: c, last_contribution_at: now, ..l },
            None => return Err(ContractError::InvalidInput),
        },
        None => FunderLedger { funder, contributed: amount, refunded: 0, last_contribution_at: now },
    };
    if !grants.contains(grant_id) {
        return Err(ContractError::GrantNotFound);
    }
    {
        let gref = grants.get(grant_id).unwrap();
        let idx = crate::grants::find_funder(&gref.funders, funder);
        if idx < gref.funders.len() && gref.funders[idx].amount.checked_add(amount).is_none() {
            return Err(ContractError::InvalidInput);
        }
    }
    let mut grant = grants.take(grant_id).unwrap();
    let ok = credit_funder(&mut grant.funders, funder, amount);
    assert(ok);
    grant.escrow_balance = new_balance;
    grants.set(grant_id, grant);

    transfers.push(Transfer { token: acc.token, from: funder, to: CONTRACT_ACCOUNT, amount });
    escrow.accounts.insert(grant_id, EscrowAccount { balance: new_balance, total_deposited: new_total, ..acc });
    escrow.set_ledger(grant_id, funder, ledger);
    let ghost fl = escrow.funder_list(grant_id);
    assert(fl.no_duplicates()) by { assert(old(escrow).funder_list(grant_id).no_duplicates()); }
    assert forall|g: u64| (if escrow.funders@.contains_key(g) { escrow.funders@[g]@ } else { Seq::<AccountId>::empty() })
        == old(escrow).funder_list(g) by {
        assert(escrow.funder_list(g) == old(escrow).funder_list(g));
    }
    let ghost mid = escrow.funders@;
    let ghost mid_ledgers = escrow.ledgers@;
    assert forall|gid: u64, f: AccountId| #[trigger] escrow.ledger(gid, f) == if gid == grant_id && f == funder {
        Some(spec_ledger_after_deposit(old(escrow).ledger(grant_id, funder), funder, amount as int, now))
    } else { old(escrow).ledger(gid, f) } by {}
    let list_opt = escrow.funders.remove(&grant_id);
    let mut list = match list_opt {
        Some(l) => l,
        None => Vec::new(),
    };
    let ghost l0 = list@;
    assert(l0 == fl);
    assert(l0 == old(escrow).funder_list(grant_id));
    if !contains_account(&list, funder) {
        list.push(funder);
    }
    escrow.funders.insert(grant_id, list);
    assert forall|gid: u64| #[trigger] escrow.funder_list(gid) == if gid == grant_id && !old(escrow).funder_list(
        grant_id).contains(funder) { old(escrow).funder_list(grant_id).push(funder) } else { old(escrow).funder_list(gid) } by {
        if gid != grant_id && mid.contains_key(gid) {
            assert(escrow.funders@[gid] == mid[gid]);
        }
    }
    assert forall|g: u64| #[trigger] escrow.funder_list(g).no_duplicates() by {
        assert(old(escrow).funder_list(g).no_duplicates());
        if g == grant_id && !l0.contains(funder) {
            assert(escrow.funder_list(g) == l0.push(funder));
            assert forall|i: int, j: int| 0 <= i < j < l0.len() + 1 implies l0.push(funder)[i] != l0.push(funder)[j] by {
                if j == l0.len() {
                    assert(l0[i] != funder);
                }
            }
        }
    }
    assert forall|gid: u64, f: AccountId| #[trigger] escrow.ledger(gid, f) == if gid == grant_id && f == funder {
        Some(spec_ledger_after_deposit(old(escrow).ledger(grant_id, funder), funder, amount as int, now))
    } else { old(escrow).ledger(gid, f) } by {
        assert(escrow.ledgers@ == mid_ledgers);
        lemma_pair_key_injective(gid, f, grant_id, funder);
    }
    Ok(())
}

/// Whether `id` occurs in `list`.
pub fn contains_account(list: &Vec<AccountId>, id: AccountId) -> (r: bool)
    ensures
        r == list@.contains(id),
{
    let mut i: usize = 0;
    while i < list.len()
        invariant
            i <= list.len(),
            forall|j: int| 0 <= j < i ==> list@[j] != id,
        decreases list.len() - i,
    {
        if list[i] == id {
            return true;
        }
        i += 1;
    }
    false
}

/// Pay `amount` out of the grant's escrow to `recipient` (a milestone payout).
pub fn release(
    escrow: &mut EscrowBook,
    grants: &mut GrantBook,
    grant_id: u64,
    recipient: AccountId,
    amount: i128,
    transfers: &mut Vec<Transfer>,
) -> (r: Result<(), ContractError>)
    ensures
        ({
            let acc_open = old(escrow).accounts().contains_key(grant_id);
            let acc = old(escrow).accounts()[grant_id];
            &&& amount <= 0 ==> r == Err::<(), ContractError>(ContractError::ZeroAmount)
            &&& amount > 0 && !acc_open ==> r == Err::<(), ContractError>(ContractError::EscrowNotFound)
            &&& amount > 0 && acc_open && acc.locked ==> r == Err::<(), ContractError>(ContractError::EscrowLocked)
            &&& amount > 0 && acc_open && !acc.locked && (acc.balance < amount || acc.total_released + amount > i128::MAX)
                ==> r == Err::<(), ContractError>(ContractError::InvalidInput)
            &&& r is Ok <==> amount > 0 && acc_open && !acc.locked && acc.balance >= amount && acc.total_released + amount <= i128::MAX
            &&& r is Ok ==> {
                let nb = (acc.balance - amount) as i128;
                &&& final(escrow).accounts() == old(escrow).accounts().insert(grant_id, EscrowAccount {
                    balance: nb, total_released: (acc.total_released + amount) as i128, ..acc })
                &&& final(transfers)@ == old(transfers)@.push(Transfer { token: acc.token, from: CONTRACT_ACCOUNT, to: recipient, amount })
                &&& final(grants).grants() == if old(grants).grants().contains_key(grant_id) {
                    old(grants).grants().insert(grant_id, Grant { escrow_balance: nb, ..old(grants).grants()[grant_id] })
                } else { old(grants).grants() }
            }
            &&& r is Err ==> final(escrow).accounts() == old(escrow).accounts() && final(grants).grants() == old(grants).grants()
                && final(transfers)@ == old(transfers)@
        }),
        forall|g: u64, f: AccountId| #[trigger] final(escrow).ledger(g, f) == old(escrow).ledger(g, f),
        forall|g: u64| #[trigger] final(escrow).funder_list(g) == old(escrow).funder_list(g),
        old(escrow).wf() ==> final(escrow).wf(),
        final(grants).counter() == old(grants).counter(),
{
    if amount <= 0 {
        return Err(ContractError::ZeroAmount);
    }
    let acc = match escrow.accounts.get(&grant_id) {
        Some(a) => *a,
        None => return Err(ContractError::EscrowNotFound),
    };
    if acc.locked {
        return Err(ContractError::EscrowLocked);
    }
    if acc.balance < amount {
        return Err(ContractError::InvalidInput);
    }
    let released = match acc.total_released.checked_add(amount) {
        Some(t) => t,
        None => return Err(ContractError::InvalidInput),
    };
    transfers.push(Transfer { token: acc.token, from: CONTRACT_ACCOUNT, to: recipient, amount });
    let nb = acc.balance - amount;
    escrow.accounts.insert(grant_id, EscrowAccount { balance: nb, total_released: released, ..acc });
    set_grant_escrow_balance(grants, grant_id, nb);
    assert(old(escrow).wf() ==> escrow.wf()) by {
        if old(escrow).wf() {
            assert forall|g: u64| #[trigger] escrow.funder_list(g).no_duplicates() by {
                assert(escrow.funder_list(g) == old(escrow).funder_list(g));
            }
        }
    }
    Ok(())
}

/// Mirror an escrow balance onto the grant record, when there is one.
fn set_grant_escrow_balance(grants: &mut GrantBook, grant_id: u64, balance: i128)
    ensures
        final(grants).grants() == if old(grants).grants().contains_key(grant_id) {
            old(grants).grants().insert(grant_id, Grant { escrow_balance: balance, ..old(grants).grants()[grant_id] })
        } else { old(grants).grants() },
        final(grants).counter() == old(grants).counter(),
{
    match grants.take(grant_id) {
        Some(g) => {
            let g2 = Grant { escrow_balance: balance, ..g };
            grants.set(grant_id, g2);
        },
        None => {
            assert(grants.grants() =~= old(grants).grants());
        },
    }
}

/// What a ledger still holds in the escrow: contributed less refunded (saturating).
pub open spec fn spec_net(l: FunderLedger) -> int {
    crate::arith::clamp_i128(l.contributed - l.refunded)
}

/// What refunding `funder` from the escrow of `grant_id` returns: the smaller of the
/// funder's net contribution and the escrow balance, or the reason it cannot.
pub open spec fn spec_refund_outcome(escrow: &EscrowBook, grant_id: u64, funder: AccountId) -> Result<i128, ContractError> {
    let lo = escrow.ledger(grant_id, funder);
    let acc_open = escrow.accounts().contains_key(grant_id);
    let acc = escrow.accounts()[grant_id];
    let l = lo->0;
    let amt = crate::arith::min_int(spec_net(l), acc.balance as int);
    if lo is None || spec_net(l) <= 0 {
        Err(ContractError::NoRefundableAmount)
    } else if !acc_open {
        Err(ContractError::EscrowNotFound)
    } else if amt <= 0 {
        Err(ContractError::NoRefundableAmount)
    } else if l.refunded + amt > i128::MAX {
        Err(ContractError::InvalidInput)
    } else {
        Ok(amt as i128)
    }
}

/// The effect of a successful refund of `funder` from the escrow of `grant_id`.
pub open spec fn spec_refunded(
    old_escrow: &EscrowBook,
    new_escrow: &EscrowBook,
    old_grants: &GrantBook,
    new_grants: &GrantBook,
    old_transfers: Seq<Transfer>,
    new_transfers: Seq<Transfer>,
    grant_id: u64,
    funder: AccountId,
) -> bool {
    let acc = old_escrow.accounts()[grant_id];
    let l = old_escrow.ledger(grant_id, funder)->0;
    let amt = crate::arith::min_int(spec_net(l), acc.balance as int);
    let nb = (acc.balance - amt) as i128;
    &&& new_escrow.accounts() =~= old_escrow.accounts().insert(grant_id, EscrowAccount { balance: nb, ..acc })
    &&& forall|g: u64, f: AccountId| #[trigger] new_escrow.ledger(g, f) == if g == grant_id && f == funder {
        Some(FunderLedger { refunded: (l.refunded + amt) as i128, ..l })
    } else {
        old_escrow.ledger(g, f)
    }
    &&& new_transfers == old_transfers.push(Transfer { token: acc.token, from: CONTRACT_ACCOUNT, to: funder, amount: amt as i128 })
    &&& new_grants.grants() =~= if old_grants.grants().contains_key(grant_id) {
        old_grants.grants().insert(grant_id, Grant { escrow_balance: nb, ..old_grants.grants()[grant_id] })
    } else {
        old_grants.grants()
    }
}

/// Refund `funder` what remains of its contribution, as far as the escrow balance allows.
/// Returns the amount refunded.
pub fn refund(
    escrow: &mut EscrowBook,
    grants: &mut GrantBook,
    grant_id: u64,
    funder: AccountId,
    transfers: &mut Vec<Transfer>,
) -> (r: Result<i128, ContractError>)
    ensures
        r == spec_refund_outcome(old(escrow), grant_id, funder),
        r is Ok ==> spec_refunded(old(escrow), final(escrow), old(grants), final(grants), old(transfers)@, final(transfers)@,
            grant_id, funder),
        r is Err ==> final(escrow).accounts() == old(escrow).accounts() && final(grants).grants() == old(grants).grants()
            && final(transfers)@ == old(transfers)@
            && (forall|g: u64, f: AccountId| #[trigger] final(escrow).ledger(g, f) == old(escrow).ledger(g, f)),
        forall|g: u64| #[trigger] final(escrow).funder_list(g) == old(escrow).funder_list(g),
        old(escrow).wf() ==> final(escrow).wf(),
        final(grants).counter() == old(grants).counter(),
{
    let l = match escrow.get_funder_ledger(grant_id, funder) {
        Some(l) => l,
        None => return Err(ContractError::NoRefundableAmount),
    };
    let refundable = crate::arith::sat_sub_i128(l.contributed, l.refunded);
    if refundable <= 0 {
        return Err(ContractError::NoRefundableAmount);
    }
    let acc = match escrow.accounts.get(&grant_id) {
        Some(a) => *a,
        None => return Err(ContractError::EscrowNotFound),
    };
    let actual = crate::arith::min_i128(refundable, acc.balance);
    if actual <= 0 {
        return Err(ContractError::NoRefundableAmount);
    }
    let new_refunded = match l.refunded.checked_add(actual) {
        Some(x) => x,
        None => return Err(ContractError::InvalidInput),
    };
    transfers.push(Transfer { token: acc.token, from: CONTRACT_ACCOUNT, to: funder, amount: actual });
    let nb = acc.balance - actual;
    escrow.accounts.insert(grant_id, EscrowAccount { balance: nb, ..acc });
    escrow.set_ledger(grant_id, funder, FunderLedger { refunded: new_refunded, ..l });
    assert(old(escrow).wf() ==> escrow.wf()) by {
        if old(escrow).wf() {
            assert forall|g: u64| #[trigger] escrow.funder_list(g).no_duplicates() by {
                assert(escrow.funder_list(g) == old(escrow).funder_list(g));
            }
        }
    }
    set_grant_escrow_balance(grants, grant_id, nb);
    Ok(actual)
}

/// The nets of the funders listed for `grant_id`, in list order (0 where there is no ledger).
pub open spec fn spec_nets(escrow: &EscrowBook, grant_id: u64) -> Seq<int> {
    escrow.funder_list(grant_id).map_values(|f: AccountId| match escrow.ledger(grant_id, f) {
        Some(l) => spec_net(l),
        None => 0int,
    })
}

/// Sum of the first `n` entries of `s`.
pub open spec fn spec_prefix_sum(s: Seq<int>, n: int) -> int
    decreases n,
{
    if n <= 0 { 0 } else { spec_prefix_sum(s, n - 1) + s[n - 1] }
}

/// What a funder with net contribution `net` is refunded: the last listed funder takes
/// whatever the others left, so the whole balance goes out; any other funder its share of
/// the balance in proportion to its net contribution, and nothing without one.
pub open spec fn spec_refund_amount(net: int, is_last: bool, total_net: int, balance: int, distributed: int) -> int {
    if is_last {
        balance - distributed
    } else if net <= 0 {
        0
    } else {
        spec_proportional_share(net, total_net, balance)
    }
}

/// Total paid out to the first `n` listed funders (only positive amounts are paid).
pub open spec fn spec_distributed(nets: Seq<int>, total_net: int, balance: int, n: int) -> int
    decreases n,
{
    if n <= 0 {
        0
    } else {
        let d = spec_distributed(nets, total_net, balance, n - 1);
        let a = spec_refund_amount(nets[n - 1], n - 1 == nets.len() - 1, total_net, balance, d);
        if a > 0 { d + a } else { d }
    }
}

/// Amount refunded to the `i`-th listed funder.
pub open spec fn spec_refund_at(nets: Seq<int>, total_net: int, balance: int, i: int) -> int {
    spec_refund_amount(nets[i], i == nets.len() - 1, total_net, balance, spec_distributed(nets, total_net, balance, i))
}

/// The transfers made to the first `n` listed funders.
pub open spec fn spec_refund_transfers(list: Seq<AccountId>, nets: Seq<int>, total_net: int, balance: int, token: AccountId,
    n: int) -> Seq<Transfer>
    decreases n,
{
    if n <= 0 {
        Seq::empty()
    } else {
        let prev = spec_refund_transfers(list, nets, total_net, balance, token, n - 1);
        let a = spec_refund_at(nets, total_net, balance, n - 1);
        if a > 0 {
            prev.push(Transfer { token, from: CONTRACT_ACCOUNT, to: list[n - 1], amount: a as i128 })
        } else {
            prev
        }
    }
}

/// The arithmetic of a full refund stays within `i128`: every running total of the nets,
/// every running total of the refunds, and the last funder's remainder.
pub open spec fn spec_refund_all_fits(nets: Seq<int>, balance: int) -> bool {
    let n = nets.len() as int;
    let total = spec_prefix_sum(nets, n);
    &&& forall|k: int| 0 <= k <= n ==> i128::MIN <= #[trigger] spec_prefix_sum(nets, k) <= i128::MAX
    &&& forall|k: int| 0 <= k <= n ==> i128::MIN <= #[trigger] spec_distributed(nets, total, balance, k) <= i128::MAX
    &&& n > 0 ==> i128::MIN <= balance - spec_distributed(nets, total, balance, n - 1) <= i128::MAX
}

/// The effect on the escrow and the transfers of returning the whole balance of account `acc`
/// of `grant_id` (the accounts being `accounts`) to the funders listed in `src`, whose ledgers
/// it takes: nothing when the balance is zero or nobody is listed; otherwise the balance goes
/// to zero, each funder is paid its refund and its ledger records it.
pub open spec fn spec_refunded_all_from(
    src: &EscrowBook,
    accounts: Map<u64, EscrowAccount>,
    acc: EscrowAccount,
    new_escrow: &EscrowBook,
    old_transfers: Seq<Transfer>,
    new_transfers: Seq<Transfer>,
    grant_id: u64,
) -> bool {
    let list = src.funder_list(grant_id);
    let nets = spec_nets(src, grant_id);
    let total = spec_prefix_sum(nets, nets.len() as int);
    let b = acc.balance as int;
    if b == 0 || list.len() == 0 {
        &&& new_escrow.accounts() == accounts
        &&& new_transfers == old_transfers
        &&& forall|g: u64, f: AccountId| #[trigger] new_escrow.ledger(g, f) == src.ledger(g, f)
    } else {
        &&& new_escrow.accounts() == accounts.insert(grant_id, EscrowAccount { balance: 0, ..acc })
        &&& new_transfers == old_transfers + spec_refund_transfers(list, nets, total, b, acc.token, list.len() as int)
        &&& forall|i: int| 0 <= i < list.len() ==> #[trigger] new_escrow.ledger(grant_id, list[i]) == if spec_refund_at(
            nets,
            total,
            b,
            i,
        ) > 0 && src.ledger(grant_id, list[i]) is Some {
            Some(FunderLedger { refunded: crate::arith::clamp_i128(src.ledger(grant_id, list[i])->0.refunded
                + spec_refund_at(nets, total, b, i)) as i128, ..src.ledger(grant_id, list[i])->0 })
        } else {
            src.ledger(grant_id, list[i])
        }
        &&& forall|g: u64, f: AccountId| !(g == grant_id && list.contains(f)) ==> #[trigger] new_escrow.ledger(g, f)
            == src.ledger(g, f)
    }
}

/// Two escrows with the same ledgers and funder lists agree on the nets of every grant and on
/// what returning a balance to the funders does.
pub proof fn lemma_same_ledgers_refund(
    a: &EscrowBook,
    b: &EscrowBook,
    accounts: Map<u64, EscrowAccount>,
    acc: EscrowAccount,
    new_escrow: &EscrowBook,
    old_transfers: Seq<Transfer>,
    new_transfers: Seq<Transfer>,
    grant_id: u64,
)
    requires
        forall|g: u64, f: AccountId| #[trigger] a.ledger(g, f) == b.ledger(g, f),
        forall|g: u64| #[trigger] a.funder_list(g) == b.funder_list(g),
    ensures
        spec_nets(a, grant_id) == spec_nets(b, grant_id),
        spec_refunded_all_from(a, accounts, acc, new_escrow, old_transfers, new_transfers, grant_id)
            == spec_refunded_all_from(b, accounts, acc, new_escrow, old_transfers, new_transfers, grant_id),
{
    assert(a.funder_list(grant_id) == b.funder_list(grant_id));
    assert(spec_nets(a, grant_id) =~= spec_nets(b, grant_id));
}

/// The effect on the escrow and the transfers of returning the whole balance of the escrow of
/// `grant_id` to its listed funders.
pub open spec fn spec_refunded_all(
    old_escrow: &EscrowBook,
    new_escrow: &EscrowBook,
    old_transfers: Seq<Transfer>,
    new_transfers: Seq<Transfer>,
    grant_id: u64,
) -> bool {
    spec_refunded_all_from(
        old_escrow,
        old_escrow.accounts(),
        old_escrow.accounts()[grant_id],
        new_escrow,
        old_transfers,
        new_transfers,
        grant_id,
    )
}

/// Return the whole escrow balance to the listed funders in proportion to their net
/// contributions; the last listed funder receives what the rounding leaves.
pub fn refund_all(
    escrow: &mut EscrowBook,
    grants: &mut GrantBook,
    grant_id: u64,
    transfers: &mut Vec<Transfer>,
) -> (r: Result<(), ContractError>)
    requires
        old(escrow).wf(),
        old(escrow).accounts().contains_key(grant_id) ==> spec_refund_all_fits(spec_nets(old(escrow), grant_id),
            old(escrow).accounts()[grant_id].balance as int),
    ensures
        final(escrow).wf(),
        final(grants).counter() == old(grants).counter(),
        forall|g: u64| #[trigger] final(escrow).funder_list(g) == old(escrow).funder_list(g),
        !old(escrow).accounts().contains_key(grant_id) ==> r == Err::<(), ContractError>(ContractError::EscrowNotFound),
        old(escrow).accounts().contains_key(grant_id) ==> r is Ok,
        r is Ok ==> spec_refunded_all(old(escrow), final(escrow), old(transfers)@, final(transfers)@, grant_id),
        r is Ok && old(escrow).accounts()[grant_id].balance > 0 && old(escrow).funder_list(grant_id).len() > 0 && (forall|i: int|
            0 <= i < spec_nets(old(escrow), grant_id).len() ==> #[trigger] spec_nets(old(escrow), grant_id)[i] >= 0)
            ==> crate::laws::spec_transfer_sum(final(transfers)@.subrange(old(transfers)@.len() as int, final(transfers)@.len() as int))
            == old(escrow).accounts()[grant_id].balance,
        r is Ok ==> final(grants).grants() == if old(grants).grants().contains_key(grant_id) && old(escrow).accounts()[
            grant_id].balance != 0 && old(escrow).funder_list(grant_id).len() > 0 {
            old(grants).grants().insert(grant_id, Grant { escrow_balance: 0, ..old(grants).grants()[grant_id] })
        } else {
            old(grants).grants()
        },
{
    let acc = match escrow.accounts.get(&grant_id) {
        Some(a) => *a,
        None => return Err(ContractError::EscrowNotFound),
    };
    let total_balance = acc.balance;
    if total_balance == 0 {
        return Ok(());
    }
    let list: Vec<AccountId> = match escrow.funders.get(&grant_id) {
        Some(l) => l.clone(),
        None => Vec::new(),
    };
    assert(list@ == old(escrow).funder_list(grant_id));
    if list.len() == 0 {
        return Ok(());
    }
    let ghost nets = spec_nets(old(escrow), grant_id);
    let ghost n = list.len() as int;
    assert(list@.no_duplicates()) by { assert(old(escrow).funder_list(grant_id).no_duplicates()); }

    // Total of the nets, the denominator of each share.
    let mut total_net: i128 = 0;
    let mut k: usize = 0;
    while k < list.len()
        invariant
            k <= list.len(),
            list@ == old(escrow).funder_list(grant_id),
            nets == spec_nets(old(escrow), grant_id),
            n == list.len(),
            escrow == old(escrow),
            spec_refund_all_fits(nets, total_balance as int),
            total_net == spec_prefix_sum(nets, k as int),
        decreases list.len() - k,
    {
        let f = list[k];
        let net: i128 = match escrow.get_funder_ledger(grant_id, f) {
            Some(l) => crate::arith::sat_sub_i128(l.contributed, l.refunded),
            None => 0,
        };
        assert(net == nets[k as int]);
        assert(i128::MIN <= spec_prefix_sum(nets, k + 1) <= i128::MAX);
        total_net = total_net + net;
        k += 1;
    }
    let ghost total = total_net as int;

    escrow.accounts.insert(grant_id, EscrowAccount { balance: 0, ..acc });
    set_grant_escrow_balance(grants, grant_id, 0);
    let mut distributed: i128 = 0;
    let mut i: usize = 0;
    let len = list.len();
    let ghost t0 = old(transfers)@;
    while i < len
        invariant
            len == list.len() == n,
            i <= len,
            list@ == old(escrow).funder_list(grant_id),
            list@.no_duplicates(),
            nets == spec_nets(old(escrow), grant_id),
            total == spec_prefix_sum(nets, n),
            total_net == total,
            total_balance == acc.balance,
            old(escrow).accounts().contains_key(grant_id),
            acc == old(escrow).accounts()[grant_id],
            spec_refund_all_fits(nets, total_balance as int),
            distributed == spec_distributed(nets, total, total_balance as int, i as int),
            transfers@ == t0 + spec_refund_transfers(list@, nets, total, total_balance as int, acc.token, i as int),
            escrow.accounts@ == old(escrow).accounts@.insert(grant_id, EscrowAccount { balance: 0, ..acc }),
            escrow.funders@ == old(escrow).funders@,
            forall|j: int| 0 <= j < i ==> #[trigger] escrow.ledger(grant_id, list@[j]) == if
                spec_refund_at(nets, total, total_balance as int, j) > 0 && old(escrow).ledger(grant_id, list@[j]) is Some {
                Some(FunderLedger { refunded: crate::arith::clamp_i128(old(escrow).ledger(grant_id, list@[j])->0.refunded
                    + spec_refund_at(nets, total, total_balance as int, j)) as i128, ..old(escrow).ledger(grant_id, list@[j])->0 })
            } else { old(escrow).ledger(grant_id, list@[j]) },
            forall|g: u64, f: AccountId| !(g == grant_id && exists|j: int| 0 <= j < i && list@[j] == f)
                ==> #[trigger] escrow.ledger(g, f) == old(escrow).ledger(g, f),
        decreases len - i,
    {
        let addr = list[i];
        let ledger_opt = escrow.get_funder_ledger(grant_id, addr);
        assert(ledger_opt == old(escrow).ledger(grant_id, addr)) by {
            assert forall|j: int| 0 <= j < i implies list@[j] != addr by {
                assert(list@[i as int] == addr);
            }
        }
        let net: i128 = match ledger_opt {
            Some(l) => crate::arith::sat_sub_i128(l.contributed, l.refunded),
            None => 0,
        };
        assert(net == nets[i as int]);
        let is_last = i + 1 == len;
        if is_last || net > 0 {
            let refund_amount = if is_last {
                total_balance - distributed
            } else {
                proportional_share(net, total_net, total_balance)
            };
            assert(refund_amount == spec_refund_at(nets, total, total_balance as int, i as int));
            if refund_amount > 0 {
                transfers.push(Transfer { token: acc.token, from: CONTRACT_ACCOUNT, to: addr, amount: refund_amount });
                assert(spec_distributed(nets, total, total_balance as int, i + 1) == distributed + refund_amount);
                distributed = distributed + refund_amount;
                match ledger_opt {
                    Some(l) => {
                        escrow.set_ledger(grant_id, addr, FunderLedger {
                            refunded: crate::arith::sat_add_i128(l.refunded, refund_amount), ..l });
                    },
                    None => {},
                }
            }
        }
        proof {
            assert forall|g: u64, f: AccountId| !(g == grant_id && exists|j: int| 0 <= j < i + 1 && list@[j] == f)
                implies #[trigger] escrow.ledger(g, f) == old(escrow).ledger(g, f) by {
                if g == grant_id && f == addr {
                    assert(list@[i as int] == f);
                }
            }
        }
        i += 1;
    }
    proof {
        assert(transfers@.subrange(t0.len() as int, transfers@.len() as int) =~= spec_refund_transfers(list@, nets, total,
            total_balance as int, acc.token, n));
        if total_balance > 0 && (forall|i: int| 0 <= i < nets.len() ==> #[trigger] nets[i] >= 0) {
            crate::laws::lemma_refund_all_sums_to_balance(list@, nets, total_balance as int, acc.token);
        }
        assert forall|g: u64| #[trigger] escrow.funder_list(g).no_duplicates() by {
            assert(escrow.funder_list(g) == old(escrow).funder_list(g));
        }
        assert forall|g: u64, f: AccountId| !(g == grant_id && list@.contains(f)) implies #[trigger] escrow.ledger(g, f)
            == old(escrow).ledger(g, f) by {
            if g == grant_id && exists|j: int| 0 <= j < len && list@[j] == f {
                let j = choose|j: int| 0 <= j < len && list@[j] == f;
                assert(list@.contains(f));
            }
        }
    }
    Ok(())
}

} // verus!
