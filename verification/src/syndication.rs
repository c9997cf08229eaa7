use vstd::prelude::*;
use std::collections::HashMap;

use crate::arith::{clamp_i128, clamp_u32, div_trunc_signed, min_int};
use crate::errors::ContractError;
use crate::escrow::{spec_deposit_fits, spec_escrow_deposit_fits, spec_deposited, spec_refund_outcome, spec_refunded, EscrowBook};
use crate::grants::GrantBook;
use crate::keys::{lemma_pair_key_injective, pair_key, spec_pair_key, Transfer};
use crate::types::{AccountId, SyndicateStatus};

verus! {

broadcast use vstd::std_specs::hash::group_hash_axioms;

/// A member's commitment to a syndicated grant.
#[derive(Clone, Copy, Debug, PartialEq, Eq, Structural)]
pub struct SyndicateMember {
    pub member: AccountId,
    pub committed_amount: i128,
    pub deposited_amount: i128,
    pub share_bps: u32,
    pub is_lead: bool,
    pub joined_at: u64,
}

/// A grant funded by a syndicate of members under a lead.
#[derive(Clone, Copy, Debug, PartialEq, Eq, Structural)]
pub struct SyndicateGrant {
    pub grant_id: u64,
    pub lead: AccountId,
    pub target_total: i128,
    pub token: AccountId,
    pub status: SyndicateStatus,
    pub member_count: u32,
    pub min_commitment: i128,
    pub max_members: u32,
    pub formation_deadline: u64,
}

/// A member's share of a commitment against a target, in basis points (0 for a
/// non-positive target), cut to 32 bits.
pub open spec fn spec_share_bps(committed: int, target: int) -> u32 {
    (if target > 0 { div_trunc_signed(clamp_i128(committed * 10_000), target) } else { 0 }) as u32
}

/// The syndicates, their members and member indexes, and the recorded payout allocations.
pub struct SyndicateBook {
    syndicates: HashMap<u64, SyndicateGrant>,
    members: HashMap<u128, SyndicateMember>,
    index: HashMap<u64, Vec<AccountId>>,
    payouts: HashMap<u128, Vec<(AccountId, i128)>>,
}

impl SyndicateBook {
    pub closed spec fn syndicates(&self) -> Map<u64, SyndicateGrant> {
        self.syndicates@
    }

    /// A member's record in a grant's syndicate.
    pub closed spec fn member(&self, grant_id: u64, member: AccountId) -> Option<SyndicateMember> {
        let k = spec_pair_key(grant_id, member);
        if self.members@.contains_key(k) { Some(self.members@[k]) } else { None }
    }

    /// The members of a grant's syndicate, in joining order.
    pub closed spec fn member_index(&self, grant_id: u64) -> Seq<AccountId> {
        if self.index@.contains_key(grant_id) { self.index@[grant_id]@ } else { Seq::empty() }
    }

    /// The payout allocation recorded for a milestone of a grant.
    pub closed spec fn payout(&self, grant_id: u64, milestone_idx: u32) -> Option<Seq<(AccountId, i128)>> {
        let k = spec_pair_key(grant_id, milestone_idx as u64);
        if self.payouts@.contains_key(k) { Some(self.payouts@[k]@) } else { None }
    }

    /// Each grant's member index lists exactly the members on record, once each, and only a
    /// syndicate that exists has members.
    pub open spec fn wf(&self) -> bool {
        &&& forall|g: u64| #[trigger] self.member_index(g).no_duplicates()
        &&& forall|g: u64, m: AccountId|
            #![trigger self.member(g, m)]
            #![trigger self.member_index(g).contains(m)]
            (self.member(g, m) is Some <==> self.member_index(g).contains(m))
        &&& forall|g: u64, m: AccountId| #[trigger] self.member(g, m) is Some ==> self.syndicates().contains_key(g)
    }

    /// A book whose members and index are those of a sound book, and whose syndicates
    /// include its, is sound.
    proof fn lemma_wf_frame(a: &SyndicateBook, b: &SyndicateBook)
        requires
            a.wf(),
            b.members@ == a.members@,
            b.index@ == a.index@,
            forall|g: u64| a.syndicates().contains_key(g) ==> #[trigger] b.syndicates().contains_key(g),
        ensures
            b.wf(),
    {
        assert forall|g: u64, m: AccountId| #[trigger] b.member(g, m) is Some implies b.syndicates().contains_key(g) by {
            assert(a.member(g, m) is Some);
        }
        assert forall|g: u64| #[trigger] b.member_index(g).no_duplicates() by {
            assert(b.member_index(g) == a.member_index(g));
        }
        assert forall|g: u64, m: AccountId| (b.member(g, m) is Some <==> #[trigger] b.member_index(g).contains(m)) by {
            assert(b.member(g, m) == a.member(g, m));
            assert(b.member_index(g) == a.member_index(g));
        }
    }

    pub fn new() -> (b: SyndicateBook)
        ensures
            b.wf(),
            b.syndicates() == Map::<u64, SyndicateGrant>::empty(),
            forall|g: u64, m: AccountId| #[trigger] b.member(g, m) is None,
            forall|g: u64| #[trigger] b.member_index(g) == Seq::<AccountId>::empty(),
            forall|g: u64, i: u32| #[trigger] b.payout(g, i) is None,
    {
        SyndicateBook { syndicates: HashMap::new(), members: HashMap::new(), index: HashMap::new(), payouts: HashMap::new() }
    }

    fn get_member_record(&self, grant_id: u64, member: AccountId) -> (r: Option<SyndicateMember>)
        ensures
            r == self.member(grant_id, member),
    {
        match self.members.get(&pair_key(grant_id, member)) {
            Some(m) => Some(*m),
            None => None,
        }
    }

    fn get_index(&self, grant_id: u64) -> (r: Vec<AccountId>)
        ensures
            r@ == self.member_index(grant_id),
    {
        match self.index.get(&grant_id) {
            Some(l) => {
                let mut out: Vec<AccountId> = Vec::new();
                let mut i: usize = 0;
                while i < l.len()
                    invariant
                        i <= l@.len(),
                        out@ == l@.take(i as int),
                    decreases l@.len() - i,
                {
                    out.push(l[i]);
                    proof {
                        assert(l@.take(i + 1) == l@.take(i as int).push(l@[i as int]));
                    }
                    i += 1;
                }
                proof {
                    assert(l@.take(l@.len() as int) == l@);
                }
                out
            },
            None => Vec::new(),
        }
    }

    /// The owner of a grant starts a syndicate for it, forming until `deadline_ledgers` after
    /// `current_ledger`.
    pub fn form_syndicate(
        &mut self,
        grants: &GrantBook,
        lead: AccountId,
        grant_id: u64,
        target_total: i128,
        min_commitment: i128,
        max_members: u32,
        deadline_ledgers: u32,
        current_ledger: u32,
    ) -> (r: Result<(), ContractError>)
        requires
            old(self).wf(),
        ensures
            final(self).wf(),
            forall|g: u64, m: AccountId| #[trigger] final(self).member(g, m) == old(self).member(g, m),
            forall|g: u64, i: u32| #[trigger] final(self).payout(g, i) == old(self).payout(g, i),
            ({
                let args_ok = target_total > 0 && min_commitment > 0 && max_members > 0 && deadline_ledgers > 0;
                let exists = old(self).syndicates().contains_key(grant_id);
                let found = grants.grants().contains_key(grant_id);
                let g = grants.grants()[grant_id];
                &&& !args_ok ==> r == Err::<(), ContractError>(ContractError::InvalidInput)
                &&& args_ok && exists ==> r == Err::<(), ContractError>(ContractError::InvalidState)
                &&& args_ok && !exists && !found ==> r == Err::<(), ContractError>(ContractError::GrantNotFound)
                &&& args_ok && !exists && found && g.owner != lead ==> r == Err::<(), ContractError>(ContractError::Unauthorized)
                &&& r is Ok <==> args_ok && !exists && found && g.owner == lead
                &&& r is Err ==> final(self).syndicates() == old(self).syndicates() && forall|gg: u64| #[trigger] final(self).member_index(gg) == old(self).member_index(gg)
                &&& r is Ok ==> final(self).syndicates() == old(self).syndicates().insert(grant_id, SyndicateGrant {
                    grant_id,
                    lead,
                    target_total,
                    token: g.token,
                    status: SyndicateStatus::Forming,
                    member_count: 0,
                    min_commitment,
                    max_members,
                    formation_deadline: clamp_u32(current_ledger + deadline_ledgers) as u64,
                }) && forall|gg: u64| #[trigger] final(self).member_index(gg) == if gg == grant_id {
                    Seq::<AccountId>::empty()
                } else {
                    old(self).member_index(gg)
                }
            }),
    {
        if target_total <= 0 || min_commitment <= 0 || max_members == 0 || deadline_ledgers == 0 {
            return Err(ContractError::InvalidInput);
        }
        if self.syndicates.contains_key(&grant_id) {
            return Err(ContractError::InvalidState);
        }
        let (owner, token) = match grants.get(grant_id) {
            Some(g) => (g.owner, g.token),
            None => return Err(ContractError::GrantNotFound),
        };
        if owner != lead {
            return Err(ContractError::Unauthorized);
        }
        let syndicate = SyndicateGrant {
            grant_id,
            lead,
            target_total,
            token,
            status: SyndicateStatus::Forming,
            member_count: 0,
            min_commitment,
            max_members,
            formation_deadline: current_ledger.saturating_add(deadline_ledgers) as u64,
        };
        self.syndicates.insert(grant_id, syndicate);
        self.index.insert(grant_id, Vec::new());
        proof {
            assert forall|g: u64, m: AccountId| #[trigger] self.member(g, m) is Some implies self.syndicates().contains_key(g) by {
                assert(old(self).member(g, m) is Some);
            }
            assert forall|g: u64| #[trigger] self.member_index(g).no_duplicates() by {
                if g != grant_id {
                    assert(self.member_index(g) == old(self).member_index(g));
                } else {
                    assert(self.member_index(g) =~= Seq::<AccountId>::empty());
                }
            }
            assert forall|g: u64, m: AccountId| (self.member(g, m) is Some <==> #[trigger] self.member_index(g).contains(m)) by {
                assert(self.member(g, m) == old(self).member(g, m));
                if g != grant_id {
                    assert(self.member_index(g) == old(self).member_index(g));
                } else {
                    assert(self.member_index(g) =~= Seq::<AccountId>::empty());
                    if old(self).member(g, m) is Some {
                        assert(old(self).syndicates().contains_key(g));
                    }
                }
            }
        }
        Ok(())
    }

    /// A member commits `amount` while the syndicate is forming, depositing it into the
    /// grant's escrow; commitments of the same member add up.
    pub fn join_syndicate(
        &mut self,
        escrow: &mut EscrowBook,
        grants: &mut GrantBook,
        member: AccountId,
        grant_id: u64,
        amount: i128,
        current_ledger: u32,
        now: u64,
        transfers: &mut Vec<Transfer>,
    ) -> (r: Result<(), ContractError>)
        requires
            old(escrow).wf(),
            old(self).wf(),
        ensures
            final(escrow).wf(),
            final(self).wf(),
            r is Ok ==> final(self).member_index(grant_id).contains(member),
            final(grants).counter() == old(grants).counter(),
            forall|g: u64, i: u32| #[trigger] final(self).payout(g, i) == old(self).payout(g, i),
            ({
                let found = old(self).syndicates().contains_key(grant_id);
                let s = old(self).syndicates()[grant_id];
                let prior = old(self).member(grant_id, member);
                let committed = match prior { Some(p) => p.committed_amount as int, None => 0 } + amount;
                let deposited = match prior { Some(p) => p.deposited_amount as int, None => 0 } + amount;
                let deposit_ok = old(escrow).accounts().contains_key(grant_id) && old(grants).grants().contains_key(grant_id)
                    && spec_deposit_fits(old(escrow), old(grants), grant_id, member, amount as int);
                let pre_ok = amount > 0 && found && s.status == SyndicateStatus::Forming && current_ledger
                    <= s.formation_deadline && amount >= s.min_commitment && !(prior is None && s.member_count >= s.max_members);
                &&& amount <= 0 ==> r == Err::<(), ContractError>(ContractError::ZeroAmount)
                &&& amount > 0 && !found ==> r == Err::<(), ContractError>(ContractError::GrantNotFound)
                &&& amount > 0 && found && s.status != SyndicateStatus::Forming ==> r == Err::<(), ContractError>(
                    ContractError::InvalidState)
                &&& amount > 0 && found && s.status == SyndicateStatus::Forming && current_ledger > s.formation_deadline ==> r
                    == Err::<(), ContractError>(ContractError::DeadlinePassed)
                &&& amount > 0 && found && s.status == SyndicateStatus::Forming && current_ledger <= s.formation_deadline
                    && amount < s.min_commitment ==> r == Err::<(), ContractError>(ContractError::InvalidInput)
                &&& amount > 0 && found && s.status == SyndicateStatus::Forming && current_ledger <= s.formation_deadline
                    && amount >= s.min_commitment && prior is None && s.member_count >= s.max_members ==> r == Err::<
                    (),
                    ContractError,
                >(ContractError::InvalidInput)
                &&& pre_ok && !old(escrow).accounts().contains_key(grant_id) ==> r == Err::<(), ContractError>(
                    ContractError::EscrowNotFound)
                &&& pre_ok && old(escrow).accounts().contains_key(grant_id) && !spec_escrow_deposit_fits(old(escrow), grant_id,
                    member, amount as int) ==> r == Err::<(), ContractError>(ContractError::InvalidInput)
                &&& pre_ok && old(escrow).accounts().contains_key(grant_id) && spec_escrow_deposit_fits(old(escrow), grant_id,
                    member, amount as int) && !old(grants).grants().contains_key(grant_id) ==> r == Err::<(), ContractError>(
                    ContractError::GrantNotFound)
                &&& pre_ok && deposit_ok && !(committed <= i128::MAX && deposited <= i128::MAX) ==> r == Err::<(), ContractError>(
                    ContractError::InvalidInput)
                &&& r is Ok <==> pre_ok && deposit_ok && committed <= i128::MAX && deposited <= i128::MAX
                &&& r is Err ==> final(self).syndicates() == old(self).syndicates() && (forall|g: u64, m: AccountId|
                    #[trigger] final(self).member(g, m) == old(self).member(g, m)) && (forall|g: u64| #[trigger] final(self).member_index(g) == old(self).member_index(g)) && final(escrow).accounts() == old(escrow).accounts()
                    && final(grants).grants() == old(grants).grants() && final(transfers)@ == old(transfers)@
                &&& r is Ok ==> {
                    &&& spec_deposited(old(escrow), final(escrow), old(grants), final(grants), old(transfers)@, final(transfers)@, grant_id, member, amount, now)
                    &&& forall|g: u64, m: AccountId| #[trigger] final(self).member(g, m) == if g == grant_id && m == member {
                        Some(SyndicateMember {
                            member,
                            committed_amount: committed as i128,
                            deposited_amount: deposited as i128,
                            share_bps: spec_share_bps(committed, s.target_total as int),
                            is_lead: member == s.lead,
                            joined_at: match prior { Some(p) => p.joined_at, None => now },
                        })
                    } else {
                        old(self).member(g, m)
                    }
                    &&& prior is None ==> final(self).syndicates() == old(self).syndicates().insert(grant_id, SyndicateGrant {
                        member_count: (s.member_count + 1) as u32,
                        ..s
                    }) && forall|g: u64| #[trigger] final(self).member_index(g) == if g == grant_id {
                        old(self).member_index(grant_id).push(member)
                    } else {
                        old(self).member_index(g)
                    }
                    &&& prior is Some ==> final(self).syndicates() == old(self).syndicates() && forall|g: u64| #[trigger] final(self).member_index(g) == old(self).member_index(g)
                }
            }),
    {
        if amount <= 0 {
            return Err(ContractError::ZeroAmount);
        }
        let s = match self.syndicates.get(&grant_id) {
            Some(s) => *s,
            None => return Err(ContractError::GrantNotFound),
        };
        if s.status != SyndicateStatus::Forming {
            return Err(ContractError::InvalidState);
        }
        if current_ledger as u64 > s.formation_deadline {
            return Err(ContractError::DeadlinePassed);
        }
        if amount < s.min_commitment {
            return Err(ContractError::InvalidInput);
        }
        let prior = self.get_member_record(grant_id, member);
        if prior.is_none() && s.member_count >= s.max_members {
            return Err(ContractError::InvalidInput);
        }
        crate::escrow::deposit_check(escrow, grants, grant_id, member, amount)?;
        let prior_committed: i128 = match prior {
            Some(p) => p.committed_amount,
            None => 0,
        };
        let prior_deposited: i128 = match prior {
            Some(p) => p.deposited_amount,
            None => 0,
        };
        let committed_amount = match prior_committed.checked_add(amount) {
            Some(c) => c,
            None => return Err(ContractError::InvalidInput),
        };
        let deposited_amount = match prior_deposited.checked_add(amount) {
            Some(d) => d,
            None => return Err(ContractError::InvalidInput),
        };
        let r = crate::escrow::deposit(escrow, grants, grant_id, member, amount, now, transfers);
        assert(r is Ok);
        let scaled = crate::arith::sat_mul_i128(committed_amount, 10_000);
        let share = if s.target_total > 0 {
            match scaled.checked_div(s.target_total) {
                Some(q) => q,
                None => 0,
            }
        } else {
            0
        };
        let share_bps = share as u32;
        let joined_at = match prior {
            Some(p) => p.joined_at,
            None => now,
        };
        let record = SyndicateMember {
            member,
            committed_amount,
            deposited_amount,
            share_bps,
            is_lead: member == s.lead,
            joined_at,
        };
        let ghost pre_members = self.members@;
        self.members.insert(pair_key(grant_id, member), record);
        proof {
            assert forall|g: u64, m: AccountId| #[trigger] self.member(g, m) == if g == grant_id && m == member {
                Some(record)
            } else {
                old(self).member(g, m)
            } by {
                lemma_pair_key_injective(g, m, grant_id, member);
            }
        }
        if prior.is_none() {
            let mut index = self.get_index(grant_id);
            let ghost i0 = index@;
            proof {
                assert(!i0.contains(member));
            }
            index.push(member);
            self.index.insert(grant_id, index);
            self.syndicates.insert(grant_id, SyndicateGrant { member_count: s.member_count + 1, ..s });
            proof {
                assert(self.member_index(grant_id) == i0.push(member));
                assert(self.member_index(grant_id)[i0.len() as int] == member);
                assert forall|g: u64| #[trigger] self.member_index(g).no_duplicates() by {
                    if g != grant_id {
                        assert(self.member_index(g) == old(self).member_index(g));
                    } else {
                        assert forall|a: int, b: int| 0 <= a < b < self.member_index(g).len() implies self.member_index(g)[a]
                            != self.member_index(g)[b] by {
                            if b == i0.len() {
                                assert(i0.contains(i0[a]));
                            } else {
                                assert(old(self).member_index(g).no_duplicates());
                            }
                        }
                    }
                }
                assert forall|g: u64, m: AccountId| (self.member(g, m) is Some <==> #[trigger] self.member_index(g).contains(m)) by {
                    if g != grant_id {
                        assert(self.member_index(g) == old(self).member_index(g));
                    } else if m != member {
                        if i0.contains(m) {
                            let k = choose|k: int| 0 <= k < i0.len() && i0[k] == m;
                            assert(self.member_index(g)[k] == m);
                        }
                        if self.member_index(g).contains(m) {
                            let k = choose|k: int| 0 <= k < self.member_index(g).len() && self.member_index(g)[k] == m;
                            assert(i0[k] == m);
                        }
                    }
                }
                assert forall|g: u64, m: AccountId| #[trigger] self.member(g, m) is Some implies self.syndicates().contains_key(g) by {
                    if !(g == grant_id && m == member) {
                        assert(old(self).member(g, m) is Some);
                    }
                }
            }
        } else {
            proof {
                assert(old(self).member(grant_id, member) is Some);
                assert forall|g: u64, m: AccountId| (self.member(g, m) is Some <==> #[trigger] self.member_index(g).contains(m)) by {
                    assert(self.member_index(g) == old(self).member_index(g));
                }
                assert forall|g: u64, m: AccountId| #[trigger] self.member(g, m) is Some implies self.syndicates().contains_key(g) by {
                    if !(g == grant_id && m == member) {
                        assert(old(self).member(g, m) is Some);
                    }
                }
                assert forall|g: u64| #[trigger] self.member_index(g).no_duplicates() by {
                    assert(self.member_index(g) == old(self).member_index(g));
                }
            }
        }
        Ok(())
    }

    /// The lead closes formation once the members' deposits reach the target, activating
    /// the syndicate.
    pub fn close_syndicate(&mut self, lead: AccountId, grant_id: u64) -> (r: Result<(), ContractError>)
        requires
            old(self).wf(),
        ensures
            final(self).wf(),
            forall|g: u64, m: AccountId| #[trigger] final(self).member(g, m) == old(self).member(g, m),
            forall|g: u64| #[trigger] final(self).member_index(g) == old(self).member_index(g),
            forall|g: u64, i: u32| #[trigger] final(self).payout(g, i) == old(self).payout(g, i),
            ({
                let found = old(self).syndicates().contains_key(grant_id);
                let s = old(self).syndicates()[grant_id];
                let deposited = spec_total_deposited(old(self).member_records(grant_id));
                &&& !found ==> r == Err::<(), ContractError>(ContractError::GrantNotFound)
                &&& found && s.lead != lead ==> r == Err::<(), ContractError>(ContractError::Unauthorized)
                &&& found && s.lead == lead && s.status != SyndicateStatus::Forming ==> r == Err::<(), ContractError>(
                    ContractError::InvalidState)
                &&& found && s.lead == lead && s.status == SyndicateStatus::Forming && deposited < s.target_total ==> r == Err::<
                    (),
                    ContractError,
                >(ContractError::InvalidInput)
                &&& r is Ok <==> found && s.lead == lead && s.status == SyndicateStatus::Forming && deposited >= s.target_total
                &&& r is Err ==> final(self).syndicates() == old(self).syndicates()
                &&& r is Ok ==> final(self).syndicates() == old(self).syndicates().insert(grant_id, SyndicateGrant {
                    status: SyndicateStatus::Active,
                    ..s
                })
            }),
    {
        let s = match self.syndicates.get(&grant_id) {
            Some(s) => *s,
            None => return Err(ContractError::GrantNotFound),
        };
        if s.lead != lead {
            return Err(ContractError::Unauthorized);
        }
        if s.status != SyndicateStatus::Forming {
            return Err(ContractError::InvalidState);
        }
        let deposited = self.total_deposited(grant_id);
        if deposited < s.target_total {
            return Err(ContractError::InvalidInput);
        }
        self.syndicates.insert(grant_id, SyndicateGrant { status: SyndicateStatus::Active, ..s });
        proof {
            Self::lemma_wf_frame(old(self), self);
        }
        Ok(())
    }

    /// The records of the indexed members of a grant's syndicate that have one, in order.
    pub open spec fn member_records(&self, grant_id: u64) -> Seq<SyndicateMember> {
        spec_records(self.member_index(grant_id), |m: AccountId| self.member(grant_id, m))
    }

    /// The records of the indexed members of a grant's syndicate.
    pub fn get_members(&self, grant_id: u64) -> (r: Vec<SyndicateMember>)
        ensures
            r@ == self.member_records(grant_id),
    {
        let index = self.get_index(grant_id);
        let mut members: Vec<SyndicateMember> = Vec::new();
        let mut i: usize = 0;
        while i < index.len()
            invariant
                i <= index@.len(),
                index@ == self.member_index(grant_id),
                members@ == spec_records(index@.take(i as int), |m: AccountId| self.member(grant_id, m)),
            decreases index@.len() - i,
        {
            proof {
                assert(index@.take(i + 1).drop_last() == index@.take(i as int));
            }
            match self.get_member_record(grant_id, index[i]) {
                Some(m) => members.push(m),
                None => {},
            }
            i += 1;
        }
        proof {
            assert(index@.take(index@.len() as int) == index@);
        }
        members
    }

    /// Saturating total of the deposits of a grant's syndicate members.
    pub fn total_deposited(&self, grant_id: u64) -> (r: i128)
        ensures
            r == spec_total_deposited(self.member_records(grant_id)),
    {
        let members = self.get_members(grant_id);
        let mut total: i128 = 0;
        let mut i: usize = 0;
        while i < members.len()
            invariant
                i <= members@.len(),
                total == spec_total_deposited(members@.take(i as int)),
            decreases members@.len() - i,
        {
            proof {
                assert(members@.take(i + 1).drop_last() == members@.take(i as int));
            }
            total = crate::arith::sat_add_i128(total, members[i].deposited_amount);
            i += 1;
        }
        proof {
            assert(members@.take(members@.len() as int) == members@);
        }
        total
    }

    /// Record how a milestone payout of an active syndicate splits across its members by
    /// their shares (`payout * share_bps / 10000`, saturating, truncated).
    pub fn record_payout_allocation(&mut self, grant_id: u64, milestone_idx: u32, payout: i128) -> (r: Result<(), ContractError>)
        ensures
            old(self).wf() ==> final(self).wf(),
            final(self).syndicates() == old(self).syndicates(),
            forall|g: u64, m: AccountId| #[trigger] final(self).member(g, m) == old(self).member(g, m),
            forall|g: u64| #[trigger] final(self).member_index(g) == old(self).member_index(g),
            ({
                let found = old(self).syndicates().contains_key(grant_id);
                let s = old(self).syndicates()[grant_id];
                &&& payout <= 0 ==> r == Err::<(), ContractError>(ContractError::ZeroAmount)
                &&& payout > 0 && !found ==> r == Err::<(), ContractError>(ContractError::GrantNotFound)
                &&& payout > 0 && found && s.status != SyndicateStatus::Active ==> r == Err::<(), ContractError>(
                    ContractError::InvalidState)
                &&& r is Ok <==> payout > 0 && found && s.status == SyndicateStatus::Active
                &&& r is Err ==> forall|g: u64, i: u32| #[trigger] final(self).payout(g, i) == old(self).payout(g, i)
                &&& r is Ok ==> forall|g: u64, i: u32| #[trigger] final(self).payout(g, i) == if g == grant_id && i
                    == milestone_idx {
                    Some(old(self).member_records(grant_id).map_values(|m: SyndicateMember| spec_allocation_of(payout, m)))
                } else {
                    old(self).payout(g, i)
                }
            }),
    {
        if payout <= 0 {
            return Err(ContractError::ZeroAmount);
        }
        let s = match self.syndicates.get(&grant_id) {
            Some(s) => *s,
            None => return Err(ContractError::GrantNotFound),
        };
        if s.status != SyndicateStatus::Active {
            return Err(ContractError::InvalidState);
        }
        let members = self.get_members(grant_id);
        let mut allocations: Vec<(AccountId, i128)> = Vec::new();
        let mut i: usize = 0;
        while i < members.len()
            invariant
                i <= members@.len(),
                allocations@ == members@.take(i as int).map_values(|m: SyndicateMember| spec_allocation_of(payout, m)),
            decreases members@.len() - i,
        {
            let m = members[i];
            let scaled = crate::arith::sat_mul_i128(payout, m.share_bps as i128);
            let amount = match scaled.checked_div(10_000) {
                Some(q) => q,
                None => 0,
            };
            allocations.push((m.member, amount));
            proof {
                assert(members@.take(i + 1) == members@.take(i as int).push(m));
                assert(members@.take(i + 1).map_values(|m: SyndicateMember| spec_allocation_of(payout, m)) =~= members@.take(i as int).map_values(|m: SyndicateMember| spec_allocation_of(payout, m)).push(spec_allocation_of(payout, m)));
                assert(scaled == clamp_i128(payout * m.share_bps));
                assert(amount == div_trunc_signed(scaled as int, 10_000));
                assert(amount == spec_allocation_of(payout, m).1);
            }
            i += 1;
        }
        proof {
            assert(members@.take(members@.len() as int) == members@);
        }
        let ghost a = allocations@;
        self.payouts.insert(pair_key(grant_id, milestone_idx as u64), allocations);
        proof {
            assert forall|g: u64, i: u32| #[trigger] self.payout(g, i) == if g == grant_id && i == milestone_idx {
                Some(a)
            } else {
                old(self).payout(g, i)
            } by {
                lemma_pair_key_injective(g, i as u64, grant_id, milestone_idx as u64);
            }
            if old(self).wf() {
                Self::lemma_wf_frame(old(self), self);
            }
        }
        Ok(())
    }

    /// After an unclosed formation expires, a member takes back its deposit (the smaller of
    /// the escrow refund and what it deposited is reported) and leaves the syndicate.
    pub fn withdraw_syndicate(
        &mut self,
        escrow: &mut EscrowBook,
        grants: &mut GrantBook,
        member: AccountId,
        grant_id: u64,
        current_ledger: u32,
        transfers: &mut Vec<Transfer>,
    ) -> (r: Result<i128, ContractError>)
        requires
            old(escrow).wf(),
            old(self).wf(),
        ensures
            final(escrow).wf(),
            final(self).wf(),
            final(grants).counter() == old(grants).counter(),
            forall|g: u64, i: u32| #[trigger] final(self).payout(g, i) == old(self).payout(g, i),
            ({
                let found = old(self).syndicates().contains_key(grant_id);
                let s = old(self).syndicates()[grant_id];
                let rec = old(self).member(grant_id, member);
                let refund = spec_refund_outcome(old(escrow), grant_id, member);
                &&& !found ==> r == Err::<i128, ContractError>(ContractError::GrantNotFound)
                &&& found && s.status != SyndicateStatus::Forming ==> r == Err::<i128, ContractError>(ContractError::InvalidState)
                &&& found && s.status == SyndicateStatus::Forming && current_ledger <= s.formation_deadline ==> r == Err::<
                    i128,
                    ContractError,
                >(ContractError::InvalidState)
                &&& found && s.status == SyndicateStatus::Forming && current_ledger > s.formation_deadline && rec is None ==> r
                    == Err::<i128, ContractError>(ContractError::NoRefundableAmount)
                &&& found && s.status == SyndicateStatus::Forming && current_ledger > s.formation_deadline && rec is Some
                    && refund is Err ==> r == refund
                &&& r is Ok <==> found && s.status == SyndicateStatus::Forming && current_ledger > s.formation_deadline && rec is Some
                    && refund is Ok
                &&& r is Err ==> final(self).syndicates() == old(self).syndicates() && (forall|g: u64, m: AccountId|
                    #[trigger] final(self).member(g, m) == old(self).member(g, m)) && (forall|g: u64| #[trigger] final(self).member_index(g) == old(self).member_index(g)) && final(escrow).accounts() == old(escrow).accounts()
                    && final(grants).grants() == old(grants).grants() && final(transfers)@ == old(transfers)@
                &&& r is Ok ==> {
                    &&& r == Ok::<i128, ContractError>(min_int(refund->Ok_0 as int, rec->0.deposited_amount as int) as i128)
                    &&& spec_refunded(old(escrow), final(escrow), old(grants), final(grants), old(transfers)@, final(transfers)@, grant_id, member)
                    &&& forall|g: u64, m: AccountId| #[trigger] final(self).member(g, m) == if g == grant_id && m == member {
                        None
                    } else {
                        old(self).member(g, m)
                    }
                    &&& forall|g: u64| #[trigger] final(self).member_index(g) == if g == grant_id {
                        crate::arbitration_pool::spec_without(old(self).member_index(grant_id), member)
                    } else {
                        old(self).member_index(g)
                    }
                    &&& final(self).syndicates() == old(self).syndicates().insert(grant_id, SyndicateGrant {
                        member_count: clamp_u32(s.member_count - 1) as u32,
                        ..s
                    })
                }
            }),
    {
        let s = match self.syndicates.get(&grant_id) {
            Some(s) => *s,
            None => return Err(ContractError::GrantNotFound),
        };
        if s.status != SyndicateStatus::Forming {
            return Err(ContractError::InvalidState);
        }
        if current_ledger as u64 <= s.formation_deadline {
            return Err(ContractError::InvalidState);
        }
        let record = match self.get_member_record(grant_id, member) {
            Some(m) => m,
            None => return Err(ContractError::NoRefundableAmount),
        };
        let amount = crate::escrow::refund(escrow, grants, grant_id, member, transfers)?;
        self.members.remove(&pair_key(grant_id, member));
        proof {
            assert forall|g: u64, m: AccountId| #[trigger] self.member(g, m) == if g == grant_id && m == member {
                None
            } else {
                old(self).member(g, m)
            } by {
                lemma_pair_key_injective(g, m, grant_id, member);
            }
        }
        let index = self.get_index(grant_id);
        let updated = crate::arbitration_pool::remove_account(&index, member);
        proof {
            crate::arbitration_pool::lemma_without(index@, member);
        }
        self.index.insert(grant_id, updated);
        self.syndicates.insert(grant_id, SyndicateGrant { member_count: s.member_count.saturating_sub(1), ..s });
        proof {
            let w = crate::arbitration_pool::spec_without(index@, member);
            assert(self.member_index(grant_id) == w);
            assert(old(self).member_index(grant_id).no_duplicates());
            assert forall|g: u64| #[trigger] self.member_index(g).no_duplicates() by {
                if g != grant_id {
                    assert(self.member_index(g) == old(self).member_index(g));
                }
            }
            assert forall|g: u64, m: AccountId| (self.member(g, m) is Some <==> #[trigger] self.member_index(g).contains(m)) by {
                if g != grant_id {
                    assert(self.member_index(g) == old(self).member_index(g));
                } else if m != member {
                    assert(w.contains(m) <==> index@.contains(m));
                    assert(old(self).member(g, m) is Some <==> old(self).member_index(g).contains(m));
                }
            }
            assert forall|g: u64, m: AccountId| #[trigger] self.member(g, m) is Some implies self.syndicates().contains_key(g) by {
                assert(old(self).member(g, m) is Some);
            }
        }
        let out = if amount < record.deposited_amount { amount } else { record.deposited_amount };
        Ok(out)
    }

    /// A member's record in a grant's syndicate.
    pub fn get_member(&self, grant_id: u64, member: AccountId) -> (r: Option<SyndicateMember>)
        ensures
            r == self.member(grant_id, member),
    {
        self.get_member_record(grant_id, member)
    }

    /// A grant's syndicate.
    pub fn get_syndicate(&self, grant_id: u64) -> (r: Option<SyndicateGrant>)
        ensures
            r == (if self.syndicates().contains_key(grant_id) { Some(self.syndicates()[grant_id]) } else { None }),
    {
        match self.syndicates.get(&grant_id) {
            Some(s) => Some(*s),
            None => None,
        }
    }
}

/// The records found by `lookup` for the accounts of `index`, in order.
pub open spec fn spec_records(index: Seq<AccountId>, lookup: spec_fn(AccountId) -> Option<SyndicateMember>) -> Seq<
    SyndicateMember,
>
    decreases index.len(),
{
    if index.len() == 0 {
        Seq::empty()
    } else {
        let prev = spec_records(index.drop_last(), lookup);
        match lookup(index.last()) {
            Some(m) => prev.push(m),
            None => prev,
        }
    }
}

/// A member's part of a payout: `payout * share_bps / 10000` (saturating, truncated).
pub open spec fn spec_allocation_of(payout: i128, m: SyndicateMember) -> (AccountId, i128) {
    (m.member, div_trunc_signed(clamp_i128(payout * m.share_bps), 10_000) as i128)
}

/// Saturating total of the deposits of `members`.
pub open spec fn spec_total_deposited(members: Seq<SyndicateMember>) -> int
    decreases members.len(),
{
    if members.len() == 0 {
        0
    } else {
        clamp_i128(spec_total_deposited(members.drop_last()) + members.last().deposited_amount)
    }
}

} // verus!
