use vstd::prelude::*;
use std::collections::HashMap;

use crate::compliance::ComplianceBook;
use crate::constants::{MAX_BIO_LEN, MAX_TITLE_LEN};
use crate::errors::ContractError;
use crate::batch::spec_cancel_allowed;
use crate::escrow::{refund_all, spec_nets, spec_refund_all_fits, spec_refunded_all, EscrowAccount, EscrowBook};
use crate::grants::{Grant, GrantBook, GrantView};
use crate::keys::{lemma_pair_key_injective, pair_key, spec_pair_key, Transfer};
use crate::metrics::{spec_increment, spec_refund_update, MetricField, MetricsBook};
use crate::milestones::MilestoneBook;
use crate::types::{
    AccountId, ContributorProfile, EscrowLifecycleState, EscrowMode, EscrowState, GrantStatus, ProtocolConfig,
};

verus! {

broadcast use vstd::std_specs::hash::group_hash_axioms;

/// Length in bytes of the UTF-8 encoding of `s`.
pub open spec fn byte_len(s: Seq<char>) -> usize {
    vstd::utf8::encode_utf8(s).len() as usize
}

fn str_byte_len(s: &String) -> (n: usize)
    ensures
        n == byte_len(s@),
{
    let t = s.as_str();
    t.len()
}

/// The escrow state a grant starts in.
pub open spec fn spec_initial_escrow_state(mode: EscrowMode) -> EscrowState {
    EscrowState { mode, lifecycle: EscrowLifecycleState::Funding, quorum_ready: false, approvals_count: 0 }
}

/// Why creating a grant with these figures is refused under `cfg`, if it is.
pub open spec fn spec_grant_create_check(
    cfg: ProtocolConfig,
    total_amount: i128,
    milestone_amount: i128,
    num_milestones: u32,
    reviewer_count: nat,
) -> Result<(), ContractError> {
    if total_amount <= 0 || milestone_amount <= 0 {
        Err(ContractError::ZeroAmount)
    } else if num_milestones == 0 || num_milestones > cfg.max_milestones_per_grant {
        Err(ContractError::InvalidInput)
    } else if reviewer_count > cfg.max_reviewers {
        Err(ContractError::ReviewerLimitExceeded)
    } else if milestone_amount * num_milestones > i128::MAX {
        Err(ContractError::InvalidInput)
    } else if total_amount < milestone_amount * num_milestones {
        Err(ContractError::InvalidInput)
    } else {
        Ok(())
    }
}

/// Why registering a contributor profile is refused, if it is.
pub open spec fn spec_register_check(name: Seq<char>, bio: Seq<char>, registered: bool) -> Result<(), ContractError> {
    if name.len() == 0 || byte_len(name) > MAX_TITLE_LEN {
        Err(ContractError::InvalidInput)
    } else if byte_len(bio) > MAX_BIO_LEN {
        Err(ContractError::InvalidInput)
    } else if registered {
        Err(ContractError::AlreadyRegistered)
    } else {
        Ok(())
    }
}

/// The grants protocol: grants and their escrows, milestones, metrics, compliance,
/// contributors and assessors, and the release state of each grant.
pub struct StellarGrantsContract {
    pub grants: GrantBook,
    pub escrow: EscrowBook,
    pub milestones: MilestoneBook,
    pub metrics: MetricsBook,
    pub compliance: ComplianceBook,
    pub config: ProtocolConfig,
    pub global_admin: Option<AccountId>,
    /// How each grant's funds are released.
    pub escrow_states: HashMap<u64, EscrowState>,
    /// The signers whose approval a high-security release needs, by grant.
    pub multisig_signers: HashMap<u64, Vec<AccountId>>,
    /// The (grant, signer) pairs that approved a release.
    pub release_approvals: HashMap<u128, bool>,
    pub contributors: HashMap<AccountId, ContributorProfile>,
    /// The (grant, milestone) pairs whose completion has been credited to the owner's profile.
    pub reputation_applied: HashMap<u128, bool>,
    /// Each assessor's voting weight (1 until set).
    pub reviewer_reputation: HashMap<AccountId, u32>,
    /// The stake of each (grant, assessor) pair.
    pub reviewer_stakes: HashMap<u128, i128>,
    pub min_reviewer_stake: i128,
    pub treasury: Option<AccountId>,
}

impl StellarGrantsContract {
    /// The signers of a grant's high-security release (none until set).
    pub open spec fn signers(&self, grant_id: u64) -> Seq<AccountId> {
        if self.multisig_signers@.contains_key(grant_id) {
            self.multisig_signers@[grant_id]@
        } else {
            Seq::empty()
        }
    }

    /// Whether `signer` approved the release of `grant_id`.
    pub open spec fn approved_release(&self, grant_id: u64, signer: AccountId) -> bool {
        let k = spec_pair_key(grant_id, signer);
        self.release_approvals@.contains_key(k) && self.release_approvals@[k]
    }

    /// Every grant's id is one the counter has handed out.
    pub open spec fn ids_wf(&self) -> bool {
        forall|k: u64| #[trigger] self.grants.grants().contains_key(k) ==> 1 <= k <= self.grants.counter()
    }

    /// A assessor's voting weight.
    pub open spec fn reputation_of(&self, reviewer: AccountId) -> u32 {
        if self.reviewer_reputation@.contains_key(reviewer) {
            self.reviewer_reputation@[reviewer]
        } else {
            1
        }
    }

    /// The stake a assessor holds on a grant.
    pub open spec fn stake_of(&self, grant_id: u64, reviewer: AccountId) -> i128 {
        let k = spec_pair_key(grant_id, reviewer);
        if self.reviewer_stakes@.contains_key(k) {
            self.reviewer_stakes@[k]
        } else {
            0
        }
    }

    /// A protocol with no grants, under `config`.
    pub fn new(config: ProtocolConfig) -> (c: StellarGrantsContract)
        ensures
            c.grants.grants() == Map::<u64, Grant>::empty(),
            c.grants.counter() == 0,
            c.escrow.wf(),
            c.escrow.accounts() == Map::<u64, EscrowAccount>::empty(),
            c.config == config,
            c.global_admin is None,
            c.metrics.stored() is None,
            c.escrow_states@ == Map::<u64, EscrowState>::empty(),
            c.contributors@ == Map::<AccountId, ContributorProfile>::empty(),
            c.min_reviewer_stake == 0,
            c.treasury is None,
    {
        StellarGrantsContract {
            grants: GrantBook::new(),
            escrow: EscrowBook::new(),
            milestones: MilestoneBook::new(),
            metrics: MetricsBook::new(),
            compliance: ComplianceBook::new(),
            config,
            global_admin: None,
            escrow_states: HashMap::new(),
            multisig_signers: HashMap::new(),
            release_approvals: HashMap::new(),
            contributors: HashMap::new(),
            reputation_applied: HashMap::new(),
            reviewer_reputation: HashMap::new(),
            reviewer_stakes: HashMap::new(),
            min_reviewer_stake: 0,
            treasury: None,
        }
    }

    /// Set the global admin: anyone may while there is none, afterwards only the admin.
    pub fn set_global_admin(&mut self, caller: AccountId, new_admin: AccountId) -> (r: Result<(), ContractError>)
        ensures
            (old(self).global_admin is None || old(self).global_admin == Some(caller)) ==> r is Ok
                && final(self).global_admin == Some(new_admin),
            !(old(self).global_admin is None || old(self).global_admin == Some(caller)) ==> r == Err::<(), ContractError>(
                ContractError::Unauthorized) && final(self).global_admin == old(self).global_admin,
            final(self).grants == old(self).grants,
            final(self).escrow == old(self).escrow,
            final(self).metrics == old(self).metrics,
            final(self).config == old(self).config,
    {
        match self.global_admin {
            Some(a) => {
                if a != caller {
                    return Err(ContractError::Unauthorized);
                }
            },
            None => {},
        }
        self.global_admin = Some(new_admin);
        Ok(())
    }

    /// The effect of creating grant `id` with these parameters at `now`: the grant is
    /// recorded (active, nothing funded or paid), its escrow is opened empty, its release
    /// state starts in standard mode without signers, and the creation is counted.
    pub open spec fn spec_grant_created(
        &self,
        new: &Self,
        id: u64,
        owner: AccountId,
        title: Seq<char>,
        description: Seq<char>,
        token: AccountId,
        total_amount: i128,
        milestone_amount: i128,
        num_milestones: u32,
        reviewers: Seq<AccountId>,
        now: u64,
    ) -> bool {
        &&& new.grants.counter() == id
        &&& self.ids_wf() ==> new.ids_wf()
        &&& new.grants.views() == self.grants.views().insert(id, GrantView {
            id,
            owner,
            title,
            description,
            token,
            status: GrantStatus::Active,
            total_amount,
            milestone_amount,
            reviewers,
            total_milestones: num_milestones,
            milestones_paid_out: 0,
            escrow_balance: 0,
            funders: Seq::empty(),
            reason: None,
            timestamp: now,
            require_compliance: None,
        })
        &&& new.escrow.accounts() == self.escrow.accounts().insert(id, EscrowAccount {
            owner,
            token,
            balance: 0,
            total_deposited: 0,
            total_released: 0,
            locked: false,
        })
        &&& forall|g: u64, f: AccountId| #[trigger] new.escrow.ledger(g, f) == self.escrow.ledger(g, f)
        &&& forall|g: u64| #[trigger] new.escrow.funder_list(g) == self.escrow.funder_list(g)
        &&& self.escrow.wf() ==> new.escrow.wf()
        &&& new.escrow_states@ == self.escrow_states@.insert(id, spec_initial_escrow_state(
            EscrowMode::Standard))
        &&& forall|g: u64| #[trigger] new.signers(g) == if g == id { Seq::empty() } else { self.signers(g) }
        &&& new.metrics.stored() == Some(spec_increment(
            spec_increment(self.metrics.current(now), MetricField::GrantsCreated, 1, now),
            MetricField::GrantsActive,
            1,
            now,
        ))
        &&& forall|t: AccountId| #[trigger] new.metrics.token_metric(t) == self.metrics.token_metric(t)
        &&& new.milestones == self.milestones
        &&& new.compliance == self.compliance
        &&& new.config == self.config
        &&& new.global_admin == self.global_admin
        &&& new.release_approvals == self.release_approvals
        &&& new.contributors == self.contributors
        &&& new.reputation_applied == self.reputation_applied
        &&& new.reviewer_reputation == self.reviewer_reputation
        &&& new.reviewer_stakes == self.reviewer_stakes
        &&& new.min_reviewer_stake == self.min_reviewer_stake
        &&& new.treasury == self.treasury
    }

    /// Create a milestone grant owned by `owner`, paid in `token`, with its escrow opened in
    /// standard mode. Returns the new grant's id.
    pub fn grant_create(
        &mut self,
        owner: AccountId,
        title: String,
        description: String,
        token: AccountId,
        total_amount: i128,
        milestone_amount: i128,
        num_milestones: u32,
        reviewers: Vec<AccountId>,
        now: u64,
    ) -> (r: Result<u64, ContractError>)
        requires
            old(self).grants.counter() < u64::MAX,
        ensures
            ({
                let check = spec_grant_create_check(old(self).config, total_amount, milestone_amount, num_milestones,
                    reviewers@.len());
                let id = (old(self).grants.counter() + 1) as u64;
                &&& check is Err ==> r == Err::<u64, ContractError>(check->Err_0)
                &&& check is Ok && old(self).escrow.accounts().contains_key(id) ==> r == Err::<u64, ContractError>(
                    ContractError::EscrowAlreadyOpen)
                &&& r is Ok <==> check is Ok && !old(self).escrow.accounts().contains_key(id)
                &&& r is Err ==> *final(self) == *old(self)
                &&& r is Ok ==> r->Ok_0 == id && old(self).spec_grant_created(
                    final(self),
                    id,
                    owner,
                    title@,
                    description@,
                    token,
                    total_amount,
                    milestone_amount,
                    num_milestones,
                    reviewers@,
                    now,
                )
            }),
    {
        if total_amount <= 0 || milestone_amount <= 0 {
            return Err(ContractError::ZeroAmount);
        }
        if num_milestones == 0 || num_milestones > self.config.max_milestones_per_grant {
            return Err(ContractError::InvalidInput);
        }
        if reviewers.len() > self.config.max_reviewers as usize {
            return Err(ContractError::ReviewerLimitExceeded);
        }
        let total_required = match milestone_amount.checked_mul(num_milestones as i128) {
            Some(t) => t,
            None => return Err(ContractError::InvalidInput),
        };
        if total_amount < total_required {
            return Err(ContractError::InvalidInput);
        }
        let next = self.grants.peek_next_id();
        if self.escrow.get_account(next).is_ok() {
            return Err(ContractError::EscrowAlreadyOpen);
        }
        let grant_id = self.grants.next_id();
        let grant = Grant {
            id: grant_id,
            owner,
            title,
            description,
            token,
            status: GrantStatus::Active,
            total_amount,
            milestone_amount,
            reviewers,
            total_milestones: num_milestones,
            milestones_paid_out: 0,
            escrow_balance: 0,
            funders: Vec::new(),
            reason: None,
            timestamp: now,
            require_compliance: None,
        };
        self.grants.set(grant_id, grant);
        self.escrow_states.insert(
            grant_id,
            EscrowState {
                mode: EscrowMode::Standard,
                lifecycle: EscrowLifecycleState::Funding,
                quorum_ready: false,
                approvals_count: 0,
            },
        );
        self.multisig_signers.insert(grant_id, Vec::new());
        let opened = self.escrow.open(grant_id, owner, token);
        self.metrics.increment(MetricField::GrantsCreated, 1, now);
        self.metrics.increment(MetricField::GrantsActive, 1, now);
        proof {
            assert(self.grants.views() =~= old(self).grants.views().insert(grant_id, GrantView {
                id: grant_id,
                owner,
                title: title@,
                description: description@,
                token,
                status: GrantStatus::Active,
                total_amount,
                milestone_amount,
                reviewers: reviewers@,
                total_milestones: num_milestones,
                milestones_paid_out: 0,
                escrow_balance: 0,
                funders: Seq::empty(),
                reason: None,
                timestamp: now,
                require_compliance: None,
            }));
        }
        Ok(grant_id)
    }

    /// The assessor, compliance and configuration state is the same in `self` and `other`.
    pub open spec fn same_accounts(&self, other: &Self) -> bool {
        &&& self.compliance == other.compliance
        &&& self.config == other.config
        &&& self.global_admin == other.global_admin
        &&& self.contributors == other.contributors
        &&& self.reputation_applied == other.reputation_applied
        &&& self.reviewer_reputation == other.reviewer_reputation
        &&& self.reviewer_stakes == other.reviewer_stakes
        &&& self.min_reviewer_stake == other.min_reviewer_stake
        &&& self.treasury == other.treasury
    }

    /// The release state of every grant is the same in `self` and `other`.
    pub open spec fn same_release_state(&self, other: &Self) -> bool {
        &&& self.escrow_states == other.escrow_states
        &&& self.multisig_signers == other.multisig_signers
        &&& self.release_approvals == other.release_approvals
    }

    /// Create a grant whose release also needs every one of `multisig_signers` to approve.
    pub fn grant_create_high_security(
        &mut self,
        owner: AccountId,
        title: String,
        description: String,
        token: AccountId,
        total_amount: i128,
        milestone_amount: i128,
        num_milestones: u32,
        reviewers: Vec<AccountId>,
        multisig_signers: Vec<AccountId>,
        now: u64,
    ) -> (r: Result<u64, ContractError>)
        requires
            old(self).grants.counter() < u64::MAX,
        ensures
            ({
                let check = spec_grant_create_check(old(self).config, total_amount, milestone_amount, num_milestones,
                    reviewers@.len());
                let id = (old(self).grants.counter() + 1) as u64;
                &&& multisig_signers@.len() == 0 ==> r == Err::<u64, ContractError>(ContractError::InvalidInput)
                &&& multisig_signers@.len() > 0 && check is Err ==> r == Err::<u64, ContractError>(check->Err_0)
                &&& multisig_signers@.len() > 0 && check is Ok && old(self).escrow.accounts().contains_key(id) ==> r
                    == Err::<u64, ContractError>(ContractError::EscrowAlreadyOpen)
                &&& r is Ok <==> multisig_signers@.len() > 0 && check is Ok && !old(self).escrow.accounts().contains_key(id)
                &&& r is Err ==> *final(self) == *old(self)
                &&& r is Ok ==> {
                    &&& r->Ok_0 == id
                    &&& final(self).grants.counter() == id
                    &&& final(self).grants.views().dom() == old(self).grants.views().dom().insert(id)
                    &&& final(self).grants.views()[id].owner == owner
                    &&& final(self).grants.views()[id].status == GrantStatus::Active
                    &&& final(self).escrow_states@ == old(self).escrow_states@.insert(id, spec_initial_escrow_state(
                        EscrowMode::HighSecurity))
                    &&& forall|g: u64| #[trigger] final(self).signers(g) == if g == id {
                        multisig_signers@
                    } else {
                        old(self).signers(g)
                    }
                    &&& final(self).same_accounts(old(self))
                }
            }),
    {
        if multisig_signers.len() == 0 {
            return Err(ContractError::InvalidInput);
        }
        let grant_id = match self.grant_create(
            owner,
            title,
            description,
            token,
            total_amount,
            milestone_amount,
            num_milestones,
            reviewers,
            now,
        ) {
            Ok(id) => id,
            Err(e) => return Err(e),
        };
        let ghost mid = *self;
        self.escrow_states.insert(
            grant_id,
            EscrowState {
                mode: EscrowMode::HighSecurity,
                lifecycle: EscrowLifecycleState::Funding,
                quorum_ready: false,
                approvals_count: 0,
            },
        );
        let ghost sv = multisig_signers@;
        self.multisig_signers.insert(grant_id, multisig_signers);
        proof {
            assert forall|g: u64| #[trigger] self.signers(g) == if g == grant_id { sv } else { mid.signers(g) } by {
                if g != grant_id {
                    assert(self.multisig_signers@.contains_key(g) == mid.multisig_signers@.contains_key(g));
                }
            }
            assert(self.grants.views().dom() =~= old(self).grants.views().dom().insert(grant_id));
        }
        Ok(grant_id)
    }

    /// Register `contributor`'s profile: a non-empty name of at most `MAX_TITLE_LEN` bytes, a
    /// bio of at most `MAX_BIO_LEN` bytes, once per account.
    pub fn contributor_register(
        &mut self,
        contributor: AccountId,
        name: String,
        bio: String,
        skills: Vec<String>,
        github_url: String,
        now: u64,
    ) -> (r: Result<(), ContractError>)
        ensures
            ({
                let check = spec_register_check(name@, bio@, old(self).contributors@.contains_key(contributor));
                &&& r == check
                &&& r is Err ==> *final(self) == *old(self)
                &&& r is Ok ==> {
                    let p = final(self).contributors@[contributor];
                    &&& final(self).contributors@.dom() == old(self).contributors@.dom().insert(contributor)
                    &&& forall|a: AccountId| a != contributor && old(self).contributors@.contains_key(a)
                        ==> #[trigger] final(self).contributors@[a] == old(self).contributors@[a]
                    &&& p.contributor == contributor
                    &&& p.name@ == name@
                    &&& p.bio@ == bio@
                    &&& p.skills@ == skills@
                    &&& p.github_url@ == github_url@
                    &&& p.registration_timestamp == now
                    &&& p.reputation_score == 0
                    &&& p.grants_count == 0
                    &&& p.total_earned == 0
                    &&& p.milestones_completed == 0
                    &&& p.milestones_rejected == 0
                    &&& final(self).metrics.stored() == Some(spec_increment(old(self).metrics.current(now),
                        MetricField::ContributorsRegistered, 1, now))
                    &&& forall|t: AccountId| #[trigger] final(self).metrics.token_metric(t) == old(self).metrics.token_metric(t)
                    &&& final(self).grants == old(self).grants
                    &&& final(self).escrow == old(self).escrow
                    &&& final(self).milestones == old(self).milestones
                    &&& final(self).same_release_state(old(self))
                }
            }),
    {
        if name.as_str().is_empty() || str_byte_len(&name) > MAX_TITLE_LEN as usize {
            return Err(ContractError::InvalidInput);
        }
        if str_byte_len(&bio) > MAX_BIO_LEN as usize {
            return Err(ContractError::InvalidInput);
        }
        if self.contributors.contains_key(&contributor) {
            return Err(ContractError::AlreadyRegistered);
        }
        let profile = ContributorProfile {
            contributor,
            name,
            bio,
            skills,
            github_url,
            registration_timestamp: now,
            reputation_score: 0,
            grants_count: 0,
            total_earned: 0,
            milestones_completed: 0,
            milestones_rejected: 0,
            last_action_at: now,
        };
        self.contributors.insert(contributor, profile);
        self.metrics.increment(MetricField::ContributorsRegistered, 1, now);
        Ok(())
    }

    /// The grant with id `grant_id`.
    pub fn get_grant(&self, grant_id: u64) -> (r: Result<&Grant, ContractError>)
        ensures
            self.grants.grants().contains_key(grant_id) ==> r is Ok && *r->Ok_0 == self.grants.grants()[grant_id],
            !self.grants.grants().contains_key(grant_id) ==> r == Err::<&Grant, ContractError>(ContractError::GrantNotFound),
    {
        match self.grants.get(grant_id) {
            Some(g) => Ok(g),
            None => Err(ContractError::GrantNotFound),
        }
    }

    /// Set the minimum assessor stake and the treasury that receives slashed stakes.
    pub fn set_staking_config(&mut self, min_stake: i128, treasury: AccountId) -> (r: Result<(), ContractError>)
        ensures
            min_stake <= 0 ==> r == Err::<(), ContractError>(ContractError::InvalidInput) && *final(self) == *old(self),
            min_stake > 0 ==> r is Ok && final(self).min_reviewer_stake == min_stake && final(self).treasury == Some(treasury)
                && final(self).grants == old(self).grants && final(self).escrow == old(self).escrow
                && final(self).reviewer_stakes == old(self).reviewer_stakes,
    {
        if min_stake <= 0 {
            return Err(ContractError::InvalidInput);
        }
        self.min_reviewer_stake = min_stake;
        self.treasury = Some(treasury);
        Ok(())
    }

    /// Why cancelling `grant_id` for `caller` is refused, if it is.
    pub open spec fn spec_cancel_check(&self, grant_id: u64, caller: AccountId) -> Result<(), ContractError> {
        let g = self.grants.views()[grant_id];
        if !self.grants.views().contains_key(grant_id) {
            Err(ContractError::GrantNotFound)
        } else if g.owner != caller && self.global_admin != Some(caller) {
            Err(ContractError::Unauthorized)
        } else if g.status != GrantStatus::Active || g.milestones_paid_out >= g.total_milestones {
            Err(ContractError::InvalidState)
        } else if g.escrow_balance > 0 && !self.escrow.accounts().contains_key(grant_id) {
            Err(ContractError::EscrowNotFound)
        } else {
            Ok(())
        }
    }

    /// Cancel an active grant, returning its escrowed funds to its funders. The owner or the
    /// global admin may.
    pub fn cancel_grant(
        &mut self,
        grant_id: u64,
        caller: AccountId,
        reason: String,
        now: u64,
        transfers: &mut Vec<Transfer>,
    ) -> (r: Result<(), ContractError>)
        requires
            old(self).escrow.wf(),
            old(self).grants.views().contains_key(grant_id) && spec_cancel_allowed(
                old(self).grants.views()[grant_id],
                caller,
                old(self).global_admin,
            ) && old(self).grants.views()[grant_id].escrow_balance > 0 && old(self).escrow.accounts().contains_key(grant_id)
                ==> spec_refund_all_fits(
                spec_nets(&old(self).escrow, grant_id),
                old(self).escrow.accounts()[grant_id].balance as int,
            ),
        ensures
            r == old(self).spec_cancel_check(grant_id, caller),
            r is Err ==> *final(self) == *old(self) && final(transfers)@ == old(transfers)@,
            r is Ok ==> {
                let g = old(self).grants.views()[grant_id];
                &&& final(self).escrow.wf()
                &&& g.escrow_balance > 0 ==> spec_refunded_all(
                    &old(self).escrow,
                    &final(self).escrow,
                    old(transfers)@,
                    final(transfers)@,
                    grant_id,
                )
                &&& g.escrow_balance <= 0 ==> final(self).escrow == old(self).escrow && final(transfers)@ == old(transfers)@
                &&& final(self).grants.views() == old(self).grants.views().insert(
                    grant_id,
                    GrantView {
                        status: GrantStatus::Cancelled,
                        escrow_balance: 0,
                        reason: Some(reason@),
                        timestamp: now,
                        ..g
                    },
                )
                &&& final(self).grants.counter() == old(self).grants.counter()
                &&& final(self).metrics.stored() == Some(spec_increment(old(self).metrics.current(now),
                    MetricField::GrantsCancelled, 1, now))
                &&& forall|t: AccountId| #[trigger] final(self).metrics.token_metric(t) == if g.escrow_balance > 0 && t
                    == g.token {
                    spec_refund_update(old(self).metrics.token_metric(t), g.escrow_balance)
                } else {
                    old(self).metrics.token_metric(t)
                }
                &&& final(self).milestones == old(self).milestones
                &&& final(self).same_accounts(old(self))
                &&& final(self).same_release_state(old(self))
            },
    {
        let (owner, status, paid, total, refundable, token) = match self.grants.get(grant_id) {
            Some(g) => (g.owner, g.status, g.milestones_paid_out, g.total_milestones, g.escrow_balance, g.token),
            None => return Err(ContractError::GrantNotFound),
        };
        let caller_is_admin = match self.global_admin {
            Some(a) => a == caller,
            None => false,
        };
        if owner != caller && !caller_is_admin {
            return Err(ContractError::Unauthorized);
        }
        if status != GrantStatus::Active || paid >= total {
            return Err(ContractError::InvalidState);
        }
        if refundable > 0 {
            if self.escrow.get_account(grant_id).is_err() {
                return Err(ContractError::EscrowNotFound);
            }
            let _ = refund_all(&mut self.escrow, &mut self.grants, grant_id, transfers);
        }
        let ghost mid = self.grants.grants();
        let mut grant = self.grants.take(grant_id).unwrap();
        grant.status = GrantStatus::Cancelled;
        grant.escrow_balance = 0;
        grant.reason = Some(reason);
        grant.timestamp = now;
        self.grants.set(grant_id, grant);
        self.metrics.increment(MetricField::GrantsCancelled, 1, now);
        if refundable > 0 {
            self.metrics.record_token_refund(token, refundable);
        }
        proof {
            let g = old(self).grants.views()[grant_id];
            assert(self.grants.views() =~= old(self).grants.views().insert(
                grant_id,
                GrantView { status: GrantStatus::Cancelled, escrow_balance: 0, reason: Some(reason@), timestamp: now, ..g },
            ));
        }
        Ok(())
    }
}

} // verus!
