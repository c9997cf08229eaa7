use vstd::prelude::*;
use std::collections::HashMap;

use crate::errors::ContractError;
use crate::grants::{Grant, GrantBook};
use crate::keys::{lemma_pair_key_injective, pair_key, spec_pair_key};
use crate::types::{AccountId, AmendmentStatus};

verus! {

broadcast use vstd::std_specs::hash::group_hash_axioms;

/// A snapshot of a grant's amendable fields at one version.
#[derive(Debug)]
pub struct GrantVersion {
    pub grant_id: u64,
    pub version: u32,
    pub title: String,
    pub description: String,
    pub total_amount: i128,
    pub total_milestones: u32,
    pub created_at: u64,
    pub amendment_id: Option<u32>,
}

impl GrantVersion {
    /// A field-by-field copy.
    pub fn duplicate(&self) -> (r: GrantVersion)
        ensures
            r == *self,
    {
        GrantVersion {
            grant_id: self.grant_id,
            version: self.version,
            title: self.title.clone(),
            description: self.description.clone(),
            total_amount: self.total_amount,
            total_milestones: self.total_milestones,
            created_at: self.created_at,
            amendment_id: self.amendment_id,
        }
    }
}

/// A proposed change to some of a grant's fields.
#[derive(Debug)]
pub struct Amendment {
    pub grant_id: u64,
    pub version: u32,
    pub proposed_by: AccountId,
    pub changed_fields: Vec<String>,
    pub previous_values: Vec<String>,
    pub new_values: Vec<String>,
    pub rationale: String,
    pub status: AmendmentStatus,
    pub reviewer_votes: Vec<(AccountId, bool)>,
    pub proposed_at: u64,
    pub resolved_at: Option<u64>,
}

/// The text of each string of a list.
pub open spec fn texts(v: Seq<String>) -> Seq<Seq<char>> {
    v.map_values(|s: String| s@)
}

/// The assessors who voted, in voting order.
pub open spec fn amendment_voters(votes: Seq<(AccountId, bool)>) -> Seq<AccountId> {
    votes.map_values(|v: (AccountId, bool)| v.0)
}

/// The snapshot of `grant` at `version`, taken at `now`.
pub open spec fn spec_grant_to_version(grant: Grant, version: u32, amendment_id: Option<u32>, now: u64) -> GrantVersion {
    GrantVersion {
        grant_id: grant.id,
        version,
        title: grant.title,
        description: grant.description,
        total_amount: grant.total_amount,
        total_milestones: grant.total_milestones,
        created_at: now,
        amendment_id,
    }
}

/// The snapshot of `grant` at `version`, taken at `now`.
pub fn grant_to_version(grant: &Grant, version: u32, amendment_id: Option<u32>, now: u64) -> (r: GrantVersion)
    ensures
        r == spec_grant_to_version(*grant, version, amendment_id, now),
{
    GrantVersion {
        grant_id: grant.id,
        version,
        title: grant.title.clone(),
        description: grant.description.clone(),
        total_amount: grant.total_amount,
        total_milestones: grant.total_milestones,
        created_at: now,
        amendment_id,
    }
}

/// Whether a field name is one whose change needs a assessor's approval.
pub open spec fn spec_is_material_field(f: Seq<char>) -> bool {
    f == "title"@ || f == "total_amount"@ || f == "total_milestones"@
}

/// Whether any changed field needs a assessor's approval.
pub open spec fn spec_is_material(fields: Seq<Seq<char>>) -> bool {
    exists|i: int| 0 <= i < fields.len() && spec_is_material_field(#[trigger] fields[i])
}

/// Whether any of the changed fields is the title, the total amount or the number of
/// milestones.
pub fn is_material(changed_fields: &Vec<String>) -> (r: bool)
    ensures
        r == spec_is_material(texts(changed_fields@)),
{
    let title = "title".to_owned();
    let total_amount = "total_amount".to_owned();
    let total_milestones = "total_milestones".to_owned();
    let mut i: usize = 0;
    while i < changed_fields.len()
        invariant
            i <= changed_fields@.len(),
            title@ == "title"@,
            total_amount@ == "total_amount"@,
            total_milestones@ == "total_milestones"@,
            forall|j: int| 0 <= j < i ==> !spec_is_material_field(#[trigger] texts(changed_fields@)[j]),
        decreases changed_fields@.len() - i,
    {
        let changed = &changed_fields[i];
        assert(texts(changed_fields@)[i as int] == changed@);
        if *changed == title || *changed == total_amount || *changed == total_milestones {
            return true;
        }
        i += 1;
    }
    false
}

/// The value recorded as a changed field's previous value, or `None` for a field that
/// cannot be amended.
pub open spec fn spec_previous_value(f: Seq<char>, current: GrantVersion) -> Option<Seq<char>> {
    if f == "title"@ {
        Some(current.title@)
    } else if f == "description"@ {
        Some(current.description@)
    } else if f == "total_amount"@ {
        Some("current_total_amount"@)
    } else if f == "total_milestones"@ {
        Some("current_total_milestones"@)
    } else {
        None
    }
}

/// The amendments, the version snapshots, the current version of each grant and the
/// amendment history of each grant.
pub struct VersionBook {
    amendments: HashMap<u128, Amendment>,
    versions: HashMap<u128, GrantVersion>,
    current: HashMap<u64, u32>,
    history: HashMap<u64, Vec<u32>>,
}

impl VersionBook {
    /// The amendment of a grant at a version.
    pub closed spec fn amendment(&self, grant_id: u64, version: u32) -> Option<Amendment> {
        let k = spec_pair_key(grant_id, version as u64);
        if self.amendments@.contains_key(k) { Some(self.amendments@[k]) } else { None }
    }

    /// The snapshot of a grant at a version.
    pub closed spec fn version(&self, grant_id: u64, version: u32) -> Option<GrantVersion> {
        let k = spec_pair_key(grant_id, version as u64);
        if self.versions@.contains_key(k) { Some(self.versions@[k]) } else { None }
    }

    /// A grant's current version (0 before any snapshot).
    pub closed spec fn current_version_of(&self, grant_id: u64) -> u32 {
        if self.current@.contains_key(grant_id) { self.current@[grant_id] } else { 0 }
    }

    /// The versions of a grant's amendments, in proposal order.
    pub closed spec fn history(&self, grant_id: u64) -> Seq<u32> {
        if self.history@.contains_key(grant_id) { self.history@[grant_id]@ } else { Seq::empty() }
    }

    /// The amendments of the first `k` versions in a grant's history that have one.
    pub open spec fn spec_history_amendments(&self, grant_id: u64, k: int) -> Seq<Amendment>
        decreases k,
    {
        if k <= 0 {
            Seq::empty()
        } else {
            let prev = self.spec_history_amendments(grant_id, k - 1);
            match self.amendment(grant_id, self.history(grant_id)[k - 1]) {
                Some(a) => prev.push(a),
                None => prev,
            }
        }
    }

    /// The amendments of a grant, in proposal order.
    pub fn amendment_history(&self, grant_id: u64) -> (r: Vec<&Amendment>)
        ensures
            r@.map_values(|a: &Amendment| *a) == self.spec_history_amendments(
                grant_id,
                self.history(grant_id).len() as int,
            ),
    {
        let mut result: Vec<&Amendment> = Vec::new();
        let versions = match self.history.get(&grant_id) {
            Some(v) => v,
            None => {
                assert(result@.map_values(|a: &Amendment| *a) =~= Seq::<Amendment>::empty());
                return result;
            },
        };
        let mut i: usize = 0;
        while i < versions.len()
            invariant
                versions@ == self.history(grant_id),
                i <= versions.len(),
                result@.map_values(|a: &Amendment| *a) == self.spec_history_amendments(grant_id, i as int),
            decreases versions.len() - i,
        {
            let ghost before = result@;
            match self.amendments.get(&pair_key(grant_id, versions[i] as u64)) {
                Some(a) => {
                    result.push(a);
                    assert(result@.map_values(|a: &Amendment| *a) =~= before.map_values(|a: &Amendment| *a).push(*a));
                },
                None => {},
            }
            i += 1;
        }
        result
    }

    /// Every amendment gives one new value per changed field.
    pub open spec fn wf(&self) -> bool {
        forall|g: u64, v: u32| #[trigger] self.amendment(g, v) is Some ==> self.amendment(g, v)->0.new_values@.len()
            == self.amendment(g, v)->0.changed_fields@.len()
    }

    pub fn new() -> (b: VersionBook)
        ensures
            b.wf(),
            forall|g: u64, v: u32| #[trigger] b.amendment(g, v) is None,
            forall|g: u64, v: u32| #[trigger] b.version(g, v) is None,
            forall|g: u64| #[trigger] b.current_version_of(g) == 0,
            forall|g: u64| #[trigger] b.history(g) == Seq::<u32>::empty(),
    {
        VersionBook { amendments: HashMap::new(), versions: HashMap::new(), current: HashMap::new(), history: HashMap::new() }
    }

    /// Store a snapshot and make it the grant's current version.
    fn set_version(&mut self, grant_id: u64, version: u32, snapshot: GrantVersion)
        ensures
            forall|g: u64, v: u32| #[trigger] final(self).version(g, v) == if g == grant_id && v == version {
                Some(snapshot)
            } else {
                old(self).version(g, v)
            },
            forall|g: u64| #[trigger] final(self).current_version_of(g) == if g == grant_id { version } else {
                old(self).current_version_of(g) },
            forall|g: u64, v: u32| #[trigger] final(self).amendment(g, v) == old(self).amendment(g, v),
            forall|g: u64| #[trigger] final(self).history(g) == old(self).history(g),
    {
        let ghost s = snapshot;
        self.versions.insert(pair_key(grant_id, version as u64), snapshot);
        self.current.insert(grant_id, version);
        proof {
            assert forall|g: u64, v: u32| #[trigger] self.version(g, v) == if g == grant_id && v == version {
                Some(s)
            } else {
                old(self).version(g, v)
            } by {
                lemma_pair_key_injective(g, v as u64, grant_id, version as u64);
            }
        }
    }

    /// Record the first snapshot of a new grant.
    pub fn create_initial_version(&mut self, grant: &Grant, now: u64)
        ensures
            forall|g: u64, v: u32| #[trigger] final(self).version(g, v) == if g == grant.id && v == 1 {
                Some(spec_grant_to_version(*grant, 1, None, now))
            } else {
                old(self).version(g, v)
            },
            forall|g: u64| #[trigger] final(self).current_version_of(g) == if g == grant.id { 1 } else {
                old(self).current_version_of(g) },
            forall|g: u64, v: u32| #[trigger] final(self).amendment(g, v) == old(self).amendment(g, v),
            forall|g: u64| #[trigger] final(self).history(g) == old(self).history(g),
    {
        let snapshot = grant_to_version(grant, 1, None, now);
        self.set_version(grant.id, 1, snapshot);
    }

    /// A grant's current snapshot, computed from the grant itself (as version 1) when it has
    /// none yet; `None` when neither is there. The boolean says whether it is new.
    pub open spec fn spec_current_snapshot(&self, grants: Map<u64, Grant>, grant_id: u64, now: u64) -> Option<(GrantVersion, bool)> {
        let cur = self.current_version_of(grant_id);
        if cur == 0 {
            if grants.contains_key(grant_id) {
                Some((spec_grant_to_version(grants[grant_id], 1, None, now), true))
            } else {
                None
            }
        } else {
            match self.version(grant_id, cur) {
                Some(v) => Some((v, false)),
                None => None,
            }
        }
    }

    fn current_snapshot(&self, grants: &GrantBook, grant_id: u64, now: u64) -> (r: Option<(GrantVersion, bool)>)
        ensures
            r == self.spec_current_snapshot(grants.grants(), grant_id, now),
    {
        let cur = match self.current.get(&grant_id) {
            Some(c) => *c,
            None => 0,
        };
        if cur == 0 {
            match grants.get(grant_id) {
                Some(g) => Some((grant_to_version(g, 1, None, now), true)),
                None => None,
            }
        } else {
            match self.versions.get(&pair_key(grant_id, cur as u64)) {
                Some(v) => Some((v.duplicate(), false)),
                None => None,
            }
        }
    }

    /// Store an amendment under its grant and version.
    fn set_amendment(&mut self, grant_id: u64, version: u32, amendment: Amendment)
        ensures
            forall|g: u64, v: u32| #[trigger] final(self).amendment(g, v) == if g == grant_id && v == version {
                Some(amendment)
            } else {
                old(self).amendment(g, v)
            },
            forall|g: u64, v: u32| #[trigger] final(self).version(g, v) == old(self).version(g, v),
            forall|g: u64| #[trigger] final(self).current_version_of(g) == old(self).current_version_of(g),
            forall|g: u64| #[trigger] final(self).history(g) == old(self).history(g),
    {
        let ghost a = amendment;
        self.amendments.insert(pair_key(grant_id, version as u64), amendment);
        proof {
            assert forall|g: u64, v: u32| #[trigger] self.amendment(g, v) == if g == grant_id && v == version {
                Some(a)
            } else {
                old(self).amendment(g, v)
            } by {
                lemma_pair_key_injective(g, v as u64, grant_id, version as u64);
            }
        }
    }

    /// The owner proposes an amendment: `changed_fields[i]` (title, description, total_amount
    /// or total_milestones) becomes `new_values[i]`. It is approved at once unless it touches
    /// the title, the total amount or the number of milestones. Its version follows the
    /// grant's current one (a grant without snapshot gets version 1 recorded first).
    #[verifier::loop_isolation(false)]
    pub fn propose_amendment(
        &mut self,
        grants: &GrantBook,
        owner: AccountId,
        grant_id: u64,
        changed_fields: Vec<String>,
        new_values: Vec<String>,
        rationale: String,
        now: u64,
    ) -> (r: Result<u32, ContractError>)
        requires
            old(self).wf(),
        ensures
            final(self).wf(),
            ({
                let found = grants.grants().contains_key(grant_id);
                let g = grants.grants()[grant_id];
                let snap = old(self).spec_current_snapshot(grants.grants(), grant_id, now);
                let fields = texts(changed_fields@);
                let shape_ok = fields.len() > 0 && fields.len() == new_values@.len();
                let fields_ok = forall|i: int| 0 <= i < fields.len() ==> spec_previous_value(#[trigger] fields[i], snap.unwrap().0)
                    is Some;
                &&& !shape_ok ==> r == Err::<u32, ContractError>(ContractError::InvalidInput)
                &&& shape_ok && !found ==> r == Err::<u32, ContractError>(ContractError::GrantNotFound)
                &&& shape_ok && found && g.owner != owner ==> r == Err::<u32, ContractError>(ContractError::Unauthorized)
                &&& shape_ok && found && g.owner == owner && snap is None ==> r == Err::<u32, ContractError>(
                    ContractError::GrantNotFound)
                &&& shape_ok && found && g.owner == owner && snap is Some && !fields_ok ==> r == Err::<u32, ContractError>(
                    ContractError::InvalidInput)
                &&& r is Ok <==> shape_ok && found && g.owner == owner && snap is Some && fields_ok
                &&& r is Err ==> (forall|gg: u64, v: u32| #[trigger] final(self).amendment(gg, v) == old(self).amendment(gg, v))
                    && (forall|gg: u64, v: u32| #[trigger] final(self).version(gg, v) == old(self).version(gg, v))
                    && (forall|gg: u64| #[trigger] final(self).current_version_of(gg) == old(self).current_version_of(gg))
                    && (forall|gg: u64| #[trigger] final(self).history(gg) == old(self).history(gg))
                &&& r is Ok ==> {
                    let cur = snap.unwrap().0;
                    let ver = crate::arith::clamp_u32(cur.version + 1) as u32;
                    let a = final(self).amendment(grant_id, ver)->0;
                    let material = spec_is_material(fields);
                    &&& r == Ok::<u32, ContractError>(ver)
                    &&& final(self).amendment(grant_id, ver) is Some
                    &&& forall|gg: u64, v: u32| !(gg == grant_id && v == ver) ==> #[trigger] final(self).amendment(gg, v)
                        == old(self).amendment(gg, v)
                    &&& a.grant_id == grant_id && a.version == ver && a.proposed_by == owner && a.proposed_at == now
                    &&& texts(a.changed_fields@) == fields && texts(a.new_values@) == texts(new_values@)
                    &&& texts(a.previous_values@) == fields.map_values(|f: Seq<char>| spec_previous_value(f, cur)->0)
                    &&& a.rationale == rationale && a.reviewer_votes@.len() == 0
                    &&& a.status == (if material { AmendmentStatus::Proposed } else { AmendmentStatus::Approved })
                    &&& a.resolved_at == (if material { None } else { Some(now) })
                    &&& forall|gg: u64| #[trigger] final(self).history(gg) == if gg == grant_id { old(self).history(
                        grant_id).push(ver) } else { old(self).history(gg) }
                    &&& snap.unwrap().1 ==> (forall|gg: u64, v: u32| #[trigger] final(self).version(gg, v) == if gg == grant_id
                        && v == 1 { Some(cur) } else { old(self).version(gg, v) }) && (forall|gg: u64| #[trigger] final(
                        self).current_version_of(gg) == if gg == grant_id { 1 } else { old(self).current_version_of(gg) })
                    &&& !snap.unwrap().1 ==> (forall|gg: u64, v: u32| #[trigger] final(self).version(gg, v) == old(self).version(gg, v))
                        && (forall|gg: u64| #[trigger] final(self).current_version_of(gg) == old(self).current_version_of(gg))
                }
            }),
    {
        if changed_fields.len() == 0 || changed_fields.len() != new_values.len() {
            return Err(ContractError::InvalidInput);
        }
        let owner_ok = match grants.get(grant_id) {
            Some(g) => g.owner == owner,
            None => return Err(ContractError::GrantNotFound),
        };
        if !owner_ok {
            return Err(ContractError::Unauthorized);
        }
        let (current, is_new) = match self.current_snapshot(grants, grant_id, now) {
            Some(p) => p,
            None => return Err(ContractError::GrantNotFound),
        };
        let amendment_version = current.version.saturating_add(1);
        let title = "title".to_owned();
        let description = "description".to_owned();
        let total_amount = "total_amount".to_owned();
        let total_milestones = "total_milestones".to_owned();
        let ghost fields = texts(changed_fields@);
        let mut previous_values: Vec<String> = Vec::new();
        let mut i: usize = 0;
        while i < changed_fields.len()
            invariant
                i <= changed_fields@.len(),
                fields == texts(changed_fields@),
                title@ == "title"@,
                description@ == "description"@,
                total_amount@ == "total_amount"@,
                total_milestones@ == "total_milestones"@,
                forall|j: int| 0 <= j < i ==> spec_previous_value(#[trigger] fields[j], current) is Some,
                texts(previous_values@) == fields.take(i as int).map_values(|f: Seq<char>| spec_previous_value(f, current)->0),
            decreases changed_fields@.len() - i,
        {
            let changed = &changed_fields[i];
            assert(fields[i as int] == changed@);
            let value = if *changed == title {
                current.title.clone()
            } else if *changed == description {
                current.description.clone()
            } else if *changed == total_amount {
                "current_total_amount".to_owned()
            } else if *changed == total_milestones {
                "current_total_milestones".to_owned()
            } else {
                assert(spec_previous_value(fields[i as int], current) is None);
                return Err(ContractError::InvalidInput);
            };
            assert(value@ == spec_previous_value(fields[i as int], current)->0);
            let ghost before = previous_values@;
            previous_values.push(value);
            proof {
                assert(fields.take(i + 1) == fields.take(i as int).push(fields[i as int]));
                assert(texts(previous_values@) =~= texts(before).push(value@));
                assert(fields.take(i + 1).map_values(|f: Seq<char>| spec_previous_value(f, current)->0) =~= fields.take(
                    i as int,
                ).map_values(|f: Seq<char>| spec_previous_value(f, current)->0).push(spec_previous_value(fields[i as int], current)->0));
            }
            i += 1;
        }
        proof {
            assert(fields.take(fields.len() as int) == fields);
        }
        let material = is_material(&changed_fields);
        let status = if material { AmendmentStatus::Proposed } else { AmendmentStatus::Approved };
        let resolved_at = if material { None } else { Some(now) };
        if is_new {
            self.set_version(grant_id, 1, current);
        }
        let amendment = Amendment {
            grant_id,
            version: amendment_version,
            proposed_by: owner,
            changed_fields,
            previous_values,
            new_values,
            rationale,
            status,
            reviewer_votes: Vec::new(),
            proposed_at: now,
            resolved_at,
        };
        self.set_amendment(grant_id, amendment_version, amendment);
        let ghost mid = *self;
        let mut history: Vec<u32> = match self.history.remove(&grant_id) {
            Some(h) => h,
            None => Vec::new(),
        };
        history.push(amendment_version);
        self.history.insert(grant_id, history);
        proof {
            assert forall|g: u64, v: u32| #[trigger] self.amendment(g, v) is Some implies self.amendment(g, v)->0.new_values@.len()
                == self.amendment(g, v)->0.changed_fields@.len() by {
                assert(mid.amendment(g, v) == self.amendment(g, v));
            }
            assert forall|g: u64, v: u32| #[trigger] self.amendment(g, v) == mid.amendment(g, v) by {}
            assert forall|g: u64, v: u32| #[trigger] self.version(g, v) == mid.version(g, v) by {}
            assert forall|g: u64| #[trigger] self.current_version_of(g) == mid.current_version_of(g) by {}
            assert forall|g: u64| #[trigger] self.history(g) == if g == grant_id { mid.history(grant_id).push(amendment_version) } else {
                mid.history(g) } by {}
        }
        Ok(amendment_version)
    }

    /// A assessor of the grant approves or rejects a proposed amendment, once.
    pub fn vote_amendment(
        &mut self,
        grants: &GrantBook,
        reviewer: AccountId,
        grant_id: u64,
        amendment_version: u32,
        approve: bool,
        now: u64,
    ) -> (r: Result<AmendmentStatus, ContractError>)
        requires
            old(self).wf(),
        ensures
            final(self).wf(),
            forall|gg: u64, v: u32| #[trigger] final(self).version(gg, v) == old(self).version(gg, v),
            forall|gg: u64| #[trigger] final(self).current_version_of(gg) == old(self).current_version_of(gg),
            forall|gg: u64| #[trigger] final(self).history(gg) == old(self).history(gg),
            forall|gg: u64, v: u32| !(gg == grant_id && v == amendment_version) ==> #[trigger] final(self).amendment(gg, v)
                == old(self).amendment(gg, v),
            ({
                let found = grants.grants().contains_key(grant_id);
                let g = grants.grants()[grant_id];
                let am = old(self).amendment(grant_id, amendment_version);
                let a = am->0;
                &&& !found ==> r == Err::<AmendmentStatus, ContractError>(ContractError::GrantNotFound)
                &&& found && !g.reviewers@.contains(reviewer) ==> r == Err::<AmendmentStatus, ContractError>(
                    ContractError::Unauthorized)
                &&& found && g.reviewers@.contains(reviewer) && am is None ==> r == Err::<AmendmentStatus, ContractError>(
                    ContractError::InvalidInput)
                &&& found && g.reviewers@.contains(reviewer) && am is Some && a.status != AmendmentStatus::Proposed ==> r
                    == Err::<AmendmentStatus, ContractError>(ContractError::InvalidState)
                &&& found && g.reviewers@.contains(reviewer) && am is Some && a.status == AmendmentStatus::Proposed
                    && amendment_voters(a.reviewer_votes@).contains(reviewer) ==> r == Err::<AmendmentStatus, ContractError>(
                    ContractError::AlreadyVoted)
                &&& r is Ok <==> found && g.reviewers@.contains(reviewer) && am is Some && a.status == AmendmentStatus::Proposed
                    && !amendment_voters(a.reviewer_votes@).contains(reviewer)
                &&& r is Err ==> final(self).amendment(grant_id, amendment_version) == am
                &&& r is Ok ==> {
                    let st = if approve { AmendmentStatus::Approved } else { AmendmentStatus::Rejected };
                    let na = final(self).amendment(grant_id, amendment_version)->0;
                    &&& r == Ok::<AmendmentStatus, ContractError>(st)
                    &&& final(self).amendment(grant_id, amendment_version) is Some
                    &&& na == (Amendment { status: st, resolved_at: Some(now), reviewer_votes: na.reviewer_votes, ..a })
                    &&& na.reviewer_votes@ == a.reviewer_votes@.push((reviewer, approve))
                }
            }),
    {
        let is_reviewer = match grants.get(grant_id) {
            Some(g) => crate::escrow::contains_account(&g.reviewers, reviewer),
            None => return Err(ContractError::GrantNotFound),
        };
        if !is_reviewer {
            return Err(ContractError::Unauthorized);
        }
        let k = pair_key(grant_id, amendment_version as u64);
        let mut amendment = match self.amendments.remove(&k) {
            Some(a) => a,
            None => {
                assert(self.amendments@ =~= old(self).amendments@);
                assert forall|g: u64, v: u32| #[trigger] self.amendment(g, v) == old(self).amendment(g, v) by {}
                return Err(ContractError::InvalidInput);
            },
        };
        let ghost a0 = amendment;
        let check: Result<(), ContractError> = if amendment.status != AmendmentStatus::Proposed {
            Err(ContractError::InvalidState)
        } else if has_voted(&amendment.reviewer_votes, reviewer) {
            Err(ContractError::AlreadyVoted)
        } else {
            Ok(())
        };
        match check {
            Err(e) => {
                self.amendments.insert(k, amendment);
                assert(self.amendments@ =~= old(self).amendments@);
                assert forall|g: u64, v: u32| #[trigger] self.amendment(g, v) == old(self).amendment(g, v) by {}
                return Err(e);
            },
            Ok(()) => {},
        }
        amendment.reviewer_votes.push((reviewer, approve));
        amendment.status = if approve { AmendmentStatus::Approved } else { AmendmentStatus::Rejected };
        amendment.resolved_at = Some(now);
        let status = amendment.status;
        self.amendments.insert(k, amendment);
        proof {
            assert forall|gg: u64, v: u32| !(gg == grant_id && v == amendment_version) implies #[trigger] self.amendment(gg, v)
                == old(self).amendment(gg, v) by {
                lemma_pair_key_injective(gg, v as u64, grant_id, amendment_version as u64);
            }
        }
        Ok(status)
    }

    /// Apply an approved amendment: its new title and description replace the grant's and a
    /// snapshot at the amendment's version becomes the current one.
    #[verifier::loop_isolation(false)]
    pub fn apply_amendment(&mut self, grants: &mut GrantBook, grant_id: u64, amendment_version: u32, now: u64) -> (r: Result<
        GrantVersion,
        ContractError,
    >)
        requires
            old(self).wf(),
        ensures
            final(self).wf(),
            final(grants).counter() == old(grants).counter(),
            forall|gg: u64, v: u32| #[trigger] final(self).amendment(gg, v) == old(self).amendment(gg, v),
            forall|gg: u64| #[trigger] final(self).history(gg) == old(self).history(gg),
            ({
                let am = old(self).amendment(grant_id, amendment_version);
                let a = am->0;
                let found = old(grants).grants().contains_key(grant_id);
                let g = old(grants).grants()[grant_id];
                let snap = old(self).spec_current_snapshot(old(grants).grants(), grant_id, now);
                &&& am is None ==> r == Err::<GrantVersion, ContractError>(ContractError::InvalidInput)
                &&& am is Some && a.status != AmendmentStatus::Approved ==> r == Err::<GrantVersion, ContractError>(
                    ContractError::InvalidState)
                &&& am is Some && a.status == AmendmentStatus::Approved && !found ==> r == Err::<GrantVersion, ContractError>(
                    ContractError::GrantNotFound)
                &&& am is Some && a.status == AmendmentStatus::Approved && found && snap is None ==> r == Err::<
                    GrantVersion,
                    ContractError,
                >(ContractError::GrantNotFound)
                &&& r is Ok <==> am is Some && a.status == AmendmentStatus::Approved && found && snap is Some
                &&& r is Err ==> final(grants).grants() == old(grants).grants()
                    && (forall|gg: u64, v: u32| #[trigger] final(self).version(gg, v) == old(self).version(gg, v))
                    && (forall|gg: u64| #[trigger] final(self).current_version_of(gg) == old(self).current_version_of(gg))
                &&& r is Ok ==> {
                    let fields = texts(a.changed_fields@);
                    let values = a.new_values@;
                    let t = spec_last_value(fields, values, "title"@, fields.len() as int);
                    let d = spec_last_value(fields, values, "description"@, fields.len() as int);
                    let cur = snap.unwrap().0;
                    let s = r->Ok_0;
                    &&& s == GrantVersion {
                        version: amendment_version,
                        created_at: now,
                        amendment_id: Some(amendment_version),
                        title: match t { Some(v) => v, None => cur.title },
                        description: match d { Some(v) => v, None => cur.description },
                        ..cur
                    }
                    &&& final(grants).grants() == old(grants).grants().insert(grant_id, Grant {
                        title: match t { Some(v) => v, None => g.title },
                        description: match d { Some(v) => v, None => g.description },
                        ..g
                    })
                    &&& forall|gg: u64, v: u32| #[trigger] final(self).version(gg, v) == if gg == grant_id && v
                        == amendment_version { Some(s) } else if gg == grant_id && v == 1 && snap.unwrap().1 { Some(cur) } else {
                        old(self).version(gg, v) }
                    &&& forall|gg: u64| #[trigger] final(self).current_version_of(gg) == if gg == grant_id { amendment_version } else {
                        old(self).current_version_of(gg) }
                }
            }),
    {
        let k = pair_key(grant_id, amendment_version as u64);
        let (status, nf, nv) = match self.amendments.get(&k) {
            Some(a) => (a.status, a.changed_fields.len(), a.new_values.len()),
            None => return Err(ContractError::InvalidInput),
        };
        if status != AmendmentStatus::Approved {
            return Err(ContractError::InvalidState);
        }
        if !grants.contains(grant_id) {
            return Err(ContractError::GrantNotFound);
        }
        let (mut snapshot, is_new) = match self.current_snapshot(grants, grant_id, now) {
            Some(p) => p,
            None => return Err(ContractError::GrantNotFound),
        };
        let initial = snapshot.duplicate();
        let mut grant = grants.take(grant_id).unwrap();
        let ghost g0 = grant;
        let ghost cur = snapshot;
        let title = "title".to_owned();
        let description = "description".to_owned();
        let amendment = self.amendments.get(&k).unwrap();
        let ghost fields = texts(amendment.changed_fields@);
        let ghost values = amendment.new_values@;
        let mut i: usize = 0;
        while i < nf
            invariant
                nf == amendment.changed_fields@.len(),
                nv == amendment.new_values@.len(),
                nf <= nv,
                i <= nf,
                fields == texts(amendment.changed_fields@),
                values == amendment.new_values@,
                title@ == "title"@,
                description@ == "description"@,
                snapshot == (GrantVersion {
                    title: match spec_last_value(fields, values, "title"@, i as int) { Some(v) => v, None => cur.title },
                    description: match spec_last_value(fields, values, "description"@, i as int) { Some(v) => v, None => cur.description },
                    ..cur
                }),
                grant == (Grant {
                    title: match spec_last_value(fields, values, "title"@, i as int) { Some(v) => v, None => g0.title },
                    description: match spec_last_value(fields, values, "description"@, i as int) { Some(v) => v, None => g0.description },
                    ..g0
                }),
            decreases nf - i,
        {
            let changed = &amendment.changed_fields[i];
            let value = &amendment.new_values[i];
            assert(fields[i as int] == changed@);
            assert(*value == values[i as int]);
            proof {
                reveal_strlit("title");
                reveal_strlit("description");
            }
            if *changed == title {
                snapshot.title = value.clone();
                grant.title = value.clone();
            } else if *changed == description {
                snapshot.description = value.clone();
                grant.description = value.clone();
            }
            i += 1;
        }
        snapshot.version = amendment_version;
        snapshot.created_at = now;
        snapshot.amendment_id = Some(amendment_version);
        grants.set(grant_id, grant);
        let out = snapshot.duplicate();
        if is_new {
            self.set_version(grant_id, 1, initial);
        }
        self.set_version(grant_id, amendment_version, snapshot);
        Ok(out)
    }
}

/// The last value given in `values` for field `f` among the first `n` changed fields.
pub open spec fn spec_last_value(fields: Seq<Seq<char>>, values: Seq<String>, f: Seq<char>, n: int) -> Option<String>
    decreases n,
{
    if n <= 0 {
        None
    } else if fields[n - 1] == f {
        Some(values[n - 1])
    } else {
        spec_last_value(fields, values, f, n - 1)
    }
}

/// Whether this assessor has voted in `votes`.
pub fn has_voted(votes: &Vec<(AccountId, bool)>, reviewer: AccountId) -> (r: bool)
    ensures
        r == amendment_voters(votes@).contains(reviewer),
{
    let mut i: usize = 0;
    while i < votes.len()
        invariant
            i <= votes@.len(),
            forall|j: int| 0 <= j < i ==> votes@[j].0 != reviewer,
        decreases votes@.len() - i,
    {
        if votes[i].0 == reviewer {
            assert(amendment_voters(votes@)[i as int] == reviewer);
            return true;
        }
        i += 1;
    }
    proof {
        if amendment_voters(votes@).contains(reviewer) {
            let j = choose|j: int| 0 <= j < amendment_voters(votes@).len() && amendment_voters(votes@)[j] == reviewer;
            assert(votes@[j].0 == reviewer);
        }
    }
    false
}

} // verus!
