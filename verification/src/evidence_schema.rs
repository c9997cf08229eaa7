use vstd::prelude::*;
use std::collections::HashMap;

use crate::errors::ContractError;
use crate::grants::GrantBook;
use crate::keys::{lemma_pair_key_injective, pair_key, spec_pair_key};
use crate::types::{AccountId, EvidenceFieldType};

verus! {

broadcast use vstd::std_specs::hash::group_hash_axioms;

/// One field that milestone evidence must or may carry.
#[derive(Debug)]
pub struct EvidenceField {
    pub name: String,
    pub field_type: EvidenceFieldType,
    pub required: bool,
}

/// The fields expected of the evidence of one milestone.
#[derive(Debug)]
pub struct EvidenceSchema {
    pub grant_id: u64,
    pub milestone_idx: u32,
    pub fields: Vec<EvidenceField>,
}

/// The evidence submitted for one milestone: a value per field name.
#[derive(Debug)]
pub struct StructuredEvidence {
    pub grant_id: u64,
    pub milestone_idx: u32,
    pub values: Vec<(String, String)>,
    pub submitted_by: AccountId,
    pub submitted_at: u64,
}

/// A field as (name, type, required).
pub open spec fn field_view(f: EvidenceField) -> (Seq<char>, EvidenceFieldType, bool) {
    (f.name@, f.field_type, f.required)
}

/// The names given a value, in order.
pub open spec fn value_names(values: Seq<(String, String)>) -> Seq<Seq<char>> {
    values.map_values(|p: (String, String)| p.0@)
}

/// Whether `names` covers every required field of `fields`.
pub open spec fn spec_covers(fields: Seq<(Seq<char>, EvidenceFieldType, bool)>, names: Seq<Seq<char>>) -> bool {
    forall|i: int| 0 <= i < fields.len() && (#[trigger] fields[i]).2 ==> names.contains(fields[i].0)
}

/// The evidence schemas and the submitted evidence, by (grant, milestone).
pub struct EvidenceBook {
    schemas: HashMap<u128, EvidenceSchema>,
    evidence: HashMap<u128, StructuredEvidence>,
}

impl EvidenceBook {
    /// The fields of the schema of a milestone, if one was set.
    pub closed spec fn schema(&self, grant_id: u64, idx: u32) -> Option<Seq<(Seq<char>, EvidenceFieldType, bool)>> {
        let k = spec_pair_key(grant_id, idx as u64);
        if self.schemas@.contains_key(k) {
            Some(self.schemas@[k].fields@.map_values(|f: EvidenceField| field_view(f)))
        } else {
            None
        }
    }

    /// The field names of the evidence of a milestone, with its submitter and time.
    pub closed spec fn evidence(&self, grant_id: u64, idx: u32) -> Option<(Seq<Seq<char>>, AccountId, u64)> {
        let k = spec_pair_key(grant_id, idx as u64);
        if self.evidence@.contains_key(k) {
            let e = self.evidence@[k];
            Some((value_names(e.values@), e.submitted_by, e.submitted_at))
        } else {
            None
        }
    }

    pub fn new() -> (b: EvidenceBook)
        ensures
            forall|g: u64, i: u32| #[trigger] b.schema(g, i) is None,
            forall|g: u64, i: u32| #[trigger] b.evidence(g, i) is None,
    {
        EvidenceBook { schemas: HashMap::new(), evidence: HashMap::new() }
    }

    /// The grant owner or the global admin sets the evidence schema of a milestone of the
    /// grant (with at least one field).
    pub fn set_schema(
        &mut self,
        grants: &GrantBook,
        caller: AccountId,
        global_admin: Option<AccountId>,
        grant_id: u64,
        milestone_idx: u32,
        fields: Vec<EvidenceField>,
    ) -> (r: Result<(), ContractError>)
        ensures
            forall|g: u64, i: u32| #[trigger] final(self).evidence(g, i) == old(self).evidence(g, i),
            ({
                let found = grants.grants().contains_key(grant_id);
                let gr = grants.grants()[grant_id];
                let allowed = gr.owner == caller || global_admin == Some(caller);
                &&& !found ==> r == Err::<(), ContractError>(ContractError::GrantNotFound)
                &&& found && !allowed ==> r == Err::<(), ContractError>(ContractError::Unauthorized)
                &&& found && allowed && milestone_idx >= gr.total_milestones ==> r == Err::<(), ContractError>(
                    ContractError::MilestoneIndexOutOfBounds)
                &&& found && allowed && milestone_idx < gr.total_milestones && fields@.len() == 0 ==> r == Err::<(), ContractError>(
                    ContractError::InvalidInput)
                &&& r is Ok <==> found && allowed && milestone_idx < gr.total_milestones && fields@.len() > 0
                &&& r is Err ==> forall|g: u64, i: u32| #[trigger] final(self).schema(g, i) == old(self).schema(g, i)
                &&& r is Ok ==> forall|g: u64, i: u32| #[trigger] final(self).schema(g, i) == if g == grant_id && i == milestone_idx {
                    Some(fields@.map_values(|f: EvidenceField| field_view(f)))
                } else {
                    old(self).schema(g, i)
                }
            }),
    {
        let (owner, total) = match grants.get(grant_id) {
            Some(g) => (g.owner, g.total_milestones),
            None => return Err(ContractError::GrantNotFound),
        };
        if owner != caller && global_admin != Some(caller) {
            return Err(ContractError::Unauthorized);
        }
        if milestone_idx >= total {
            return Err(ContractError::MilestoneIndexOutOfBounds);
        }
        if fields.len() == 0 {
            return Err(ContractError::InvalidInput);
        }
        let ghost fv = fields@.map_values(|f: EvidenceField| field_view(f));
        self.schemas.insert(pair_key(grant_id, milestone_idx as u64), EvidenceSchema { grant_id, milestone_idx, fields });
        proof {
            assert forall|g: u64, i: u32| #[trigger] self.schema(g, i) == if g == grant_id && i == milestone_idx {
                Some(fv)
            } else {
                old(self).schema(g, i)
            } by {
                lemma_pair_key_injective(g, i as u64, grant_id, milestone_idx as u64);
            }
        }
        Ok(())
    }

    /// The grant owner submits evidence for a milestone; it must give every required field
    /// of the milestone's schema, if there is one.
    pub fn submit_evidence(
        &mut self,
        grants: &GrantBook,
        caller: AccountId,
        grant_id: u64,
        milestone_idx: u32,
        values: Vec<(String, String)>,
        now: u64,
    ) -> (r: Result<(), ContractError>)
        ensures
            forall|g: u64, i: u32| #[trigger] final(self).schema(g, i) == old(self).schema(g, i),
            ({
                let found = grants.grants().contains_key(grant_id);
                let gr = grants.grants()[grant_id];
                let s = old(self).schema(grant_id, milestone_idx);
                let covered = s matches Some(fs) ==> spec_covers(fs, value_names(values@));
                &&& !found ==> r == Err::<(), ContractError>(ContractError::GrantNotFound)
                &&& found && gr.owner != caller ==> r == Err::<(), ContractError>(ContractError::Unauthorized)
                &&& found && gr.owner == caller && !covered ==> r == Err::<(), ContractError>(ContractError::InvalidInput)
                &&& r is Ok <==> found && gr.owner == caller && covered
                &&& r is Err ==> forall|g: u64, i: u32| #[trigger] final(self).evidence(g, i) == old(self).evidence(g, i)
                &&& r is Ok ==> forall|g: u64, i: u32| #[trigger] final(self).evidence(g, i) == if g == grant_id && i
                    == milestone_idx {
                    Some((value_names(values@), caller, now))
                } else {
                    old(self).evidence(g, i)
                }
            }),
    {
        let owner = match grants.get(grant_id) {
            Some(g) => g.owner,
            None => return Err(ContractError::GrantNotFound),
        };
        if owner != caller {
            return Err(ContractError::Unauthorized);
        }
        let k = pair_key(grant_id, milestone_idx as u64);
        match self.schemas.get(&k) {
            Some(schema) => {
                if !covers(&schema.fields, &values) {
                    return Err(ContractError::InvalidInput);
                }
            },
            None => {},
        }
        let ghost names = value_names(values@);
        self.evidence.insert(k, StructuredEvidence { grant_id, milestone_idx, values, submitted_by: caller, submitted_at: now });
        proof {
            assert forall|g: u64, i: u32| #[trigger] self.evidence(g, i) == if g == grant_id && i == milestone_idx {
                Some((names, caller, now))
            } else {
                old(self).evidence(g, i)
            } by {
                lemma_pair_key_injective(g, i as u64, grant_id, milestone_idx as u64);
            }
        }
        Ok(())
    }

    /// Whether the evidence of a milestone meets its schema: nothing to check without a
    /// schema; `InvalidInput` without evidence or with a required field missing.
    pub fn validate_evidence(&self, grant_id: u64, milestone_idx: u32) -> (r: Result<(), ContractError>)
        ensures
            r == match self.schema(grant_id, milestone_idx) {
                None => Ok::<(), ContractError>(()),
                Some(fs) => match self.evidence(grant_id, milestone_idx) {
                    None => Err(ContractError::InvalidInput),
                    Some(e) => if spec_covers(fs, e.0) { Ok(()) } else { Err(ContractError::InvalidInput) },
                },
            },
    {
        let k = pair_key(grant_id, milestone_idx as u64);
        let schema = match self.schemas.get(&k) {
            Some(s) => s,
            None => return Ok(()),
        };
        let evidence = match self.evidence.get(&k) {
            Some(e) => e,
            None => return Err(ContractError::InvalidInput),
        };
        if !covers(&schema.fields, &evidence.values) {
            return Err(ContractError::InvalidInput);
        }
        Ok(())
    }
}

/// Whether `values` names every required field of `fields`.
pub fn covers(fields: &Vec<EvidenceField>, values: &Vec<(String, String)>) -> (r: bool)
    ensures
        r == spec_covers(fields@.map_values(|f: EvidenceField| field_view(f)), value_names(values@)),
{
    let ghost fv = fields@.map_values(|f: EvidenceField| field_view(f));
    let ghost names = value_names(values@);
    let mut i: usize = 0;
    while i < fields.len()
        invariant
            i <= fields@.len(),
            fv == fields@.map_values(|f: EvidenceField| field_view(f)),
            names == value_names(values@),
            forall|j: int| 0 <= j < i && (#[trigger] fv[j]).2 ==> names.contains(fv[j].0),
        decreases fields@.len() - i,
    {
        let f = &fields[i];
        assert(fv[i as int] == field_view(*f));
        if f.required {
            let mut found = false;
            let mut k: usize = 0;
            while k < values.len()
                invariant
                    k <= values@.len(),
                    names == value_names(values@),
                    found == names.take(k as int).contains(f.name@),
                decreases values@.len() - k,
            {
                proof {
                    broadcast use vstd::seq_lib::lemma_seq_contains_after_push;
                    assert(names.take(k + 1) == names.take(k as int).push(names[k as int]));
                    assert(names[k as int] == values@[k as int].0@);
                }
                if values[k].0 == f.name {
                    found = true;
                }
                k += 1;
            }
            proof {
                assert(names.take(names.len() as int) == names);
            }
            if !found {
                assert(!spec_covers(fv, names));
                return false;
            }
        }
        i += 1;
    }
    true
}

} // verus!
