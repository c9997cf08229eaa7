use vstd::prelude::*;
use std::collections::HashMap;

use crate::errors::ContractError;
use crate::types::{AccountId, ComplianceLevel, ComplianceStatus};

verus! {

broadcast use vstd::std_specs::hash::group_hash_axioms;

/// A verifier's statement on an account's compliance (no personal data).
#[derive(Debug)]
pub struct ComplianceAttestation {
    pub subject: AccountId,
    pub status: ComplianceStatus,
    pub level: ComplianceLevel,
    pub attested_by: AccountId,
    pub attested_at: u64,
    pub expires_at: u64,
    pub jurisdiction: String,
}

impl ComplianceAttestation {
    /// A field-by-field copy.
    pub fn duplicate(&self) -> (r: ComplianceAttestation)
        ensures
            r == *self,
    {
        ComplianceAttestation {
            subject: self.subject,
            status: self.status,
            level: self.level,
            attested_by: self.attested_by,
            attested_at: self.attested_at,
            expires_at: self.expires_at,
            jurisdiction: self.jurisdiction.clone(),
        }
    }
}

/// The rank of a compliance level.
pub open spec fn spec_level_rank(l: ComplianceLevel) -> u32 {
    match l {
        ComplianceLevel::NotRequired => 0,
        ComplianceLevel::Basic => 1,
        ComplianceLevel::Standard => 2,
        ComplianceLevel::Enhanced => 3,
    }
}

pub fn level_rank(l: ComplianceLevel) -> (r: u32)
    ensures
        r == spec_level_rank(l),
{
    match l {
        ComplianceLevel::NotRequired => 0,
        ComplianceLevel::Basic => 1,
        ComplianceLevel::Standard => 2,
        ComplianceLevel::Enhanced => 3,
    }
}

/// Whether an attestation is still in force at `now`: not past a set expiry, and neither
/// expired nor rejected.
pub open spec fn spec_is_valid(a: ComplianceAttestation, now: u64) -> bool {
    !(a.expires_at > 0 && now > a.expires_at) && a.status != ComplianceStatus::Expired && a.status != ComplianceStatus::Rejected
}

/// Whether an attestation is still in force at `now`.
pub fn is_valid(a: &ComplianceAttestation, now: u64) -> (r: bool)
    ensures
        r == spec_is_valid(*a, now),
{
    if a.expires_at > 0 && now > a.expires_at {
        return false;
    }
    !(a.status == ComplianceStatus::Expired || a.status == ComplianceStatus::Rejected)
}

/// The outcome of a compliance check of an account with attestation `a` against a
/// required level.
pub open spec fn spec_compliance_check(a: Option<ComplianceAttestation>, required: ComplianceLevel, now: u64) -> Result<
    (),
    ContractError,
> {
    if required == ComplianceLevel::NotRequired {
        Ok(())
    } else {
        match a {
            None => Err(ContractError::ComplianceNotVerified),
            Some(x) => if !spec_is_valid(x, now) || x.status == ComplianceStatus::Rejected {
                Err(ContractError::ComplianceCheckFailed)
            } else if x.status != ComplianceStatus::Approved {
                Err(ContractError::ComplianceNotVerified)
            } else if spec_level_rank(x.level) < spec_level_rank(required) {
                Err(ContractError::ComplianceCheckFailed)
            } else {
                Ok(())
            },
        }
    }
}

/// The trusted verifier and the attestation of each account.
pub struct ComplianceBook {
    trusted: Option<AccountId>,
    attestations: HashMap<u64, ComplianceAttestation>,
}

impl ComplianceBook {
    pub closed spec fn trusted_verifier(&self) -> Option<AccountId> {
        self.trusted
    }

    pub closed spec fn attestation(&self, subject: AccountId) -> Option<ComplianceAttestation> {
        if self.attestations@.contains_key(subject) { Some(self.attestations@[subject]) } else { None }
    }

    pub fn new() -> (b: ComplianceBook)
        ensures
            b.trusted_verifier() is None,
            forall|a: AccountId| #[trigger] b.attestation(a) is None,
    {
        ComplianceBook { trusted: None, attestations: HashMap::new() }
    }

    /// The global admin names the trusted verifier.
    pub fn set_verifier(&mut self, admin: AccountId, global_admin: Option<AccountId>, new_verifier: AccountId) -> (r: Result<
        (),
        ContractError,
    >)
        ensures
            forall|a: AccountId| #[trigger] final(self).attestation(a) == old(self).attestation(a),
            global_admin != Some(admin) ==> r == Err::<(), ContractError>(ContractError::Unauthorized) && final(self).trusted_verifier()
                == old(self).trusted_verifier(),
            global_admin == Some(admin) ==> r == Ok::<(), ContractError>(()) && final(self).trusted_verifier() == Some(new_verifier),
    {
        if global_admin != Some(admin) {
            return Err(ContractError::Unauthorized);
        }
        self.trusted = Some(new_verifier);
        Ok(())
    }

    /// The trusted verifier records an account's compliance at `now`.
    pub fn attest(
        &mut self,
        attester: AccountId,
        subject: AccountId,
        status: ComplianceStatus,
        level: ComplianceLevel,
        expires_at: u64,
        jurisdiction: String,
        now: u64,
    ) -> (r: Result<(), ContractError>)
        ensures
            final(self).trusted_verifier() == old(self).trusted_verifier(),
            old(self).trusted_verifier() is None ==> r == Err::<(), ContractError>(ContractError::VerifierNotSet),
            old(self).trusted_verifier() is Some && old(self).trusted_verifier() != Some(attester) ==> r == Err::<(), ContractError>(
                ContractError::NotVerifier),
            r is Ok <==> old(self).trusted_verifier() == Some(attester),
            r is Err ==> forall|a: AccountId| #[trigger] final(self).attestation(a) == old(self).attestation(a),
            r is Ok ==> forall|a: AccountId| #[trigger] final(self).attestation(a) == if a == subject {
                Some(ComplianceAttestation { subject, status, level, attested_by: attester, attested_at: now, expires_at, jurisdiction })
            } else {
                old(self).attestation(a)
            },
    {
        let registered = match self.trusted {
            Some(v) => v,
            None => return Err(ContractError::VerifierNotSet),
        };
        if attester != registered {
            return Err(ContractError::NotVerifier);
        }
        self.attestations.insert(
            subject,
            ComplianceAttestation { subject, status, level, attested_by: attester, attested_at: now, expires_at, jurisdiction },
        );
        Ok(())
    }

    /// The global admin or the verifier removes an account's attestation.
    pub fn revoke(&mut self, revoker: AccountId, global_admin: Option<AccountId>, subject: AccountId) -> (r: Result<
        (),
        ContractError,
    >)
        ensures
            final(self).trusted_verifier() == old(self).trusted_verifier(),
            !(global_admin == Some(revoker) || old(self).trusted_verifier() == Some(revoker)) ==> r == Err::<(), ContractError>(
                ContractError::Unauthorized) && forall|a: AccountId| #[trigger] final(self).attestation(a) == old(self).attestation(
                a),
            (global_admin == Some(revoker) || old(self).trusted_verifier() == Some(revoker)) ==> r == Ok::<(), ContractError>(()) && forall|
                a: AccountId,
            | #[trigger] final(self).attestation(a) == if a == subject { None } else { old(self).attestation(a) },
    {
        let is_admin = global_admin == Some(revoker);
        let is_verifier = self.trusted == Some(revoker);
        if !is_admin && !is_verifier {
            return Err(ContractError::Unauthorized);
        }
        self.attestations.remove(&subject);
        Ok(())
    }

    /// The attestation of an account.
    pub fn get_attestation(&self, subject: AccountId) -> (r: Option<ComplianceAttestation>)
        ensures
            r == self.attestation(subject),
    {
        match self.attestations.get(&subject) {
            Some(a) => Some(a.duplicate()),
            None => None,
        }
    }

    /// Whether an account meets a required compliance level at `now`: an approved, valid
    /// attestation of at least that level (nothing is needed for `NotRequired`).
    pub fn require_compliant(&self, subject: AccountId, required_level: ComplianceLevel, now: u64) -> (r: Result<(), ContractError>)
        ensures
            r == spec_compliance_check(self.attestation(subject), required_level, now),
    {
        if required_level == ComplianceLevel::NotRequired {
            return Ok(());
        }
        let a = match self.attestations.get(&subject) {
            Some(a) => a,
            None => return Err(ContractError::ComplianceNotVerified),
        };
        if !is_valid(a, now) {
            return Err(ContractError::ComplianceCheckFailed);
        }
        if a.status == ComplianceStatus::Rejected {
            return Err(ContractError::ComplianceCheckFailed);
        }
        if a.status != ComplianceStatus::Approved {
            return Err(ContractError::ComplianceNotVerified);
        }
        if level_rank(a.level) < level_rank(required_level) {
            return Err(ContractError::ComplianceCheckFailed);
        }
        Ok(())
    }
}

} // verus!
