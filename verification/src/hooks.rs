use vstd::prelude::*;
use std::collections::HashMap;

use crate::constants::MAX_HOOKS_PER_EVENT;
use crate::errors::ContractError;
use crate::types::{AccountId, HookCallResult, HookEvent};

verus! {

/// The payload of the event published for each hook called.
#[derive(Clone, Copy, Debug, PartialEq, Eq, Structural)]
pub struct HookTriggered {
    pub event: u32,
    pub hook_index: u32,
    pub success: bool,
}


broadcast use vstd::std_specs::hash::group_hash_axioms;

/// An external contract called back on an event.
#[derive(Clone, Copy, Debug, PartialEq, Eq, Structural)]
pub struct HookRegistration {
    pub event: HookEvent,
    pub target_contract: AccountId,
    pub registered_by: AccountId,
    pub registered_at: u64,
    pub is_active: bool,
    pub max_gas_budget: u32,
}

/// The number of a hook event.
pub open spec fn spec_hook_event_code(e: HookEvent) -> u32 {
    match e {
        HookEvent::GrantCreated => 0,
        HookEvent::MilestoneApproved => 1,
        HookEvent::MilestonePaid => 2,
        HookEvent::DisputeRaised => 3,
        HookEvent::DisputeResolved => 4,
        HookEvent::ContributorRegistered => 5,
        HookEvent::BountyAwarded => 6,
    }
}

pub fn hook_event_code(e: HookEvent) -> (r: u32)
    ensures
        r == spec_hook_event_code(e),
{
    match e {
        HookEvent::GrantCreated => 0,
        HookEvent::MilestoneApproved => 1,
        HookEvent::MilestonePaid => 2,
        HookEvent::DisputeRaised => 3,
        HookEvent::DisputeResolved => 4,
        HookEvent::ContributorRegistered => 5,
        HookEvent::BountyAwarded => 6,
    }
}

/// The indexes and targets of the active hooks among `hooks`, in order.
pub open spec fn spec_active_calls(hooks: Seq<HookRegistration>, n: int) -> Seq<(u32, AccountId)>
    decreases n,
{
    if n <= 0 {
        Seq::empty()
    } else {
        let prev = spec_active_calls(hooks, n - 1);
        if hooks[n - 1].is_active { prev.push(((n - 1) as u32, hooks[n - 1].target_contract)) } else { prev }
    }
}

/// The registered hooks of each event.
pub struct HookRegistry {
    hooks: HashMap<u32, Vec<HookRegistration>>,
}

impl HookRegistry {
    /// The hooks of an event, in registration order.
    pub closed spec fn hooks_of(&self, event: HookEvent) -> Seq<HookRegistration> {
        let c = spec_hook_event_code(event);
        if self.hooks@.contains_key(c) { self.hooks@[c]@ } else { Seq::empty() }
    }

    pub fn new() -> (r: HookRegistry)
        ensures
            forall|e: HookEvent| #[trigger] r.hooks_of(e) == Seq::<HookRegistration>::empty(),
    {
        HookRegistry { hooks: HashMap::new() }
    }

    fn list(&self, event: HookEvent) -> (r: Vec<HookRegistration>)
        ensures
            r@ == self.hooks_of(event),
    {
        match self.hooks.get(&hook_event_code(event)) {
            Some(l) => {
                let mut out: Vec<HookRegistration> = Vec::new();
                let mut i: usize = 0;
                while i < l.len()
                    invariant
                        i <= l@.len(),
                        out@ == l@.take(i as int),
                    decreases l@.len() - i,
                {
                    out.push(l[i]);
                    proof {
                        assert(l@.take(i + 1) == l@.take(i as int).push(l@[i as int]));
                    }
                    i += 1;
                }
                proof {
                    assert(l@.take(l@.len() as int) == l@);
                }
                out
            },
            None => Vec::new(),
        }
    }

    fn store(&mut self, event: HookEvent, list: Vec<HookRegistration>)
        ensures
            forall|e: HookEvent| #[trigger] final(self).hooks_of(e) == if e == event { list@ } else { old(self).hooks_of(e) },
    {
        let ghost l = list@;
        self.hooks.insert(hook_event_code(event), list);
        proof {
            assert forall|e: HookEvent| #[trigger] self.hooks_of(e) == if e == event { l } else { old(self).hooks_of(e) } by {
                if spec_hook_event_code(e) == spec_hook_event_code(event) {
                    assert(e == event);
                }
            }
        }
    }

    /// Register a contract to be called back on an event (at most five per event); returns
    /// its index.
    pub fn register_hook(&mut self, admin: AccountId, event: HookEvent, target_contract: AccountId, max_gas_budget: u32, now: u64)
        -> (r: Result<u32, ContractError>)
        ensures
            old(self).hooks_of(event).len() >= MAX_HOOKS_PER_EVENT ==> r == Err::<u32, ContractError>(
                ContractError::HookLimitExceeded) && forall|e: HookEvent| #[trigger] final(self).hooks_of(e) == old(self).hooks_of(e),
            old(self).hooks_of(event).len() < MAX_HOOKS_PER_EVENT ==> r == Ok::<u32, ContractError>(
                old(self).hooks_of(event).len() as u32) && forall|e: HookEvent| #[trigger] final(self).hooks_of(e) == if e == event {
                old(self).hooks_of(event).push(HookRegistration {
                    event,
                    target_contract,
                    registered_by: admin,
                    registered_at: now,
                    is_active: true,
                    max_gas_budget,
                })
            } else {
                old(self).hooks_of(e)
            },
    {
        let mut hooks = self.list(event);
        if hooks.len() >= MAX_HOOKS_PER_EVENT as usize {
            return Err(ContractError::HookLimitExceeded);
        }
        let hook_index = hooks.len() as u32;
        hooks.push(HookRegistration { event, target_contract, registered_by: admin, registered_at: now, is_active: true, max_gas_budget });
        self.store(event, hooks);
        Ok(hook_index)
    }

    /// Deactivate a registered, active hook.
    pub fn deactivate_hook(&mut self, admin: AccountId, event: HookEvent, hook_index: u32) -> (r: Result<(), ContractError>)
        ensures
            ({
                let hs = old(self).hooks_of(event);
                &&& hook_index >= hs.len() ==> r == Err::<(), ContractError>(ContractError::HookNotFound)
                &&& hook_index < hs.len() && !hs[hook_index as int].is_active ==> r == Err::<(), ContractError>(
                    ContractError::HookAlreadyInactive)
                &&& r is Ok <==> hook_index < hs.len() && hs[hook_index as int].is_active
                &&& r is Err ==> forall|e: HookEvent| #[trigger] final(self).hooks_of(e) == old(self).hooks_of(e)
                &&& r is Ok ==> forall|e: HookEvent| #[trigger] final(self).hooks_of(e) == if e == event {
                    hs.update(hook_index as int, HookRegistration { is_active: false, ..hs[hook_index as int] })
                } else {
                    old(self).hooks_of(e)
                }
            }),
    {
        let mut hooks = self.list(event);
        if hook_index as usize >= hooks.len() {
            return Err(ContractError::HookNotFound);
        }
        let hook = hooks[hook_index as usize];
        if !hook.is_active {
            return Err(ContractError::HookAlreadyInactive);
        }
        hooks.set(hook_index as usize, HookRegistration { is_active: false, ..hook });
        self.store(event, hooks);
        Ok(())
    }

    /// The hooks of an event.
    pub fn get_hooks(&self, event: HookEvent) -> (r: Vec<HookRegistration>)
        ensures
            r@ == self.hooks_of(event),
    {
        self.list(event)
    }

    /// Whether an event has an active hook.
    pub fn has_hooks(&self, event: HookEvent) -> (r: bool)
        ensures
            r == exists|i: int| 0 <= i < self.hooks_of(event).len() && (#[trigger] self.hooks_of(event)[i]).is_active,
    {
        let hooks = self.list(event);
        let mut i: usize = 0;
        while i < hooks.len()
            invariant
                i <= hooks@.len(),
                hooks@ == self.hooks_of(event),
                forall|j: int| 0 <= j < i ==> !(#[trigger] hooks@[j]).is_active,
            decreases hooks@.len() - i,
        {
            if hooks[i].is_active {
                return true;
            }
            i += 1;
        }
        false
    }

    /// The calls an event triggers: the index and target of each active hook, in order.
    pub fn trigger_calls(&self, event: HookEvent) -> (r: Vec<(u32, AccountId)>)
        requires
            self.hooks_of(event).len() <= u32::MAX,
        ensures
            r@ == spec_active_calls(self.hooks_of(event), self.hooks_of(event).len() as int),
    {
        let hooks = self.list(event);
        let mut calls: Vec<(u32, AccountId)> = Vec::new();
        let mut i: usize = 0;
        while i < hooks.len()
            invariant
                i <= hooks@.len(),
                hooks@.len() <= u32::MAX,
                calls@ == spec_active_calls(hooks@, i as int),
            decreases hooks@.len() - i,
        {
            if hooks[i].is_active {
                calls.push((i as u32, hooks[i].target_contract));
            }
            i += 1;
        }
        calls
    }
}

/// The results of the calls an event triggered: one per call, successful or failed with
/// code 1, as reported in `successes` (in call order).
pub fn trigger_results(calls: &Vec<(u32, AccountId)>, successes: &Vec<bool>) -> (r: Vec<HookCallResult>)
    requires
        successes@.len() == calls@.len(),
    ensures
        r@.len() == calls@.len(),
        forall|i: int| 0 <= i < calls@.len() ==> #[trigger] r@[i] == (HookCallResult {
            hook_index: calls@[i].0,
            success: successes@[i],
            error_code: if successes@[i] { None } else { Some(1u32) },
        }),
{
    let mut results: Vec<HookCallResult> = Vec::new();
    let mut i: usize = 0;
    while i < calls.len()
        invariant
            i <= calls@.len(),
            successes@.len() == calls@.len(),
            results@.len() == i,
            forall|j: int| 0 <= j < i ==> #[trigger] results@[j] == (HookCallResult {
                hook_index: calls@[j].0,
                success: successes@[j],
                error_code: if successes@[j] { None } else { Some(1u32) },
            }),
        decreases calls@.len() - i,
    {
        let success = successes[i];
        let error_code: Option<u32> = if success { None } else { Some(1) };
        results.push(HookCallResult { hook_index: calls[i].0, success, error_code });
        i += 1;
    }
    results
}

} // verus!
