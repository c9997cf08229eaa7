use vstd::prelude::*;
use std::collections::HashMap;

use crate::constants::MAX_SUBSCRIPTIONS_PER_ADDRESS;
use crate::errors::ContractError;
use crate::keys::{lemma_pair_key_injective, pair_key, spec_pair_key};
use crate::types::{AccountId, NotificationEvent};

verus! {

broadcast use vstd::std_specs::hash::group_hash_axioms;

/// What a subscription covers.
#[derive(Clone, Copy, Debug, PartialEq, Eq, Structural)]
pub enum SubscriptionScope {
    Global,
    PerGrant(u64),
    PerContributor(AccountId),
    PerTag(u128),
}

/// One subscription of an account to an event within a scope.
#[derive(Clone, Copy, Debug, PartialEq, Eq, Structural)]
pub struct Subscription {
    pub subscriber: AccountId,
    pub event: NotificationEvent,
    pub scope: SubscriptionScope,
    pub subscribed_at: u64,
    pub is_active: bool,
}

/// The number of a notification event.
pub open spec fn spec_event_code(e: NotificationEvent) -> u32 {
    match e {
        NotificationEvent::NewGrant => 0,
        NotificationEvent::MilestoneSubmitted => 1,
        NotificationEvent::MilestoneApproved => 2,
        NotificationEvent::MilestoneRejected => 3,
        NotificationEvent::DisputeRaised => 4,
        NotificationEvent::GrantCompleted => 5,
        NotificationEvent::BountyPosted => 6,
        NotificationEvent::ReviewerRequested => 7,
    }
}

pub fn event_code(e: NotificationEvent) -> (r: u32)
    ensures
        r == spec_event_code(e),
{
    match e {
        NotificationEvent::NewGrant => 0,
        NotificationEvent::MilestoneSubmitted => 1,
        NotificationEvent::MilestoneApproved => 2,
        NotificationEvent::MilestoneRejected => 3,
        NotificationEvent::DisputeRaised => 4,
        NotificationEvent::GrantCompleted => 5,
        NotificationEvent::BountyPosted => 6,
        NotificationEvent::ReviewerRequested => 7,
    }
}

/// The kind of a scope and the data it carries (a grant id or a tag hash; 0 otherwise).
pub open spec fn spec_scope_type_and_data(scope: SubscriptionScope) -> (u32, u128) {
    match scope {
        SubscriptionScope::Global => (0, 0),
        SubscriptionScope::PerGrant(id) => (1, id as u128),
        SubscriptionScope::PerContributor(_) => (2, 0),
        SubscriptionScope::PerTag(h) => (3, h),
    }
}

pub fn scope_type_and_data(scope: SubscriptionScope) -> (r: (u32, u128))
    ensures
        r == spec_scope_type_and_data(scope),
{
    match scope {
        SubscriptionScope::Global => (0, 0),
        SubscriptionScope::PerGrant(id) => (1, id as u128),
        SubscriptionScope::PerContributor(_) => (2, 0),
        SubscriptionScope::PerTag(h) => (3, h),
    }
}

/// The topics under which a notification is published: the event's number, the scope's
/// kind and its data.
pub fn notification_topics(event: NotificationEvent, scope: SubscriptionScope) -> (r: (u32, u32, u128))
    ensures
        r == (spec_event_code(event), spec_scope_type_and_data(scope).0, spec_scope_type_and_data(scope).1),
{
    let (t, d) = scope_type_and_data(scope);
    (event_code(event), t, d)
}

/// The first subscription of `subs` to `event` in `scope`, by index, or `subs.len()`.
pub open spec fn spec_find_sub(subs: Seq<Subscription>, event: NotificationEvent, scope: SubscriptionScope, i: int) -> int
    decreases subs.len() - i,
{
    if i < 0 || i >= subs.len() {
        subs.len() as int
    } else if subs[i].event == event && subs[i].scope == scope {
        i
    } else {
        spec_find_sub(subs, event, scope, i + 1)
    }
}

/// The subscriptions of each account, and the subscribers of each (event, scope kind).
pub struct NotificationBook {
    subs: HashMap<u64, Vec<Subscription>>,
    lists: HashMap<u128, Vec<AccountId>>,
}

impl NotificationBook {
    /// An account's subscriptions, in subscription order.
    pub closed spec fn subscriptions(&self, subscriber: AccountId) -> Seq<Subscription> {
        if self.subs@.contains_key(subscriber) { self.subs@[subscriber]@ } else { Seq::empty() }
    }

    /// The subscribers of an event in a kind of scope.
    pub closed spec fn subscribers(&self, event_code: u32, scope_type: u32) -> Seq<AccountId> {
        let k = spec_pair_key(event_code as u64, scope_type as u64);
        if self.lists@.contains_key(k) { self.lists@[k]@ } else { Seq::empty() }
    }

    pub fn new() -> (b: NotificationBook)
        ensures
            forall|a: AccountId| #[trigger] b.subscriptions(a) == Seq::<Subscription>::empty(),
            forall|e: u32, t: u32| #[trigger] b.subscribers(e, t) == Seq::<AccountId>::empty(),
    {
        NotificationBook { subs: HashMap::new(), lists: HashMap::new() }
    }

    fn subs_of(&self, subscriber: AccountId) -> (r: Vec<Subscription>)
        ensures
            r@ == self.subscriptions(subscriber),
    {
        match self.subs.get(&subscriber) {
            Some(l) => {
                let mut out: Vec<Subscription> = Vec::new();
                let mut i: usize = 0;
                while i < l.len()
                    invariant
                        i <= l@.len(),
                        out@ == l@.take(i as int),
                    decreases l@.len() - i,
                {
                    out.push(l[i]);
                    proof {
                        assert(l@.take(i + 1) == l@.take(i as int).push(l@[i as int]));
                    }
                    i += 1;
                }
                proof {
                    assert(l@.take(l@.len() as int) == l@);
                }
                out
            },
            None => Vec::new(),
        }
    }

    fn list_of(&self, event_code: u32, scope_type: u32) -> (r: Vec<AccountId>)
        ensures
            r@ == self.subscribers(event_code, scope_type),
    {
        match self.lists.get(&pair_key(event_code as u64, scope_type as u64)) {
            Some(l) => {
                let mut out: Vec<AccountId> = Vec::new();
                let mut i: usize = 0;
                while i < l.len()
                    invariant
                        i <= l@.len(),
                        out@ == l@.take(i as int),
                    decreases l@.len() - i,
                {
                    out.push(l[i]);
                    proof {
                        assert(l@.take(i + 1) == l@.take(i as int).push(l@[i as int]));
                    }
                    i += 1;
                }
                proof {
                    assert(l@.take(l@.len() as int) == l@);
                }
                out
            },
            None => Vec::new(),
        }
    }

    fn set_list(&mut self, event_code: u32, scope_type: u32, list: Vec<AccountId>)
        ensures
            forall|a: AccountId| #[trigger] final(self).subscriptions(a) == old(self).subscriptions(a),
            forall|e: u32, t: u32| #[trigger] final(self).subscribers(e, t) == if e == event_code && t == scope_type {
                list@
            } else {
                old(self).subscribers(e, t)
            },
    {
        let ghost l = list@;
        self.lists.insert(pair_key(event_code as u64, scope_type as u64), list);
        proof {
            assert forall|e: u32, t: u32| #[trigger] self.subscribers(e, t) == if e == event_code && t == scope_type {
                l
            } else {
                old(self).subscribers(e, t)
            } by {
                lemma_pair_key_injective(e as u64, t as u64, event_code as u64, scope_type as u64);
            }
        }
    }

    /// Subscribe an account to an event in a scope (at most fifty subscriptions; subscribing
    /// twice changes nothing); the account joins the subscribers of the event and scope kind.
    pub fn subscribe(&mut self, subscriber: AccountId, event: NotificationEvent, scope: SubscriptionScope, now: u64) -> (r:
        Result<(), ContractError>)
        ensures
            ({
                let subs = old(self).subscriptions(subscriber);
                let dup = spec_find_sub(subs, event, scope, 0) < subs.len();
                let key = (spec_event_code(event), spec_scope_type_and_data(scope).0);
                let list = old(self).subscribers(key.0, key.1);
                &&& subs.len() >= MAX_SUBSCRIPTIONS_PER_ADDRESS ==> r == Err::<(), ContractError>(ContractError::InvalidInput)
                &&& subs.len() < MAX_SUBSCRIPTIONS_PER_ADDRESS ==> r == Ok::<(), ContractError>(())
                &&& (r is Err || dup) ==> (forall|a: AccountId| #[trigger] final(self).subscriptions(a) == old(self).subscriptions(a))
                    && (forall|e: u32, t: u32| #[trigger] final(self).subscribers(e, t) == old(self).subscribers(e, t))
                &&& r is Ok && !dup ==> (forall|a: AccountId| #[trigger] final(self).subscriptions(a) == if a == subscriber {
                    subs.push(Subscription { subscriber, event, scope, subscribed_at: now, is_active: true })
                } else {
                    old(self).subscriptions(a)
                }) && (forall|e: u32, t: u32| #[trigger] final(self).subscribers(e, t) == if e == key.0 && t == key.1
                    && !list.contains(subscriber) {
                    list.push(subscriber)
                } else {
                    old(self).subscribers(e, t)
                })
            }),
    {
        let mut existing = self.subs_of(subscriber);
        if existing.len() >= MAX_SUBSCRIPTIONS_PER_ADDRESS as usize {
            return Err(ContractError::InvalidInput);
        }
        let pos = find_sub(&existing, event, scope);
        if pos < existing.len() {
            return Ok(());
        }
        existing.push(Subscription { subscriber, event, scope, subscribed_at: now, is_active: true });
        self.subs.insert(subscriber, existing);
        let ghost mid = *self;
        let scope_type = scope_type_and_data(scope).0;
        let code = event_code(event);
        let mut list = self.list_of(code, scope_type);
        if !crate::escrow::contains_account(&list, subscriber) {
            list.push(subscriber);
            self.set_list(code, scope_type, list);
        }
        proof {
            assert forall|a: AccountId| #[trigger] self.subscriptions(a) == mid.subscriptions(a) by {}
        }
        Ok(())
    }

    /// Remove an account's first subscription to an event in a scope (if any) and its first
    /// entry among the subscribers of the event and scope kind (if any).
    #[verifier::loop_isolation(false)]
    pub fn unsubscribe(&mut self, subscriber: AccountId, event: NotificationEvent, scope: SubscriptionScope) -> (r: Result<
        (),
        ContractError,
    >)
        ensures
            r == Ok::<(), ContractError>(()),
            ({
                let subs = old(self).subscriptions(subscriber);
                let pos = spec_find_sub(subs, event, scope, 0);
                let key = (spec_event_code(event), spec_scope_type_and_data(scope).0);
                let list = old(self).subscribers(key.0, key.1);
                &&& forall|a: AccountId| #[trigger] final(self).subscriptions(a) == if a == subscriber && pos < subs.len() {
                    subs.remove(pos)
                } else {
                    old(self).subscriptions(a)
                }
                &&& forall|e: u32, t: u32| #[trigger] final(self).subscribers(e, t) == if e == key.0 && t == key.1 && list.contains(
                    subscriber,
                ) {
                    list.remove(crate::grant_index::spec_first_from(list, subscriber, 0))
                } else {
                    old(self).subscribers(e, t)
                }
            }),
    {
        let mut subs = self.subs_of(subscriber);
        let pos = find_sub(&subs, event, scope);
        let ghost s0 = subs@;
        if pos < subs.len() {
            subs.remove(pos);
        }
        self.subs.insert(subscriber, subs);
        proof {
            assert forall|a: AccountId| #[trigger] self.subscriptions(a) == if a == subscriber && pos < s0.len() {
                s0.remove(pos as int)
            } else {
                old(self).subscriptions(a)
            } by {}
        }
        let ghost mid = *self;
        proof {
            assert forall|e: u32, t: u32| #[trigger] mid.subscribers(e, t) == old(self).subscribers(e, t) by {}
        }
        let scope_type = scope_type_and_data(scope).0;
        let code = event_code(event);
        let mut list = self.list_of(code, scope_type);
        let ghost l0 = list@;
        let mut i: usize = 0;
        while i < list.len()
            invariant
                i <= list@.len(),
                list@ == l0,
                *self == mid,
                l0 == mid.subscribers(code, scope_type),
                forall|j: int| 0 <= j < i ==> list@[j] != subscriber,
                crate::grant_index::spec_first_from(l0, subscriber, 0) == crate::grant_index::spec_first_from(l0, subscriber,
                    i as int),
            decreases list@.len() - i,
        {
            if list[i] == subscriber {
                proof {
                    assert(l0.contains(subscriber));
                    assert(crate::grant_index::spec_first_from(l0, subscriber, i as int) == i);
                }
                list.remove(i);
                self.set_list(code, scope_type, list);
                proof {
                    assert forall|a: AccountId| #[trigger] self.subscriptions(a) == mid.subscriptions(a) by {}
                }
                return Ok(());
            }
            i += 1;
        }
        proof {
            assert(!l0.contains(subscriber));
        }
        Ok(())
    }

    /// An account's subscriptions.
    pub fn get_subscriptions(&self, subscriber: AccountId) -> (r: Vec<Subscription>)
        ensures
            r@ == self.subscriptions(subscriber),
    {
        self.subs_of(subscriber)
    }

    /// The subscribers of an event in the kind of a scope.
    pub fn get_subscribers(&self, event: NotificationEvent, scope: SubscriptionScope) -> (r: Vec<AccountId>)
        ensures
            r@ == self.subscribers(spec_event_code(event), spec_scope_type_and_data(scope).0),
    {
        self.list_of(event_code(event), scope_type_and_data(scope).0)
    }

    /// Whether an account has an active subscription to an event in a scope.
    pub fn is_subscribed(&self, subscriber: AccountId, event: NotificationEvent, scope: SubscriptionScope) -> (r: bool)
        ensures
            r == exists|i: int| 0 <= i < self.subscriptions(subscriber).len() && (#[trigger] self.subscriptions(subscriber)[i]).event
                == event && self.subscriptions(subscriber)[i].scope == scope && self.subscriptions(subscriber)[i].is_active,
    {
        let subs = self.subs_of(subscriber);
        let mut i: usize = 0;
        while i < subs.len()
            invariant
                i <= subs@.len(),
                subs@ == self.subscriptions(subscriber),
                forall|j: int| 0 <= j < i ==> !((#[trigger] subs@[j]).event == event && subs@[j].scope == scope && subs@[j].is_active),
            decreases subs@.len() - i,
        {
            let s = subs[i];
            if s.event == event && s.scope == scope && s.is_active {
                return true;
            }
            i += 1;
        }
        false
    }
}

/// Index of the first subscription of `subs` to `event` in `scope`, or `subs.len()`.
fn find_sub(subs: &Vec<Subscription>, event: NotificationEvent, scope: SubscriptionScope) -> (r: usize)
    ensures
        r == spec_find_sub(subs@, event, scope, 0),
        r <= subs@.len(),
{
    let mut i: usize = 0;
    while i < subs.len()
        invariant
            i <= subs@.len(),
            spec_find_sub(subs@, event, scope, 0) == spec_find_sub(subs@, event, scope, i as int),
        decreases subs@.len() - i,
    {
        let s = subs[i];
        if s.event == event && s.scope == scope {
            return i;
        }
        i += 1;
    }
    i
}

} // verus!
