use vstd::prelude::*;
use std::collections::HashMap;

use crate::types::{AccountId, GrantStatus};

verus! {

broadcast use vstd::std_specs::hash::group_hash_axioms;

/// No index list grows past this many grant ids.
pub const INDEX_BUCKET_LIMIT: u32 = 10_000;

/// The number under which a grant status is indexed.
pub open spec fn spec_status_code(s: GrantStatus) -> u64 {
    match s {
        GrantStatus::Active => 1,
        GrantStatus::Cancelled => 2,
        GrantStatus::Completed => 3,
    }
}

pub fn status_code(s: GrantStatus) -> (r: u64)
    ensures
        r == spec_status_code(s),
{
    match s {
        GrantStatus::Active => 1,
        GrantStatus::Cancelled => 2,
        GrantStatus::Completed => 3,
    }
}

/// The page of `list` that starts at `offset` and holds at most `limit` entries.
pub open spec fn spec_page(list: Seq<u64>, offset: int, limit: int) -> Seq<u64> {
    if offset >= list.len() {
        Seq::empty()
    } else if offset + limit >= list.len() {
        list.subrange(offset, list.len() as int)
    } else {
        list.subrange(offset, offset + limit)
    }
}

/// The page of `list` that starts at `offset` and holds at most `limit` entries.
pub fn paginate(list: &Vec<u64>, offset: u32, limit: u32) -> (r: Vec<u64>)
    ensures
        r@ == spec_page(list@, offset as int, limit as int),
{
    let len = list.len();
    let start = offset as usize;
    if start >= len {
        return Vec::new();
    }
    let end: usize = if (limit as usize) >= len - start { len } else { start + limit as usize };
    let mut out: Vec<u64> = Vec::new();
    let mut i = start;
    while i < end
        invariant
            start <= i <= end <= len == list@.len(),
            out@ == list@.subrange(start as int, i as int),
        decreases end - i,
    {
        out.push(list[i]);
        proof {
            assert(list@.subrange(start as int, i + 1) == list@.subrange(start as int, i as int).push(list@[i as int]));
        }
        i += 1;
    }
    out
}

/// Lists of grant ids, one per key.
pub struct IdLists {
    lists: HashMap<u64, Vec<u64>>,
}

impl IdLists {
    /// The list under `key` (empty when nothing was stored).
    pub closed spec fn list(&self, key: u64) -> Seq<u64> {
        if self.lists@.contains_key(key) { self.lists@[key]@ } else { Seq::empty() }
    }

    pub fn new() -> (r: IdLists)
        ensures
            forall|k: u64| #[trigger] r.list(k) == Seq::<u64>::empty(),
    {
        IdLists { lists: HashMap::new() }
    }

    /// A copy of the list under `key`.
    pub fn get(&self, key: u64) -> (r: Vec<u64>)
        ensures
            r@ == self.list(key),
    {
        match self.lists.get(&key) {
            Some(l) => {
                let mut out: Vec<u64> = Vec::new();
                let mut i: usize = 0;
                while i < l.len()
                    invariant
                        i <= l@.len(),
                        out@ == l@.take(i as int),
                    decreases l@.len() - i,
                {
                    out.push(l[i]);
                    proof {
                        assert(l@.take(i + 1) == l@.take(i as int).push(l@[i as int]));
                    }
                    i += 1;
                }
                proof {
                    assert(l@.take(l@.len() as int) == l@);
                }
                out
            },
            None => Vec::new(),
        }
    }

    /// Append `id` to the list under `key` unless it is there already or the list is full.
    pub fn push_to_index(&mut self, key: u64, id: u64)
        ensures
            forall|k: u64| #[trigger] final(self).list(k) == if k == key && old(self).list(key).len() < INDEX_BUCKET_LIMIT
                && !old(self).list(key).contains(id) {
                old(self).list(key).push(id)
            } else {
                old(self).list(k)
            },
    {
        let mut l = self.get(key);
        if l.len() < INDEX_BUCKET_LIMIT as usize && !crate::matching::contains_id(&l, id) {
            l.push(id);
            self.lists.insert(key, l);
        }
    }

    /// Remove the first occurrence of `id` from the list under `key`, if any.
    pub fn remove_from_index(&mut self, key: u64, id: u64)
        ensures
            forall|k: u64| #[trigger] final(self).list(k) == if k == key && old(self).list(key).contains(id) {
                old(self).list(key).remove(spec_first_from(old(self).list(key), id, 0))
            } else {
                old(self).list(k)
            },
    {
        let mut l = self.get(key);
        let mut i: usize = 0;
        while i < l.len()
            invariant
                i <= l@.len(),
                l@ == old(self).list(key),
                *self == *old(self),
                forall|j: int| 0 <= j < i ==> l@[j] != id,
                spec_first_from(l@, id, 0) == spec_first_from(l@, id, i as int),
            decreases l@.len() - i,
        {
            if l[i] == id {
                proof {
                    assert(l@.contains(id));
                }
                l.remove(i);
                self.lists.insert(key, l);
                return;
            }
            i += 1;
        }
        proof {
            assert(!l@.contains(id));
        }
    }
}

/// Index of the first `x` in `s` at or after `i`, or `s.len()`.
pub open spec fn spec_first_from(s: Seq<u64>, x: u64, i: int) -> int
    decreases s.len() - i,
{
    if i >= s.len() || i < 0 {
        s.len() as int
    } else if s[i] == x {
        i
    } else {
        spec_first_from(s, x, i + 1)
    }
}

/// The grant indexes: by owner, by status, by token and by contributor, and the global
/// creation order.
pub struct GrantIndex {
    by_owner_lists: IdLists,
    by_status_lists: IdLists,
    by_token_lists: IdLists,
    by_contrib_lists: IdLists,
    global: Vec<u64>,
}

impl GrantIndex {
    pub closed spec fn global_order(&self) -> Seq<u64> {
        self.global@
    }

    /// The grants indexed under an owner.
    pub closed spec fn owner_list(&self, owner: u64) -> Seq<u64> {
        self.by_owner_lists.list(owner)
    }

    /// The grants indexed under a status code.
    pub closed spec fn status_list(&self, code: u64) -> Seq<u64> {
        self.by_status_lists.list(code)
    }

    /// The grants indexed under a token.
    pub closed spec fn token_list(&self, token: u64) -> Seq<u64> {
        self.by_token_lists.list(token)
    }

    /// The grants indexed under a contributor.
    pub closed spec fn contrib_list(&self, contributor: u64) -> Seq<u64> {
        self.by_contrib_lists.list(contributor)
    }

    pub fn new() -> (r: GrantIndex)
        ensures
            forall|k: u64| #[trigger] r.owner_list(k) == Seq::<u64>::empty(),
            forall|k: u64| #[trigger] r.status_list(k) == Seq::<u64>::empty(),
            forall|k: u64| #[trigger] r.token_list(k) == Seq::<u64>::empty(),
            forall|k: u64| #[trigger] r.contrib_list(k) == Seq::<u64>::empty(),
            r.global_order() == Seq::<u64>::empty(),
    {
        GrantIndex {
            by_owner_lists: IdLists::new(),
            by_status_lists: IdLists::new(),
            by_token_lists: IdLists::new(),
            by_contrib_lists: IdLists::new(),
            global: Vec::new(),
        }
    }

    /// Index a new grant under its owner, status and token, and append it to the global
    /// order (each list within its limit).
    pub fn on_grant_created(&mut self, grant_id: u64, owner: AccountId, token: AccountId, status: GrantStatus)
        ensures
            forall|k: u64| #[trigger] final(self).owner_list(k) == if k == owner && old(self).owner_list(
                k,
            ).len() < INDEX_BUCKET_LIMIT && !old(self).owner_list(k).contains(grant_id) {
                old(self).owner_list(k).push(grant_id)
            } else {
                old(self).owner_list(k)
            },
            forall|k: u64| #[trigger] final(self).status_list(k) == if k == spec_status_code(status) && old(
                self,
            ).status_list(k).len() < INDEX_BUCKET_LIMIT && !old(self).status_list(k).contains(grant_id) {
                old(self).status_list(k).push(grant_id)
            } else {
                old(self).status_list(k)
            },
            forall|k: u64| #[trigger] final(self).token_list(k) == if k == token && old(self).token_list(
                k,
            ).len() < INDEX_BUCKET_LIMIT && !old(self).token_list(k).contains(grant_id) {
                old(self).token_list(k).push(grant_id)
            } else {
                old(self).token_list(k)
            },
            forall|k: u64| #[trigger] final(self).contrib_list(k) == old(self).contrib_list(k),
            final(self).global_order() == if old(self).global_order().len() < INDEX_BUCKET_LIMIT {
                old(self).global_order().push(grant_id)
            } else {
                old(self).global_order()
            },
    {
        self.by_owner_lists.push_to_index(owner, grant_id);
        self.by_status_lists.push_to_index(status_code(status), grant_id);
        self.by_token_lists.push_to_index(token, grant_id);
        if self.global.len() < INDEX_BUCKET_LIMIT as usize {
            self.global.push(grant_id);
        }
    }

    /// Move a grant from its old status list to its new one when the status changes.
    pub fn on_status_changed(&mut self, grant_id: u64, old_status: GrantStatus, new_status: GrantStatus)
        ensures
            old_status == new_status ==> forall|k: u64| #[trigger] final(self).status_list(k) == old(
                self,
            ).status_list(k),
            old_status != new_status ==> {
                let removed = |k: u64| if k == spec_status_code(old_status) && old(self).status_list(k).contains(
                    grant_id,
                ) {
                    old(self).status_list(k).remove(spec_first_from(old(self).status_list(k), grant_id, 0))
                } else {
                    old(self).status_list(k)
                };
                forall|k: u64| #[trigger] final(self).status_list(k) == if k == spec_status_code(new_status)
                    && removed(k).len() < INDEX_BUCKET_LIMIT && !removed(k).contains(grant_id) {
                    removed(k).push(grant_id)
                } else {
                    removed(k)
                }
            },
            forall|k: u64| #[trigger] final(self).owner_list(k) == old(self).owner_list(k),
            forall|k: u64| #[trigger] final(self).token_list(k) == old(self).token_list(k),
            forall|k: u64| #[trigger] final(self).contrib_list(k) == old(self).contrib_list(k),
            final(self).global_order() == old(self).global_order(),
    {
        if old_status != new_status {
            self.by_status_lists.remove_from_index(status_code(old_status), grant_id);
            self.by_status_lists.push_to_index(status_code(new_status), grant_id);
        }
    }

    /// Index a grant under a contributor assigned to it.
    pub fn on_contributor_assigned(&mut self, grant_id: u64, contributor: AccountId)
        ensures
            forall|k: u64| #[trigger] final(self).contrib_list(k) == if k == contributor && old(
                self,
            ).contrib_list(k).len() < INDEX_BUCKET_LIMIT && !old(self).contrib_list(k).contains(grant_id) {
                old(self).contrib_list(k).push(grant_id)
            } else {
                old(self).contrib_list(k)
            },
            forall|k: u64| #[trigger] final(self).owner_list(k) == old(self).owner_list(k),
            forall|k: u64| #[trigger] final(self).status_list(k) == old(self).status_list(k),
            forall|k: u64| #[trigger] final(self).token_list(k) == old(self).token_list(k),
            final(self).global_order() == old(self).global_order(),
    {
        self.by_contrib_lists.push_to_index(contributor, grant_id);
    }

    /// All grants indexed under an owner.
    pub fn by_owner_lists_get(&self, owner: AccountId) -> (r: Vec<u64>)
        ensures
            r@ == self.owner_list(owner),
    {
        self.by_owner_lists.get(owner)
    }

    /// A page of the grants of an owner.
    pub fn by_owner(&self, owner: AccountId, offset: u32, limit: u32) -> (r: Vec<u64>)
        ensures
            r@ == spec_page(self.owner_list(owner), offset as int, limit as int),
    {
        let list = self.by_owner_lists.get(owner);
        paginate(&list, offset, limit)
    }

    /// A page of the grants with a status.
    pub fn by_status(&self, status: GrantStatus, offset: u32, limit: u32) -> (r: Vec<u64>)
        ensures
            r@ == spec_page(self.status_list(spec_status_code(status)), offset as int, limit as int),
    {
        let list = self.by_status_lists.get(status_code(status));
        paginate(&list, offset, limit)
    }

    /// A page of the grants in a token.
    pub fn by_token(&self, token: AccountId, offset: u32, limit: u32) -> (r: Vec<u64>)
        ensures
            r@ == spec_page(self.token_list(token), offset as int, limit as int),
    {
        let list = self.by_token_lists.get(token);
        paginate(&list, offset, limit)
    }

    /// A page of the grants a contributor was assigned to.
    pub fn by_contributor(&self, contributor: AccountId, offset: u32, limit: u32) -> (r: Vec<u64>)
        ensures
            r@ == spec_page(self.contrib_list(contributor), offset as int, limit as int),
    {
        let list = self.by_contrib_lists.get(contributor);
        paginate(&list, offset, limit)
    }

    /// A page of all grants in creation order.
    pub fn recent(&self, offset: u32, limit: u32) -> (r: Vec<u64>)
        ensures
            r@ == spec_page(self.global_order(), offset as int, limit as int),
    {
        paginate(&self.global, offset, limit)
    }

    /// The number of grants owned by, and contributed to by, `owner` (0 and 0 without an
    /// owner), and the number of active grants.
    pub fn index_counts(&self, owner: Option<AccountId>) -> (r: (u32, u32, u32))
        ensures
            r.0 == match owner {
                Some(o) => self.owner_list(o).len() as u32,
                None => 0,
            },
            r.1 == self.status_list(spec_status_code(GrantStatus::Active)).len() as u32,
            r.2 == match owner {
                Some(o) => self.contrib_list(o).len() as u32,
                None => 0,
            },
    {
        let owned: u32 = match owner {
            Some(o) => {
                let list = self.by_owner_lists.get(o);
                list.len() as u32
            },
            None => 0,
        };
        let active = self.by_status_lists.get(status_code(GrantStatus::Active));
        let contributed: u32 = match owner {
            Some(o) => {
                let list = self.by_contrib_lists.get(o);
                list.len() as u32
            },
            None => 0,
        };
        (owned, active.len() as u32, contributed)
    }
}

} // verus!
