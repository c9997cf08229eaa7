use vstd::prelude::*;
use std::collections::HashMap;

use crate::errors::ContractError;
use crate::types::{AccountId, ParamType};

verus! {

broadcast use vstd::std_specs::hash::group_hash_axioms;

/// A parameter keeps at most this many earlier records.
pub const MAX_HISTORY_SIZE: u32 = 20;

/// A parameter's value, in the field of its type.
#[derive(Debug)]
pub struct ParamValue {
    pub param_type: ParamType,
    pub u32_val: Option<u32>,
    pub i128_val: Option<i128>,
    pub bool_val: Option<bool>,
    pub address_val: Option<AccountId>,
    pub string_val: Option<String>,
}

/// A parameter's value with who set it, when, and why.
#[derive(Debug)]
pub struct ParamRecord {
    pub key: u64,
    pub value: ParamValue,
    pub set_by: AccountId,
    pub set_at: u64,
    pub description: String,
    pub requires_dao_vote: bool,
}

/// The protocol parameters by key, their earlier records, and the keys in first-set order.
pub struct ParamStore {
    params: HashMap<u64, ParamRecord>,
    history: HashMap<u64, Vec<ParamRecord>>,
    keys: Vec<u64>,
}

impl ParamStore {
    pub closed spec fn param(&self, key: u64) -> Option<ParamRecord> {
        if self.params@.contains_key(key) { Some(self.params@[key]) } else { None }
    }

    /// The earlier records of a parameter, oldest first.
    pub closed spec fn history(&self, key: u64) -> Seq<ParamRecord> {
        if self.history@.contains_key(key) { self.history@[key]@ } else { Seq::empty() }
    }

    pub closed spec fn key_list(&self) -> Seq<u64> {
        self.keys@
    }

    /// No parameter keeps more than twenty earlier records.
    pub open spec fn wf(&self) -> bool {
        forall|k: u64| #[trigger] self.history(k).len() <= MAX_HISTORY_SIZE
    }

    pub fn new() -> (s: ParamStore)
        ensures
            s.wf(),
            forall|k: u64| #[trigger] s.param(k) is None,
            forall|k: u64| #[trigger] s.history(k) == Seq::<ParamRecord>::empty(),
            s.key_list() == Seq::<u64>::empty(),
    {
        ParamStore { params: HashMap::new(), history: HashMap::new(), keys: Vec::new() }
    }

    /// The global admin sets a parameter; its previous record joins the history, which
    /// drops its oldest record when it already holds twenty.
    pub fn set_param(
        &mut self,
        caller: AccountId,
        global_admin: Option<AccountId>,
        key: u64,
        value: ParamValue,
        description: String,
        requires_dao: bool,
        now: u64,
    ) -> (r: Result<(), ContractError>)
        requires
            old(self).wf(),
        ensures
            final(self).wf(),
            global_admin != Some(caller) ==> r == Err::<(), ContractError>(ContractError::Unauthorized),
            global_admin == Some(caller) ==> r == Ok::<(), ContractError>(()),
            r is Err ==> (forall|k: u64| #[trigger] final(self).param(k) == old(self).param(k)) && (forall|k: u64| #[trigger] final(
                self).history(k) == old(self).history(k)) && final(self).key_list() == old(self).key_list(),
            r is Ok ==> {
                &&& forall|k: u64| #[trigger] final(self).param(k) == if k == key {
                    Some(ParamRecord { key, value, set_by: caller, set_at: now, description, requires_dao_vote: requires_dao })
                } else {
                    old(self).param(k)
                }
                &&& forall|k: u64| #[trigger] final(self).history(k) == if k == key && old(self).param(key) is Some {
                    let h = old(self).history(key);
                    (if h.len() >= MAX_HISTORY_SIZE { h.drop_first() } else { h }).push(old(self).param(key)->0)
                } else {
                    old(self).history(k)
                }
                &&& final(self).key_list() == if old(self).key_list().contains(key) {
                    old(self).key_list()
                } else {
                    old(self).key_list().push(key)
                }
            },
    {
        if global_admin != Some(caller) {
            return Err(ContractError::Unauthorized);
        }
        match self.params.remove(&key) {
            Some(old_record) => {
                let mut history = match self.history.remove(&key) {
                    Some(h) => h,
                    None => Vec::new(),
                };
                proof {
                    assert(history@.len() <= MAX_HISTORY_SIZE) by {
                        assert(old(self).history(key) == history@);
                    }
                }
                if history.len() >= MAX_HISTORY_SIZE as usize {
                    history.remove(0);
                }
                history.push(old_record);
                self.history.insert(key, history);
            },
            None => {},
        }
        let record = ParamRecord { key, value, set_by: caller, set_at: now, description, requires_dao_vote: requires_dao };
        self.params.insert(key, record);
        if !crate::matching::contains_id(&self.keys, key) {
            self.keys.push(key);
        }
        proof {
            assert forall|k: u64| #[trigger] self.history(k).len() <= MAX_HISTORY_SIZE by {
                if k != key {
                    assert(self.history(k) == old(self).history(k));
                }
            }
        }
        Ok(())
    }

    /// The `u32` value of a parameter, or `default` when it has none.
    pub fn get_u32(&self, key: u64, default: u32) -> (r: u32)
        ensures
            r == match self.param(key) {
                Some(rec) => match rec.value.u32_val {
                    Some(v) => v,
                    None => default,
                },
                None => default,
            },
    {
        match self.params.get(&key) {
            Some(rec) => match rec.value.u32_val {
                Some(v) => v,
                None => default,
            },
            None => default,
        }
    }

    /// The `i128` value of a parameter, or `default` when it has none.
    pub fn get_i128(&self, key: u64, default: i128) -> (r: i128)
        ensures
            r == match self.param(key) {
                Some(rec) => match rec.value.i128_val {
                    Some(v) => v,
                    None => default,
                },
                None => default,
            },
    {
        match self.params.get(&key) {
            Some(rec) => match rec.value.i128_val {
                Some(v) => v,
                None => default,
            },
            None => default,
        }
    }

    /// The boolean value of a parameter, or `default` when it has none.
    pub fn get_bool(&self, key: u64, default: bool) -> (r: bool)
        ensures
            r == match self.param(key) {
                Some(rec) => match rec.value.bool_val {
                    Some(v) => v,
                    None => default,
                },
                None => default,
            },
    {
        match self.params.get(&key) {
            Some(rec) => match rec.value.bool_val {
                Some(v) => v,
                None => default,
            },
            None => default,
        }
    }

    /// The keys of all parameters ever set.
    pub fn list_params(&self) -> (r: Vec<u64>)
        ensures
            r@ == self.key_list(),
    {
        let mut out: Vec<u64> = Vec::new();
        let mut i: usize = 0;
        while i < self.keys.len()
            invariant
                i <= self.keys@.len(),
                out@ == self.keys@.take(i as int),
            decreases self.keys@.len() - i,
        {
            out.push(self.keys[i]);
            proof {
                assert(self.keys@.take(i + 1) == self.keys@.take(i as int).push(self.keys@[i as int]));
            }
            i += 1;
        }
        proof {
            assert(self.keys@.take(self.keys@.len() as int) == self.keys@);
        }
        out
    }

    /// The number of earlier records of a parameter.
    pub fn history_len(&self, key: u64) -> (r: usize)
        ensures
            r == self.history(key).len(),
    {
        match self.history.get(&key) {
            Some(h) => h.len(),
            None => 0,
        }
    }
}

} // verus!
