//! The service's state: the contract handle of every served chain, and the ids of the
//! events already handled.
use vstd::prelude::*;
use crate::eth::Uint256;
use std::collections::HashMap;
use vstd::std_specs::hash::spec_keys_iter;
use vstd::std_specs::iter::IteratorSpec;

verus! {

/// The contract handle for each chain id.
pub struct ContractRegistry<C> {
    contracts: HashMap<u64, C>,
}

impl<C> ContractRegistry<C> {
    /// The registry as a map from chain id to contract handle.
    pub closed spec fn view(&self) -> Map<u64, C> {
        self.contracts@
    }

    /// An empty registry.
    pub fn new() -> (r: Self)
        ensures
            r.view() == Map::<u64, C>::empty(),
    {
        ContractRegistry { contracts: HashMap::new() }
    }

    /// The number of registered chains.
    pub fn len(&self) -> (n: usize)
        ensures
            n == self.view().dom().len(),
    {
        broadcast use vstd::std_specs::hash::group_hash_axioms;

        self.contracts.len()
    }

    /// Registers the contract of a chain, replacing any handle registered for it before.
    pub fn insert(&mut self, chain_id: u64, contract: C)
        ensures
            final(self).view() == old(self).view().insert(chain_id, contract),
    {
        broadcast use vstd::std_specs::hash::group_hash_axioms;

        self.contracts.insert(chain_id, contract);
    }

    /// The contract registered for a chain id.
    pub fn contract_of(&self, chain_id: u64) -> (r: Option<&C>)
        ensures
            r is Some <==> self.view().contains_key(chain_id),
            r matches Some(c) ==> *c == self.view()[chain_id],
    {
        broadcast use vstd::std_specs::hash::group_hash_axioms;

        self.contracts.get(&chain_id)
    }

    /// The contract registered for a chain id given as a 256-bit integer.
    pub fn get(&self, chain_id: &Uint256) -> (r: Option<&C>)
        ensures
            r is Some <==> (chain_id@ <= u64::MAX && self.view().contains_key(chain_id@ as u64)),
            r matches Some(c) ==> *c == self.view()[chain_id@ as u64],
    {
        if !chain_id.fits_u64() {
            return None;
        }
        self.contract_of(chain_id.as_u64())
    }

    /// Every registered chain id, each once, in the map's own order.
    pub fn chain_ids(&self) -> (ids: Vec<u64>)
        ensures
            ids@.no_duplicates(),
            ids@.to_set() == self.view().dom(),
            ids@.len() == self.view().dom().len(),
    {
        broadcast use vstd::std_specs::hash::group_hash_axioms;

        let mut ids: Vec<u64> = Vec::new();
        for k in it: self.contracts.keys()
            invariant
                ids@.len() == it.index(),
                forall|j: int| 0 <= j < it.index() ==> ids@[j] == *it.seq()[j],
        {
            ids.push(*k);
        }
        proof {
            let keys = spec_keys_iter(&self.contracts).remaining();
            assert(ids@ =~= keys.unref());
        }
        ids
    }

    /// Some registered contract, where there is one.
    pub fn any(&self) -> (r: Option<&C>)
        ensures
            r is Some <==> self.view().dom().len() > 0,
            r matches Some(c) ==> exists|k: u64| #[trigger]
                self.view().contains_key(k) && self.view()[k] == *c,
    {
        let ids = self.chain_ids();
        if ids.len() == 0 {
            None
        } else {
            proof {
                assert(ids@.to_set().contains(ids@[0]));
            }
            self.contract_of(ids[0])
        }
    }
}

/// The ids of events already handled.
pub struct ProcessedEvents {
    ids: Vec<String>,
}

impl ProcessedEvents {
    /// The handled ids.
    pub closed spec fn view(&self) -> Set<Seq<char>> {
        Set::new(|s: Seq<char>| exists|i: int| 0 <= i < self.ids@.len() && self.ids@[i]@ == s)
    }

    /// No event handled yet.
    pub fn new() -> (r: Self)
        ensures
            r.view() == Set::<Seq<char>>::empty(),
    {
        let r = ProcessedEvents { ids: Vec::new() };
        assert(r.view() =~= Set::<Seq<char>>::empty());
        r
    }

    /// Whether the event with this id has been handled.
    pub fn contains(&self, id: &String) -> (b: bool)
        ensures
            b == self.view().contains(id@),
    {
        let mut i: usize = 0;
        while i < self.ids.len()
            invariant
                i <= self.ids@.len(),
                forall|k: int| 0 <= k < i ==> self.ids@[k]@ != id@,
            decreases self.ids@.len() - i,
        {
            if self.ids[i] == *id {
                return true;
            }
            i += 1;
        }
        false
    }

    /// Records the event with this id as handled.
    pub fn insert(&mut self, id: String)
        ensures
            final(self).view() == old(self).view().insert(id@),
    {
        if self.contains(&id) {
            assert(self.view() =~= old(self).view().insert(id@));
            return;
        }
        let ghost before = self.ids@;
        self.ids.push(id);
        proof {
            assert forall|s: Seq<char>| #[trigger] self.view().contains(s) <==> old(self).view().insert(id@).contains(s) by {
                if old(self).view().contains(s) {
                    let j = choose|j: int| 0 <= j < before.len() && before[j]@ == s;
                    assert(self.ids@[j]@ == s);
                }
                if s == id@ {
                    assert(self.ids@[before.len() as int]@ == s);
                }
                if self.view().contains(s) {
                    let j = choose|j: int| 0 <= j < self.ids@.len() && self.ids@[j]@ == s;
                    if j < before.len() {
                        assert(before[j]@ == s);
                    }
                }
            }
            assert(self.view() =~= old(self).view().insert(id@));
        }
    }
}

/// The state shared by the request handlers and the event listeners: the contract of
/// every served chain, the record of handled events, and the RPC provider's API key.
pub struct AppState<C, E> {
    pub contracts: ContractRegistry<C>,
    pub processed_events: E,
    pub drpc_api_key: String,
}

} // verus!
