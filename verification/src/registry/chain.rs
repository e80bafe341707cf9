use vstd::prelude::*;

use std::collections::HashMap;

use crate::domain::{ChainId, ChainInfo};
use crate::errors::RegistryError;
use crate::text::str_equal;

verus! {

broadcast use vstd::std_specs::hash::group_hash_axioms;

/// The catalog of configured chains: per-chain gas limits and registered
/// sellers.
pub struct ChainRegistry {
    chain_info_map: HashMap<ChainId, ChainInfo>,
    chain_ids: Vec<ChainId>,
}

impl ChainRegistry {
    /// The registered chains and their configuration.
    pub closed spec fn spec_chains(&self) -> Map<ChainId, ChainInfo> {
        self.chain_info_map@
    }

    /// The registered chain ids, in registration order.
    pub closed spec fn spec_chain_ids(&self) -> Seq<ChainId> {
        self.chain_ids@
    }

    /// Whether `chain_id` is registered.
    pub open spec fn has_chain(&self, chain_id: ChainId) -> bool {
        self.spec_chains().contains_key(chain_id)
    }

    /// The id list holds exactly the registered chains, each once.
    pub open spec fn wf(&self) -> bool {
        &&& self.spec_chain_ids().no_duplicates()
        &&& forall|c: ChainId| self.has_chain(c) <==> #[trigger] self.spec_chain_ids().contains(c)
    }

    /// Creates a catalog with no chains.
    pub fn new() -> (r: ChainRegistry)
        ensures
            r.wf(),
            r.spec_chains() == Map::<ChainId, ChainInfo>::empty(),
            r.spec_chain_ids() == Seq::<ChainId>::empty(),
    {
        let r = ChainRegistry { chain_info_map: HashMap::new(), chain_ids: Vec::new() };
        proof {
            assert(r.spec_chains() =~= Map::<ChainId, ChainInfo>::empty());
        }
        r
    }

    /// Registers a chain; rejects one that is already registered, leaving
    /// the catalog unchanged.
    pub fn register_chain(&mut self, chain_id: ChainId, chain_info: ChainInfo) -> (r: Result<
        (),
        RegistryError,
    >)
        requires
            old(self).wf(),
        ensures
            final(self).wf(),
            if old(self).has_chain(chain_id) {
                &&& r matches Err(RegistryError::ChainAlreadyRegistered(c)) && c == chain_id
                &&& final(self).spec_chains() == old(self).spec_chains()
                &&& final(self).spec_chain_ids() == old(self).spec_chain_ids()
            } else {
                &&& r is Ok
                &&& final(self).spec_chains() == old(self).spec_chains().insert(
                    chain_id,
                    chain_info,
                )
                &&& final(self).spec_chain_ids() == old(self).spec_chain_ids().push(chain_id)
            },
    {
        if self.chain_info_map.contains_key(&chain_id) {
            return Err(RegistryError::ChainAlreadyRegistered(chain_id));
        }
        self.chain_info_map.insert(chain_id, chain_info);
        self.chain_ids.push(chain_id);
        proof {
            let ids = old(self).spec_chain_ids();
            let new_ids = self.spec_chain_ids();
            assert(new_ids == ids.push(chain_id));
            assert(!ids.contains(chain_id));
            assert forall|a: int, b: int|
                0 <= a < new_ids.len() && 0 <= b < new_ids.len() && a != b implies new_ids[a]
                != new_ids[b] by {
                if a < ids.len() && b < ids.len() {
                    assert(ids[a] == new_ids[a] && ids[b] == new_ids[b]);
                } else if a < ids.len() {
                    assert(ids[a] == new_ids[a] && new_ids[b] == chain_id);
                    assert(ids.contains(ids[a]));
                } else if b < ids.len() {
                    assert(ids[b] == new_ids[b] && new_ids[a] == chain_id);
                    assert(ids.contains(ids[b]));
                }
            }
            assert(new_ids.no_duplicates());
            assert forall|c: ChainId| self.has_chain(c) <==> #[trigger] new_ids.contains(c) by {
                if c == chain_id {
                    assert(new_ids[ids.len() as int] == chain_id);
                    assert(new_ids.contains(c));
                } else {
                    if ids.contains(c) {
                        let k = choose|k: int| 0 <= k < ids.len() && ids[k] == c;
                        assert(new_ids[k] == c);
                    }
                    if new_ids.contains(c) {
                        let k = choose|k: int| 0 <= k < new_ids.len() && new_ids[k] == c;
                        assert(k < ids.len());
                        assert(ids[k] == c);
                    }
                }
            }
        }
        Ok(())
    }

    /// The registered chain ids, in registration order.
    pub fn get_chain_ids(&self) -> (r: Vec<ChainId>)
        ensures
            r@ == self.spec_chain_ids(),
    {
        let mut r: Vec<ChainId> = Vec::new();
        let mut i: usize = 0;
        while i < self.chain_ids.len()
            invariant
                i <= self.chain_ids@.len(),
                r@ =~= self.chain_ids@.subrange(0, i as int),
            decreases self.chain_ids@.len() - i,
        {
            r.push(self.chain_ids[i]);
            i = i + 1;
        }
        proof {
            assert(r@ =~= self.spec_chain_ids());
        }
        r
    }

    /// Whether the given chain id is registered.
    pub fn validate_chain_id(&self, chain_id: ChainId) -> (r: bool)
        ensures
            r == self.has_chain(chain_id),
    {
        self.chain_info_map.contains_key(&chain_id)
    }

    /// Whether `seller` is registered for the given chain; false for an
    /// unknown chain.
    pub fn is_valid_seller(&self, chain_id: ChainId, seller: &str) -> (r: bool)
        ensures
            r == (self.has_chain(chain_id) && self.spec_chains()[chain_id]@.has_seller(seller@)),
    {
        match self.chain_info_map.get(&chain_id) {
            None => false,
            Some(info) => {
                proof {
                    assert(self.spec_chains().contains_key(chain_id));
                    assert(self.spec_chains()[chain_id] == *info);
                }
                let sellers = &info.registered_sellers;
                let mut i: usize = 0;
                while i < sellers.len()
                    invariant
                        self.spec_chains().contains_key(chain_id),
                        self.spec_chains()[chain_id] == *info,
                        sellers@ == info.registered_sellers@,
                        i <= sellers@.len(),
                        forall|j: int| 0 <= j < i ==> (#[trigger] sellers@[j])@ != seller@,
                    decreases sellers@.len() - i,
                {
                    if str_equal(sellers[i].as_str(), seller) {
                        proof {
                            let sv = info@.registered_sellers;
                            assert(sv[i as int] == sellers@[i as int]@);
                            assert(info@.has_seller(seller@));
                        }
                        return true;
                    }
                    i = i + 1;
                }
                proof {
                    let sv = info@.registered_sellers;
                    assert forall|j: int| 0 <= j < sv.len() implies sv[j] != seller@ by {
                        assert(sv[j] == sellers@[j]@);
                    }
                    assert(!info@.has_seller(seller@));
                }
                false
            },
        }
    }

    /// The chain's gas limit, or nothing for an unknown chain.
    pub fn get_max_gas_limit(&self, chain_id: ChainId) -> (r: Option<u64>)
        ensures
            match r {
                Some(limit) => self.has_chain(chain_id) && limit == self.spec_chains()[chain_id].gas_limit,
                None => !self.has_chain(chain_id),
            },
    {
        match self.chain_info_map.get(&chain_id) {
            None => None,
            Some(info) => Some(info.gas_limit),
        }
    }
}

} // verus!
