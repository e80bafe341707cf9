use vstd::prelude::*;

use std::collections::HashMap;

use crate::domain::{bids_view, Bid, ChainId};
use crate::errors::RegistryError;

verus! {

broadcast use vstd::std_specs::hash::group_hash_axioms;

/// A per-chain bid store with a two-phase hand-off: bids accumulate per
/// chain, are taken out for processing in arrival order, and the processed
/// copies are cleared once handled.
pub struct BidRegistry {
    bids: HashMap<ChainId, Vec<Bid>>,
    processing_bids: HashMap<ChainId, Vec<Bid>>,
}

impl BidRegistry {
    /// The chains with a bid store.
    pub closed spec fn spec_chains(&self) -> Set<ChainId> {
        self.bids@.dom()
    }

    /// Whether `chain_id` has a bid store.
    pub open spec fn has_chain(&self, chain_id: ChainId) -> bool {
        self.spec_chains().contains(chain_id)
    }

    /// The pending bids of one chain, in arrival order.
    pub closed spec fn spec_bids(&self, chain_id: ChainId) -> Seq<Bid> {
        self.bids@[chain_id]@
    }

    /// The bids of one chain that were taken out for processing.
    pub closed spec fn spec_processing(&self, chain_id: ChainId) -> Seq<Bid> {
        self.processing_bids@[chain_id]@
    }

    /// The chains with a processing store.
    pub closed spec fn spec_processing_chains(&self) -> Set<ChainId> {
        self.processing_bids@.dom()
    }

    /// Every chain with pending bids also has a processing store.
    pub open spec fn wf(&self) -> bool {
        forall|c: ChainId|
            #[trigger] self.spec_chains().contains(c) ==> self.spec_processing_chains().contains(c)
    }

    /// Creates a registry with no chains.
    pub fn new() -> (r: BidRegistry)
        ensures
            r.wf(),
            r.spec_chains() == Set::<ChainId>::empty(),
    {
        let r = BidRegistry { bids: HashMap::new(), processing_bids: HashMap::new() };
        proof {
            assert(r.spec_chains() =~= Set::<ChainId>::empty());
        }
        r
    }

    /// Registers a chain with empty stores; rejects a chain that already has
    /// one, changing nothing.
    pub fn add_chain(&mut self, chain_id: ChainId) -> (r: Result<(), RegistryError>)
        requires
            old(self).wf(),
        ensures
            final(self).wf(),
            if old(self).has_chain(chain_id) {
                &&& r matches Err(RegistryError::ChainAlreadyRegistered(c)) && c == chain_id
                &&& *final(self) == *old(self)
            } else {
                &&& r is Ok
                &&& final(self).spec_chains() == old(self).spec_chains().insert(chain_id)
                &&& final(self).spec_bids(chain_id) == Seq::<Bid>::empty()
                &&& final(self).spec_processing(chain_id) == Seq::<Bid>::empty()
                &&& forall|c: ChainId|
                    #[trigger] old(self).has_chain(c) ==> final(self).spec_bids(c)
                        == old(self).spec_bids(c) && final(self).spec_processing(c)
                        == old(self).spec_processing(c)
            },
    {
        if self.bids.contains_key(&chain_id) {
            return Err(RegistryError::ChainAlreadyRegistered(chain_id));
        }
        let empty_pending: Vec<Bid> = Vec::new();
        let empty_processing: Vec<Bid> = Vec::new();
        self.bids.insert(chain_id, empty_pending);
        self.processing_bids.insert(chain_id, empty_processing);
        proof {
            assert(self.spec_chains() =~= old(self).spec_chains().insert(chain_id));
            assert forall|c: ChainId|
                #[trigger] self.spec_chains().contains(c) implies self.spec_processing_chains().contains(
                c,
            ) by {
                if c != chain_id {
                    assert(old(self).spec_chains().contains(c));
                }
            }
        }
        Ok(())
    }

    /// Appends one bid to its chain's pending store; rejects an unknown
    /// chain, changing nothing.
    pub fn add_bid(&mut self, chain_id: ChainId, bid: Bid) -> (r: Result<(), RegistryError>)
        requires
            old(self).wf(),
        ensures
            final(self).wf(),
            if old(self).has_chain(chain_id) {
                &&& r is Ok
                &&& final(self).spec_chains() == old(self).spec_chains()
                &&& final(self).spec_bids(chain_id) == old(self).spec_bids(chain_id).push(bid)
                &&& forall|c: ChainId|
                    #[trigger] old(self).has_chain(c) ==> final(self).spec_processing(c) == old(
                        self,
                    ).spec_processing(c) && (c != chain_id ==> final(self).spec_bids(c) == old(
                        self,
                    ).spec_bids(c))
            } else {
                &&& r matches Err(RegistryError::InvalidChainId(c)) && c == chain_id
                &&& *final(self) == *old(self)
            },
    {
        if !self.bids.contains_key(&chain_id) {
            return Err(RegistryError::InvalidChainId(chain_id));
        }
        let pending_opt = self.bids.remove(&chain_id);
        match pending_opt {
            None => {
                proof {
                    assert(false);
                }
                Err(RegistryError::InvalidChainId(chain_id))
            },
            Some(mut pending) => {
                pending.push(bid);
                self.bids.insert(chain_id, pending);
                proof {
                    assert(self.spec_chains() =~= old(self).spec_chains());
                    assert forall|c: ChainId|
                        #[trigger] self.spec_chains().contains(c) implies self.spec_processing_chains().contains(
                        c,
                    ) by {
                        assert(old(self).spec_chains().contains(c));
                    }
                }
                Ok(())
            },
        }
    }

    /// A copy of the chain's pending bids, or nothing for an unknown chain.
    pub fn get_bids(&self, chain_id: ChainId) -> (r: Option<Vec<Bid>>)
        ensures
            if self.has_chain(chain_id) {
                r matches Some(copy) && bids_view(copy@) == bids_view(self.spec_bids(chain_id))
            } else {
                r is None
            },
    {
        match self.bids.get(&chain_id) {
            None => None,
            Some(pending) => Some(crate::domain::clone_bid_list(pending)),
        }
    }

    /// Takes the chain's pending bids out for processing: the pending store
    /// is emptied, the taken bids are returned in arrival order, and copies
    /// of them are appended to the processing store. Rejects an unknown
    /// chain, changing nothing.
    pub fn take_bids_for_processing(&mut self, chain_id: ChainId) -> (r: Result<
        Vec<Bid>,
        RegistryError,
    >)
        requires
            old(self).wf(),
        ensures
            final(self).wf(),
            if old(self).has_chain(chain_id) {
                &&& r matches Ok(taken) && taken@ == old(self).spec_bids(chain_id)
                &&& final(self).spec_chains() == old(self).spec_chains()
                &&& final(self).spec_bids(chain_id) == Seq::<Bid>::empty()
                &&& bids_view(final(self).spec_processing(chain_id)) == bids_view(
                    old(self).spec_processing(chain_id) + old(self).spec_bids(chain_id),
                )
                &&& forall|c: ChainId|
                    #[trigger] old(self).has_chain(c) && c != chain_id ==> final(self).spec_bids(c)
                        == old(self).spec_bids(c) && final(self).spec_processing(c) == old(
                        self,
                    ).spec_processing(c)
            } else {
                &&& r matches Err(RegistryError::InvalidChainId(c)) && c == chain_id
                &&& *final(self) == *old(self)
            },
    {
        if !self.bids.contains_key(&chain_id) {
            return Err(RegistryError::InvalidChainId(chain_id));
        }
        proof {
            assert(old(self).has_chain(chain_id));
        }
        let pending_opt = self.bids.remove(&chain_id);
        match pending_opt {
            None => {
                proof {
                    assert(false);
                }
                Err(RegistryError::InvalidChainId(chain_id))
            },
            Some(taken) => {
                let empty_pending: Vec<Bid> = Vec::new();
                self.bids.insert(chain_id, empty_pending);
                let processing_opt = self.processing_bids.remove(&chain_id);
                match processing_opt {
                    None => {
                        proof {
                            assert(old(self).spec_processing_chains().contains(chain_id));
                            assert(false);
                        }
                        Err(RegistryError::InvalidChainId(chain_id))
                    },
                    Some(mut processing) => {
                        let ghost old_processing = processing@;
                        let mut copies = crate::domain::clone_bid_list(&taken);
                        let ghost copies_snapshot = copies@;
                        processing.append(&mut copies);
                        self.processing_bids.insert(chain_id, processing);
                        proof {
                            assert(self.spec_chains() =~= old(self).spec_chains());
                            assert(self.spec_processing(chain_id) == old_processing
                                + copies_snapshot);
                            assert(old_processing == old(self).spec_processing(chain_id));
                            assert(taken@ == old(self).spec_bids(chain_id));
                            let oldp = old(self).spec_processing(chain_id);
                            let oldb = old(self).spec_bids(chain_id);
                            assert(bids_view(copies_snapshot) == bids_view(taken@));
                            assert(bids_view(copies_snapshot).len() == copies_snapshot.len());
                            assert(bids_view(taken@).len() == taken@.len());
                            assert(copies_snapshot.len() == oldb.len());
                            assert forall|i: int|
                                0 <= i < bids_view(old_processing + copies_snapshot).len() implies bids_view(
                                old_processing + copies_snapshot,
                            )[i] == bids_view(oldp + oldb)[i] by {
                                if i < oldp.len() {
                                    assert((old_processing + copies_snapshot)[i] == oldp[i]);
                                    assert((oldp + oldb)[i] == oldp[i]);
                                } else {
                                    let j = i - oldp.len();
                                    assert((old_processing + copies_snapshot)[i]
                                        == copies_snapshot[j]);
                                    assert(0 <= j < oldb.len());
                                    assert((oldp + oldb)[i] == oldb[j]);
                                    assert(bids_view(copies_snapshot)[j] == bids_view(taken@)[j]);
                                    assert(bids_view(copies_snapshot)[j] == copies_snapshot[j]@);
                                    assert(bids_view(taken@)[j] == taken@[j]@);
                                    assert(copies_snapshot[j]@ == taken@[j]@);
                                }
                            }
                            assert(bids_view(self.spec_processing(chain_id)) =~= bids_view(
                                oldp + oldb,
                            ));
                            assert forall|c: ChainId|
                                #[trigger] self.spec_chains().contains(
                                    c,
                                ) implies self.spec_processing_chains().contains(c) by {
                                assert(old(self).spec_chains().contains(c));
                            }
                        }
                        Ok(taken)
                    },
                }
            },
        }
    }

    /// Empties the chain's processing store; an unknown chain is left as it
    /// is.
    pub fn clear_processed_bids(&mut self, chain_id: ChainId)
        requires
            old(self).wf(),
        ensures
            final(self).wf(),
            final(self).spec_chains() == old(self).spec_chains(),
            forall|c: ChainId|
                #[trigger] old(self).has_chain(c) ==> final(self).spec_bids(c) == old(
                    self,
                ).spec_bids(c),
            old(self).spec_processing_chains().contains(chain_id) ==> final(self).spec_processing(
                chain_id,
            ) == Seq::<Bid>::empty(),
            forall|c: ChainId|
                #[trigger] old(self).spec_processing_chains().contains(c) && c != chain_id
                    ==> final(self).spec_processing(c) == old(self).spec_processing(c),
    {
        if !self.processing_bids.contains_key(&chain_id) {
            return ;
        }
        let processing_opt = self.processing_bids.remove(&chain_id);
        match processing_opt {
            None => {
                proof {
                    assert(false);
                }
            },
            Some(mut processing) => {
                processing.clear();
                self.processing_bids.insert(chain_id, processing);
                proof {
                    assert(self.spec_processing_chains() =~= old(self).spec_processing_chains());
                    assert forall|c: ChainId|
                        #[trigger] self.spec_chains().contains(
                            c,
                        ) implies self.spec_processing_chains().contains(c) by {
                        assert(old(self).spec_chains().contains(c));
                    }
                }
            },
        }
    }
}

} // verus!
