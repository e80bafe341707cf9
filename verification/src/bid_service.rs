use vstd::prelude::*;

use std::collections::HashMap;

use crate::domain::{AuctionId, Bid, ChainId};
use crate::errors::{bid_error_of, AuctionError, BidError};
use crate::manager::{batch_admission_error, AuctionManager};
use crate::text::str_equal;

verus! {

broadcast use vstd::std_specs::hash::group_hash_axioms;

/// The buffered bids of one auction, in arrival order.
pub struct BidBucket {
    pub auction_id: AuctionId,
    pub bids: Vec<Bid>,
}

/// Whether some bucket carries this auction id.
pub open spec fn has_bucket(buckets: Seq<BidBucket>, id: Seq<char>) -> bool {
    exists|k: int| 0 <= k < buckets.len() && (#[trigger] buckets[k]).auction_id@ == id
}

/// The index of the bucket carrying this auction id.
pub open spec fn bucket_index(buckets: Seq<BidBucket>, id: Seq<char>) -> int {
    choose|k: int| 0 <= k < buckets.len() && (#[trigger] buckets[k]).auction_id@ == id
}

/// No two buckets carry the same auction id.
pub open spec fn buckets_unique(buckets: Seq<BidBucket>) -> bool {
    forall|k1: int, k2: int|
        #![trigger buckets[k1], buckets[k2]]
        0 <= k1 < k2 < buckets.len() ==> buckets[k1].auction_id@ != buckets[k2].auction_id@
}

/// The per-chain bid buffer that decouples bid arrival from the workers:
/// bids accumulate per `(chain, auction)` and a periodic flush drains the
/// bucket of the chain's ongoing auction into one batch.
pub struct BidService {
    buffers: HashMap<ChainId, Vec<BidBucket>>,
    flush_intervals: HashMap<ChainId, u64>,
}

impl BidService {
    /// The chains with a buffer.
    pub closed spec fn spec_chains(&self) -> Set<ChainId> {
        self.buffers@.dom()
    }

    /// Whether `chain_id` has a buffer.
    pub open spec fn has_chain(&self, chain_id: ChainId) -> bool {
        self.spec_chains().contains(chain_id)
    }

    /// The buckets of one chain.
    pub closed spec fn spec_buckets(&self, chain_id: ChainId) -> Seq<BidBucket> {
        self.buffers@[chain_id]@
    }

    /// The configured flush cadences, in milliseconds per chain.
    pub closed spec fn spec_flush_intervals(&self) -> Map<ChainId, u64> {
        self.flush_intervals@
    }

    /// Every chain's buckets carry pairwise distinct auction ids.
    pub open spec fn wf(&self) -> bool {
        forall|c: ChainId|
            #[trigger] self.spec_chains().contains(c) ==> buckets_unique(self.spec_buckets(c))
    }

    /// Creates a service with no chains.
    pub fn new() -> (r: BidService)
        ensures
            r.wf(),
            r.spec_chains() == Set::<ChainId>::empty(),
    {
        let r = BidService { buffers: HashMap::new(), flush_intervals: HashMap::new() };
        proof {
            assert(r.spec_chains() =~= Set::<ChainId>::empty());
        }
        r
    }

    /// Registers a chain with the given flush cadence: the cadence is
    /// recorded (overwriting any earlier one) and an empty buffer is created
    /// unless the chain already has one, which is kept.
    pub fn add_chain(&mut self, chain_id: ChainId, flush_interval_ms: u64)
        requires
            old(self).wf(),
        ensures
            final(self).wf(),
            final(self).spec_flush_intervals() == old(self).spec_flush_intervals().insert(
                chain_id,
                flush_interval_ms,
            ),
            final(self).spec_chains() == old(self).spec_chains().insert(chain_id),
            if old(self).has_chain(chain_id) {
                final(self).spec_buckets(chain_id) == old(self).spec_buckets(chain_id)
            } else {
                final(self).spec_buckets(chain_id) == Seq::<BidBucket>::empty()
            },
            forall|c: ChainId|
                #[trigger] old(self).has_chain(c) && c != chain_id ==> final(self).spec_buckets(c)
                    == old(self).spec_buckets(c),
    {
        self.flush_intervals.insert(chain_id, flush_interval_ms);
        if !self.buffers.contains_key(&chain_id) {
            let empty: Vec<BidBucket> = Vec::new();
            self.buffers.insert(chain_id, empty);
        }
        proof {
            assert(self.spec_chains() =~= old(self).spec_chains().insert(chain_id));
        }
    }

    /// The configured flush cadence of a chain, in milliseconds.
    pub fn get_flush_interval(&self, chain_id: ChainId) -> (r: Option<u64>)
        ensures
            match r {
                Some(ms) => self.spec_flush_intervals().contains_key(chain_id) && ms
                    == self.spec_flush_intervals()[chain_id],
                None => !self.spec_flush_intervals().contains_key(chain_id),
            },
    {
        match self.flush_intervals.get(&chain_id) {
            None => None,
            Some(ms) => Some(*ms),
        }
    }

    /// Buffers one bid for `(chain, auction)` in arrival order, never
    /// touching a worker: the bid lands at the end of its auction's bucket,
    /// and a first bid for an auction opens a new bucket at the end. An
    /// unknown chain is rejected, changing nothing.
    #[verifier::loop_isolation(false)]
    pub fn store_bid(&mut self, chain_id: ChainId, auction_id: &str, bid: Bid) -> (r: Result<
        (),
        AuctionError,
    >)
        requires
            old(self).wf(),
        ensures
            final(self).wf(),
            final(self).spec_flush_intervals() == old(self).spec_flush_intervals(),
            if old(self).has_chain(chain_id) {
                &&& r is Ok
                &&& final(self).spec_chains() == old(self).spec_chains()
                &&& forall|c: ChainId|
                    #[trigger] old(self).has_chain(c) && c != chain_id ==> final(self).spec_buckets(c) == old(self).spec_buckets(c)
                &&& {
                    let oldb = old(self).spec_buckets(chain_id);
                    let newb = final(self).spec_buckets(chain_id);
                    if has_bucket(oldb, auction_id@) {
                        let k = bucket_index(oldb, auction_id@);
                        &&& newb.len() == oldb.len()
                        &&& newb[k].auction_id@ == auction_id@
                        &&& newb[k].bids@ == oldb[k].bids@.push(bid)
                        &&& forall|j: int| 0 <= j < oldb.len() && j != k ==> newb[j] == #[trigger] oldb[j]
                    } else {
                        &&& newb.len() == oldb.len() + 1
                        &&& forall|j: int| 0 <= j < oldb.len() ==> newb[j] == #[trigger] oldb[j]
                        &&& newb.last().auction_id@ == auction_id@
                        &&& newb.last().bids@ == Seq::<Bid>::empty().push(bid)
                    }
                }
            } else {
                &&& r matches Err(AuctionError::InvalidChainId(c)) && c == chain_id
                &&& *final(self) == *old(self)
            },
    {
        if !self.buffers.contains_key(&chain_id) {
            return Err(AuctionError::InvalidChainId(chain_id));
        }
        let buckets_opt = self.buffers.remove(&chain_id);
        match buckets_opt {
            None => {
                proof {
                    assert(false);
                }
                Err(AuctionError::InvalidChainId(chain_id))
            },
            Some(mut buckets) => {
                let ghost oldb = buckets@;
                let mut k: usize = 0;
                while k < buckets.len() && !str_equal(buckets[k].auction_id.as_str(), auction_id)
                    invariant
                        k <= buckets@.len(),
                        buckets@ == oldb,
                        forall|j: int|
                            0 <= j < k ==> (#[trigger] buckets@[j]).auction_id@ != auction_id@,
                    decreases buckets@.len() - k,
                {
                    k = k + 1;
                }
                let found = k < buckets.len();
                if found {
                    proof {
                        assert(oldb[k as int].auction_id@ == auction_id@);
                        assert(has_bucket(oldb, auction_id@));
                        assert(old(self).has_chain(chain_id));
                        assert(oldb == old(self).spec_buckets(chain_id));
                        assert(buckets_unique(oldb));
                        let ki = bucket_index(oldb, auction_id@);
                        assert(0 <= ki < oldb.len() && oldb[ki].auction_id@ == auction_id@);
                        if ki != k as int {
                            assert(oldb[ki].auction_id@ != oldb[k as int].auction_id@);
                        }
                        assert(ki == k as int);
                    }
                    let mut bucket = buckets.remove(k);
                    bucket.bids.push(bid);
                    buckets.insert(k, bucket);
                    proof {
                        assert(buckets@.len() == oldb.len());
                        assert forall|j: int|
                            0 <= j < oldb.len() && j != k as int implies buckets@[j] == #[trigger] oldb[j] by {
                            oldb.remove_ensures(k as int);
                            oldb.remove(k as int).insert_ensures(k as int, buckets@[k as int]);
                        }
                    }
                } else {
                    let bucket = BidBucket { auction_id: auction_id.to_owned(), bids: vec![bid] };
                    buckets.push(bucket);
                    proof {
                        assert(!has_bucket(oldb, auction_id@));
                        assert(buckets@.last().bids@ =~= Seq::<Bid>::empty().push(bid));
                    }
                }
                let ghost newb = buckets@;
                self.buffers.insert(chain_id, buckets);
                proof {
                    assert(self.spec_chains() =~= old(self).spec_chains());
                    assert(self.spec_buckets(chain_id) == newb);
                    assert forall|c: ChainId|
                        #[trigger] self.spec_chains().contains(c) implies buckets_unique(
                        self.spec_buckets(c),
                    ) by {
                        assert(old(self).spec_chains().contains(c));
                        if c == chain_id {
                            assert forall|k1: int, k2: int|
                                #![trigger newb[k1], newb[k2]]
                                0 <= k1 < k2 < newb.len() implies newb[k1].auction_id@
                                != newb[k2].auction_id@ by {
                                if k2 < oldb.len() {
                                    assert(newb[k1].auction_id@ == oldb[k1].auction_id@);
                                    assert(newb[k2].auction_id@ == oldb[k2].auction_id@);
                                } else {
                                    assert(newb[k1].auction_id@ == oldb[k1].auction_id@);
                                    assert(newb[k2].auction_id@ == auction_id@);
                                }
                            }
                        }
                    }
                }
                Ok(())
            },
        }
    }

    /// Removes and returns the bucket of `(chain, auction)`, or nothing when
    /// the chain is unknown or holds no bids for that auction.
    #[verifier::loop_isolation(false)]
    pub fn take_bids(&mut self, chain_id: ChainId, auction_id: &str) -> (r: Option<Vec<Bid>>)
        requires
            old(self).wf(),
        ensures
            final(self).wf(),
            final(self).spec_flush_intervals() == old(self).spec_flush_intervals(),
            final(self).spec_chains() == old(self).spec_chains(),
            forall|c: ChainId|
                #[trigger] old(self).has_chain(c) && c != chain_id ==> final(self).spec_buckets(c)
                    == old(self).spec_buckets(c),
            if old(self).has_chain(chain_id) && has_bucket(
                old(self).spec_buckets(chain_id),
                auction_id@,
            ) {
                let oldb = old(self).spec_buckets(chain_id);
                let k = bucket_index(oldb, auction_id@);
                &&& r matches Some(bids) && bids@ == oldb[k].bids@
                &&& final(self).spec_buckets(chain_id) == oldb.remove(k)
                &&& !has_bucket(final(self).spec_buckets(chain_id), auction_id@)
            } else {
                &&& r is None
                &&& old(self).has_chain(chain_id) ==> final(self).spec_buckets(chain_id) == old(self).spec_buckets(chain_id)
            },
    {
        if !self.buffers.contains_key(&chain_id) {
            return None;
        }
        let buckets_opt = self.buffers.remove(&chain_id);
        match buckets_opt {
            None => {
                proof {
                    assert(false);
                }
                None
            },
            Some(mut buckets) => {
                let ghost oldb = buckets@;
                let mut k: usize = 0;
                while k < buckets.len() && !str_equal(buckets[k].auction_id.as_str(), auction_id)
                    invariant
                        k <= buckets@.len(),
                        buckets@ == oldb,
                        forall|j: int|
                            0 <= j < k ==> (#[trigger] buckets@[j]).auction_id@ != auction_id@,
                    decreases buckets@.len() - k,
                {
                    k = k + 1;
                }
                let found = k < buckets.len();
                if found {
                    proof {
                        assert(oldb[k as int].auction_id@ == auction_id@);
                        assert(has_bucket(oldb, auction_id@));
                        assert(old(self).has_chain(chain_id));
                        assert(oldb == old(self).spec_buckets(chain_id));
                        assert(buckets_unique(oldb));
                        let ki = bucket_index(oldb, auction_id@);
                        assert(0 <= ki < oldb.len() && oldb[ki].auction_id@ == auction_id@);
                        if ki != k as int {
                            assert(oldb[ki].auction_id@ != oldb[k as int].auction_id@);
                        }
                        assert(ki == k as int);
                    }
                    let bucket = buckets.remove(k);
                    let ghost newb = buckets@;
                    self.buffers.insert(chain_id, buckets);
                    proof {
                        oldb.remove_ensures(k as int);
                        assert(self.spec_chains() =~= old(self).spec_chains());
                        assert(self.spec_buckets(chain_id) == oldb.remove(k as int));
                        assert forall|j: int|
                            0 <= j < newb.len() implies (#[trigger] newb[j]).auction_id@
                            != auction_id@ by {
                            if j < k as int {
                                assert(newb[j] == oldb[j]);
                            } else {
                                assert(newb[j] == oldb[j + 1]);
                            }
                        }
                        assert(!has_bucket(newb, auction_id@));
                        assert forall|c: ChainId|
                            #[trigger] self.spec_chains().contains(c) implies buckets_unique(
                            self.spec_buckets(c),
                        ) by {
                            assert(old(self).spec_chains().contains(c));
                            if c == chain_id {
                                assert forall|k1: int, k2: int|
                                    #![trigger newb[k1], newb[k2]]
                                    0 <= k1 < k2 < newb.len() implies newb[k1].auction_id@
                                    != newb[k2].auction_id@ by {
                                    let a1 = if k1 < k as int {
                                        k1
                                    } else {
                                        k1 + 1
                                    };
                                    let a2 = if k2 < k as int {
                                        k2
                                    } else {
                                        k2 + 1
                                    };
                                    assert(newb[k1] == oldb[a1]);
                                    assert(newb[k2] == oldb[a2]);
                                }
                            }
                        }
                    }
                    Some(bucket.bids)
                } else {
                    self.buffers.insert(chain_id, buckets);
                    proof {
                        assert(self.buffers@ =~= old(self).buffers@);
                        assert(!has_bucket(oldb, auction_id@));
                        assert forall|c: ChainId|
                            #[trigger] self.spec_chains().contains(c) implies buckets_unique(
                            self.spec_buckets(c),
                        ) by {
                            assert(old(self).spec_chains().contains(c));
                        }
                    }
                    None
                }
            },
        }
    }
}

/// One flush pass for a chain: reads the manager's ongoing auction id (none:
/// the bids stay buffered), drains that auction's bucket (absent or empty:
/// nothing happens), and submits the drained bids to the manager as exactly
/// one batch, in arrival order. A failed submission loses the drained bids —
/// at-most-once delivery — and reports the mapped error.
pub fn flush_chain(service: &mut BidService, manager: &mut AuctionManager, chain_id: ChainId) -> (r:
    Result<(), BidError>)
    requires
        old(service).wf(),
        old(manager).wf(),
    ensures
        final(service).wf(),
        final(manager).wf(),
        final(manager).spec_ongoing() == old(manager).spec_ongoing(),
        final(manager).spec_bus() == old(manager).spec_bus(),
        final(manager).spec_registry() == old(manager).spec_registry(),
        final(service).spec_chains() == old(service).spec_chains(),
        forall|c: ChainId|
            #[trigger] old(service).has_chain(c) && c != chain_id ==> final(service).spec_buckets(c)
                == old(service).spec_buckets(c),
        final(manager).spec_workers().dom() == old(manager).spec_workers().dom(),
        forall|c: ChainId|
            #[trigger] old(manager).spec_workers().contains_key(c) && c != chain_id ==> final(manager).spec_workers()[c] == old(manager).spec_workers()[c],
        if !old(manager).spec_ongoing().contains_key(chain_id) {
            &&& r is Ok
            &&& old(service).has_chain(chain_id) ==> final(service).spec_buckets(chain_id) == old(service).spec_buckets(chain_id)
            &&& old(manager).spec_workers().contains_key(chain_id) ==> final(manager).spec_workers()[chain_id] == old(manager).spec_workers()[chain_id]
        } else {
            let id = old(manager).spec_ongoing()[chain_id].id@;
            let oldb = old(service).spec_buckets(chain_id);
            if !old(service).has_chain(chain_id) || !has_bucket(oldb, id) {
                &&& r is Ok
                &&& old(service).has_chain(chain_id) ==> final(service).spec_buckets(chain_id)
                    == old(service).spec_buckets(chain_id)
                &&& old(manager).spec_workers().contains_key(chain_id)
                    ==> final(manager).spec_workers()[chain_id]
                    == old(manager).spec_workers()[chain_id]
            } else if oldb[bucket_index(oldb, id)].bids@.len() == 0 {
                &&& r is Ok
                &&& final(service).spec_buckets(chain_id) == oldb.remove(bucket_index(oldb, id))
                &&& old(manager).spec_workers().contains_key(chain_id)
                    ==> final(manager).spec_workers()[chain_id]
                    == old(manager).spec_workers()[chain_id]
            } else {
                let batch = oldb[bucket_index(oldb, id)].bids@;
                &&& final(service).spec_buckets(chain_id) == oldb.remove(bucket_index(oldb, id))
                &&& match batch_admission_error(batch) {
                    Some(e) => r matches Err(be) && be == bid_error_of(e),
                    None => {
                        match old(manager).spec_worker_state(chain_id) {
                            None => r matches Err(BidError::NoAuctions),
                            Some(st) => {
                                if st.auction_info.id@ != id {
                                    r matches Err(BidError::InvalidAuctionId(a)) && a@ == id
                                } else if st.is_ended {
                                    r matches Err(BidError::AuctionError)
                                } else {
                                    &&& r is Ok
                                    &&& final(manager).spec_worker_state(chain_id) matches Some(
                                        st2,
                                    ) && st2.auction_info == st.auction_info && st2.bids@
                                        == st.bids@ + batch && st2.highest_bid == st.highest_bid
                                        && st2.winner == st.winner && !st2.is_ended
                                }
                            },
                        }
                    },
                }
            }
        },
{
    let ongoing_id = manager.get_ongoing_auction_id(chain_id);
    match ongoing_id {
        None => Ok(()),
        Some(auction_id) => {
            let taken = service.take_bids(chain_id, auction_id.as_str());
            match taken {
                None => Ok(()),
                Some(bids) => {
                    if bids.len() == 0 {
                        proof {
                            let oldb = old(service).spec_buckets(chain_id);
                            let k = bucket_index(oldb, auction_id@);
                            assert(oldb[k].bids@.len() == 0);
                        }
                        return Ok(());
                    }
                    let submitted = manager.submit_bid_batch(chain_id, auction_id.as_str(), bids);
                    match submitted {
                        Ok(_) => Ok(()),
                        Err(e) => Err(BidError::from(e)),
                    }
                },
            }
        },
    }
}

} // verus!
