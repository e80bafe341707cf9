use vstd::prelude::*;

use std::collections::HashMap;

use crate::domain::{AuctionInfo, ChainId};
use crate::errors::RegistryError;
use vstd::utf8::encode_utf8;

verus! {

broadcast use vstd::std_specs::hash::group_hash_axioms;

/// Lexicographic order on byte sequences: a prefix comes first, otherwise
/// the first differing byte decides.
pub open spec fn lex_le(a: Seq<u8>, b: Seq<u8>) -> bool
    decreases a.len(),
{
    if a.len() == 0 {
        true
    } else if b.len() == 0 {
        false
    } else if a[0] < b[0] {
        true
    } else if a[0] > b[0] {
        false
    } else {
        lex_le(a.drop_first(), b.drop_first())
    }
}

/// Lexicographic order is total.
pub proof fn lemma_lex_le_total(a: Seq<u8>, b: Seq<u8>)
    ensures
        lex_le(a, b) || lex_le(b, a),
    decreases a.len(),
{
    if a.len() > 0 && b.len() > 0 && a[0] == b[0] {
        lemma_lex_le_total(a.drop_first(), b.drop_first());
    }
}

/// Skipping an equal prefix does not change the lexicographic order.
proof fn lemma_lex_le_skip(a: Seq<u8>, b: Seq<u8>, i: int)
    requires
        0 <= i <= a.len(),
        i <= b.len(),
        forall|j: int| 0 <= j < i ==> a[j] == b[j],
    ensures
        lex_le(a, b) == lex_le(a.skip(i), b.skip(i)),
    decreases i,
{
    if i > 0 {
        lemma_lex_le_skip(a.drop_first(), b.drop_first(), i - 1);
        assert(a.drop_first().skip(i - 1) =~= a.skip(i));
        assert(b.drop_first().skip(i - 1) =~= b.skip(i));
        assert(a.skip(0) =~= a);
        assert(b.skip(0) =~= b);
    } else {
        assert(a.skip(0) =~= a);
        assert(b.skip(0) =~= b);
    }
}

/// Compares two byte strings lexicographically.
fn lex_le_bytes(a: &[u8], b: &[u8]) -> (r: bool)
    ensures
        r == lex_le(a@, b@),
{
    let mut i: usize = 0;
    while i < a.len() && i < b.len()
        invariant
            i <= a@.len(),
            i <= b@.len(),
            forall|j: int| 0 <= j < i ==> a@[j] == b@[j],
        decreases a@.len() - i,
    {
        if a[i] < b[i] {
            proof {
                lemma_lex_le_skip(a@, b@, i as int);
                assert(a@.skip(i as int)[0] == a@[i as int]);
                assert(lex_le(a@.skip(i as int), b@.skip(i as int)));
            }
            return true;
        }
        if a[i] > b[i] {
            proof {
                lemma_lex_le_skip(a@, b@, i as int);
                assert(a@.skip(i as int)[0] == a@[i as int]);
                assert(!lex_le(a@.skip(i as int), b@.skip(i as int)));
            }
            return false;
        }
        i = i + 1;
    }
    proof {
        lemma_lex_le_skip(a@, b@, i as int);
    }
    if a.len() <= b.len() {
        proof {
            assert(a@.skip(i as int).len() == 0);
        }
        true
    } else {
        proof {
            assert(b@.skip(i as int).len() == 0);
            assert(a@.skip(i as int).len() > 0);
        }
        false
    }
}

/// The registry's queue order: ascending `start_time`, ties broken by the
/// auction id (as UTF-8 bytes) so that pops are deterministic.
pub open spec fn info_le(a: AuctionInfo, b: AuctionInfo) -> bool {
    ||| a.start_time < b.start_time
    ||| (a.start_time == b.start_time && lex_le(encode_utf8(a.id@), encode_utf8(b.id@)))
}

/// The queue order is total.
pub proof fn lemma_info_le_total(a: AuctionInfo, b: AuctionInfo)
    ensures
        info_le(a, b) || info_le(b, a),
{
    if a.start_time == b.start_time {
        lemma_lex_le_total(encode_utf8(a.id@), encode_utf8(b.id@));
    }
}

/// Compares two offers in the queue order.
fn info_le_exec(a: &AuctionInfo, b: &AuctionInfo) -> (r: bool)
    ensures
        r == info_le(*a, *b),
{
    if a.start_time < b.start_time {
        true
    } else if a.start_time > b.start_time {
        false
    } else {
        lex_le_bytes(a.id.as_str().as_bytes(), b.id.as_str().as_bytes())
    }
}

/// A pending queue sorted in the queue order, adjacent pair by adjacent
/// pair.
pub open spec fn queue_sorted(q: Seq<AuctionInfo>) -> bool {
    forall|i: int| 0 <= i && i + 1 < q.len() ==> info_le(#[trigger] q[i], q[i + 1])
}

proof fn lemma_sorted_chain(q: Seq<AuctionInfo>, i: int, j: int)
    requires
        queue_sorted(q),
        0 <= i <= j < q.len(),
    ensures
        q[i].start_time <= q[j].start_time,
    decreases j - i,
{
    if i < j {
        lemma_sorted_chain(q, i, j - 1);
        assert(info_le(q[j - 1], q[j]));
    }
}

/// Law: on a sorted pending queue, earlier entries never start later, so the
/// pop order of a chain's queue is non-decreasing in `start_time`.
pub proof fn lemma_pop_order_nondecreasing(q: Seq<AuctionInfo>)
    requires
        queue_sorted(q),
    ensures
        forall|i: int, j: int|
            #![trigger q[i], q[j]]
            0 <= i <= j < q.len() ==> q[i].start_time <= q[j].start_time,
{
    assert forall|i: int, j: int|
        #![trigger q[i], q[j]]
        0 <= i <= j < q.len() implies q[i].start_time <= q[j].start_time by {
        lemma_sorted_chain(q, i, j);
    }
}

/// A well-formed per-chain queue: sorted in the queue order, and every
/// entry names the chain it is queued under.
pub open spec fn chain_queue_ok(q: Seq<AuctionInfo>, c: ChainId) -> bool {
    &&& queue_sorted(q)
    &&& forall|i: int| 0 <= i < q.len() ==> (#[trigger] q[i]).chain_id == c
}

/// Per-chain pending queues of validated offers, each ordered by
/// `start_time` ascending with id tie-break.
pub struct AuctionRegistry {
    auction_queues: HashMap<ChainId, Vec<AuctionInfo>>,
}

impl AuctionRegistry {
    /// The set of chains with a pending queue.
    pub closed spec fn spec_chains(&self) -> Set<ChainId> {
        self.auction_queues@.dom()
    }

    /// Whether `chain_id` has a pending queue.
    pub open spec fn has_chain(&self, chain_id: ChainId) -> bool {
        self.spec_chains().contains(chain_id)
    }

    /// The pending queue of one chain.
    pub closed spec fn spec_queue(&self, chain_id: ChainId) -> Seq<AuctionInfo> {
        self.auction_queues@[chain_id]@
    }

    /// Whether two registry values hold the same chains with the same
    /// queues.
    pub open spec fn queues_equal(self, other: AuctionRegistry) -> bool {
        &&& self.spec_chains() == other.spec_chains()
        &&& forall|c: ChainId|
            #[trigger] self.has_chain(c) ==> self.spec_queue(c) == other.spec_queue(c)
    }

    /// Every queue is sorted and holds only offers for its own chain.
    pub open spec fn wf(&self) -> bool {
        forall|c: ChainId| #[trigger] self.has_chain(c) ==> chain_queue_ok(self.spec_queue(c), c)
    }

    /// Creates a registry with no chains.
    pub fn new() -> (r: AuctionRegistry)
        ensures
            r.wf(),
            r.spec_chains() == Set::<ChainId>::empty(),
    {
        let r = AuctionRegistry { auction_queues: HashMap::new() };
        proof {
            assert(r.spec_chains() =~= Set::<ChainId>::empty());
        }
        r
    }

    /// Registers a chain with an empty queue; rejects a chain that already
    /// has one, leaving the registry unchanged.
    pub fn register_chain(&mut self, chain_id: ChainId) -> (r: Result<(), RegistryError>)
        requires
            old(self).wf(),
        ensures
            final(self).wf(),
            if old(self).has_chain(chain_id) {
                &&& r matches Err(RegistryError::ChainAlreadyRegistered(c)) && c == chain_id
                &&& final(self).queues_equal(*old(self))
            } else {
                &&& r is Ok
                &&& final(self).spec_chains() == old(self).spec_chains().insert(chain_id)
                &&& final(self).spec_queue(chain_id) == Seq::<AuctionInfo>::empty()
                &&& forall|c: ChainId|
                    #[trigger] old(self).has_chain(c) ==> final(self).spec_queue(c)
                        == old(self).spec_queue(c)
            },
    {
        if self.auction_queues.contains_key(&chain_id) {
            return Err(RegistryError::ChainAlreadyRegistered(chain_id));
        }
        let empty: Vec<AuctionInfo> = Vec::new();
        self.auction_queues.insert(chain_id, empty);
        proof {
            assert(self.spec_chains() =~= old(self).spec_chains().insert(chain_id));
            assert forall|c: ChainId| #[trigger] self.has_chain(c) implies chain_queue_ok(
                self.spec_queue(c),
                c,
            ) by {
                if c != chain_id {
                    assert(old(self).has_chain(c));
                    assert(self.spec_queue(c) == old(self).spec_queue(c));
                } else {
                    assert(self.spec_queue(c).len() == 0);
                }
            }
        }
        Ok(())
    }

    /// Inserts a validated offer into its chain's queue at its ordered
    /// position; rejects an unknown chain, leaving the registry unchanged.
    #[verifier::loop_isolation(false)]
    #[verifier::rlimit(30)]
    pub fn store_auction_info(&mut self, info: AuctionInfo) -> (r: Result<(), RegistryError>)
        requires
            old(self).wf(),
        ensures
            final(self).wf(),
            if old(self).has_chain(info.chain_id) {
                &&& r is Ok
                &&& final(self).spec_chains() == old(self).spec_chains()
                &&& exists|p: int|
                    0 <= p <= old(self).spec_queue(info.chain_id).len() && final(self).spec_queue(
                        info.chain_id,
                    ) == old(self).spec_queue(info.chain_id).insert(p, info)
                &&& forall|c: ChainId|
                    #[trigger] old(self).has_chain(c) && c != info.chain_id
                        ==> final(self).spec_queue(c) == old(self).spec_queue(c)
            } else {
                &&& r matches Err(RegistryError::InvalidChainId(c)) && c == info.chain_id
                &&& final(self).queues_equal(*old(self))
            },
    {
        let chain_id = info.chain_id;
        let queue_opt = self.auction_queues.remove(&chain_id);
        match queue_opt {
            None => {
                proof {
                    assert(self.auction_queues@ =~= old(self).auction_queues@);
                    assert forall|c: ChainId| #[trigger] self.has_chain(c) implies chain_queue_ok(
                        self.spec_queue(c),
                        c,
                    ) by {
                        assert(old(self).has_chain(c));
                        assert(self.spec_queue(c) == old(self).spec_queue(c));
                    }
                }
                Err(RegistryError::InvalidChainId(chain_id))
            },
            Some(mut queue) => {
                proof {
                    assert(old(self).has_chain(chain_id));
                    assert(queue@ == old(self).spec_queue(chain_id));
                }
                let ghost old_queue = queue@;
                let mut p: usize = 0;
                while p < queue.len() && !info_le_exec(&info, &queue[p])
                    invariant
                        p <= queue@.len(),
                        queue@ == old_queue,
                        forall|j: int| 0 <= j < p ==> !info_le(info, #[trigger] queue@[j]),
                    decreases queue@.len() - p,
                {
                    p = p + 1;
                }
                proof {
                    assert forall|j: int| 0 <= j < p implies info_le(
                        #[trigger] old_queue[j],
                        info,
                    ) by {
                        lemma_info_le_total(info, old_queue[j]);
                    }
                }
                queue.insert(p, info);
                self.auction_queues.insert(chain_id, queue);
                proof {
                    let new_queue = old_queue.insert(p as int, info);
                    old_queue.insert_ensures(p as int, info);
                    assert(self.spec_queue(chain_id) == new_queue);
                    assert(self.spec_chains() =~= old(self).spec_chains());
                    assert(queue_sorted(old_queue));
                    assert forall|i: int| 0 <= i && i + 1 < new_queue.len() implies info_le(
                        #[trigger] new_queue[i],
                        new_queue[i + 1],
                    ) by {
                        if i + 1 < p {
                            assert(new_queue[i] == old_queue[i]);
                            assert(new_queue[i + 1] == old_queue[i + 1]);
                        } else if i + 1 == p {
                            assert(new_queue[i] == old_queue[i]);
                            assert(new_queue[i + 1] == info);
                        } else if i == p {
                            assert(new_queue[i] == info);
                            assert(new_queue[i + 1] == old_queue[p as int]);
                            assert(info_le(info, old_queue[p as int]));
                        } else {
                            assert(new_queue[i] == old_queue[i - 1]);
                            assert(new_queue[i + 1] == old_queue[i]);
                        }
                    }
                    assert forall|c: ChainId| #[trigger] self.has_chain(c) implies chain_queue_ok(
                        self.spec_queue(c),
                        c,
                    ) by {
                        if c == chain_id {
                            assert(queue_sorted(new_queue));
                            assert forall|i: int|
                                0 <= i < new_queue.len() implies (#[trigger] new_queue[i]).chain_id
                                == c by {
                                if i < p {
                                    assert(new_queue[i] == old_queue[i]);
                                } else if i == p {
                                    assert(new_queue[i] == info);
                                } else {
                                    assert(new_queue[i] == old_queue[i - 1]);
                                }
                            }
                            assert(chain_queue_ok(new_queue, c));
                            assert(self.spec_queue(c) == new_queue);
                        } else {
                            assert(old(self).has_chain(c));
                            assert(self.spec_queue(c) == old(self).spec_queue(c));
                        }
                    }
                }
                Ok(())
            },
        }
    }

    /// Removes and returns the next pending offer — the one with the least
    /// `start_time` — or nothing when the chain is unknown or its queue is
    /// empty.
    pub fn pop_next_auction(&mut self, chain_id: ChainId) -> (r: Option<AuctionInfo>)
        requires
            old(self).wf(),
        ensures
            final(self).wf(),
            if old(self).has_chain(chain_id) && old(self).spec_queue(chain_id).len() > 0 {
                &&& r matches Some(info) && info == old(self).spec_queue(chain_id)[0]
                &&& final(self).spec_chains() == old(self).spec_chains()
                &&& final(self).spec_queue(chain_id) == old(self).spec_queue(chain_id).skip(1)
                &&& forall|c: ChainId|
                    #[trigger] old(self).has_chain(c) && c != chain_id ==> final(self).spec_queue(c)
                        == old(self).spec_queue(c)
                &&& forall|i: int|
                    0 <= i < old(self).spec_queue(chain_id).len() ==> old(self).spec_queue(
                        chain_id,
                    )[0].start_time <= (#[trigger] old(self).spec_queue(chain_id)[i]).start_time
            } else {
                r is None && final(self).queues_equal(*old(self))
            },
    {
        let queue_opt = self.auction_queues.remove(&chain_id);
        match queue_opt {
            None => {
                proof {
                    assert(self.auction_queues@ =~= old(self).auction_queues@);
                    assert forall|c: ChainId| #[trigger] self.has_chain(c) implies chain_queue_ok(
                        self.spec_queue(c),
                        c,
                    ) by {
                        assert(old(self).has_chain(c));
                        assert(self.spec_queue(c) == old(self).spec_queue(c));
                    }
                }
                None
            },
            Some(mut queue) => {
                proof {
                    assert(old(self).has_chain(chain_id));
                    assert(queue@ == old(self).spec_queue(chain_id));
                }
                if queue.len() == 0 {
                    self.auction_queues.insert(chain_id, queue);
                    proof {
                        assert(self.auction_queues@ =~= old(self).auction_queues@);
                    assert forall|c: ChainId| #[trigger] self.has_chain(c) implies chain_queue_ok(
                        self.spec_queue(c),
                        c,
                    ) by {
                        assert(old(self).has_chain(c));
                        assert(self.spec_queue(c) == old(self).spec_queue(c));
                    }
                    }
                    None
                } else {
                    let ghost old_queue = queue@;
                    let info = queue.remove(0);
                    self.auction_queues.insert(chain_id, queue);
                    proof {
                        let oq = old(self).spec_queue(chain_id);
                        assert(self.spec_queue(chain_id) =~= oq.skip(1));
                        assert(self.spec_chains() =~= old(self).spec_chains());
                        assert(queue_sorted(oq));
                        lemma_pop_order_nondecreasing(oq);
                        assert forall|c: ChainId| #[trigger] self.has_chain(c) implies chain_queue_ok(
                            self.spec_queue(c),
                            c,
                        ) by {
                            if c == chain_id {
                                let nq = self.spec_queue(chain_id);
                                assert forall|i: int|
                                    0 <= i && i + 1 < nq.len() implies info_le(
                                    #[trigger] nq[i],
                                    nq[i + 1],
                                ) by {
                                    assert(nq[i] == oq[i + 1]);
                                    assert(nq[i + 1] == oq[i + 2]);
                                }
                                assert forall|i: int|
                                    0 <= i < nq.len() implies (#[trigger] nq[i]).chain_id == c by {
                                    assert(nq[i] == oq[i + 1]);
                                }
                                assert(chain_queue_ok(nq, c));
                            } else {
                                assert(old(self).has_chain(c));
                                assert(self.spec_queue(c) == old(self).spec_queue(c));
                            }
                        }
                    }
                    Some(info)
                }
            },
        }
    }

    /// A reference to the next pending offer without removing it, or nothing
    /// when the chain is unknown or its queue is empty.
    pub fn get_next_auction_info(&self, chain_id: ChainId) -> (r: Option<&AuctionInfo>)
        ensures
            if self.has_chain(chain_id) && self.spec_queue(chain_id).len() > 0 {
                r matches Some(info) && *info == self.spec_queue(chain_id)[0]
            } else {
                r is None
            },
    {
        match self.auction_queues.get(&chain_id) {
            None => None,
            Some(queue) => {
                if queue.len() == 0 {
                    None
                } else {
                    Some(&queue[0])
                }
            },
        }
    }
}

} // verus!
