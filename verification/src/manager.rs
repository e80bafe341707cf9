use vstd::prelude::*;

use std::collections::HashMap;

use crate::bus::MessageBus;
use crate::domain::{
    AuctionId, AuctionInfo, AuctionState, Bid, ChainId, ChainInfo, Tx, WorkerMessage,
    WorkerMessageType,
};
use crate::errors::{AuctionError, RegistryError};
use crate::registry::service::RegistryService;
use crate::worker::AuctionWorker;

verus! {

broadcast use vstd::std_specs::hash::group_hash_axioms;

/// The admission ceiling on bid amounts. A placeholder for a real balance
/// check: it is applied once, upstream of the worker.
pub const MAX_BID_AMOUNT: u64 = 1_000_000_000;

/// How many lifecycle messages the bus buffers before producers must wait.
pub const BUS_CAPACITY: usize = 100;

/// Whether a bid passes the admission checks applied upstream of the worker:
/// a non-empty bidder signature and an amount within the admission ceiling.
pub open spec fn bid_admissible(bid: Bid) -> bool {
    bid.bidder_signature@.len() > 0 && bid.bid_amount <= MAX_BID_AMOUNT
}

/// The admission error for a batch: the error of the first inadmissible bid
/// in order, or nothing when every bid is admissible.
pub open spec fn batch_admission_error(bids: Seq<Bid>) -> Option<AuctionError>
    decreases bids.len(),
{
    if bids.len() == 0 {
        None
    } else if bids[0].bidder_signature@.len() == 0 {
        Some(AuctionError::InvalidBuyerSignature)
    } else if bids[0].bid_amount > MAX_BID_AMOUNT {
        Some(AuctionError::InsufficientFunds)
    } else {
        batch_admission_error(bids.drop_first())
    }
}

/// Whether `newm` is `oldm` with exactly one message appended, whose fields
/// are the given kind, chain and auction id.
pub open spec fn pushed_message(
    oldm: Seq<WorkerMessage>,
    newm: Seq<WorkerMessage>,
    kind: WorkerMessageType,
    c: ChainId,
    id: Seq<char>,
) -> bool {
    &&& newm.len() == oldm.len() + 1
    &&& forall|i: int| 0 <= i < oldm.len() ==> #[trigger] newm[i] == oldm[i]
    &&& newm.last().message_type == kind
    &&& newm.last().chain_id == c
    &&& newm.last().auction_id@ == id
}

/// Skipping admissible bids does not change the batch admission outcome.
proof fn lemma_batch_admission_skip(bids: Seq<Bid>, i: int)
    requires
        0 <= i <= bids.len(),
        forall|j: int| 0 <= j < i ==> bid_admissible(#[trigger] bids[j]),
    ensures
        batch_admission_error(bids) == batch_admission_error(bids.skip(i)),
    decreases i,
{
    if i > 0 {
        lemma_batch_admission_skip(bids.drop_first(), i - 1);
        assert(bids.drop_first().skip(i - 1) =~= bids.skip(i));
        assert(bids[0] == bids.skip(0)[0]);
        assert(bids.skip(0) =~= bids);
    } else {
        assert(bids.skip(0) =~= bids);
    }
}

/// Whether `msg` is the termination report for auction `id` on chain `c`.
pub open spec fn is_ended_message(msg: WorkerMessage, c: ChainId, id: Seq<char>) -> bool {
    msg.message_type == WorkerMessageType::AuctionEnded && msg.chain_id == c && msg.auction_id@
        == id
}

/// Transfers the ongoing-index consistency from one engine value to another
/// that agrees on the index, the bus contents, and the workers of the
/// indexed chains.
proof fn lemma_ongoing_ok_transfer(a: AuctionManager, b: AuctionManager)
    requires
        a.ongoing_ok(),
        b.spec_ongoing() == a.spec_ongoing(),
        a.spec_bus().spec_messages().len() <= b.spec_bus().spec_messages().len(),
        forall|i: int|
            0 <= i < a.spec_bus().spec_messages().len() ==> #[trigger] b.spec_bus().spec_messages()[i]
                == a.spec_bus().spec_messages()[i],
        forall|c: ChainId|
            #[trigger] a.spec_ongoing().contains_key(c) ==> b.spec_workers().contains_key(c)
                && b.spec_workers()[c] == a.spec_workers()[c],
    ensures
        b.ongoing_ok(),
{
    assert forall|c: ChainId| #[trigger] b.spec_ongoing().contains_key(c) implies b.ongoing_entry_ok(
        c,
    ) by {
        assert(a.spec_ongoing().contains_key(c));
        match a.spec_worker_state(c) {
            Some(st) => {
                if st.is_ended {
                    let i = choose|i: int|
                        0 <= i < a.spec_bus().spec_messages().len() && is_ended_message(
                            a.spec_bus().spec_messages()[i],
                            c,
                            st.auction_info.id@,
                        );
                    assert(0 <= i < b.spec_bus().spec_messages().len() && is_ended_message(
                        b.spec_bus().spec_messages()[i],
                        c,
                        st.auction_info.id@,
                    ));
                }
            },
            None => {},
        }
    }
}

/// Transfers the consistency of one ongoing entry between two engine values
/// that agree on that entry, the bus contents, and the chain's worker
/// observations.
proof fn lemma_entry_ok_same_observations(a: AuctionManager, b: AuctionManager, c0: ChainId)
    requires
        a.ongoing_entry_ok(c0),
        b.spec_ongoing().contains_key(c0),
        b.spec_ongoing()[c0] == a.spec_ongoing()[c0],
        a.spec_bus().spec_messages().len() <= b.spec_bus().spec_messages().len(),
        forall|i: int|
            0 <= i < a.spec_bus().spec_messages().len() ==> #[trigger] b.spec_bus().spec_messages()[i]
                == a.spec_bus().spec_messages()[i],
        b.spec_workers().contains_key(c0),
        b.spec_worker_state(c0) == a.spec_worker_state(c0),
    ensures
        b.ongoing_entry_ok(c0),
{
    match a.spec_worker_state(c0) {
        Some(st) => {
            if st.is_ended {
                let i = choose|i: int|
                    0 <= i < a.spec_bus().spec_messages().len() && is_ended_message(
                        a.spec_bus().spec_messages()[i],
                        c0,
                        st.auction_info.id@,
                    );
                assert(0 <= i < b.spec_bus().spec_messages().len() && is_ended_message(
                    b.spec_bus().spec_messages()[i],
                    c0,
                    st.auction_info.id@,
                ));
            }
        },
        None => {},
    }
}

/// Extends `lemma_ongoing_ok_transfer` to an engine whose worker for one
/// chain changed: that chain's entry consistency is supplied separately.
proof fn lemma_ongoing_ok_update(a: AuctionManager, b: AuctionManager, c0: ChainId)
    requires
        a.ongoing_ok(),
        b.spec_ongoing() == a.spec_ongoing(),
        a.spec_bus().spec_messages().len() <= b.spec_bus().spec_messages().len(),
        forall|i: int|
            0 <= i < a.spec_bus().spec_messages().len() ==> #[trigger] b.spec_bus().spec_messages()[i]
                == a.spec_bus().spec_messages()[i],
        forall|c: ChainId|
            #[trigger] a.spec_ongoing().contains_key(c) && c != c0 ==> b.spec_workers().contains_key(
                c,
            ) && b.spec_workers()[c] == a.spec_workers()[c],
        a.spec_ongoing().contains_key(c0) ==> b.ongoing_entry_ok(c0),
    ensures
        b.ongoing_ok(),
{
    assert forall|c: ChainId| #[trigger] b.spec_ongoing().contains_key(c) implies b.ongoing_entry_ok(
        c,
    ) by {
        assert(a.spec_ongoing().contains_key(c));
        if c != c0 {
            lemma_entry_ok_same_observations(a, b, c);
        }
    }
}

/// The engine's façade: it owns the registry, one worker per chain, the
/// index of ongoing auctions, and the message bus the workers report on. It
/// moves offers from the registry to the workers when their start time is
/// reached, forwards bids, and drops an ongoing entry when the matching
/// termination report arrives.
pub struct AuctionManager {
    registry: RegistryService,
    workers: HashMap<ChainId, AuctionWorker>,
    ongoing_auctions: HashMap<ChainId, AuctionInfo>,
    bus: MessageBus,
}

impl AuctionManager {
    /// The registration and validation component.
    pub closed spec fn spec_registry(&self) -> RegistryService {
        self.registry
    }

    /// The workers, keyed by chain.
    pub closed spec fn spec_workers(&self) -> Map<ChainId, AuctionWorker> {
        self.workers@
    }

    /// The ongoing index: chain to the offer currently running there.
    pub closed spec fn spec_ongoing(&self) -> Map<ChainId, AuctionInfo> {
        self.ongoing_auctions@
    }

    /// The lifecycle messages queued on the bus, oldest first.
    pub closed spec fn spec_bus(&self) -> MessageBus {
        self.bus
    }

    /// Whether `chain_id` is registered.
    pub open spec fn has_chain(&self, chain_id: ChainId) -> bool {
        self.spec_registry().has_chain(chain_id)
    }

    /// The pending queue of one chain.
    pub open spec fn spec_queue(&self, chain_id: ChainId) -> Seq<AuctionInfo> {
        self.spec_registry().spec_queue(chain_id)
    }

    /// The auction slot of one chain's worker.
    pub open spec fn spec_worker_state(&self, chain_id: ChainId) -> Option<AuctionState> {
        self.spec_workers()[chain_id].spec_state()
    }

    /// Consistency of one ongoing entry with its chain's worker, modulo bus
    /// delivery: the worker holds exactly the indexed offer, and when that
    /// auction has already ended its termination report is still pending on
    /// the bus.
    pub open spec fn ongoing_entry_ok(&self, c: ChainId) -> bool {
        &&& self.spec_workers().contains_key(c)
        &&& self.spec_worker_state(c) matches Some(st) && st.auction_info == self.spec_ongoing()[c]
            && (st.is_ended ==> exists|i: int|
            0 <= i < self.spec_bus().spec_messages().len() && is_ended_message(
                #[trigger] self.spec_bus().spec_messages()[i],
                c,
                st.auction_info.id@,
            ))
    }

    /// The ongoing index is consistent with the workers, entry by entry.
    pub open spec fn ongoing_ok(&self) -> bool {
        forall|c: ChainId|
            #[trigger] self.spec_ongoing().contains_key(c) ==> self.ongoing_entry_ok(c)
    }

    /// Well-formedness of the whole engine: the registry is well-formed,
    /// every registered chain has exactly one well-formed worker bound to
    /// it, the bus respects its capacity, and the ongoing index is
    /// consistent with the workers.
    pub open spec fn wf(&self) -> bool {
        &&& self.spec_registry().wf()
        &&& forall|c: ChainId|
            #[trigger] self.spec_workers().contains_key(c) ==> self.spec_workers()[c].wf()
                && self.spec_workers()[c].spec_chain_id() == c
        &&& forall|c: ChainId|
            #[trigger] self.spec_registry().has_chain(c) <==> self.spec_workers().contains_key(c)
        &&& self.spec_bus().wf()
        &&& self.ongoing_ok()
    }

    /// Creates an engine with no chains and an empty bus.
    pub fn new() -> (r: AuctionManager)
        ensures
            r.wf(),
            r.spec_registry().spec_chains() == Map::<ChainId, ChainInfo>::empty(),
            r.spec_workers() == Map::<ChainId, AuctionWorker>::empty(),
            r.spec_ongoing() == Map::<ChainId, AuctionInfo>::empty(),
            r.spec_bus().spec_messages() == Seq::<WorkerMessage>::empty(),
    {
        let r = AuctionManager {
            registry: RegistryService::new(),
            workers: HashMap::new(),
            ongoing_auctions: HashMap::new(),
            bus: MessageBus::new(BUS_CAPACITY),
        };
        proof {
            assert(r.spec_workers() =~= Map::<ChainId, AuctionWorker>::empty());
            assert(r.spec_ongoing() =~= Map::<ChainId, AuctionInfo>::empty());
        }
        r
    }

    /// Registers a chain and spawns its idle worker; rejects a chain that is
    /// already registered, changing nothing observable.
    pub fn register_chain(&mut self, chain_id: ChainId, chain_info: ChainInfo) -> (r: Result<
        (),
        RegistryError,
    >)
        requires
            old(self).wf(),
        ensures
            final(self).wf(),
            final(self).spec_ongoing() == old(self).spec_ongoing(),
            final(self).spec_bus() == old(self).spec_bus(),
            if old(self).has_chain(chain_id) {
                &&& r matches Err(RegistryError::ChainAlreadyRegistered(c)) && c == chain_id
                &&& final(self).spec_registry().spec_chains()
                    == old(self).spec_registry().spec_chains()
                &&& final(self).spec_workers() == old(self).spec_workers()
            } else {
                &&& r is Ok
                &&& final(self).spec_registry().spec_chains()
                    == old(self).spec_registry().spec_chains().insert(chain_id, chain_info)
                &&& final(self).spec_queue(chain_id) == Seq::<AuctionInfo>::empty()
                &&& final(self).spec_workers().contains_key(chain_id)
                    && final(self).spec_worker_state(chain_id) is None
                &&& forall|c: ChainId|
                    #[trigger] old(self).spec_workers().contains_key(c)
                        ==> final(self).spec_workers()[c] == old(self).spec_workers()[c]
            },
    {
        let registered = self.registry.register_chain(chain_id, chain_info);
        match registered {
            Err(e) => {
                proof {
                    assert forall|c: ChainId|
                        #[trigger] self.spec_registry().has_chain(c)
                            <==> self.spec_workers().contains_key(c) by {
                        assert(old(self).spec_registry().has_chain(c) <==> old(self).spec_workers().contains_key(c));
                    }
                    lemma_ongoing_ok_transfer(*old(self), *self);
                }
                Err(e)
            },
            Ok(()) => {
                let worker = AuctionWorker::new(chain_id);
                self.workers.insert(chain_id, worker);
                proof {
                    assert forall|c: ChainId|
                        #[trigger] self.spec_registry().has_chain(c)
                            <==> self.spec_workers().contains_key(c) by {
                        assert(old(self).spec_registry().has_chain(c) <==> old(self).spec_workers().contains_key(c));
                    }
                    assert forall|c: ChainId|
                        #[trigger] old(self).spec_ongoing().contains_key(
                            c,
                        ) implies self.spec_workers().contains_key(c) && self.spec_workers()[c]
                        == old(self).spec_workers()[c] by {
                        assert(c != chain_id);
                    }
                    lemma_ongoing_ok_transfer(*old(self), *self);
                }
                Ok(())
            },
        }
    }

    /// The registered chain ids, in registration order.
    pub fn get_chain_ids(&self) -> (r: Vec<ChainId>)
        ensures
            r@ == self.spec_registry().spec_chain_ids(),
    {
        self.registry.get_chain_ids()
    }

    /// Validates an offer and queues it on its chain; the validation cascade
    /// and its errors are those of `RegistryService::submit_auction_info`.
    pub fn submit_auction_info(&mut self, info: AuctionInfo) -> (r: Result<(), RegistryError>)
        requires
            old(self).wf(),
        ensures
            final(self).wf(),
            final(self).spec_workers() == old(self).spec_workers(),
            final(self).spec_ongoing() == old(self).spec_ongoing(),
            final(self).spec_bus() == old(self).spec_bus(),
            final(self).spec_registry().spec_chains() == old(self).spec_registry().spec_chains(),
            r is Ok <==> old(self).spec_registry().spec_accepts(info),
            if old(self).spec_registry().spec_accepts(info) {
                exists|p: int|
                    0 <= p <= old(self).spec_queue(info.chain_id).len() && final(self).spec_queue(
                        info.chain_id,
                    ) == old(self).spec_queue(info.chain_id).insert(p, info)
            } else {
                forall|c: ChainId|
                    #[trigger] old(self).has_chain(c) ==> final(self).spec_queue(c)
                        == old(self).spec_queue(c)
            },
            match r {
                Ok(()) => true,
                Err(e) => {
                    if !old(self).has_chain(info.chain_id) {
                        e matches RegistryError::InvalidChainId(c) && c == info.chain_id
                    } else if !old(self).spec_registry().spec_chains()[info.chain_id]@.has_seller(
                        info.seller_address@,
                    ) {
                        e matches RegistryError::SellerNotRegistered(s) && s@
                            == info.seller_address@
                    } else if info.seller_signature@.len() == 0 {
                        e matches RegistryError::InvalidSellerSignature
                    } else if info.blockspace_size > old(self).spec_registry().spec_chains()[
                        info.chain_id
                    ].gas_limit {
                        e matches RegistryError::InvalidGasLimit
                    } else {
                        e matches RegistryError::InvalidAuctionTime
                    }
                },
            },
    {
        let ghost offered = info;
        let r = self.registry.submit_auction_info(info);
        proof {
            assert forall|c: ChainId|
                #[trigger] self.spec_registry().has_chain(c) <==> self.spec_workers().contains_key(
                c,
            ) by {
                assert(old(self).spec_registry().has_chain(c) <==> old(self).spec_workers().contains_key(c));
            }
            lemma_ongoing_ok_transfer(*old(self), *self);
            if old(self).spec_registry().spec_accepts(offered) {
                let oldq = old(self).spec_queue(offered.chain_id);
                let p = choose|p: int|
                    0 <= p <= oldq.len() && self.spec_registry().spec_queue(offered.chain_id)
                        == oldq.insert(p, offered);
                assert(0 <= p <= oldq.len() && self.spec_queue(offered.chain_id) == oldq.insert(
                    p,
                    offered,
                ));
            }
        }
        r
    }

    /// Promotes the next pending offer of a chain once its start time is
    /// reached: the offer leaves the queue, the chain's worker adopts it,
    /// the ongoing index records it, and its id comes back. Nothing happens
    /// and nothing comes back when the chain is unknown, its queue is empty,
    /// or the head offer has not started yet — in particular, on an empty
    /// queue this is a no-op.
    pub fn start_next_auction(&mut self, chain_id: ChainId, now: u64) -> (r: Option<AuctionId>)
        requires
            old(self).wf(),
        ensures
            final(self).wf(),
            final(self).spec_bus() == old(self).spec_bus(),
            final(self).spec_registry().spec_chains() == old(self).spec_registry().spec_chains(),
            if old(self).has_chain(chain_id) && old(self).spec_queue(chain_id).len() > 0 && old(self).spec_queue(chain_id)[0].start_time <= now {
                let head = old(self).spec_queue(chain_id)[0];
                &&& r matches Some(id) && id@ == head.id@
                &&& final(self).spec_queue(chain_id) == old(self).spec_queue(chain_id).skip(1)
                &&& final(self).spec_worker_state(chain_id) matches Some(st) && st.auction_info
                    == head && st.bids@ == Seq::<Bid>::empty() && !st.is_ended && st.highest_bid
                    == 0 && st.winner is None
                &&& final(self).spec_ongoing() == old(self).spec_ongoing().insert(chain_id, head)
                &&& forall|c: ChainId|
                    #[trigger] old(self).has_chain(c) && c != chain_id ==> final(self).spec_queue(c)
                        == old(self).spec_queue(c)
                &&& forall|c: ChainId|
                    #[trigger] old(self).spec_workers().contains_key(c) && c != chain_id
                        ==> final(self).spec_workers()[c] == old(self).spec_workers()[c]
            } else {
                &&& r is None
                &&& final(self).spec_ongoing() == old(self).spec_ongoing()
                &&& forall|c: ChainId|
                    #[trigger] old(self).has_chain(c) ==> final(self).spec_queue(c)
                        == old(self).spec_queue(c)
                &&& forall|c: ChainId|
                    #[trigger] old(self).spec_workers().contains_key(c)
                        ==> final(self).spec_workers()[c] == old(self).spec_workers()[c]
            },
    {
        let start_ready = match self.registry.get_next_auction_info(chain_id) {
            None => false,
            Some(head) => head.start_time <= now,
        };
        if !start_ready {
            return None;
        }
        let popped = self.registry.pop_next_auction(chain_id);
        match popped {
            None => {
                proof {
                    assert(false);
                }
                None
            },
            Some(info) => {
                proof {
                    assert(old(self).spec_registry().spec_auction_registry().has_chain(chain_id));
                    assert(crate::registry::auction::chain_queue_ok(
                        old(self).spec_queue(chain_id),
                        chain_id,
                    ));
                    assert(info.chain_id == chain_id);
                }
                let worker_opt = self.workers.remove(&chain_id);
                match worker_opt {
                    None => {
                        proof {
                            assert(old(self).spec_workers().contains_key(chain_id));
                            assert(false);
                        }
                        None
                    },
                    Some(mut worker) => {
                        let id = info.id.clone();
                        let adopted = info.clone();
                        worker.start_auction(info);
                        self.workers.insert(chain_id, worker);
                        self.ongoing_auctions.insert(chain_id, adopted);
                        proof {
                            let head = old(self).spec_queue(chain_id)[0];
                            assert(self.spec_ongoing() =~= old(self).spec_ongoing().insert(
                                chain_id,
                                head,
                            ));
                            assert forall|c: ChainId|
                                #[trigger] self.spec_registry().has_chain(c)
                                    <==> self.spec_workers().contains_key(c) by {
                                assert(old(self).spec_registry().has_chain(c) <==> old(self).spec_workers().contains_key(c));
                            }
                            assert forall|c: ChainId|
                                #[trigger] self.spec_ongoing().contains_key(
                                    c,
                                ) implies self.ongoing_entry_ok(c) by {
                                if c == chain_id {
                                    assert(self.spec_worker_state(c) matches Some(st)
                                        && st.auction_info == head && !st.is_ended);
                                } else {
                                    assert(old(self).spec_ongoing().contains_key(c));
                                    assert(self.spec_workers()[c] == old(self).spec_workers()[c]);
                                    match old(self).spec_worker_state(c) {
                                        Some(st) => {
                                            if st.is_ended {
                                                let i = choose|i: int|
                                                    0 <= i < old(self).spec_bus().spec_messages().len()
                                                        && is_ended_message(
                                                        old(self).spec_bus().spec_messages()[i],
                                                        c,
                                                        st.auction_info.id@,
                                                    );
                                                assert(0 <= i
                                                    < self.spec_bus().spec_messages().len()
                                                    && is_ended_message(
                                                    self.spec_bus().spec_messages()[i],
                                                    c,
                                                    st.auction_info.id@,
                                                ));
                                            }
                                        },
                                        None => {},
                                    }
                                }
                            }
                        }
                        Some(id)
                    },
                }
            },
        }
    }

    /// Forwards one bid to the chain's worker after the upstream admission
    /// checks: the bidder signature must pass the admission predicate, and
    /// the amount must not exceed the admission ceiling. With no worker for
    /// the chain, `NoAuctions` comes back. The worker's own checks follow:
    /// an idle worker, a foreign auction id, or an ended auction reject the
    /// bid — an ended auction stays exactly as it was — and otherwise the
    /// bid is appended and the acknowledgment naming auction and chain comes
    /// back. On every error nothing changes.
    pub fn submit_bid(&mut self, chain_id: ChainId, auction_id: &str, bid: Bid) -> (r: Result<
        String,
        AuctionError,
    >)
        requires
            old(self).wf(),
        ensures
            final(self).wf(),
            final(self).spec_bus() == old(self).spec_bus(),
            final(self).spec_ongoing() == old(self).spec_ongoing(),
            final(self).spec_registry() == old(self).spec_registry(),
            final(self).spec_workers().dom() == old(self).spec_workers().dom(),
            forall|c: ChainId|
                #[trigger] old(self).spec_workers().contains_key(c) && c != chain_id
                    ==> final(self).spec_workers()[c] == old(self).spec_workers()[c],
            if bid.bidder_signature@.len() == 0 {
                r matches Err(AuctionError::InvalidBuyerSignature) && final(self).spec_workers()
                    == old(self).spec_workers()
            } else if bid.bid_amount > MAX_BID_AMOUNT {
                r matches Err(AuctionError::InsufficientFunds) && final(self).spec_workers()
                    == old(self).spec_workers()
            } else if !old(self).spec_workers().contains_key(chain_id) {
                r matches Err(AuctionError::NoAuctions) && final(self).spec_workers()
                    == old(self).spec_workers()
            } else {
                match old(self).spec_worker_state(chain_id) {
                    None => r matches Err(AuctionError::NoAuctions) && final(self).spec_worker_state(chain_id) is None,
                    Some(st) => {
                        if st.auction_info.id@ != auction_id@ {
                            &&& r matches Err(AuctionError::InvalidAuctionId(a)) && a@
                                == auction_id@
                            &&& final(self).spec_worker_state(chain_id) == old(self).spec_worker_state(chain_id)
                        } else if st.is_ended {
                            &&& r matches Err(AuctionError::AuctionEnded)
                            &&& final(self).spec_worker_state(chain_id) == old(self).spec_worker_state(chain_id)
                        } else {
                            &&& r matches Ok(ack) && ack@ == crate::text::ack_message(
                                st.auction_info.chain_id,
                                st.auction_info.id@,
                            )
                            &&& final(self).spec_worker_state(chain_id) matches Some(st2)
                                && st2.auction_info == st.auction_info && st2.bids@
                                == st.bids@.push(bid) && st2.highest_bid == st.highest_bid
                                && st2.winner == st.winner && !st2.is_ended
                        }
                    },
                }
            },
    {
        if !crate::helpers::verify_signature(
            bid.bidder_address.as_str(),
            bid.bidder_signature.as_str(),
        ) {
            return Err(AuctionError::InvalidBuyerSignature);
        }
        if bid.bid_amount > MAX_BID_AMOUNT {
            return Err(AuctionError::InsufficientFunds);
        }
        let worker_opt = self.workers.remove(&chain_id);
        match worker_opt {
            None => {
                proof {
                    assert(self.workers@ =~= old(self).workers@);
                    lemma_ongoing_ok_update(*old(self), *self, chain_id);
                }
                Err(AuctionError::NoAuctions)
            },
            Some(mut worker) => {
                let r = worker.submit_bid(auction_id, bid);
                self.workers.insert(chain_id, worker);
                proof {
                    assert(self.spec_workers().dom() =~= old(self).spec_workers().dom());
                    assert forall|c: ChainId|
                        #[trigger] self.spec_registry().has_chain(c)
                            <==> self.spec_workers().contains_key(c) by {
                        assert(old(self).spec_registry().has_chain(c) <==> old(self).spec_workers().contains_key(c));
                    }
                    if old(self).spec_ongoing().contains_key(chain_id) {
                        assert(old(self).ongoing_entry_ok(chain_id));
                        if self.spec_worker_state(chain_id) == old(self).spec_worker_state(
                            chain_id,
                        ) {
                            lemma_entry_ok_same_observations(*old(self), *self, chain_id);
                        } else {
                            assert(self.ongoing_entry_ok(chain_id));
                        }
                    }
                    lemma_ongoing_ok_update(*old(self), *self, chain_id);
                }
                r
            },
        }
    }

    /// Forwards a batch of bids to the chain's worker, atomically: the
    /// upstream admission checks run over the batch in order and the first
    /// inadmissible bid rejects the whole batch; with no worker for the
    /// chain, `NoAuctions` comes back; the worker then accepts all bids in
    /// the given order or none, with its usual errors. On every error
    /// nothing changes.
    #[verifier::loop_isolation(false)]
    pub fn submit_bid_batch(&mut self, chain_id: ChainId, auction_id: &str, bids: Vec<Bid>) -> (r:
        Result<String, AuctionError>)
        requires
            old(self).wf(),
        ensures
            final(self).wf(),
            final(self).spec_bus() == old(self).spec_bus(),
            final(self).spec_ongoing() == old(self).spec_ongoing(),
            final(self).spec_registry() == old(self).spec_registry(),
            final(self).spec_workers().dom() == old(self).spec_workers().dom(),
            forall|c: ChainId|
                #[trigger] old(self).spec_workers().contains_key(c) && c != chain_id
                    ==> final(self).spec_workers()[c] == old(self).spec_workers()[c],
            match batch_admission_error(bids@) {
                Some(e) => r matches Err(e2) && e2 == e && final(self).spec_workers()
                    == old(self).spec_workers(),
                None => {
                    if !old(self).spec_workers().contains_key(chain_id) {
                        r matches Err(AuctionError::NoAuctions) && final(self).spec_workers()
                            == old(self).spec_workers()
                    } else {
                        match old(self).spec_worker_state(chain_id) {
                            None => r matches Err(AuctionError::NoAuctions)
                                && final(self).spec_worker_state(chain_id) is None,
                            Some(st) => {
                                if st.auction_info.id@ != auction_id@ {
                                    &&& r matches Err(AuctionError::InvalidAuctionId(a)) && a@
                                        == auction_id@
                                    &&& final(self).spec_worker_state(chain_id)
                                        == old(self).spec_worker_state(chain_id)
                                } else if st.is_ended {
                                    &&& r matches Err(AuctionError::AuctionEnded)
                                    &&& final(self).spec_worker_state(chain_id)
                                        == old(self).spec_worker_state(chain_id)
                                } else {
                                    &&& r matches Ok(ack) && ack@ == crate::text::ack_message(
                                        st.auction_info.chain_id,
                                        st.auction_info.id@,
                                    )
                                    &&& final(self).spec_worker_state(chain_id) matches Some(st2)
                                        && st2.auction_info == st.auction_info && st2.bids@
                                        == st.bids@ + bids@ && st2.highest_bid == st.highest_bid
                                        && st2.winner == st.winner && !st2.is_ended
                                }
                            },
                        }
                    }
                },
            },
    {
        let ghost batch = bids@;
        let mut i: usize = 0;
        while i < bids.len()
            invariant
                i <= bids@.len(),
                bids@ == batch,
                forall|j: int| 0 <= j < i ==> bid_admissible(#[trigger] bids@[j]),
            decreases bids@.len() - i,
        {
            proof {
                lemma_batch_admission_skip(batch, i as int);
                assert(batch.skip(i as int)[0] == batch[i as int]);
            }
            if !crate::helpers::verify_signature(
                bids[i].bidder_address.as_str(),
                bids[i].bidder_signature.as_str(),
            ) {
                return Err(AuctionError::InvalidBuyerSignature);
            }
            if bids[i].bid_amount > MAX_BID_AMOUNT {
                return Err(AuctionError::InsufficientFunds);
            }
            i = i + 1;
        }
        proof {
            lemma_batch_admission_skip(batch, batch.len() as int);
            assert(batch.skip(batch.len() as int).len() == 0);
        }
        let worker_opt = self.workers.remove(&chain_id);
        match worker_opt {
            None => {
                proof {
                    assert(self.workers@ =~= old(self).workers@);
                    lemma_ongoing_ok_update(*old(self), *self, chain_id);
                }
                Err(AuctionError::NoAuctions)
            },
            Some(mut worker) => {
                let r = worker.submit_bid_batch(auction_id, bids);
                self.workers.insert(chain_id, worker);
                proof {
                    assert(self.spec_workers().dom() =~= old(self).spec_workers().dom());
                    assert forall|c: ChainId|
                        #[trigger] self.spec_registry().has_chain(c)
                            <==> self.spec_workers().contains_key(c) by {
                        assert(old(self).spec_registry().has_chain(c) <==> old(self).spec_workers().contains_key(c));
                    }
                    if old(self).spec_ongoing().contains_key(chain_id) {
                        assert(old(self).ongoing_entry_ok(chain_id));
                        if self.spec_worker_state(chain_id) == old(self).spec_worker_state(
                            chain_id,
                        ) {
                            lemma_entry_ok_same_observations(*old(self), *self, chain_id);
                        } else {
                            assert(self.ongoing_entry_ok(chain_id));
                        }
                    }
                    lemma_ongoing_ok_update(*old(self), *self, chain_id);
                }
                r
            },
        }
    }

    /// The ongoing auction id of a chain, or nothing when no auction is
    /// indexed there.
    pub fn get_ongoing_auction_id(&self, chain_id: ChainId) -> (r: Option<AuctionId>)
        ensures
            match r {
                Some(id) => self.spec_ongoing().contains_key(chain_id) && id@
                    == self.spec_ongoing()[chain_id].id@,
                None => !self.spec_ongoing().contains_key(chain_id),
            },
    {
        match self.ongoing_auctions.get(&chain_id) {
            None => None,
            Some(info) => Some(info.id.clone()),
        }
    }

    /// Every chain's ongoing auction id, one pair per indexed chain, in
    /// chain registration order.
    #[verifier::loop_isolation(false)]
    pub fn get_all_ongoing_auction_ids(&self) -> (r: Vec<(ChainId, AuctionId)>)
        requires
            self.wf(),
        ensures
            forall|k: int|
                0 <= k < r@.len() ==> self.spec_ongoing().contains_key(#[trigger] r@[k].0)
                    && r@[k].1@ == self.spec_ongoing()[r@[k].0].id@,
            forall|c: ChainId|
                #[trigger] self.spec_ongoing().contains_key(c) ==> exists|k: int|
                    0 <= k < r@.len() && r@[k].0 == c,
    {
        let chain_ids = self.registry.get_chain_ids();
        let mut r: Vec<(ChainId, AuctionId)> = Vec::new();
        let mut i: usize = 0;
        while i < chain_ids.len()
            invariant
                self.wf(),
                i <= chain_ids@.len(),
                chain_ids@ == self.spec_registry().spec_chain_ids(),
                forall|k: int|
                    0 <= k < r@.len() ==> self.spec_ongoing().contains_key(#[trigger] r@[k].0)
                        && r@[k].1@ == self.spec_ongoing()[r@[k].0].id@,
                forall|j: int|
                    0 <= j < i && self.spec_ongoing().contains_key(#[trigger] chain_ids@[j])
                        ==> exists|k: int| 0 <= k < r@.len() && r@[k].0 == chain_ids@[j],
            decreases chain_ids@.len() - i,
        {
            let c = chain_ids[i];
            let ghost r_before = r@;
            match self.ongoing_auctions.get(&c) {
                None => {},
                Some(info) => {
                    r.push((c, info.id.clone()));
                    proof {
                        assert(r@[r_before.len() as int].0 == c);
                    }
                },
            }
            proof {
                assert forall|j: int|
                    0 <= j < i + 1 && self.spec_ongoing().contains_key(
                        #[trigger] chain_ids@[j],
                    ) implies exists|k: int| 0 <= k < r@.len() && r@[k].0 == chain_ids@[j] by {
                    if j < i {
                        let k = choose|k: int|
                            0 <= k < r_before.len() && r_before[k].0 == chain_ids@[j];
                        assert(r@[k].0 == chain_ids@[j]);
                    } else {
                        assert(r@[r_before.len() as int].0 == c);
                    }
                }
            }
            i = i + 1;
        }
        proof {
            assert forall|c: ChainId|
                #[trigger] self.spec_ongoing().contains_key(c) implies exists|k: int|
                0 <= k < r@.len() && r@[k].0 == c by {
                assert(self.ongoing_entry_ok(c));
                assert(self.spec_workers().contains_key(c));
                assert(self.spec_registry().has_chain(c));
                assert(self.spec_registry().spec_chain_registry().wf());
                assert(self.spec_registry().spec_chain_ids().contains(c));
                let j = choose|j: int|
                    0 <= j < chain_ids@.len() && chain_ids@[j] == c;
                assert(self.spec_ongoing().contains_key(chain_ids@[j]));
            }
        }
        r
    }

    /// A copy of the chain worker's auction state; `NoAuctions` when the
    /// chain has no worker or its worker is idle.
    pub fn request_auction_state(&self, chain_id: ChainId) -> (r: Result<
        AuctionState,
        AuctionError,
    >)
        ensures
            if self.spec_workers().contains_key(chain_id) {
                match self.spec_worker_state(chain_id) {
                    None => r matches Err(AuctionError::NoAuctions),
                    Some(st) => r matches Ok(copy) && copy@ == st@,
                }
            } else {
                r matches Err(AuctionError::NoAuctions)
            },
    {
        match self.workers.get(&chain_id) {
            None => Err(AuctionError::NoAuctions),
            Some(worker) => worker.get_auction_state(),
        }
    }

    /// The chain's current Top-of-Block result: the winning bid's
    /// transaction list, the empty list while no winner is set, and
    /// `NoAuctions` when the chain has no worker or its worker is idle.
    pub fn request_latest_tob(&self, chain_id: ChainId) -> (r: Result<Vec<Tx>, AuctionError>)
        requires
            self.wf(),
        ensures
            if self.spec_workers().contains_key(chain_id) {
                match self.spec_worker_state(chain_id) {
                    None => r matches Err(AuctionError::NoAuctions),
                    Some(st) => r matches Ok(txs) && (if st.winner is None {
                        txs@.len() == 0
                    } else {
                        txs@.map_values(|t: Tx| t@) == st.bids@[crate::worker::leader_index(
                            st.bids@,
                        )].tx_list@.map_values(|t: Tx| t@)
                    }),
                }
            } else {
                r matches Err(AuctionError::NoAuctions)
            },
    {
        match self.workers.get(&chain_id) {
            None => Err(AuctionError::NoAuctions),
            Some(worker) => worker.get_latest_tob(),
        }
    }

    /// The adopted offer's id and full record on a chain; `NoAuctions` when
    /// the chain has no worker or its worker is idle.
    pub fn request_sale_info(&self, chain_id: ChainId) -> (r: Result<
        (AuctionId, AuctionInfo),
        AuctionError,
    >)
        ensures
            if self.spec_workers().contains_key(chain_id) {
                match self.spec_worker_state(chain_id) {
                    None => r matches Err(AuctionError::NoAuctions),
                    Some(st) => r matches Ok(pair) && pair.0@ == st.auction_info.id@ && pair.1
                        == st.auction_info,
                }
            } else {
                r matches Err(AuctionError::NoAuctions)
            },
    {
        match self.workers.get(&chain_id) {
            None => Err(AuctionError::NoAuctions),
            Some(worker) => worker.request_sale_info(),
        }
    }

    /// Whether the bus has room for one more lifecycle message. A producer
    /// checks this before ticking a worker; a real producer blocks until the
    /// consumer has drained a message.
    pub fn bus_has_room(&self) -> (r: bool)
        ensures
            r == (self.spec_bus().spec_messages().len() < self.spec_bus().spec_capacity()),
    {
        !self.bus.is_full()
    }

    /// Runs one termination-loop iteration of a chain's worker at wall-clock
    /// `now` and queues the emitted lifecycle message, if any, on the bus;
    /// the caller leaves room on the bus first. The worker transition is
    /// that of `AuctionWorker::tick`: an idle or already-ended slot only
    /// reports `Idle` and changes nothing, before the start time nothing
    /// happens, the end transition fixes the leader exactly once and queues
    /// its termination report, and in the open window the leader is
    /// refreshed. An unknown chain is rejected unchanged.
    pub fn tick_chain(&mut self, chain_id: ChainId, now: u64) -> (r: Result<(), AuctionError>)
        requires
            old(self).wf(),
            old(self).spec_bus().spec_messages().len() < old(self).spec_bus().spec_capacity(),
        ensures
            final(self).wf(),
            final(self).spec_ongoing() == old(self).spec_ongoing(),
            final(self).spec_registry() == old(self).spec_registry(),
            final(self).spec_bus().spec_capacity() == old(self).spec_bus().spec_capacity(),
            final(self).spec_workers().dom() == old(self).spec_workers().dom(),
            forall|c: ChainId|
                #[trigger] old(self).spec_workers().contains_key(c) && c != chain_id
                    ==> final(self).spec_workers()[c] == old(self).spec_workers()[c],
            if !old(self).spec_workers().contains_key(chain_id) {
                &&& r matches Err(AuctionError::InvalidChainId(c)) && c == chain_id
                &&& final(self).spec_workers() == old(self).spec_workers()
                &&& final(self).spec_bus().spec_messages() == old(self).spec_bus().spec_messages()
            } else {
                r is Ok && (match old(self).spec_worker_state(chain_id) {
                    None => final(self).spec_worker_state(chain_id) is None && pushed_message(
                        old(self).spec_bus().spec_messages(),
                        final(self).spec_bus().spec_messages(),
                        WorkerMessageType::Idle,
                        chain_id,
                        Seq::<char>::empty(),
                    ),
                    Some(st) => {
                        if st.is_ended {
                            &&& final(self).spec_worker_state(chain_id) == old(
                                self,
                            ).spec_worker_state(chain_id)
                            &&& pushed_message(
                                old(self).spec_bus().spec_messages(),
                                final(self).spec_bus().spec_messages(),
                                WorkerMessageType::Idle,
                                chain_id,
                                st.auction_info.id@,
                            )
                        } else if now < st.auction_info.start_time {
                            &&& final(self).spec_worker_state(chain_id) == old(
                                self,
                            ).spec_worker_state(chain_id)
                            &&& final(self).spec_bus().spec_messages() == old(
                                self,
                            ).spec_bus().spec_messages()
                        } else {
                            &&& final(self).spec_worker_state(chain_id) matches Some(st2)
                                && st2.auction_info == st.auction_info && st2.bids@ == st.bids@
                                && crate::worker::settled(st2) && st2.is_ended == (now
                                >= st.auction_info.end_time)
                            &&& pushed_message(
                                old(self).spec_bus().spec_messages(),
                                final(self).spec_bus().spec_messages(),
                                if now >= st.auction_info.end_time {
                                    WorkerMessageType::AuctionEnded
                                } else {
                                    WorkerMessageType::AuctionProcessing
                                },
                                chain_id,
                                st.auction_info.id@,
                            )
                        }
                    },
                })
            },
    {
        let worker_opt = self.workers.remove(&chain_id);
        match worker_opt {
            None => {
                proof {
                    assert(self.workers@ =~= old(self).workers@);
                    lemma_ongoing_ok_update(*old(self), *self, chain_id);
                }
                Err(AuctionError::InvalidChainId(chain_id))
            },
            Some(mut worker) => {
                let msg = worker.tick(now);
                self.workers.insert(chain_id, worker);
                match msg {
                    None => {},
                    Some(m) => {
                        let accepted = self.bus.try_send(m);
                        proof {
                            assert(accepted);
                        }
                    },
                }
                proof {
                    assert(self.spec_workers().dom() =~= old(self).spec_workers().dom());
                    assert forall|c: ChainId|
                        #[trigger] self.spec_registry().has_chain(c)
                            <==> self.spec_workers().contains_key(c) by {
                        assert(old(self).spec_registry().has_chain(c) <==> old(self).spec_workers().contains_key(c));
                    }
                    if old(self).spec_ongoing().contains_key(chain_id) {
                        assert(old(self).ongoing_entry_ok(chain_id));
                        match old(self).spec_worker_state(chain_id) {
                            None => {},
                            Some(st) => {
                                if self.spec_worker_state(chain_id) == old(self).spec_worker_state(
                                    chain_id,
                                ) {
                                    lemma_entry_ok_same_observations(*old(self), *self, chain_id);
                                } else {
                                    if now >= st.auction_info.end_time {
                                        let n = old(self).spec_bus().spec_messages().len() as int;
                                        assert(is_ended_message(
                                            self.spec_bus().spec_messages()[n],
                                            chain_id,
                                            st.auction_info.id@,
                                        ));
                                        assert(self.ongoing_entry_ok(chain_id));
                                    } else {
                                        assert(self.ongoing_entry_ok(chain_id));
                                    }
                                }
                            },
                        }
                    }
                    lemma_ongoing_ok_update(*old(self), *self, chain_id);
                }
                Ok(())
            },
        }
    }

    /// Drains one message from the bus, as the manager's consumer: on an
    /// `AuctionEnded` report whose chain and auction id match the ongoing
    /// index, that entry is removed; any other message — including a stale
    /// report for a superseded auction — changes nothing. The drained
    /// message comes back; an empty bus yields nothing.
    pub fn handle_worker_message(&mut self) -> (r: Option<WorkerMessage>)
        requires
            old(self).wf(),
        ensures
            final(self).wf(),
            final(self).spec_registry() == old(self).spec_registry(),
            final(self).spec_workers() == old(self).spec_workers(),
            final(self).spec_bus().spec_capacity() == old(self).spec_bus().spec_capacity(),
            if old(self).spec_bus().spec_messages().len() == 0 {
                &&& r is None
                &&& final(self).spec_bus().spec_messages() == old(self).spec_bus().spec_messages()
                &&& final(self).spec_ongoing() == old(self).spec_ongoing()
            } else {
                let m = old(self).spec_bus().spec_messages()[0];
                &&& r matches Some(got) && got == m
                &&& final(self).spec_bus().spec_messages() == old(
                    self,
                ).spec_bus().spec_messages().skip(1)
                &&& if m.message_type == WorkerMessageType::AuctionEnded && old(
                    self,
                ).spec_ongoing().contains_key(m.chain_id) && old(self).spec_ongoing()[
                    m.chain_id
                ].id@ == m.auction_id@ {
                    final(self).spec_ongoing() == old(self).spec_ongoing().remove(m.chain_id)
                } else {
                    final(self).spec_ongoing() == old(self).spec_ongoing()
                }
            },
    {
        let msg_opt = self.bus.recv();
        match msg_opt {
            None => {
                proof {
                    assert forall|c: ChainId|
                        #[trigger] self.spec_registry().has_chain(c)
                            <==> self.spec_workers().contains_key(c) by {
                        assert(old(self).spec_registry().has_chain(c) <==> old(self).spec_workers().contains_key(c));
                    }
                    lemma_ongoing_ok_transfer(*old(self), *self);
                }
                None
            },
            Some(msg) => {
                let is_ended_kind = matches!(msg.message_type, WorkerMessageType::AuctionEnded);
                let mut remove_entry = false;
                if is_ended_kind {
                    match self.ongoing_auctions.get(&msg.chain_id) {
                        None => {},
                        Some(info) => {
                            if crate::text::str_equal(info.id.as_str(), msg.auction_id.as_str()) {
                                remove_entry = true;
                            }
                        },
                    }
                }
                if remove_entry {
                    self.ongoing_auctions.remove(&msg.chain_id);
                    proof {
                        assert(self.spec_ongoing() =~= old(self).spec_ongoing().remove(
                            msg.chain_id,
                        ));
                    }
                }
                proof {
                    assert forall|c: ChainId|
                        #[trigger] self.spec_registry().has_chain(c)
                            <==> self.spec_workers().contains_key(c) by {
                        assert(old(self).spec_registry().has_chain(c) <==> old(self).spec_workers().contains_key(c));
                    }
                    let oldm = old(self).spec_bus().spec_messages();
                    assert forall|c: ChainId|
                        #[trigger] self.spec_ongoing().contains_key(
                            c,
                        ) implies self.ongoing_entry_ok(c) by {
                        assert(old(self).spec_ongoing().contains_key(c));
                        assert(old(self).ongoing_entry_ok(c));
                        match old(self).spec_worker_state(c) {
                            Some(st) => {
                                if st.is_ended {
                                    let i = choose|i: int|
                                        0 <= i < oldm.len() && is_ended_message(
                                            oldm[i],
                                            c,
                                            st.auction_info.id@,
                                        );
                                    if i == 0 {
                                        assert(msg == oldm[0]);
                                        assert(msg.chain_id == c);
                                        assert(old(self).spec_ongoing()[c] == st.auction_info);
                                        assert(remove_entry);
                                        assert(!self.spec_ongoing().contains_key(c));
                                        assert(false);
                                    } else {
                                        assert(self.spec_bus().spec_messages()[i - 1] == oldm[i]);
                                        assert(is_ended_message(
                                            self.spec_bus().spec_messages()[i - 1],
                                            c,
                                            st.auction_info.id@,
                                        ));
                                    }
                                }
                            },
                            None => {},
                        }
                    }
                }
                Some(msg)
            },
        }
    }
}

} // verus!
