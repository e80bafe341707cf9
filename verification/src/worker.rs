use vstd::prelude::*;

use crate::domain::{
    AuctionId, AuctionInfo, AuctionState, Bid, ChainId, Tx, WorkerMessage, WorkerMessageType,
};
use crate::errors::AuctionError;
use crate::text::{ack_message, ack_message_string, str_equal};

verus! {

/// The capability through which a manager drives a worker that may live
/// in-process or behind a transport: adopt an offer, hand over bids, read
/// the state. Implementations decide delivery; nothing is promised of them.
pub trait AuctionWorkerClient {
    fn add_auction(&mut self, auction_info: AuctionInfo) -> Result<bool, AuctionError>;

    fn submit_bids(&mut self, chain_id: ChainId, auction_id: AuctionId, bids: Vec<Bid>) -> Result<
        bool,
        AuctionError,
    >;

    fn get_auction_state(&mut self, chain_id: ChainId) -> Result<AuctionState, AuctionError>;
}

/// The largest bid amount in the sequence (0 when empty).
pub open spec fn max_bid_amount(bids: Seq<Bid>) -> int
    decreases bids.len(),
{
    if bids.len() == 0 {
        0
    } else {
        let rest = max_bid_amount(bids.drop_last());
        if bids.last().bid_amount > rest {
            bids.last().bid_amount as int
        } else {
            rest
        }
    }
}

/// The index of the winning bid: the earliest bid whose amount no later bid
/// exceeds. Equal amounts never displace an earlier bid.
pub open spec fn leader_index(bids: Seq<Bid>) -> int
    decreases bids.len(),
{
    if bids.len() <= 1 {
        0
    } else {
        let prev = leader_index(bids.drop_last());
        if bids.last().bid_amount > bids[prev].bid_amount {
            bids.len() - 1
        } else {
            prev
        }
    }
}

/// The winning bid is a maximal-amount bid, and the earliest such bid: every
/// earlier bid is strictly smaller, so on equal amounts the earlier index
/// wins.
pub proof fn lemma_leader_index(bids: Seq<Bid>)
    requires
        bids.len() > 0,
    ensures
        0 <= leader_index(bids) < bids.len(),
        bids[leader_index(bids)].bid_amount as int == max_bid_amount(bids),
        forall|j: int| 0 <= j < bids.len() ==> bids[j].bid_amount as int <= max_bid_amount(bids),
        forall|j: int|
            0 <= j < leader_index(bids) ==> (bids[j].bid_amount as int) < max_bid_amount(bids),
    decreases bids.len(),
{
    if bids.len() == 1 {
        assert(bids.drop_last().len() == 0);
        assert(max_bid_amount(bids.drop_last()) == 0);
        assert(bids.last() == bids[0]);
    } else {
        let sub = bids.drop_last();
        lemma_leader_index(sub);
        assert(forall|j: int| 0 <= j < sub.len() ==> sub[j] == bids[j]);
        let prev = leader_index(sub);
        if bids.last().bid_amount > bids[prev].bid_amount {
            assert(leader_index(bids) == bids.len() - 1);
            assert(max_bid_amount(bids) == bids.last().bid_amount as int);
        } else {
            assert(leader_index(bids) == prev);
            assert(max_bid_amount(bids) == max_bid_amount(sub));
        }
    }
}

/// Whether `highest_bid` and `winner` reflect the current bids: the winner
/// is the bidder of the winning bid and `highest_bid` its amount, or both
/// are empty when there is no bid yet.
pub open spec fn settled(st: AuctionState) -> bool {
    if st.bids@.len() == 0 {
        st.winner is None && st.highest_bid == 0
    } else {
        &&& match st.winner {
            Some(w) => w@ == st.bids@[leader_index(st.bids@)].bidder_address@,
            None => false,
        }
        &&& st.highest_bid == st.bids@[leader_index(st.bids@)].bid_amount
    }
}

/// Law: in a settled auction with at least one bid, the winner is the bidder
/// of a bid whose amount equals `highest_bid`, no bid exceeds that amount,
/// and every bid before the winning one is strictly smaller — so of two
/// equal amounts the earlier-submitted bid wins.
pub proof fn lemma_settled_winner(st: AuctionState)
    requires
        settled(st),
        st.bids@.len() > 0,
    ensures
        exists|i: int|
            {
                &&& 0 <= i < st.bids@.len()
                &&& st.winner matches Some(w) && w@ == st.bids@[i].bidder_address@
                &&& st.bids@[i].bid_amount == st.highest_bid
                &&& forall|j: int| 0 <= j < st.bids@.len() ==> st.bids@[j].bid_amount
                    <= st.highest_bid
                &&& forall|j: int| 0 <= j < i ==> st.bids@[j].bid_amount < st.highest_bid
            },
{
    lemma_leader_index(st.bids@);
    let i = leader_index(st.bids@);
    assert({
        &&& 0 <= i < st.bids@.len()
        &&& st.winner matches Some(w) && w@ == st.bids@[i].bidder_address@
        &&& st.bids@[i].bid_amount == st.highest_bid
        &&& forall|j: int| 0 <= j < st.bids@.len() ==> st.bids@[j].bid_amount <= st.highest_bid
        &&& forall|j: int| 0 <= j < i ==> st.bids@[j].bid_amount < st.highest_bid
    });
}

/// Finds the index of the winning bid by a single scan.
fn find_leader(bids: &Vec<Bid>) -> (idx: usize)
    requires
        bids@.len() > 0,
    ensures
        idx as int == leader_index(bids@),
{
    let mut best: usize = 0;
    let mut i: usize = 1;
    while i < bids.len()
        invariant
            0 < i <= bids@.len(),
            best < i,
            best as int == leader_index(bids@.subrange(0, i as int)),
        decreases bids@.len() - i,
    {
        proof {
            assert(bids@.subrange(0, (i + 1) as int).drop_last() =~= bids@.subrange(0, i as int));
        }
        if bids[i].bid_amount > bids[best].bid_amount {
            best = i;
        }
        i = i + 1;
    }
    proof {
        assert(bids@.subrange(0, bids@.len() as int) =~= bids@);
    }
    best
}

/// Rewrites `highest_bid` and `winner` to reflect the current bids.
fn settle_state(st: &mut AuctionState)
    ensures
        final(st).auction_info == old(st).auction_info,
        final(st).bids == old(st).bids,
        final(st).is_ended == old(st).is_ended,
        settled(*final(st)),
{
    if st.bids.len() == 0 {
        st.winner = None;
        st.highest_bid = 0;
    } else {
        let idx = find_leader(&st.bids);
        proof {
            lemma_leader_index(st.bids@);
        }
        st.highest_bid = st.bids[idx].bid_amount;
        st.winner = Some(st.bids[idx].bidder_address.clone());
    }
}

/// The per-chain owner of the single in-flight auction: it adopts offers,
/// accepts bids, answers queries, and drives time-based termination through
/// `tick`.
pub struct AuctionWorker {
    chain_id: ChainId,
    state: Option<AuctionState>,
}

/// Well-formedness of a worker's auction slot: the bound auction belongs to
/// the worker's chain, a winner is only ever set when there is a bid, and an
/// ended auction is settled.
pub open spec fn worker_inv(chain_id: ChainId, state: Option<AuctionState>) -> bool {
    match state {
        Some(st) => {
            &&& st.auction_info.chain_id == chain_id
            &&& (st.winner is Some ==> st.bids@.len() > 0)
            &&& (st.is_ended ==> settled(st))
        },
        None => true,
    }
}

impl AuctionWorker {
    /// The chain this worker serves.
    pub closed spec fn spec_chain_id(&self) -> ChainId {
        self.chain_id
    }

    /// The current auction state, if an offer is adopted.
    pub closed spec fn spec_state(&self) -> Option<AuctionState> {
        self.state
    }

    /// Well-formedness of the worker's auction slot.
    pub open spec fn wf(&self) -> bool {
        worker_inv(self.spec_chain_id(), self.spec_state())
    }

    /// The chain this worker serves.
    pub fn chain_id(&self) -> (c: ChainId)
        ensures
            c == self.spec_chain_id(),
    {
        self.chain_id
    }

    /// Creates an idle worker for one chain.
    pub fn new(chain_id: ChainId) -> (w: AuctionWorker)
        ensures
            w.spec_chain_id() == chain_id,
            w.spec_state() is None,
            w.wf(),
    {
        AuctionWorker { chain_id, state: None }
    }

    /// Adopts an offer: the worker moves to Running with a fresh state,
    /// overwriting any residual ended auction.
    pub fn start_auction(&mut self, info: AuctionInfo)
        requires
            old(self).wf(),
            info.chain_id == old(self).spec_chain_id(),
        ensures
            final(self).wf(),
            final(self).spec_chain_id() == old(self).spec_chain_id(),
            final(self).spec_state() matches Some(st) && st.auction_info == info
                && st.highest_bid == 0 && st.winner is None && st.bids@ == Seq::<Bid>::empty()
                && !st.is_ended,
    {
        self.state = Some(AuctionState::new(info));
    }

    /// Accepts one bid. Exactly one of these holds: the worker is idle and
    /// `NoAuctions` comes back; the id names another auction and
    /// `InvalidAuctionId` comes back; the auction has ended and
    /// `AuctionEnded` comes back; otherwise the bid is appended and an
    /// acknowledgment naming auction and chain is returned. On every error
    /// the state is unchanged; once an auction has ended its bids, winner
    /// and highest bid never change again.
    pub fn submit_bid(&mut self, auction_id: &str, bid: Bid) -> (r: Result<String, AuctionError>)
        requires
            old(self).wf(),
        ensures
            final(self).wf(),
            final(self).spec_chain_id() == old(self).spec_chain_id(),
            match old(self).spec_state() {
                None => r matches Err(AuctionError::NoAuctions) && final(self).spec_state()
                    == old(self).spec_state(),
                Some(st) => {
                    if st.auction_info.id@ != auction_id@ {
                        &&& r matches Err(AuctionError::InvalidAuctionId(a)) && a@ == auction_id@
                        &&& final(self).spec_state() == old(self).spec_state()
                    } else if st.is_ended {
                        &&& r matches Err(AuctionError::AuctionEnded)
                        &&& final(self).spec_state() == old(self).spec_state()
                    } else {
                        &&& r matches Ok(ack) && ack@ == ack_message(
                            st.auction_info.chain_id,
                            st.auction_info.id@,
                        )
                        &&& final(self).spec_state() matches Some(st2)
                            && st2.auction_info == st.auction_info && st2.bids@ == st.bids@.push(
                            bid,
                        ) && st2.highest_bid == st.highest_bid && st2.winner == st.winner
                            && !st2.is_ended
                    }
                },
            },
    {
        match &mut self.state {
            None => Err(AuctionError::NoAuctions),
            Some(st) => {
                if !str_equal(st.auction_info.id.as_str(), auction_id) {
                    Err(AuctionError::InvalidAuctionId(auction_id.to_owned()))
                } else if st.is_ended {
                    Err(AuctionError::AuctionEnded)
                } else {
                    st.bids.push(bid);
                    Ok(ack_message_string(st.auction_info.chain_id, st.auction_info.id.as_str()))
                }
            },
        }
    }

    /// Accepts a batch of bids atomically: on success every bid is appended
    /// in the given order, on any error none is and the state is unchanged.
    /// The errors are those of `submit_bid`.
    pub fn submit_bid_batch(&mut self, auction_id: &str, bids: Vec<Bid>) -> (r: Result<
        String,
        AuctionError,
    >)
        requires
            old(self).wf(),
        ensures
            final(self).wf(),
            final(self).spec_chain_id() == old(self).spec_chain_id(),
            match old(self).spec_state() {
                None => r matches Err(AuctionError::NoAuctions) && final(self).spec_state()
                    == old(self).spec_state(),
                Some(st) => {
                    if st.auction_info.id@ != auction_id@ {
                        &&& r matches Err(AuctionError::InvalidAuctionId(a)) && a@ == auction_id@
                        &&& final(self).spec_state() == old(self).spec_state()
                    } else if st.is_ended {
                        &&& r matches Err(AuctionError::AuctionEnded)
                        &&& final(self).spec_state() == old(self).spec_state()
                    } else {
                        &&& r matches Ok(ack) && ack@ == ack_message(
                            st.auction_info.chain_id,
                            st.auction_info.id@,
                        )
                        &&& final(self).spec_state() matches Some(st2)
                            && st2.auction_info == st.auction_info && st2.bids@ == st.bids@
                            + bids@ && st2.highest_bid == st.highest_bid && st2.winner == st.winner
                            && !st2.is_ended
                    }
                },
            },
    {
        let mut bids = bids;
        match &mut self.state {
            None => Err(AuctionError::NoAuctions),
            Some(st) => {
                if !str_equal(st.auction_info.id.as_str(), auction_id) {
                    Err(AuctionError::InvalidAuctionId(auction_id.to_owned()))
                } else if st.is_ended {
                    Err(AuctionError::AuctionEnded)
                } else {
                    st.bids.append(&mut bids);
                    Ok(ack_message_string(st.auction_info.chain_id, st.auction_info.id.as_str()))
                }
            },
        }
    }

    /// One iteration of the termination loop at wall-clock `now`.
    ///
    /// Idle and ended workers report `Idle` and change nothing — in
    /// particular, once an auction has ended a tick never alters it. Before
    /// `start_time` nothing happens. At or past `end_time` the auction ends
    /// exactly once: the leader is fixed, and `AuctionEnded` is reported.
    /// In the open window the leader is refreshed and `AuctionProcessing`
    /// reported.
    pub fn tick(&mut self, now: u64) -> (msg: Option<WorkerMessage>)
        requires
            old(self).wf(),
        ensures
            final(self).wf(),
            final(self).spec_chain_id() == old(self).spec_chain_id(),
            match old(self).spec_state() {
                None => {
                    &&& final(self).spec_state() is None
                    &&& msg matches Some(m) && m.message_type == WorkerMessageType::Idle
                        && m.chain_id == old(self).spec_chain_id() && m.auction_id@ == Seq::<
                        char,
                    >::empty()
                },
                Some(st) => {
                    if st.is_ended {
                        &&& final(self).spec_state() == old(self).spec_state()
                        &&& msg matches Some(m) && m.message_type == WorkerMessageType::Idle
                            && m.chain_id == old(self).spec_chain_id() && m.auction_id@
                            == st.auction_info.id@
                    } else if now < st.auction_info.start_time {
                        &&& final(self).spec_state() == old(self).spec_state()
                        &&& msg is None
                    } else {
                        &&& final(self).spec_state() matches Some(st2)
                            && st2.auction_info == st.auction_info && st2.bids@ == st.bids@
                            && settled(st2) && st2.is_ended == (now >= st.auction_info.end_time)
                        &&& msg matches Some(m) && m.chain_id == old(self).spec_chain_id()
                            && m.auction_id@ == st.auction_info.id@ && m.message_type == (
                        if now >= st.auction_info.end_time {
                            WorkerMessageType::AuctionEnded
                        } else {
                            WorkerMessageType::AuctionProcessing
                        })
                    }
                },
            },
    {
        match &mut self.state {
            None => Some(
                WorkerMessage {
                    message_type: WorkerMessageType::Idle,
                    chain_id: self.chain_id,
                    auction_id: String::new(),
                },
            ),
            Some(st) => {
                if st.is_ended {
                    Some(
                        WorkerMessage {
                            message_type: WorkerMessageType::Idle,
                            chain_id: self.chain_id,
                            auction_id: st.auction_info.id.clone(),
                        },
                    )
                } else if now < st.auction_info.start_time {
                    None
                } else if now >= st.auction_info.end_time {
                    st.is_ended = true;
                    settle_state(st);
                    Some(
                        WorkerMessage {
                            message_type: WorkerMessageType::AuctionEnded,
                            chain_id: self.chain_id,
                            auction_id: st.auction_info.id.clone(),
                        },
                    )
                } else {
                    settle_state(st);
                    Some(
                        WorkerMessage {
                            message_type: WorkerMessageType::AuctionProcessing,
                            chain_id: self.chain_id,
                            auction_id: st.auction_info.id.clone(),
                        },
                    )
                }
            },
        }
    }

    /// A copy of the current auction state; `NoAuctions` when idle.
    pub fn get_auction_state(&self) -> (r: Result<AuctionState, AuctionError>)
        ensures
            match self.spec_state() {
                None => r matches Err(AuctionError::NoAuctions),
                Some(st) => r matches Ok(copy) && copy@ == st@,
            },
    {
        match &self.state {
            None => Err(AuctionError::NoAuctions),
            Some(st) => Ok(st.clone()),
        }
    }

    /// The Top-of-Block result: the winning bid's transaction list, or the
    /// empty list while no winner is set; `NoAuctions` when idle.
    pub fn get_latest_tob(&self) -> (r: Result<Vec<Tx>, AuctionError>)
        requires
            self.wf(),
        ensures
            match self.spec_state() {
                None => r matches Err(AuctionError::NoAuctions),
                Some(st) => r matches Ok(txs) && (if st.winner is None {
                    txs@.len() == 0
                } else {
                    txs@.map_values(|t: Tx| t@) == st.bids@[leader_index(
                        st.bids@,
                    )].tx_list@.map_values(|t: Tx| t@)
                }),
            },
    {
        match &self.state {
            None => Err(AuctionError::NoAuctions),
            Some(st) => {
                match &st.winner {
                    None => Ok(Vec::new()),
                    Some(_) => {
                        proof {
                            assert(st.bids@.len() > 0);
                        }
                        let idx = find_leader(&st.bids);
                        proof {
                            lemma_leader_index(st.bids@);
                        }
                        Ok(crate::domain::clone_tx_list(&st.bids[idx].tx_list))
                    },
                }
            },
        }
    }

    /// The adopted offer's id and full record; `NoAuctions` when idle.
    pub fn request_sale_info(&self) -> (r: Result<(String, AuctionInfo), AuctionError>)
        ensures
            match self.spec_state() {
                None => r matches Err(AuctionError::NoAuctions),
                Some(st) => r matches Ok(pair) && pair.0@ == st.auction_info.id@ && pair.1
                    == st.auction_info,
            },
    {
        match &self.state {
            None => Err(AuctionError::NoAuctions),
            Some(st) => Ok((st.auction_info.id.clone(), st.auction_info.clone())),
        }
    }
}

} // verus!
