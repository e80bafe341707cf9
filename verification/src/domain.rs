use vstd::prelude::*;

use crate::hashing::auction_id_of;

verus! {

/// Identifier of a configured blockchain.
pub type ChainId = u64;

/// Identifier of an auction: the lowercase hex encoding of the SHA-256
/// digest of the offer's canonical field encoding.
pub type AuctionId = String;

/// A transaction submitted by a bidder (opaque payload).
#[derive(Debug)]
pub struct Tx {
    pub tx_data: String,
}

impl View for Tx {
    type V = Seq<char>;

    open spec fn view(&self) -> Seq<char> {
        self.tx_data@
    }
}

impl Clone for Tx {
    fn clone(&self) -> (res: Self)
        ensures
            res == *self,
    {
        Tx { tx_data: self.tx_data.clone() }
    }
}

impl PartialEq for Tx {
    fn eq(&self, other: &Tx) -> (r: bool) {
        self.tx_data == other.tx_data
    }
}

impl vstd::std_specs::cmp::PartialEqSpecImpl for Tx {
    open spec fn obeys_eq_spec() -> bool {
        true
    }

    open spec fn eq_spec(&self, other: &Tx) -> bool {
        self@ == other@
    }
}

/// The mathematical content of a `Bid`: the payload strings as character
/// sequences.
#[verifier::ext_equal]
pub ghost struct BidView {
    pub bidder_address: Seq<char>,
    pub bid_amount: u64,
    pub bidder_signature: Seq<char>,
    pub tx_list: Seq<Seq<char>>,
}

/// A bid submitted by a buyer: bidder address, amount, signature, and the
/// ordered transaction list that becomes the Top-of-Block result if the bid
/// wins.
#[derive(Debug)]
pub struct Bid {
    pub bidder_address: String,
    pub bid_amount: u64,
    pub bidder_signature: String,
    pub tx_list: Vec<Tx>,
}

impl View for Bid {
    type V = BidView;

    open spec fn view(&self) -> BidView {
        BidView {
            bidder_address: self.bidder_address@,
            bid_amount: self.bid_amount,
            bidder_signature: self.bidder_signature@,
            tx_list: self.tx_list@.map_values(|t: Tx| t@),
        }
    }
}

/// The views of a bid sequence, element by element.
pub open spec fn bids_view(bids: Seq<Bid>) -> Seq<BidView> {
    bids.map_values(|b: Bid| b@)
}

/// Clones a transaction list; the copy equals the original element by
/// element.
pub fn clone_tx_list(txs: &Vec<Tx>) -> (res: Vec<Tx>)
    ensures
        res@ == txs@,
{
    let mut res: Vec<Tx> = Vec::new();
    let mut i: usize = 0;
    while i < txs.len()
        invariant
            i <= txs.len(),
            res@ =~= txs@.subrange(0, i as int),
        decreases txs.len() - i,
    {
        res.push(txs[i].clone());
        i = i + 1;
    }
    proof {
        assert(res@ =~= txs@);
    }
    res
}

/// Tests two transaction lists for equality of their payloads.
pub fn tx_lists_equal(a: &Vec<Tx>, b: &Vec<Tx>) -> (r: bool)
    ensures
        r == (a@.map_values(|t: Tx| t@) == b@.map_values(|t: Tx| t@)),
{
    let ghost av = a@.map_values(|t: Tx| t@);
    let ghost bv = b@.map_values(|t: Tx| t@);
    if a.len() != b.len() {
        proof {
            assert(av.len() != bv.len());
        }
        return false;
    }
    let mut i: usize = 0;
    while i < a.len()
        invariant
            i <= a.len(),
            a@.len() == b@.len(),
            av == a@.map_values(|t: Tx| t@),
            bv == b@.map_values(|t: Tx| t@),
            forall|j: int| 0 <= j < i ==> av[j] == bv[j],
        decreases a.len() - i,
    {
        if !(a[i].tx_data == b[i].tx_data) {
            proof {
                assert(av[i as int] != bv[i as int]);
            }
            return false;
        }
        i = i + 1;
    }
    proof {
        assert(av =~= bv);
    }
    true
}

impl Clone for Bid {
    fn clone(&self) -> (res: Self)
        ensures
            res@ == self@,
    {
        let res = Bid {
            bidder_address: self.bidder_address.clone(),
            bid_amount: self.bid_amount,
            bidder_signature: self.bidder_signature.clone(),
            tx_list: clone_tx_list(&self.tx_list),
        };
        proof {
            assert(res@ =~= self@);
        }
        res
    }
}

impl PartialEq for Bid {
    fn eq(&self, other: &Bid) -> (r: bool) {
        let r = self.bidder_address == other.bidder_address && self.bid_amount == other.bid_amount
            && self.bidder_signature == other.bidder_signature && tx_lists_equal(
            &self.tx_list,
            &other.tx_list,
        );
        proof {
            if r {
                assert(self@ =~= other@);
            }
        }
        r
    }
}

impl vstd::std_specs::cmp::PartialEqSpecImpl for Bid {
    open spec fn obeys_eq_spec() -> bool {
        true
    }

    open spec fn eq_spec(&self, other: &Bid) -> bool {
        self@ == other@
    }
}

/// The mathematical content of a `ChainInfo`.
#[verifier::ext_equal]
pub ghost struct ChainInfoView {
    pub gas_limit: u64,
    pub registered_sellers: Seq<Seq<char>>,
}

/// Per-chain configuration: the gas limit that bounds offered blockspace and
/// the set of sellers allowed to submit offers.
#[derive(Debug)]
pub struct ChainInfo {
    pub gas_limit: u64,
    pub registered_sellers: Vec<String>,
}

impl View for ChainInfo {
    type V = ChainInfoView;

    open spec fn view(&self) -> ChainInfoView {
        ChainInfoView {
            gas_limit: self.gas_limit,
            registered_sellers: self.registered_sellers@.map_values(|s: String| s@),
        }
    }
}

impl ChainInfoView {
    /// Whether `seller` is one of the registered sellers.
    pub open spec fn has_seller(&self, seller: Seq<char>) -> bool {
        exists|i: int|
            0 <= i < self.registered_sellers.len() && self.registered_sellers[i] == seller
    }
}

/// A seller-provided offer that seeds an auction. `id` is the SHA-256
/// fingerprint of the other fields in their canonical encoding.
#[derive(Debug)]
pub struct AuctionInfo {
    pub id: AuctionId,
    pub chain_id: ChainId,
    pub block_number: u64,
    pub seller_address: String,
    pub blockspace_size: u64,
    pub start_time: u64,
    pub end_time: u64,
    pub seller_signature: String,
}

impl AuctionInfo {
    /// The auction id that this offer's fields determine.
    pub open spec fn spec_id(&self) -> Seq<char> {
        auction_id_of(
            self.chain_id,
            self.block_number,
            self.seller_address@,
            self.blockspace_size,
            self.start_time,
            self.end_time,
            self.seller_signature@,
        )
    }

    /// Whether the stored id is the one the fields determine.
    pub open spec fn id_consistent(&self) -> bool {
        self.id@ == self.spec_id()
    }

    /// Creates an offer, deriving its id from the other fields.
    pub fn new(
        chain_id: ChainId,
        block_number: u64,
        seller_address: String,
        blockspace_size: u64,
        start_time: u64,
        end_time: u64,
        seller_signature: String,
    ) -> (info: AuctionInfo)
        ensures
            info.chain_id == chain_id,
            info.block_number == block_number,
            info.seller_address == seller_address,
            info.blockspace_size == blockspace_size,
            info.start_time == start_time,
            info.end_time == end_time,
            info.seller_signature == seller_signature,
            info.id_consistent(),
    {
        let id = crate::hashing::compute_auction_id(
            chain_id,
            block_number,
            seller_address.as_str(),
            blockspace_size,
            start_time,
            end_time,
            seller_signature.as_str(),
        );
        AuctionInfo {
            id,
            chain_id,
            block_number,
            seller_address,
            blockspace_size,
            start_time,
            end_time,
            seller_signature,
        }
    }

    /// Recomputes the id from this offer's fields. For an offer built by
    /// `new`, the result reproduces the stored id.
    pub fn recompute_id(&self) -> (id: String)
        ensures
            id@ == self.spec_id(),
            self.id_consistent() ==> id@ == self.id@,
    {
        crate::hashing::compute_auction_id(
            self.chain_id,
            self.block_number,
            self.seller_address.as_str(),
            self.blockspace_size,
            self.start_time,
            self.end_time,
            self.seller_signature.as_str(),
        )
    }
}

impl Clone for AuctionInfo {
    fn clone(&self) -> (res: Self)
        ensures
            res == *self,
    {
        AuctionInfo {
            id: self.id.clone(),
            chain_id: self.chain_id,
            block_number: self.block_number,
            seller_address: self.seller_address.clone(),
            blockspace_size: self.blockspace_size,
            start_time: self.start_time,
            end_time: self.end_time,
            seller_signature: self.seller_signature.clone(),
        }
    }
}

/// The mathematical content of an `AuctionState`. Offer and winner carry
/// over exactly; the bids appear through their views.
#[verifier::ext_equal]
pub ghost struct AuctionStateView {
    pub auction_info: AuctionInfo,
    pub highest_bid: u64,
    pub winner: Option<Seq<char>>,
    pub bids: Seq<BidView>,
    pub is_ended: bool,
}

/// The state of one in-flight auction, owned by its chain's worker.
#[derive(Debug)]
pub struct AuctionState {
    pub auction_info: AuctionInfo,
    pub highest_bid: u64,
    pub winner: Option<String>,
    pub bids: Vec<Bid>,
    pub is_ended: bool,
}

impl View for AuctionState {
    type V = AuctionStateView;

    open spec fn view(&self) -> AuctionStateView {
        AuctionStateView {
            auction_info: self.auction_info,
            highest_bid: self.highest_bid,
            winner: match self.winner {
                Some(w) => Some(w@),
                None => None,
            },
            bids: bids_view(self.bids@),
            is_ended: self.is_ended,
        }
    }
}

/// Clones a bid list; the copy has the same views element by element.
pub fn clone_bid_list(bids: &Vec<Bid>) -> (res: Vec<Bid>)
    ensures
        bids_view(res@) == bids_view(bids@),
{
    let mut res: Vec<Bid> = Vec::new();
    let mut i: usize = 0;
    while i < bids.len()
        invariant
            i <= bids.len(),
            res@.len() == i,
            forall|j: int| 0 <= j < i ==> res@[j]@ == bids@[j]@,
        decreases bids.len() - i,
    {
        res.push(bids[i].clone());
        i = i + 1;
    }
    proof {
        assert(bids_view(res@) =~= bids_view(bids@));
    }
    res
}

impl Clone for AuctionState {
    fn clone(&self) -> (res: Self)
        ensures
            res@ == self@,
    {
        let res = AuctionState {
            auction_info: self.auction_info.clone(),
            highest_bid: self.highest_bid,
            winner: match &self.winner {
                Some(w) => Some(w.clone()),
                None => None,
            },
            bids: clone_bid_list(&self.bids),
            is_ended: self.is_ended,
        };
        proof {
            assert(res@ =~= self@);
        }
        res
    }
}

impl AuctionState {
    /// Creates the fresh state for a newly adopted offer: no bids, no
    /// winner, not ended.
    pub fn new(auction_info: AuctionInfo) -> (state: AuctionState)
        ensures
            state.auction_info == auction_info,
            state.highest_bid == 0,
            state.winner is None,
            state.bids@ =~= Seq::<Bid>::empty(),
            !state.is_ended,
    {
        AuctionState {
            auction_info,
            highest_bid: 0,
            winner: None,
            bids: Vec::new(),
            is_ended: false,
        }
    }
}

/// The outcome of a finished auction.
#[derive(Debug)]
pub struct AuctionResult {
    pub chain_id: ChainId,
    pub auction_id: AuctionId,
    pub winner: String,
}

/// Kinds of lifecycle messages a worker reports on the bus.
#[derive(Debug, Clone, Copy, PartialEq, Eq, Structural)]
pub enum WorkerMessageType {
    AuctionEnded,
    AuctionProcessing,
    Idle,
}

/// A lifecycle message from the worker that owns the referenced auction.
#[derive(Debug)]
pub struct WorkerMessage {
    pub message_type: WorkerMessageType,
    pub chain_id: ChainId,
    pub auction_id: AuctionId,
}

impl Clone for WorkerMessage {
    fn clone(&self) -> (res: Self)
        ensures
            res == *self,
    {
        WorkerMessage {
            message_type: self.message_type,
            chain_id: self.chain_id,
            auction_id: self.auction_id.clone(),
        }
    }
}

/// The interface of a persistence backend for offers, for callers that
/// archive them; the engine itself keeps no durable state. Implementations
/// live outside this crate.
pub trait AuctionRepository {
    fn create_auction(&mut self, auction_info: AuctionInfo) -> Result<
        (),
        crate::errors::DatabaseError,
    >;

    fn get_auction_info(&self, auction_id: &str) -> Result<
        Option<AuctionInfo>,
        crate::errors::DatabaseError,
    >;

    fn list_auctions(&self) -> Result<Vec<AuctionInfo>, crate::errors::DatabaseError>;

    fn delete_auction(&mut self, auction_id: &str) -> Result<(), crate::errors::DatabaseError>;
}

} // verus!
