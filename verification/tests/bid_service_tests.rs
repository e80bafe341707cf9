use lightbulb::bid_service::{flush_chain, BidService};
use lightbulb::domain::{AuctionInfo, Bid, ChainInfo, Tx};
use lightbulb::errors::{AuctionError, BidError};
use lightbulb::manager::AuctionManager;

fn chain_info() -> ChainInfo {
    ChainInfo { gas_limit: 1000, registered_sellers: vec!["0xTestSeller".to_string()] }
}

fn offer(start_time: u64, end_time: u64) -> AuctionInfo {
    AuctionInfo::new(
        1,
        100,
        "0xTestSeller".to_string(),
        500,
        start_time,
        end_time,
        "0xSellerSignature".to_string(),
    )
}

fn bid(addr: &str, amount: u64, tx: &str) -> Bid {
    Bid {
        bidder_address: addr.to_string(),
        bid_amount: amount,
        bidder_signature: format!("{}sig", addr),
        tx_list: vec![Tx { tx_data: tx.to_string() }],
    }
}

#[test]
fn stored_bids_flush_as_one_batch_in_arrival_order() {
    let now: u64 = 1_000_000;
    let mut manager = AuctionManager::new();
    manager.register_chain(1, chain_info()).unwrap();
    let info = offer(now - 1, now + 2000);
    let auction_id = info.id.clone();
    manager.submit_auction_info(info).unwrap();
    manager.start_next_auction(1, now).unwrap();

    let mut service = BidService::new();
    service.add_chain(1, 1000);
    assert_eq!(service.get_flush_interval(1), Some(1000));
    service.store_bid(1, auction_id.as_str(), bid("0xBidder1", 1000, "tx1")).unwrap();
    service.store_bid(1, auction_id.as_str(), bid("0xBidder2", 1500, "tx2")).unwrap();
    service.store_bid(1, auction_id.as_str(), bid("0xBidder3", 1200, "tx3")).unwrap();

    flush_chain(&mut service, &mut manager, 1).unwrap();
    let state = manager.request_auction_state(1).unwrap();
    assert_eq!(state.bids.len(), 3);
    assert_eq!(state.bids[0].bidder_address, "0xBidder1");
    assert_eq!(state.bids[1].bidder_address, "0xBidder2");
    assert_eq!(state.bids[2].bidder_address, "0xBidder3");

    // The bucket was drained: a second flush hands nothing over.
    flush_chain(&mut service, &mut manager, 1).unwrap();
    assert_eq!(manager.request_auction_state(1).unwrap().bids.len(), 3);
}

#[test]
fn store_bid_on_unknown_chain_is_rejected() {
    let mut service = BidService::new();
    let r = service.store_bid(5, "someid", bid("0xA", 1, "t"));
    assert!(matches!(r, Err(AuctionError::InvalidChainId(5))));
}

#[test]
fn without_an_ongoing_auction_bids_stay_buffered() {
    let now: u64 = 1_000_000;
    let mut manager = AuctionManager::new();
    manager.register_chain(1, chain_info()).unwrap();
    let info = offer(now - 1, now + 2000);
    let auction_id = info.id.clone();
    manager.submit_auction_info(info).unwrap();

    let mut service = BidService::new();
    service.add_chain(1, 1000);
    service.store_bid(1, auction_id.as_str(), bid("0xB", 7, "t")).unwrap();

    // Nothing is ongoing yet: the flush is a no-op and keeps the bid.
    flush_chain(&mut service, &mut manager, 1).unwrap();

    manager.start_next_auction(1, now).unwrap();
    flush_chain(&mut service, &mut manager, 1).unwrap();
    assert_eq!(manager.request_auction_state(1).unwrap().bids.len(), 1);
}

#[test]
fn late_flush_discards_the_bids() {
    let now: u64 = 1_000_000;
    let mut manager = AuctionManager::new();
    manager.register_chain(1, chain_info()).unwrap();
    let info = offer(now - 1000, now + 500);
    let auction_id = info.id.clone();
    manager.submit_auction_info(info).unwrap();
    manager.start_next_auction(1, now).unwrap();
    manager.tick_chain(1, now + 500).unwrap();

    let mut service = BidService::new();
    service.add_chain(1, 1000);
    service.store_bid(1, auction_id.as_str(), bid("0xLate", 7, "t")).unwrap();

    // The auction has ended but the entry is still indexed: the batch is
    // rejected and the drained bids are lost (at-most-once delivery).
    let r = flush_chain(&mut service, &mut manager, 1);
    assert!(matches!(r, Err(BidError::AuctionError)));
    assert_eq!(manager.request_auction_state(1).unwrap().bids.len(), 0);
    flush_chain(&mut service, &mut manager, 1).unwrap();
}
