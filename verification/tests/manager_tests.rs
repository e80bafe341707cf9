use lightbulb::domain::{AuctionInfo, Bid, ChainInfo, Tx, WorkerMessageType};
use lightbulb::errors::AuctionError;
use lightbulb::manager::AuctionManager;

fn chain_info() -> ChainInfo {
    ChainInfo { gas_limit: 1000, registered_sellers: vec!["0xTestSeller".to_string()] }
}

fn offer(start_time: u64, end_time: u64) -> AuctionInfo {
    AuctionInfo::new(
        1,
        100,
        "0xTestSeller".to_string(),
        500,
        start_time,
        end_time,
        "0xSellerSignature".to_string(),
    )
}

fn bid(addr: &str, amount: u64, tx: &str) -> Bid {
    Bid {
        bidder_address: addr.to_string(),
        bid_amount: amount,
        bidder_signature: format!("{}sig", addr),
        tx_list: vec![Tx { tx_data: tx.to_string() }],
    }
}

/// Drains the bus until it is empty.
fn drain(manager: &mut AuctionManager) {
    while manager.handle_worker_message().is_some() {}
}

#[test]
fn auction_lifecycle_end_to_end() {
    let now: u64 = 1_000_000;
    let mut manager = AuctionManager::new();
    manager.register_chain(1, chain_info()).unwrap();
    assert_eq!(manager.get_chain_ids(), vec![1]);

    let info = offer(now - 1000, now + 2000);
    let auction_id = info.id.clone();
    manager.submit_auction_info(info).unwrap();

    let started = manager.start_next_auction(1, now).unwrap();
    assert_eq!(started, auction_id);
    assert_eq!(manager.get_ongoing_auction_id(1), Some(auction_id.clone()));
    let all = manager.get_all_ongoing_auction_ids();
    assert_eq!(all, vec![(1, auction_id.clone())]);

    manager.submit_bid(1, auction_id.as_str(), bid("0xBidder1", 1000, "tx1")).unwrap();
    manager.submit_bid(1, auction_id.as_str(), bid("0xBidder2", 1500, "tx2")).unwrap();
    manager.submit_bid(1, auction_id.as_str(), bid("0xBidder3", 1200, "tx3")).unwrap();

    // One tick inside the window refreshes the leader.
    assert!(manager.bus_has_room());
    manager.tick_chain(1, now + 1000).unwrap();
    // One tick past the end time ends the auction and reports it.
    manager.tick_chain(1, now + 2000).unwrap();
    drain(&mut manager);

    assert_eq!(manager.get_ongoing_auction_id(1), None);
    let state = manager.request_auction_state(1).unwrap();
    assert!(state.is_ended);
    assert_eq!(state.winner, Some("0xBidder2".to_string()));
    assert_eq!(state.highest_bid, 1500);
    assert_eq!(state.bids.len(), 3);
    let tob = manager.request_latest_tob(1).unwrap();
    assert_eq!(tob.len(), 1);
    assert_eq!(tob[0].tx_data, "tx2");
    let sale = manager.request_sale_info(1).unwrap();
    assert_eq!(sale.0, auction_id);
}

#[test]
fn start_next_auction_on_empty_queue_is_a_no_op() {
    let mut manager = AuctionManager::new();
    manager.register_chain(1, chain_info()).unwrap();
    assert!(manager.start_next_auction(1, 5_000).is_none());
    assert_eq!(manager.get_ongoing_auction_id(1), None);
    assert!(manager.start_next_auction(99, 5_000).is_none());
}

#[test]
fn premature_start_leaves_the_offer_queued() {
    let now: u64 = 1_000_000;
    let mut manager = AuctionManager::new();
    manager.register_chain(1, chain_info()).unwrap();
    let info = offer(now + 10_000, now + 20_000);
    let auction_id = info.id.clone();
    manager.submit_auction_info(info).unwrap();

    assert!(manager.start_next_auction(1, now).is_none());
    assert_eq!(manager.get_ongoing_auction_id(1), None);

    // The offer stayed at the head of the queue: once its start time is
    // reached it is the one promoted.
    let started = manager.start_next_auction(1, now + 10_000).unwrap();
    assert_eq!(started, auction_id);
}

#[test]
fn bid_admission_checks_run_upstream_of_the_worker() {
    let now: u64 = 1_000_000;
    let mut manager = AuctionManager::new();
    manager.register_chain(1, chain_info()).unwrap();
    let info = offer(now - 1, now + 2000);
    let auction_id = info.id.clone();
    manager.submit_auction_info(info).unwrap();
    manager.start_next_auction(1, now).unwrap();

    let mut unsigned = bid("0xB", 10, "t");
    unsigned.bidder_signature = "".to_string();
    assert!(matches!(
        manager.submit_bid(1, auction_id.as_str(), unsigned),
        Err(AuctionError::InvalidBuyerSignature)
    ));

    let too_rich = bid("0xB", 1_000_000_001, "t");
    assert!(matches!(
        manager.submit_bid(1, auction_id.as_str(), too_rich),
        Err(AuctionError::InsufficientFunds)
    ));

    assert!(matches!(
        manager.submit_bid(99, auction_id.as_str(), bid("0xB", 10, "t")),
        Err(AuctionError::NoAuctions)
    ));

    let state = manager.request_auction_state(1).unwrap();
    assert_eq!(state.bids.len(), 0);
}

#[test]
fn batch_is_atomic_under_admission() {
    let now: u64 = 1_000_000;
    let mut manager = AuctionManager::new();
    manager.register_chain(1, chain_info()).unwrap();
    let info = offer(now - 1, now + 2000);
    let auction_id = info.id.clone();
    manager.submit_auction_info(info).unwrap();
    manager.start_next_auction(1, now).unwrap();

    let batch = vec![bid("0xA", 10, "t1"), bid("0xB", 1_000_000_001, "t2")];
    assert!(matches!(
        manager.submit_bid_batch(1, auction_id.as_str(), batch),
        Err(AuctionError::InsufficientFunds)
    ));
    assert_eq!(manager.request_auction_state(1).unwrap().bids.len(), 0);

    let good = vec![bid("0xA", 10, "t1"), bid("0xB", 20, "t2")];
    manager.submit_bid_batch(1, auction_id.as_str(), good).unwrap();
    assert_eq!(manager.request_auction_state(1).unwrap().bids.len(), 2);
}

#[test]
fn stale_end_report_for_a_superseded_auction_is_ignored() {
    let now: u64 = 1_000_000;
    let mut manager = AuctionManager::new();
    manager.register_chain(1, chain_info()).unwrap();

    let first = offer(now - 1000, now + 500);
    let first_id = first.id.clone();
    manager.submit_auction_info(first).unwrap();
    manager.start_next_auction(1, now).unwrap();
    // The first auction ends; its report stays queued on the bus.
    manager.tick_chain(1, now + 500).unwrap();

    // A second, different offer is promoted on the same chain.
    let second = offer(now - 1000, now + 5000);
    let second_id = second.id.clone();
    assert_ne!(first_id, second_id);
    manager.submit_auction_info(second).unwrap();
    manager.start_next_auction(1, now + 600).unwrap();
    assert_eq!(manager.get_ongoing_auction_id(1), Some(second_id.clone()));

    // Handling the stale report must not drop the new entry.
    let msg = manager.handle_worker_message().unwrap();
    assert_eq!(msg.message_type, WorkerMessageType::AuctionEnded);
    assert_eq!(msg.auction_id, first_id);
    assert_eq!(manager.get_ongoing_auction_id(1), Some(second_id));
}

#[test]
fn idle_worker_reports_idle_on_the_bus() {
    let mut manager = AuctionManager::new();
    manager.register_chain(1, chain_info()).unwrap();
    manager.tick_chain(1, 42).unwrap();
    let msg = manager.handle_worker_message().unwrap();
    assert_eq!(msg.message_type, WorkerMessageType::Idle);
    assert_eq!(msg.chain_id, 1);
    assert!(manager.handle_worker_message().is_none());
    assert!(matches!(manager.tick_chain(9, 42), Err(AuctionError::InvalidChainId(9))));
}
