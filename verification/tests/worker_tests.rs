use lightbulb::domain::{AuctionInfo, Bid, Tx, WorkerMessageType};
use lightbulb::errors::AuctionError;
use lightbulb::worker::AuctionWorker;

fn sample_info(start_time: u64, end_time: u64) -> AuctionInfo {
    AuctionInfo::new(
        1,
        100,
        "0xTestSeller".to_string(),
        500,
        start_time,
        end_time,
        "0xSellerSignature".to_string(),
    )
}

fn bid(addr: &str, amount: u64, tx: &str) -> Bid {
    Bid {
        bidder_address: addr.to_string(),
        bid_amount: amount,
        bidder_signature: format!("{}sig", addr),
        tx_list: vec![Tx { tx_data: tx.to_string() }],
    }
}

#[test]
fn idle_worker_rejects_and_reports_idle() {
    let mut worker = AuctionWorker::new(1);
    assert!(matches!(worker.submit_bid("any", bid("0xA", 1, "t")), Err(AuctionError::NoAuctions)));
    assert!(matches!(worker.get_auction_state(), Err(AuctionError::NoAuctions)));
    assert!(matches!(worker.get_latest_tob(), Err(AuctionError::NoAuctions)));
    assert!(matches!(worker.request_sale_info(), Err(AuctionError::NoAuctions)));
    let msg = worker.tick(1000).unwrap();
    assert_eq!(msg.message_type, WorkerMessageType::Idle);
    assert_eq!(msg.chain_id, 1);
    assert_eq!(msg.auction_id, "");
}

#[test]
fn lifecycle_leader_and_end() {
    let mut worker = AuctionWorker::new(1);
    let info = sample_info(1_000, 3_000);
    let id = info.id.clone();
    worker.start_auction(info);

    let ack = worker.submit_bid(id.as_str(), bid("0xB1", 1000, "tx1")).unwrap();
    assert_eq!(ack, format!("ACK: Auction {} on Chain 1 bid accepted.", id));
    worker.submit_bid(id.as_str(), bid("0xB2", 1500, "tx2")).unwrap();
    worker.submit_bid(id.as_str(), bid("0xB3", 1200, "tx3")).unwrap();

    // In the open window the leader is refreshed and progress is reported.
    let msg = worker.tick(2_000).unwrap();
    assert_eq!(msg.message_type, WorkerMessageType::AuctionProcessing);
    let state = worker.get_auction_state().unwrap();
    assert!(!state.is_ended);
    assert_eq!(state.highest_bid, 1500);
    assert_eq!(state.winner, Some("0xB2".to_string()));

    // At the end time the auction ends exactly once.
    let msg = worker.tick(3_000).unwrap();
    assert_eq!(msg.message_type, WorkerMessageType::AuctionEnded);
    assert_eq!(msg.auction_id, id);
    let state = worker.get_auction_state().unwrap();
    assert!(state.is_ended);
    assert_eq!(state.highest_bid, 1500);
    assert_eq!(state.winner, Some("0xB2".to_string()));
    assert_eq!(state.bids.len(), 3);

    // The Top-of-Block result is the winning bid's transaction list.
    let tob = worker.get_latest_tob().unwrap();
    assert_eq!(tob.len(), 1);
    assert_eq!(tob[0].tx_data, "tx2");
}

#[test]
fn equal_amounts_earlier_bid_wins() {
    let mut worker = AuctionWorker::new(1);
    let info = sample_info(0, 1_000);
    let id = info.id.clone();
    worker.start_auction(info);
    worker.submit_bid(id.as_str(), bid("0xA", 1500, "ta")).unwrap();
    worker.submit_bid(id.as_str(), bid("0xB", 1500, "tb")).unwrap();
    worker.tick(1_000);
    let state = worker.get_auction_state().unwrap();
    assert_eq!(state.winner, Some("0xA".to_string()));
    assert_eq!(state.highest_bid, 1500);
}

#[test]
fn bid_against_end_detection_window() {
    let mut worker = AuctionWorker::new(1);
    let info = sample_info(0, 1_000);
    let id = info.id.clone();
    worker.start_auction(info);

    // A bid that lands before the end-detecting tick counts.
    worker.submit_bid(id.as_str(), bid("0xEarly", 10, "t1")).unwrap();
    let msg = worker.tick(1_000).unwrap();
    assert_eq!(msg.message_type, WorkerMessageType::AuctionEnded);

    // One that lands after it is rejected and changes nothing.
    let late = worker.submit_bid(id.as_str(), bid("0xLate", 999, "t2"));
    assert!(matches!(late, Err(AuctionError::AuctionEnded)));
    let state = worker.get_auction_state().unwrap();
    assert_eq!(state.bids.len(), 1);
    assert_eq!(state.winner, Some("0xEarly".to_string()));
    assert_eq!(state.highest_bid, 10);
}

#[test]
fn ended_auction_never_changes_again() {
    let mut worker = AuctionWorker::new(1);
    let info = sample_info(0, 1_000);
    let id = info.id.clone();
    worker.start_auction(info);
    worker.submit_bid(id.as_str(), bid("0xA", 42, "t")).unwrap();
    worker.tick(1_000);

    // Further ticks only report Idle; bids, winner and highest bid stay.
    let msg = worker.tick(99_000).unwrap();
    assert_eq!(msg.message_type, WorkerMessageType::Idle);
    assert_eq!(msg.auction_id, id);
    let batch = worker.submit_bid_batch(id.as_str(), vec![bid("0xB", 100, "t2")]);
    assert!(matches!(batch, Err(AuctionError::AuctionEnded)));
    let state = worker.get_auction_state().unwrap();
    assert!(state.is_ended);
    assert_eq!(state.bids.len(), 1);
    assert_eq!(state.winner, Some("0xA".to_string()));
    assert_eq!(state.highest_bid, 42);
}

#[test]
fn foreign_auction_id_is_rejected() {
    let mut worker = AuctionWorker::new(1);
    let info = sample_info(0, 1_000);
    worker.start_auction(info);
    let r = worker.submit_bid("fabricated-id", bid("0xA", 1, "t"));
    match r {
        Err(AuctionError::InvalidAuctionId(got)) => assert_eq!(got, "fabricated-id"),
        other => panic!("expected InvalidAuctionId, got {:?}", other),
    }
    let state = worker.get_auction_state().unwrap();
    assert_eq!(state.bids.len(), 0);
}

#[test]
fn before_start_time_nothing_happens() {
    let mut worker = AuctionWorker::new(1);
    let info = sample_info(5_000, 9_000);
    let id = info.id.clone();
    worker.start_auction(info);
    assert!(worker.tick(4_999).is_none());
    let state = worker.get_auction_state().unwrap();
    assert!(!state.is_ended);
    assert_eq!(state.bids.len(), 0);
    let sale = worker.request_sale_info().unwrap();
    assert_eq!(sale.0, id);
    assert_eq!(sale.1.start_time, 5_000);
}

#[test]
fn batch_appends_in_order() {
    let mut worker = AuctionWorker::new(1);
    let info = sample_info(0, 1_000);
    let id = info.id.clone();
    worker.start_auction(info);
    worker
        .submit_bid_batch(
            id.as_str(),
            vec![bid("0xA", 10, "t1"), bid("0xB", 30, "t2"), bid("0xC", 20, "t3")],
        )
        .unwrap();
    let state = worker.get_auction_state().unwrap();
    assert_eq!(state.bids.len(), 3);
    assert_eq!(state.bids[0].bidder_address, "0xA");
    assert_eq!(state.bids[1].bidder_address, "0xB");
    assert_eq!(state.bids[2].bidder_address, "0xC");
}

#[test]
fn tob_is_empty_without_winner() {
    let mut worker = AuctionWorker::new(1);
    let info = sample_info(0, 1_000);
    worker.start_auction(info);
    let tob = worker.get_latest_tob().unwrap();
    assert!(tob.is_empty());
}
