use lightbulb::bid_registry::BidRegistry;
use lightbulb::domain::Bid;
use lightbulb::errors::RegistryError;

#[test]
fn test_bid_registry() {
    let mut bid_registry = BidRegistry::new();
    bid_registry.add_chain(1).unwrap();
    let bid = Bid {
        bidder_address: "0xAlice".to_string(),
        bid_amount: 100,
        bidder_signature: "AliceSignature".to_string(),
        tx_list: vec![],
    };
    bid_registry.add_bid(1, bid.clone()).unwrap();

    let bids = bid_registry.get_bids(1);
    assert_eq!(bids, Some(vec![bid.clone()]));
}

#[test]
fn add_chain_twice_is_rejected() {
    let mut bid_registry = BidRegistry::new();
    bid_registry.add_chain(7).unwrap();
    let again = bid_registry.add_chain(7);
    assert!(matches!(again, Err(RegistryError::ChainAlreadyRegistered(7))));
}

#[test]
fn add_bid_unknown_chain_is_rejected() {
    let mut bid_registry = BidRegistry::new();
    let bid = Bid {
        bidder_address: "0xBob".to_string(),
        bid_amount: 5,
        bidder_signature: "BobSignature".to_string(),
        tx_list: vec![],
    };
    let r = bid_registry.add_bid(9, bid);
    assert!(matches!(r, Err(RegistryError::InvalidChainId(9))));
    assert!(bid_registry.get_bids(9).is_none());
}

#[test]
fn take_bids_empties_pending_and_keeps_order() {
    let mut bid_registry = BidRegistry::new();
    bid_registry.add_chain(1).unwrap();
    let first = Bid {
        bidder_address: "0xA".to_string(),
        bid_amount: 1,
        bidder_signature: "sa".to_string(),
        tx_list: vec![],
    };
    let second = Bid {
        bidder_address: "0xB".to_string(),
        bid_amount: 2,
        bidder_signature: "sb".to_string(),
        tx_list: vec![],
    };
    bid_registry.add_bid(1, first.clone()).unwrap();
    bid_registry.add_bid(1, second.clone()).unwrap();

    let taken = bid_registry.take_bids_for_processing(1).unwrap();
    assert_eq!(taken, vec![first.clone(), second.clone()]);
    assert_eq!(bid_registry.get_bids(1), Some(vec![]));

    bid_registry.clear_processed_bids(1);
    let taken_again = bid_registry.take_bids_for_processing(1).unwrap();
    assert_eq!(taken_again, vec![]);
}
