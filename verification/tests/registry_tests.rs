use lightbulb::domain::{AuctionInfo, ChainInfo};
use lightbulb::errors::RegistryError;
use lightbulb::registry::service::RegistryService;

fn chain_info() -> ChainInfo {
    ChainInfo { gas_limit: 1000, registered_sellers: vec!["0xTestSeller".to_string()] }
}

fn offer(start_time: u64, end_time: u64) -> AuctionInfo {
    AuctionInfo::new(
        1,
        100,
        "0xTestSeller".to_string(),
        500,
        start_time,
        end_time,
        "0xSellerSignature".to_string(),
    )
}

#[test]
fn register_chain_and_list_ids() {
    let mut service = RegistryService::new();
    service.register_chain(1, chain_info()).unwrap();
    let ids = service.get_chain_ids();
    assert_eq!(ids, vec![1]);
    let again = service.register_chain(1, chain_info());
    assert!(matches!(again, Err(RegistryError::ChainAlreadyRegistered(1))));
}

#[test]
fn validation_cascade() {
    let mut service = RegistryService::new();
    service.register_chain(1, chain_info()).unwrap();

    let unknown_chain = AuctionInfo::new(
        2,
        100,
        "0xTestSeller".to_string(),
        500,
        0,
        1000,
        "sig".to_string(),
    );
    assert!(matches!(
        service.submit_auction_info(unknown_chain),
        Err(RegistryError::InvalidChainId(2))
    ));

    let unknown_seller =
        AuctionInfo::new(1, 100, "0xStranger".to_string(), 500, 0, 1000, "sig".to_string());
    match service.submit_auction_info(unknown_seller) {
        Err(RegistryError::SellerNotRegistered(s)) => assert_eq!(s, "0xStranger"),
        other => panic!("expected SellerNotRegistered, got {:?}", other),
    }

    let empty_signature =
        AuctionInfo::new(1, 100, "0xTestSeller".to_string(), 500, 0, 1000, "".to_string());
    assert!(matches!(
        service.submit_auction_info(empty_signature),
        Err(RegistryError::InvalidSellerSignature)
    ));

    let too_much_blockspace =
        AuctionInfo::new(1, 100, "0xTestSeller".to_string(), 1001, 0, 1000, "sig".to_string());
    assert!(matches!(
        service.submit_auction_info(too_much_blockspace),
        Err(RegistryError::InvalidGasLimit)
    ));
}

#[test]
fn window_one_short_of_minimum_is_rejected() {
    let mut service = RegistryService::new();
    service.register_chain(1, chain_info()).unwrap();
    let too_short = offer(1000, 1499);
    assert!(matches!(
        service.submit_auction_info(too_short),
        Err(RegistryError::InvalidAuctionTime)
    ));
    let exactly_minimum = offer(1000, 1500);
    assert!(service.submit_auction_info(exactly_minimum).is_ok());
}

#[test]
fn past_start_time_is_legal() {
    let mut service = RegistryService::new();
    service.register_chain(1, chain_info()).unwrap();
    let already_started = offer(0, 600);
    assert!(service.submit_auction_info(already_started).is_ok());
}

#[test]
fn pops_come_in_start_time_order() {
    let mut service = RegistryService::new();
    service.register_chain(1, chain_info()).unwrap();
    service.submit_auction_info(offer(3000, 4000)).unwrap();
    service.submit_auction_info(offer(1000, 2000)).unwrap();
    service.submit_auction_info(offer(2000, 3000)).unwrap();

    let first = service.pop_next_auction(1).unwrap();
    let second = service.pop_next_auction(1).unwrap();
    let third = service.pop_next_auction(1).unwrap();
    assert_eq!(first.start_time, 1000);
    assert_eq!(second.start_time, 2000);
    assert_eq!(third.start_time, 3000);
    assert!(service.pop_next_auction(1).is_none());
}

#[test]
fn equal_start_times_pop_in_id_order() {
    let mut service = RegistryService::new();
    service.register_chain(1, chain_info()).unwrap();
    let a = AuctionInfo::new(
        1,
        100,
        "0xTestSeller".to_string(),
        500,
        1000,
        2000,
        "0xSellerSignature".to_string(),
    );
    let b = AuctionInfo::new(
        1,
        101,
        "0xTestSeller".to_string(),
        500,
        1000,
        2000,
        "0xSellerSignature".to_string(),
    );
    let (lo, hi) = if a.id < b.id { (a.id.clone(), b.id.clone()) } else { (b.id.clone(), a.id.clone()) };
    service.submit_auction_info(a).unwrap();
    service.submit_auction_info(b).unwrap();
    assert_eq!(service.pop_next_auction(1).unwrap().id, lo);
    assert_eq!(service.pop_next_auction(1).unwrap().id, hi);
}

#[test]
fn peek_leaves_the_queue_untouched() {
    let mut service = RegistryService::new();
    service.register_chain(1, chain_info()).unwrap();
    assert!(service.get_next_auction_info(1).is_none());
    service.submit_auction_info(offer(1000, 2000)).unwrap();
    assert_eq!(service.get_next_auction_info(1).unwrap().start_time, 1000);
    assert_eq!(service.get_next_auction_info(1).unwrap().start_time, 1000);
    assert_eq!(service.pop_next_auction(1).unwrap().start_time, 1000);
    assert!(service.get_next_auction_info(1).is_none());
}
