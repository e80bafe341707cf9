use lightbulb::bus::MessageBus;
use lightbulb::cors::{validate_cors_domains, CorsDomainError, CorsOrigins};
use lightbulb::domain::{WorkerMessage, WorkerMessageType};

fn message(kind: WorkerMessageType, chain_id: u64, auction_id: &str) -> WorkerMessage {
    WorkerMessage { message_type: kind, chain_id, auction_id: auction_id.to_string() }
}

#[test]
fn bus_is_first_in_first_out() {
    let mut bus = MessageBus::new(4);
    assert!(bus.recv().is_none());
    assert!(bus.try_send(message(WorkerMessageType::AuctionProcessing, 1, "a")));
    assert!(bus.try_send(message(WorkerMessageType::AuctionEnded, 1, "a")));
    assert!(bus.try_send(message(WorkerMessageType::Idle, 2, "")));
    assert_eq!(bus.len(), 3);
    assert_eq!(bus.recv().unwrap().message_type, WorkerMessageType::AuctionProcessing);
    assert_eq!(bus.recv().unwrap().message_type, WorkerMessageType::AuctionEnded);
    let third = bus.recv().unwrap();
    assert_eq!(third.message_type, WorkerMessageType::Idle);
    assert_eq!(third.chain_id, 2);
    assert!(bus.recv().is_none());
}

#[test]
fn full_bus_rejects_until_drained() {
    let mut bus = MessageBus::new(2);
    assert!(bus.try_send(message(WorkerMessageType::Idle, 1, "")));
    assert!(bus.try_send(message(WorkerMessageType::Idle, 2, "")));
    assert!(bus.is_full());
    assert!(!bus.try_send(message(WorkerMessageType::Idle, 3, "")));
    assert_eq!(bus.len(), 2);
    assert_eq!(bus.recv().unwrap().chain_id, 1);
    assert!(bus.try_send(message(WorkerMessageType::Idle, 3, "")));
    assert_eq!(bus.recv().unwrap().chain_id, 2);
    assert_eq!(bus.recv().unwrap().chain_id, 3);
}

#[test]
fn wildcard_alone_allows_any_origin() {
    let r = validate_cors_domains(vec!["*".to_string()]);
    assert!(matches!(r, Ok(CorsOrigins::Any)));
}

#[test]
fn valid_domain_list_is_accepted() {
    let domains = vec!["http://example.com".to_string(), "http://other.com".to_string()];
    match validate_cors_domains(domains.clone()) {
        Ok(CorsOrigins::List(list)) => assert_eq!(list, domains),
        other => panic!("expected a domain list, got {:?}", other),
    }
}

#[test]
fn wildcard_inside_a_list_is_rejected() {
    let domains = vec!["http://example.com".to_string(), "*".to_string()];
    let r = validate_cors_domains(domains);
    assert!(r.is_err());
    assert!(matches!(r, Err(CorsDomainError::WildCardNotAllowed { .. })));
}

#[test]
fn illegal_header_value_is_rejected_by_name() {
    let domains = vec!["http://example.com".to_string(), "bad\nvalue".to_string()];
    match validate_cors_domains(domains) {
        Err(CorsDomainError::InvalidHeader { domain }) => assert_eq!(domain, "bad\nvalue"),
        other => panic!("expected InvalidHeader, got {:?}", other),
    }
}
