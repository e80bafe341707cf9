use lightbulb::domain::AuctionInfo;
use lightbulb::hashing::compute_auction_id;
use lightbulb::helpers::verify_signature;
use lightbulb::text::{ack_message_string, str_equal, u64_to_dec};

#[test]
fn auction_id_matches_known_digest() {
    let id = compute_auction_id(1, 100, "0xTestSeller", 500, 1000, 5000, "0xSellerSignature");
    assert_eq!(id, "651bc37b17f7c63e2f31807a6ee1066019a7d3381e5ba5d9f9f88d6c35e5620f");
}

#[test]
fn auction_id_of_zeroed_fields_matches_known_digest() {
    let id = compute_auction_id(0, 0, "", 0, 0, 0, "");
    assert_eq!(id, "2c34ce1df23b838c5abf2a7f6437cca3d3067ed509ff25f11df6b11b582b51eb");
}

#[test]
fn recomputing_the_id_reproduces_it() {
    let info = AuctionInfo::new(
        1,
        100,
        "0xTestSeller".to_string(),
        500,
        1000,
        5000,
        "0xSellerSignature".to_string(),
    );
    let recomputed = info.recompute_id();
    assert_eq!(recomputed, info.id);
    let direct = compute_auction_id(
        info.chain_id,
        info.block_number,
        info.seller_address.as_str(),
        info.blockspace_size,
        info.start_time,
        info.end_time,
        info.seller_signature.as_str(),
    );
    assert_eq!(direct, info.id);
}

#[test]
fn equal_fields_give_equal_ids() {
    let a = AuctionInfo::new(2, 7, "s".to_string(), 9, 11, 600011, "sig".to_string());
    let b = AuctionInfo::new(2, 7, "s".to_string(), 9, 11, 600011, "sig".to_string());
    assert_eq!(a.id, b.id);
    let c = AuctionInfo::new(2, 8, "s".to_string(), 9, 11, 600011, "sig".to_string());
    assert_ne!(a.id, c.id);
}

#[test]
fn decimal_rendering() {
    assert_eq!(u64_to_dec(0), "0");
    assert_eq!(u64_to_dec(7), "7");
    assert_eq!(u64_to_dec(105), "105");
    assert_eq!(u64_to_dec(18446744073709551615), "18446744073709551615");
}

#[test]
fn ack_names_auction_and_chain() {
    let ack = ack_message_string(42, "deadbeef");
    assert_eq!(ack, "ACK: Auction deadbeef on Chain 42 bid accepted.");
}

#[test]
fn signature_stub_accepts_non_empty() {
    assert!(verify_signature("0xAddr", "sig"));
    assert!(!verify_signature("0xAddr", ""));
}

#[test]
fn string_equality_by_contents() {
    assert!(str_equal("abc", "abc"));
    assert!(!str_equal("abc", "abd"));
    assert!(!str_equal("abc", "ab"));
    assert!(str_equal("", ""));
}

#[test]
fn wall_clock_is_past_the_epoch() {
    // A loose sanity bound: the clock reads a plausible millisecond stamp.
    let now = lightbulb::helpers::current_unix_ms();
    assert!(now > 1_600_000_000_000);
}
