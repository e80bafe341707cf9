use vstd::prelude::*;

use crate::domain::{AuctionId, ChainId};

verus! {

/// Errors of the auction workflow: validation failures on submission and
/// state mismatches at the worker.
#[derive(Debug)]
pub enum AuctionError {
    InvalidChainId(ChainId),
    InvalidAuctionId(AuctionId),
    NoAuctions,
    SellerNotRegistered,
    InvalidSellerSignature,
    InvalidGasLimit,
    InvalidAuctionTime,
    InvalidBuyerSignature,
    InsufficientFunds,
    AuctionNotStarted,
    AuctionEnded,
}

impl Clone for AuctionError {
    fn clone(&self) -> (res: Self)
        ensures
            res == *self,
    {
        match self {
            AuctionError::InvalidChainId(chain_id) => AuctionError::InvalidChainId(*chain_id),
            AuctionError::InvalidAuctionId(auction_id) => AuctionError::InvalidAuctionId(
                auction_id.clone(),
            ),
            AuctionError::NoAuctions => AuctionError::NoAuctions,
            AuctionError::SellerNotRegistered => AuctionError::SellerNotRegistered,
            AuctionError::InvalidSellerSignature => AuctionError::InvalidSellerSignature,
            AuctionError::InvalidGasLimit => AuctionError::InvalidGasLimit,
            AuctionError::InvalidAuctionTime => AuctionError::InvalidAuctionTime,
            AuctionError::InvalidBuyerSignature => AuctionError::InvalidBuyerSignature,
            AuctionError::InsufficientFunds => AuctionError::InsufficientFunds,
            AuctionError::AuctionNotStarted => AuctionError::AuctionNotStarted,
            AuctionError::AuctionEnded => AuctionError::AuctionEnded,
        }
    }
}

/// Errors of the registry workflow: offer validation and chain registration.
#[derive(Debug)]
pub enum RegistryError {
    InvalidChainId(ChainId),
    SellerNotRegistered(String),
    InvalidSellerSignature,
    InvalidGasLimit,
    InvalidAuctionTime,
    ChainAlreadyRegistered(ChainId),
}

/// Errors of the bid buffering layer.
#[derive(Debug)]
pub enum BidError {
    InvalidChainId(ChainId),
    InvalidAuctionId(AuctionId),
    NoAuctions,
    SellerNotRegistered,
    InvalidSellerSignature,
    InvalidGasLimit,
    InvalidAuctionTime,
    InvalidBuyerSignature,
    InsufficientFunds,
    AuctionError,
}

impl From<AuctionError> for BidError {
    fn from(err: AuctionError) -> (res: BidError) {
        match err {
            AuctionError::InvalidChainId(chain_id) => BidError::InvalidChainId(chain_id),
            AuctionError::InvalidAuctionId(auction_id) => BidError::InvalidAuctionId(auction_id),
            AuctionError::NoAuctions => BidError::NoAuctions,
            AuctionError::InvalidAuctionTime => BidError::InvalidAuctionTime,
            AuctionError::InvalidBuyerSignature => BidError::InvalidBuyerSignature,
            AuctionError::InsufficientFunds => BidError::InsufficientFunds,
            _ => BidError::AuctionError,
        }
    }
}

/// The bid-layer rendering of an auction error: the shared variants carry
/// over, everything else collapses to the generic auction failure.
pub open spec fn bid_error_of(err: AuctionError) -> BidError {
    match err {
        AuctionError::InvalidChainId(chain_id) => BidError::InvalidChainId(chain_id),
        AuctionError::InvalidAuctionId(auction_id) => BidError::InvalidAuctionId(auction_id),
        AuctionError::NoAuctions => BidError::NoAuctions,
        AuctionError::InvalidAuctionTime => BidError::InvalidAuctionTime,
        AuctionError::InvalidBuyerSignature => BidError::InvalidBuyerSignature,
        AuctionError::InsufficientFunds => BidError::InsufficientFunds,
        _ => BidError::AuctionError,
    }
}

impl vstd::std_specs::convert::FromSpecImpl<AuctionError> for BidError {
    open spec fn obeys_from_spec() -> bool {
        true
    }

    open spec fn from_spec(err: AuctionError) -> BidError {
        bid_error_of(err)
    }
}

/// Errors reported by a persistence backend (see `AuctionRepository`).
#[derive(Debug)]
pub enum DatabaseError {
    DatabaseError(String),
}

} // verus!
