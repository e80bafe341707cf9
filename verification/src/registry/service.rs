use vstd::prelude::*;

use crate::domain::{AuctionInfo, ChainId, ChainInfo};
use crate::errors::RegistryError;
use crate::helpers::verify_signature;
use crate::registry::auction::AuctionRegistry;
use crate::registry::chain::ChainRegistry;
use crate::MIN_AUCTION_DURATION_MS;

verus! {

/// Whether the offered window is long enough: the end must lie at least the
/// minimum auction duration past the start.
pub open spec fn valid_timing(start_time: u64, end_time: u64) -> bool {
    end_time >= start_time + MIN_AUCTION_DURATION_MS
}

/// The registration and validation front of the engine: the chain catalog
/// plus the per-chain pending queues. An offer enters a queue only after the
/// full validation cascade has passed.
pub struct RegistryService {
    auction_registry: AuctionRegistry,
    chain_registry: ChainRegistry,
}

impl RegistryService {
    /// The chain catalog component.
    pub closed spec fn spec_chain_registry(&self) -> ChainRegistry {
        self.chain_registry
    }

    /// The pending-queue component.
    pub closed spec fn spec_auction_registry(&self) -> AuctionRegistry {
        self.auction_registry
    }

    /// The registered chains and their configuration.
    pub open spec fn spec_chains(&self) -> Map<ChainId, ChainInfo> {
        self.spec_chain_registry().spec_chains()
    }

    /// Whether `chain_id` is registered.
    pub open spec fn has_chain(&self, chain_id: ChainId) -> bool {
        self.spec_chains().contains_key(chain_id)
    }

    /// The pending queue of one chain.
    pub open spec fn spec_queue(&self, chain_id: ChainId) -> Seq<AuctionInfo> {
        self.spec_auction_registry().spec_queue(chain_id)
    }

    /// The registered chain ids, in registration order.
    pub open spec fn spec_chain_ids(&self) -> Seq<ChainId> {
        self.spec_chain_registry().spec_chain_ids()
    }

    /// Both components are well-formed and know the same chains.
    pub open spec fn wf(&self) -> bool {
        &&& self.spec_chain_registry().wf()
        &&& self.spec_auction_registry().wf()
        &&& forall|c: ChainId|
            #[trigger] self.spec_chains().contains_key(c)
                <==> self.spec_auction_registry().has_chain(c)
    }

    /// Whether this offer passes the whole validation cascade against the
    /// given service state.
    pub open spec fn spec_accepts(&self, info: AuctionInfo) -> bool {
        &&& self.has_chain(info.chain_id)
        &&& self.spec_chains()[info.chain_id]@.has_seller(info.seller_address@)
        &&& info.seller_signature@.len() > 0
        &&& info.blockspace_size <= self.spec_chains()[info.chain_id].gas_limit
        &&& valid_timing(info.start_time, info.end_time)
    }

    /// Creates a service with no chains.
    pub fn new() -> (r: RegistryService)
        ensures
            r.wf(),
            r.spec_chains() == Map::<ChainId, ChainInfo>::empty(),
            r.spec_chain_ids() == Seq::<ChainId>::empty(),
    {
        RegistryService { auction_registry: AuctionRegistry::new(), chain_registry: ChainRegistry::new() }
    }

    /// Registers a chain in the catalog and creates its empty pending
    /// queue; rejects a chain that is already registered, changing nothing.
    pub fn register_chain(&mut self, chain_id: ChainId, chain_info: ChainInfo) -> (r: Result<
        (),
        RegistryError,
    >)
        requires
            old(self).wf(),
        ensures
            final(self).wf(),
            if old(self).has_chain(chain_id) {
                &&& r matches Err(RegistryError::ChainAlreadyRegistered(c)) && c == chain_id
                &&& final(self).spec_chains() == old(self).spec_chains()
                &&& final(self).spec_chain_ids() == old(self).spec_chain_ids()
                &&& forall|c: ChainId|
                    #[trigger] old(self).has_chain(c) ==> final(self).spec_queue(c)
                        == old(self).spec_queue(c)
            } else {
                &&& r is Ok
                &&& final(self).spec_chains() == old(self).spec_chains().insert(
                    chain_id,
                    chain_info,
                )
                &&& final(self).spec_chain_ids() == old(self).spec_chain_ids().push(chain_id)
                &&& final(self).spec_queue(chain_id) == Seq::<AuctionInfo>::empty()
                &&& forall|c: ChainId|
                    #[trigger] old(self).has_chain(c) ==> final(self).spec_queue(c)
                        == old(self).spec_queue(c)
            },
    {
        proof {
            assert(old(self).spec_chains().contains_key(chain_id) <==> old(
                self,
            ).spec_auction_registry().has_chain(chain_id));
        }
        let chain_result = self.chain_registry.register_chain(chain_id, chain_info);
        match chain_result {
            Err(e) => {
                proof {
                    assert forall|c: ChainId| #[trigger] self.spec_chains().contains_key(c)
                        <==> self.spec_auction_registry().has_chain(c) by {
                        assert(old(self).spec_chains().contains_key(c) <==> old(
                            self,
                        ).spec_auction_registry().has_chain(c));
                    }
                }
                Err(e)
            },
            Ok(()) => {
                let auction_result = self.auction_registry.register_chain(chain_id);
                match auction_result {
                    Err(e) => {
                        proof {
                            assert(false);
                        }
                        Err(e)
                    },
                    Ok(()) => {
                        proof {
                            assert forall|c: ChainId| #[trigger] self.spec_chains().contains_key(c)
                                <==> self.spec_auction_registry().has_chain(c) by {
                                assert(old(self).spec_chains().contains_key(c) <==> old(
                                    self,
                                ).spec_auction_registry().has_chain(c));
                                assert(self.spec_chains() == old(self).spec_chains().insert(
                                    chain_id,
                                    chain_info,
                                ));
                                assert(self.spec_auction_registry().spec_chains() == old(
                                    self,
                                ).spec_auction_registry().spec_chains().insert(chain_id));
                            }
                        }
                        Ok(())
                    },
                }
            },
        }
    }

    /// The registered chain ids, in registration order.
    pub fn get_chain_ids(&self) -> (r: Vec<ChainId>)
        ensures
            r@ == self.spec_chain_ids(),
    {
        self.chain_registry.get_chain_ids()
    }

    /// Runs the validation cascade without storing anything. The checks
    /// short-circuit in this order: the chain must be registered, the seller
    /// registered for it, the seller signature must pass the admission
    /// predicate, the blockspace must fit the chain's gas limit, and the end
    /// time must lie at least the minimum duration past the start time. Note
    /// that a start time in the past is legal.
    pub fn validate_auction_info(&self, info: &AuctionInfo) -> (r: Result<(), RegistryError>)
        requires
            self.wf(),
        ensures
            r is Ok <==> self.spec_accepts(*info),
            if !self.has_chain(info.chain_id) {
                r matches Err(RegistryError::InvalidChainId(c)) && c == info.chain_id
            } else if !self.spec_chains()[info.chain_id]@.has_seller(info.seller_address@) {
                r matches Err(RegistryError::SellerNotRegistered(s)) && s@ == info.seller_address@
            } else if info.seller_signature@.len() == 0 {
                r matches Err(RegistryError::InvalidSellerSignature)
            } else if info.blockspace_size > self.spec_chains()[info.chain_id].gas_limit {
                r matches Err(RegistryError::InvalidGasLimit)
            } else if !valid_timing(info.start_time, info.end_time) {
                r matches Err(RegistryError::InvalidAuctionTime)
            } else {
                r is Ok
            },
    {
        if !self.chain_registry.validate_chain_id(info.chain_id) {
            return Err(RegistryError::InvalidChainId(info.chain_id));
        }
        if !self.chain_registry.is_valid_seller(info.chain_id, info.seller_address.as_str()) {
            return Err(RegistryError::SellerNotRegistered(info.seller_address.clone()));
        }
        if !verify_signature(info.seller_address.as_str(), info.seller_signature.as_str()) {
            return Err(RegistryError::InvalidSellerSignature);
        }
        let gas_ok = match self.chain_registry.get_max_gas_limit(info.chain_id) {
            Some(max_gas) => info.blockspace_size <= max_gas,
            None => false,
        };
        if !gas_ok {
            return Err(RegistryError::InvalidGasLimit);
        }
        if !(info.end_time >= info.start_time && info.end_time - info.start_time
            >= MIN_AUCTION_DURATION_MS) {
            return Err(RegistryError::InvalidAuctionTime);
        }
        Ok(())
    }

    /// Validates an offer and, when the whole cascade passes, inserts it
    /// into its chain's pending queue at its ordered position. On any
    /// validation error nothing is stored. The error cases are those of
    /// `validate_auction_info`.
    pub fn submit_auction_info(&mut self, info: AuctionInfo) -> (r: Result<(), RegistryError>)
        requires
            old(self).wf(),
        ensures
            final(self).wf(),
            final(self).spec_chains() == old(self).spec_chains(),
            final(self).spec_chain_ids() == old(self).spec_chain_ids(),
            r is Ok <==> old(self).spec_accepts(info),
            if old(self).spec_accepts(info) {
                &&& exists|p: int|
                    0 <= p <= old(self).spec_queue(info.chain_id).len() && final(self).spec_queue(
                        info.chain_id,
                    ) == old(self).spec_queue(info.chain_id).insert(p, info)
                &&& forall|c: ChainId|
                    #[trigger] old(self).has_chain(c) && c != info.chain_id
                        ==> final(self).spec_queue(c) == old(self).spec_queue(c)
            } else {
                &&& forall|c: ChainId|
                    #[trigger] old(self).has_chain(c) ==> final(self).spec_queue(c)
                        == old(self).spec_queue(c)
                &&& if !old(self).has_chain(info.chain_id) {
                    r matches Err(RegistryError::InvalidChainId(c)) && c == info.chain_id
                } else if !old(self).spec_chains()[info.chain_id]@.has_seller(
                    info.seller_address@,
                ) {
                    r matches Err(RegistryError::SellerNotRegistered(s)) && s@
                        == info.seller_address@
                } else if info.seller_signature@.len() == 0 {
                    r matches Err(RegistryError::InvalidSellerSignature)
                } else if info.blockspace_size > old(self).spec_chains()[info.chain_id].gas_limit {
                    r matches Err(RegistryError::InvalidGasLimit)
                } else {
                    r matches Err(RegistryError::InvalidAuctionTime)
                }
            },
    {
        proof {
            assert(old(self).spec_chains().contains_key(info.chain_id) <==> old(
                self,
            ).spec_auction_registry().has_chain(info.chain_id));
        }
        let validation = self.validate_auction_info(&info);
        match validation {
            Err(e) => Err(e),
            Ok(()) => {
                let ghost accepted = info;
                let stored = self.auction_registry.store_auction_info(info);
                proof {
                    assert forall|c: ChainId| #[trigger] self.spec_chains().contains_key(c)
                        <==> self.spec_auction_registry().has_chain(c) by {
                        assert(old(self).spec_chains().contains_key(c) <==> old(
                            self,
                        ).spec_auction_registry().has_chain(c));
                    }
                    let oldq = old(self).spec_queue(accepted.chain_id);
                    let p = choose|p: int|
                        0 <= p <= oldq.len() && self.spec_queue(accepted.chain_id) == oldq.insert(
                            p,
                            accepted,
                        );
                    assert(0 <= p <= oldq.len() && self.spec_queue(accepted.chain_id) == oldq.insert(
                        p,
                        accepted,
                    ));
                }
                stored
            },
        }
    }

    /// Removes and returns the next pending offer of a chain: the one with
    /// the least start time. Nothing comes back when the chain is unknown or
    /// its queue is empty.
    pub fn pop_next_auction(&mut self, chain_id: ChainId) -> (r: Option<AuctionInfo>)
        requires
            old(self).wf(),
        ensures
            final(self).wf(),
            final(self).spec_chains() == old(self).spec_chains(),
            final(self).spec_chain_ids() == old(self).spec_chain_ids(),
            if old(self).has_chain(chain_id) && old(self).spec_queue(chain_id).len() > 0 {
                &&& r matches Some(info) && info == old(self).spec_queue(chain_id)[0]
                &&& final(self).spec_queue(chain_id) == old(self).spec_queue(chain_id).skip(1)
                &&& forall|c: ChainId|
                    #[trigger] old(self).has_chain(c) && c != chain_id ==> final(self).spec_queue(c)
                        == old(self).spec_queue(c)
                &&& forall|i: int|
                    0 <= i < old(self).spec_queue(chain_id).len() ==> old(self).spec_queue(
                        chain_id,
                    )[0].start_time <= (#[trigger] old(self).spec_queue(chain_id)[i]).start_time
            } else {
                &&& r is None
                &&& forall|c: ChainId|
                    #[trigger] old(self).has_chain(c) ==> final(self).spec_queue(c)
                        == old(self).spec_queue(c)
            },
    {
        proof {
            assert(old(self).spec_chains().contains_key(chain_id) <==> old(
                self,
            ).spec_auction_registry().has_chain(chain_id));
        }
        let r = self.auction_registry.pop_next_auction(chain_id);
        proof {
            assert forall|c: ChainId| #[trigger] self.spec_chains().contains_key(c)
                <==> self.spec_auction_registry().has_chain(c) by {
                assert(old(self).spec_chains().contains_key(c) <==> old(
                    self,
                ).spec_auction_registry().has_chain(c));
            }
            assert forall|c: ChainId|
                #[trigger] old(self).has_chain(c) && (r is None || c != chain_id) implies self.spec_queue(c)
                == old(self).spec_queue(c) by {
                assert(old(self).spec_chains().contains_key(c) <==> old(
                    self,
                ).spec_auction_registry().has_chain(c));
                assert(self.spec_auction_registry().has_chain(c) <==> old(
                    self,
                ).spec_auction_registry().has_chain(c));
            }
        }
        r
    }

    /// A reference to the next pending offer of a chain without removing
    /// it, or nothing when the chain is unknown or its queue is empty.
    pub fn get_next_auction_info(&self, chain_id: ChainId) -> (r: Option<&AuctionInfo>)
        requires
            self.wf(),
        ensures
            if self.has_chain(chain_id) && self.spec_queue(chain_id).len() > 0 {
                r matches Some(info) && *info == self.spec_queue(chain_id)[0]
            } else {
                r is None
            },
    {
        self.auction_registry.get_next_auction_info(chain_id)
    }
}

} // verus!
