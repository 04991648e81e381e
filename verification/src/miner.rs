//! The mining service: the node's chain and peer registry, the mining
//! operation, and the reconciliation of chains published by peers.

use vstd::prelude::*;

verus! {

use crate::block::Block;
use crate::block::BlockChain;
use crate::block::bytes_equal;
use crate::block::replace_to_new_chain;
use crate::block::spec_valid_chain;
use crate::block::spec_validate_block;
use crate::peer::PeerService;
use crate::peer::Peers;

/// A gossip message between nodes: a request for the latest block, a request
/// for the whole chain, or a push of encoded chain content.
#[derive(Debug)]
pub enum MinerMessage {
    QueryLatest,
    QueryAll,
    PublishLatestBlock(Vec<u8>),
}

/// Why mining was rejected.
#[derive(Debug, Clone, Copy, PartialEq, Eq, Structural)]
pub enum MineError {
    /// The tip already carries the largest index a block can hold, so no
    /// block can extend it.
    IndexExhausted,
}

/// What reconciliation decided for a chain published by a peer.
#[derive(Debug, Clone, Copy, PartialEq, Eq, Structural)]
pub enum ReconcileOutcome {
    /// The incoming tip is older than the local tip: the message was stale
    /// and nothing changed.
    Ignored,
    /// The incoming tip extends the local tip and was appended (a
    /// fast-forward); the new tip should be pushed to the peers.
    Appended,
    /// The incoming chain is fully valid and strictly longer than the local
    /// one, which it replaced wholesale.
    Replaced,
    /// The incoming data fit nowhere: nothing changed and the caller is told
    /// the chain was rejected.
    Rejected,
}

/// The reconciliation decision, evaluated against the local chain's tip: a
/// stale tip is ignored; a tip extending the local tip is appended if it
/// validates; otherwise the foreign chain wins if and only if it is fully
/// valid and strictly longer.
pub open spec fn spec_reconcile(local: Seq<Block>, incoming: Seq<Block>) -> ReconcileOutcome {
    let lt = local.last();
    let it = incoming.last();
    if it.index < lt.index {
        ReconcileOutcome::Ignored
    } else if lt.hash@ == it.pre_hash@ {
        if spec_validate_block(lt, it) {
            ReconcileOutcome::Appended
        } else {
            ReconcileOutcome::Rejected
        }
    } else if spec_valid_chain(incoming) && incoming.len() > local.len() {
        ReconcileOutcome::Replaced
    } else {
        ReconcileOutcome::Rejected
    }
}

/// A mining node's state: its chain and its peer service.
#[derive(Debug)]
pub struct MinerService {
    pub block_chain: BlockChain,
    pub peer_service: PeerService,
}

impl MinerService {
    /// A fresh node: the genesis chain, an empty registry, and the node's own
    /// addresses for the registry to exclude.
    pub fn new(self_addrs: Vec<String>) -> (r: MinerService)
        ensures
            r.block_chain@.len() == 1,
            crate::block::is_genesis_block(r.block_chain@[0]),
            r.block_chain.wf(),
            spec_valid_chain(r.block_chain@),
            r.peer_service.peers@.len() == 0,
            r.peer_service.self_addrs == self_addrs,
    {
        MinerService { block_chain: BlockChain::new(), peer_service: PeerService::new(self_addrs) }
    }

    /// The whole local chain (read-only).
    pub fn list_block_chain(&self) -> (r: &BlockChain)
        ensures
            r@ == self.block_chain@,
    {
        &self.block_chain
    }

    /// Mine a block carrying the given payload: generate it on top of the
    /// current tip, validate it, and append it. Mining succeeds exactly when
    /// the tip's index can still be incremented.
    pub fn mine_block(&mut self, data: String) -> (r: Result<Block, MineError>)
        requires
            old(self).block_chain.wf(),
        ensures
            r is Ok <==> old(self).block_chain@.last().index < u32::MAX,
            match r {
                Ok(b) => {
                    &&& final(self).block_chain@.len() == old(self).block_chain@.len() + 1
                    &&& final(self).block_chain@.drop_last() == old(self).block_chain@
                    &&& spec_validate_block(
                        old(self).block_chain@.last(),
                        final(self).block_chain@.last(),
                    )
                    &&& b.index == old(self).block_chain@.last().index + 1
                    &&& b.pre_hash@ == old(self).block_chain@.last().hash@
                    &&& b.data@ == data@
                    &&& b.index == final(self).block_chain@.last().index
                    &&& b.time@ == final(self).block_chain@.last().time@
                    &&& b.hash@ == final(self).block_chain@.last().hash@
                    &&& b.pre_hash@ == final(self).block_chain@.last().pre_hash@
                    &&& b.data@ == final(self).block_chain@.last().data@
                },
                Err(_) => *final(self) == *old(self),
            },
            final(self).block_chain.wf(),
            spec_valid_chain(old(self).block_chain@) ==> spec_valid_chain(
                final(self).block_chain@,
            ),
            final(self).peer_service == old(self).peer_service,
    {
        let tip_index = match self.block_chain.get_latest() {
            Some(b) => b.index,
            None => 0,
        };
        if tip_index == u32::MAX {
            return Err(MineError::IndexExhausted);
        }
        let new_block = self.block_chain.generate_next_block(data);
        let stored = new_block.clone();
        let valid = self.block_chain.add_new_block(stored);
        proof {
            assert(valid);
            assert(final(self).block_chain@.drop_last() =~= old(self).block_chain@);
        }
        Ok(new_block)
    }

    /// Reconcile a chain published by a peer against the local chain, as
    /// `spec_reconcile` decides: ignore a stale tip; append a tip that
    /// extends the local tip (fast-forward); otherwise adopt the whole
    /// foreign chain if and only if it is fully valid and strictly longer.
    /// On `Ignored` and `Rejected` the local chain is unchanged.
    pub fn publish_blocks(&mut self, blocks: BlockChain) -> (r: ReconcileOutcome)
        requires
            old(self).block_chain.wf(),
            blocks.wf(),
        ensures
            r == spec_reconcile(old(self).block_chain@, blocks@),
            r == ReconcileOutcome::Appended ==> final(self).block_chain@ == old(self).block_chain@.push(blocks@.last()),
            r == ReconcileOutcome::Replaced ==> final(self).block_chain@ == blocks@,
            r == ReconcileOutcome::Ignored || r == ReconcileOutcome::Rejected ==> final(self).block_chain@ == old(self).block_chain@,
            final(self).block_chain.wf(),
            spec_valid_chain(old(self).block_chain@) ==> spec_valid_chain(
                final(self).block_chain@,
            ),
            final(self).peer_service == old(self).peer_service,
    {
        let mut blocks = blocks;
        let concat: bool;
        {
            let latest_block = match blocks.get_latest() {
                Some(b) => b,
                None => {
                    return ReconcileOutcome::Rejected;
                },
            };
            let own_latest_block = match self.block_chain.get_latest() {
                Some(b) => b,
                None => {
                    return ReconcileOutcome::Rejected;
                },
            };
            if latest_block.index < own_latest_block.index {
                return ReconcileOutcome::Ignored;
            }
            concat = bytes_equal(&own_latest_block.hash, &latest_block.pre_hash);
        }
        if concat {
            let tip = match blocks.pop_latest() {
                Some(b) => b,
                None => {
                    return ReconcileOutcome::Rejected;
                },
            };
            let added = self.block_chain.add_new_block(tip);
            if added {
                ReconcileOutcome::Appended
            } else {
                ReconcileOutcome::Rejected
            }
        } else {
            match replace_to_new_chain(&self.block_chain, blocks) {
                Some(nc) => {
                    self.block_chain = nc;
                    ReconcileOutcome::Replaced
                },
                None => ReconcileOutcome::Rejected,
            }
        }
    }

    /// Merge peers announced by another node into the registry.
    pub fn add_peers(&mut self, other_peers: Peers)
        ensures
            final(self).peer_service.peers@ == crate::peer::spec_merge(
                old(self).peer_service.peers@,
                other_peers@,
                old(self).peer_service.self_addrs.deep_view(),
            ),
            final(self).peer_service.self_addrs == old(self).peer_service.self_addrs,
            final(self).block_chain == old(self).block_chain,
    {
        self.peer_service.add_peers(other_peers);
    }

    /// A read-only snapshot of the registry.
    pub fn list_peers(&self) -> (r: &Peers)
        ensures
            r@ == self.peer_service.peers@,
    {
        self.peer_service.list_peers()
    }
}

} // verus!

