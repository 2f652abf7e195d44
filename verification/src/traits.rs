//! The traits through which the bridge module sees headers, the bridged
//! chain and its own storage, and the abstract state that storage holds.
use vstd::prelude::*;

verus! {

/// Number of a block of the bridged chain.
pub type BlockNumber = u64;

/// Hash of a block of the bridged chain.
pub type BlockHash = [u8; 32];

/// A header of the bridged chain, as the users of the module define it.
pub trait Header: Sized {
    /// The hash of this header.
    spec fn spec_hash(&self) -> BlockHash;

    /// The number of the block this header belongs to.
    spec fn spec_number(&self) -> BlockNumber;

    /// The hash of the parent header.
    spec fn spec_parent_hash(&self) -> BlockHash;

    fn compute_hash(&self) -> (hash: BlockHash)
        ensures
            hash == self.spec_hash(),
    ;

    fn number(&self) -> (number: BlockNumber)
        ensures
            number == self.spec_number(),
    ;

    fn parent_hash(&self) -> (hash: BlockHash)
        ensures
            hash == self.spec_parent_hash(),
    ;
}

/// The types that describe a bridged chain.
pub trait HeaderChain {
    type Header: Header;
    type HeaderAuxiliaryData;
    type Event;
    type EventProofData;
    type Transaction;
    type TransactionProofData;
}

/// The header type of a bridged chain.
pub type HeaderFor<C> = <C as HeaderChain>::Header;

/// The auxiliary data that comes with a header of a bridged chain.
pub type HeaderAuxFor<C> = <C as HeaderChain>::HeaderAuxiliaryData;

/// What a header-chain storage holds: the best and the finalized block,
/// the imported headers by hash, and the hashes of imported headers by
/// block number (in the order in which they were imported).
pub struct ChainState<H> {
    pub best_block: (BlockNumber, BlockHash),
    pub finalized_block: (BlockNumber, BlockHash),
    pub headers: Map<BlockHash, H>,
    pub headers_by_number: Map<BlockNumber, Seq<BlockHash>>,
}

impl<H> ChainState<H> {
    /// The hashes imported at block number `number`; none if nothing was.
    pub open spec fn hashes_at(self, number: BlockNumber) -> Seq<BlockHash> {
        if self.headers_by_number.dom().contains(number) {
            self.headers_by_number[number]
        } else {
            Seq::empty()
        }
    }

    /// The header imported under `hash`, if any.
    pub open spec fn header(self, hash: BlockHash) -> Option<H> {
        if self.headers.dom().contains(hash) {
            Some(self.headers[hash])
        } else {
            None
        }
    }

    /// The state after importing `header` under `hash` at `number`: the
    /// header is stored under its hash, the hash is appended to those at
    /// its number, and the block becomes the best one when `is_best`.
    pub open spec fn insert_header(
        self,
        is_best: bool,
        number: BlockNumber,
        hash: BlockHash,
        header: H,
    ) -> Self {
        ChainState {
            best_block: if is_best {
                (number, hash)
            } else {
                self.best_block
            },
            finalized_block: self.finalized_block,
            headers: self.headers.insert(hash, header),
            headers_by_number: self.headers_by_number.insert(number, self.hashes_at(number).push(hash)),
        }
    }
}

impl<H: Header> ChainState<H> {
    /// The hashes under which a header with number below `end` is stored.
    pub open spec fn pruned_hashes(self, end: BlockNumber) -> Set<BlockHash> {
        Set::new(
            |hash: BlockHash|
                self.headers.dom().contains(hash) && self.headers[hash].spec_number() < end,
        )
    }

    /// The state after pruning every header with number below `end`: the
    /// numbers below `end` lose their lists of hashes, and every stored
    /// header whose own number is below `end` is removed.
    pub open spec fn prune(self, end: BlockNumber) -> Self {
        ChainState {
            best_block: self.best_block,
            finalized_block: self.finalized_block,
            headers: self.headers.remove_keys(self.pruned_hashes(end)),
            headers_by_number: self.headers_by_number.remove_keys(
                Set::new(|number: BlockNumber| number < end),
            ),
        }
    }

    /// The state after finalizing `finalized` (when given) and pruning
    /// below `prune_end` (when given).
    pub open spec fn finalize_headers(
        self,
        finalized: Option<(BlockNumber, BlockHash)>,
        prune_end: Option<BlockNumber>,
    ) -> Self {
        let pruned = match prune_end {
            Some(end) => self.prune(end),
            None => self,
        };
        ChainState {
            finalized_block: match finalized {
                Some(block) => block,
                None => self.finalized_block,
            },
            ..pruned
        }
    }

    /// The state that genesis builds from the initial header: it is stored,
    /// listed at its number, and is both the best and the finalized block.
    pub open spec fn genesis(initial_header: H) -> Self {
        ChainState {
            best_block: (initial_header.spec_number(), initial_header.spec_hash()),
            finalized_block: (initial_header.spec_number(), initial_header.spec_hash()),
            headers: Map::empty().insert(initial_header.spec_hash(), initial_header),
            headers_by_number: Map::empty().insert(
                initial_header.spec_number(),
                seq![initial_header.spec_hash()],
            ),
        }
    }

    /// The state after one storage operation.
    pub open spec fn apply(self, op: StorageOp<H>) -> Self {
        match op {
            StorageOp::InsertHeader { is_best, number, hash, header } => self.insert_header(
                is_best,
                number,
                hash,
                header,
            ),
            StorageOp::FinalizeHeaders { finalized, prune_end } => self.finalize_headers(
                finalized,
                prune_end,
            ),
        }
    }

    /// The state after a sequence of storage operations, applied in order.
    pub open spec fn apply_all(self, ops: Seq<StorageOp<H>>) -> Self
        decreases ops.len(),
    {
        if ops.len() == 0 {
            self
        } else {
            self.apply_all(ops.drop_last()).apply(ops.last())
        }
    }
}

/// A call that changes a storage, with its arguments.
pub enum StorageOp<H> {
    InsertHeader { is_best: bool, number: BlockNumber, hash: BlockHash, header: H },
    FinalizeHeaders { finalized: Option<(BlockNumber, BlockHash)>, prune_end: Option<BlockNumber> },
}

/// The storage that is used by the client.
///
/// Storage modification must be discarded if block import has failed.
pub trait Storage<C: HeaderChain>: Sized {
    /// The storage's internal invariant.
    spec fn inv(&self) -> bool;

    /// What the storage holds.
    spec fn state(&self) -> ChainState<C::Header>;

    /// Get best known block.
    fn best_block(&self) -> (block: (BlockNumber, BlockHash))
        requires
            self.inv(),
        ensures
            block == self.state().best_block,
    ;

    /// Get last finalized block.
    fn finalized_block(&self) -> (block: (BlockNumber, BlockHash))
        requires
            self.inv(),
        ensures
            block == self.state().finalized_block,
    ;

    /// Get imported header by its hash.
    fn header(&self, hash: &BlockHash) -> (header: Option<&C::Header>)
        requires
            self.inv(),
        ensures
            header == (if self.state().headers.dom().contains(*hash) {
                Some(&self.state().headers[*hash])
            } else {
                None::<&C::Header>
            }),
    ;

    /// Insert imported header.
    fn insert_header(
        &mut self,
        is_best: bool,
        number: BlockNumber,
        hash: BlockHash,
        header: C::Header,
    )
        requires
            old(self).inv(),
        ensures
            final(self).inv(),
            final(self).state() == old(self).state().insert_header(is_best, number, hash, header),
    ;

    /// Finalize given block and prune all headers with number < prune_end.
    /// The headers in the pruning range could be either finalized, or not.
    /// A storage that keeps scheduled validator-set changes must not prune
    /// unfinalized headers with such changes until they or their competitors
    /// are finalized; this module keeps no scheduled changes, so it prunes
    /// every header below the bound.
    fn finalize_headers(
        &mut self,
        finalized: Option<(BlockNumber, BlockHash)>,
        prune_end: Option<BlockNumber>,
    )
        requires
            old(self).inv(),
        ensures
            final(self).inv(),
            final(self).state() == old(self).state().finalize_headers(finalized, prune_end),
    ;
}

/// Decides whether the session should be ended.
pub trait OnHeadersSubmitted<AccountId> {
    /// Called when valid headers have been submitted.
    fn on_valid_headers_submitted(submitter: AccountId, useful: u64, useless: u64);

    /// Called when invalid headers have been submitted.
    fn on_invalid_headers_submitted(submitter: AccountId);
}

impl<AccountId> OnHeadersSubmitted<AccountId> for () {
    fn on_valid_headers_submitted(_submitter: AccountId, _useful: u64, _useless: u64) {
    }

    fn on_invalid_headers_submitted(_submitter: AccountId) {
    }
}

} // verus!
