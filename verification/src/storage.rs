//! The bridge module: its configuration, its storage and the ancestry walk
//! over imported headers.
use vstd::prelude::*;

use crate::traits::{
    BlockHash, BlockNumber, ChainState, Header, HeaderChain, OnHeadersSubmitted, Storage,
};
use crate::vec_map::VecMap;

verus! {

broadcast use vstd::seq_lib::lemma_seq_contains_after_push;

/// Which kinds of transactions may submit headers.
pub struct Configuration {
    pub signed_transactions: bool,
    pub unsigned_transactions: bool,
}

/// The module configuration trait
pub trait Trait {
    type BridgeTypes: HeaderChain;
    /// Who submits headers.
    type AccountId;
    /// Handler for headers submission result.
    type OnHeadersSubmitted: OnHeadersSubmitted<Self::AccountId>;
}

/// Runtime bridge storage.
pub struct BridgeStorage<C: HeaderChain> {
    /// Best known block.
    best_block: (BlockNumber, BlockHash),
    /// Best finalized block.
    finalized_block: (BlockNumber, BlockHash),
    /// Oldest unpruned block(s) number.
    oldest_unpruned_block: BlockNumber,
    /// Map of imported headers by hash.
    headers: VecMap<BlockHash, C::Header>,
    /// Map of imported header hashes by number.
    headers_by_number: VecMap<BlockNumber, Vec<BlockHash>>,
}

/// The hash lists of a by-number map, as sequences.
pub open spec fn hash_lists(m: Map<BlockNumber, Vec<BlockHash>>) -> Map<BlockNumber, Seq<BlockHash>> {
    Map::new(|number: BlockNumber| m.dom().contains(number), |number: BlockNumber| m[number]@)
}

/// The hash whose bytes are all zero, which an unset block reads as.
pub open spec fn is_zero_hash(hash: BlockHash) -> bool {
    forall|i: int| 0 <= i < 32 ==> hash[i] == 0u8
}

impl<C: HeaderChain> BridgeStorage<C> {
    /// Number below which headers were last pruned.
    pub closed spec fn oldest_unpruned(&self) -> BlockNumber {
        self.oldest_unpruned_block
    }

    /// Oldest unpruned block(s) number.
    pub fn oldest_unpruned_block(&self) -> (number: BlockNumber)
        ensures
            number == self.oldest_unpruned(),
    {
        self.oldest_unpruned_block
    }

    /// The hashes of the headers imported at `number`, in import order.
    pub fn headers_at(&self, number: BlockNumber) -> (hashes: Option<&Vec<BlockHash>>)
        requires
            self.inv(),
        ensures
            match hashes {
                Some(list) => self.state().headers_by_number.dom().contains(number)
                    && list@ == self.state().headers_by_number[number],
                None => !self.state().headers_by_number.dom().contains(number),
            },
    {
        self.headers_by_number.get(&number)
    }

    /// The storage at genesis: the initial header is imported, and it is
    /// the best, the finalized and the oldest unpruned block.
    pub fn genesis(initial_header: C::Header) -> (storage: Self)
        ensures
            storage.inv(),
            storage.state() == ChainState::genesis(initial_header),
            storage.oldest_unpruned() == initial_header.spec_number(),
    {
        let initial_hash = initial_header.compute_hash();
        let number = initial_header.number();
        let mut headers_by_number: VecMap<BlockNumber, Vec<BlockHash>> = VecMap::new();
        let mut hashes: Vec<BlockHash> = Vec::new();
        hashes.push(initial_hash);
        headers_by_number.insert(number, hashes);
        let mut headers: VecMap<BlockHash, C::Header> = VecMap::new();
        headers.insert(initial_hash, initial_header);
        let storage = BridgeStorage {
            best_block: (number, initial_hash),
            finalized_block: (number, initial_hash),
            oldest_unpruned_block: number,
            headers,
            headers_by_number,
        };
        assert(storage.state().headers_by_number =~= ChainState::genesis(
            initial_header,
        ).headers_by_number);
        storage
    }
}

impl<C: HeaderChain> Default for BridgeStorage<C> {
    /// The storage a fresh runtime starts from before genesis: default
    /// blocks and no headers.
    fn default() -> (storage: Self)
        ensures
            storage.inv(),
            storage.state().best_block.0 == 0,
            is_zero_hash(storage.state().best_block.1),
            storage.state().finalized_block.0 == 0,
            is_zero_hash(storage.state().finalized_block.1),
            storage.state().headers == Map::<BlockHash, C::Header>::empty(),
            storage.state().headers_by_number == Map::<BlockNumber, Seq<BlockHash>>::empty(),
            storage.oldest_unpruned() == 0,
    {
        let storage = BridgeStorage {
            best_block: (0, [0u8; 32]),
            finalized_block: (0, [0u8; 32]),
            oldest_unpruned_block: 0,
            headers: VecMap::new(),
            headers_by_number: VecMap::new(),
        };
        assert(storage.state().headers_by_number =~= Map::<BlockNumber, Seq<BlockHash>>::empty());
        storage
    }
}

impl<C: HeaderChain> Storage<C> for BridgeStorage<C> {
    closed spec fn inv(&self) -> bool {
        self.headers.wf() && self.headers_by_number.wf()
    }

    closed spec fn state(&self) -> ChainState<C::Header> {
        ChainState {
            best_block: self.best_block,
            finalized_block: self.finalized_block,
            headers: self.headers@,
            headers_by_number: hash_lists(self.headers_by_number@),
        }
    }

    fn best_block(&self) -> (block: (BlockNumber, BlockHash)) {
        self.best_block
    }

    fn finalized_block(&self) -> (block: (BlockNumber, BlockHash)) {
        self.finalized_block
    }

    fn header(&self, hash: &BlockHash) -> (header: Option<&C::Header>) {
        self.headers.get(hash)
    }

    fn insert_header(
        &mut self,
        is_best: bool,
        number: BlockNumber,
        hash: BlockHash,
        header: C::Header,
    )
        ensures
            final(self).oldest_unpruned() == old(self).oldest_unpruned(),
    {
        if is_best {
            self.best_block = (number, hash);
        }
        let hashes = match self.headers_by_number.remove(&number) {
            Some(existing) => {
                let mut existing = existing;
                existing.push(hash);
                existing
            },
            None => {
                let mut fresh: Vec<BlockHash> = Vec::new();
                fresh.push(hash);
                fresh
            },
        };
        self.headers_by_number.insert(number, hashes);
        self.headers.insert(hash, header);
        proof {
            let s0 = old(self).state();
            assert(hash_lists(self.headers_by_number@) =~= s0.headers_by_number.insert(
                number,
                s0.hashes_at(number).push(hash),
            ));
        }
    }

    fn finalize_headers(
        &mut self,
        finalized: Option<(BlockNumber, BlockHash)>,
        prune_end: Option<BlockNumber>,
    )
        ensures
            final(self).oldest_unpruned() == (match prune_end {
                Some(end) => end,
                None => old(self).oldest_unpruned(),
            }),
    {
        // remember just finalized block
        if let Some(block) = finalized {
            self.finalized_block = block;
        }
        if let Some(end) = prune_end {
            self.prune_below(end);
            self.oldest_unpruned_block = end;
        }
        proof {
            assert(self.state() == old(self).state().finalize_headers(finalized, prune_end));
        }
    }
}

impl<C: HeaderChain> BridgeStorage<C> {
    /// Removes the hash lists of every number below `end`, and every stored
    /// header whose own number is below `end`.
    fn prune_below(&mut self, end: BlockNumber)
        requires
            old(self).inv(),
        ensures
            final(self).inv(),
            final(self).state() == old(self).state().prune(end),
            final(self).oldest_unpruned() == old(self).oldest_unpruned(),
    {
        let ghost s0 = self.state();
        let numbers = self.headers_by_number.keys();
        let mut i: usize = 0;
        while i < numbers.len()
            invariant
                self.inv(),
                i <= numbers@.len(),
                forall|n: BlockNumber| #[trigger]
                    numbers@.contains(n) <==> s0.headers_by_number.dom().contains(n),
                self.best_block == s0.best_block,
                self.finalized_block == s0.finalized_block,
                self.oldest_unpruned_block == old(self).oldest_unpruned_block,
                self.headers@ == s0.headers,
                self.state().headers_by_number == s0.headers_by_number.remove_keys(
                    Set::new(|n: BlockNumber| n < end && numbers@.take(i as int).contains(n)),
                ),
            decreases numbers@.len() - i,
        {
            let number = numbers[i];
            let ghost before = self.state().headers_by_number;
            if number < end {
                let _ = self.headers_by_number.remove(&number);
                proof {
                    assert(hash_lists(self.headers_by_number@) =~= before.remove(number));
                }
            }
            proof {
                assert(numbers@.take(i + 1) =~= numbers@.take(i as int).push(number));
            }
            i = i + 1;
            proof {
                assert(self.state().headers_by_number =~= s0.headers_by_number.remove_keys(
                    Set::new(|n: BlockNumber| n < end && numbers@.take(i as int).contains(n)),
                ));
            }
        }
        proof {
            assert(numbers@.take(i as int) =~= numbers@);
            assert(self.state().headers_by_number =~= s0.prune(end).headers_by_number);
        }
        let hashes = self.headers.keys();
        let mut j: usize = 0;
        while j < hashes.len()
            invariant
                self.inv(),
                j <= hashes@.len(),
                hashes@.no_duplicates(),
                forall|h: BlockHash| #[trigger]
                    hashes@.contains(h) <==> s0.headers.dom().contains(h),
                self.best_block == s0.best_block,
                self.finalized_block == s0.finalized_block,
                self.oldest_unpruned_block == old(self).oldest_unpruned_block,
                self.state().headers_by_number == s0.prune(end).headers_by_number,
                self.headers@ == s0.headers.remove_keys(
                    Set::new(
                        |h: BlockHash|
                            hashes@.take(j as int).contains(h) && s0.headers[h].spec_number()
                                < end,
                    ),
                ),
            decreases hashes@.len() - j,
        {
            let hash = hashes[j];
            proof {
                assert(hashes@.contains(hash)) by {
                    assert(hashes@[j as int] == hash);
                }
                assert(!hashes@.take(j as int).contains(hash)) by {
                    if hashes@.take(j as int).contains(hash) {
                        let k = choose|k: int| 0 <= k < j && hashes@.take(j as int)[k] == hash;
                        assert(hashes@[k] == hashes@[j as int]);
                    }
                }
            }
            let below = match self.headers.get(&hash) {
                Some(header) => header.number() < end,
                None => false,
            };
            if below {
                let _ = self.headers.remove(&hash);
            }
            proof {
                assert(hashes@.take(j + 1) =~= hashes@.take(j as int).push(hash));
            }
            j = j + 1;
            proof {
                assert(self.headers@ =~= s0.headers.remove_keys(
                    Set::new(
                        |h: BlockHash|
                            hashes@.take(j as int).contains(h) && s0.headers[h].spec_number()
                                < end,
                    ),
                ));
            }
        }
        proof {
            assert(hashes@.take(j as int) =~= hashes@);
            assert(self.state().headers =~= s0.prune(end).headers);
        }
    }
}

/// The bridge module, holding its storage.
pub struct Module<T: Trait> {
    pub storage: BridgeStorage<T::BridgeTypes>,
}

impl<T: Trait> Module<T> {
    /// The module as genesis leaves it, built from the initial header.
    pub fn genesis(initial_header: <T::BridgeTypes as HeaderChain>::Header) -> (module: Self)
        ensures
            module.storage.inv(),
            module.storage.state() == ChainState::genesis(initial_header),
            module.storage.oldest_unpruned() == initial_header.spec_number(),
    {
        Module { storage: BridgeStorage::genesis(initial_header) }
    }

    /// Returns number and hash of the best block known to the bridge module.
    /// The caller should only submit `import_header` transaction that makes
    /// (or leads to making) other header the best one.
    pub fn best_block(&self) -> (block: (BlockNumber, BlockHash))
        requires
            self.storage.inv(),
        ensures
            block == self.storage.state().best_block,
    {
        self.storage.best_block()
    }

    /// Reports the outcome of a header import to the submission handler and
    /// turns it into the call's result. The report made is
    /// `import_report(&import_result)`: `Valid` goes to
    /// `on_valid_headers_submitted` with its counts, `Invalid` to
    /// `on_invalid_headers_submitted`.
    pub fn report_import_result<E>(
        submitter: T::AccountId,
        import_result: Result<(u64, u64), E>,
    ) -> (result: Result<(), E>)
        ensures
            match import_result {
                Ok(_) => result == Ok::<(), E>(()),
                Err(error) => result == Err::<(), E>(error),
            },
            match import_result {
                Ok((useful, useless)) => call_ensures(
                    <T::OnHeadersSubmitted as OnHeadersSubmitted<
                        T::AccountId,
                    >>::on_valid_headers_submitted,
                    (submitter, useful, useless),
                    (),
                ),
                Err(_) => call_ensures(
                    <T::OnHeadersSubmitted as OnHeadersSubmitted<
                        T::AccountId,
                    >>::on_invalid_headers_submitted,
                    (submitter,),
                    (),
                ),
            },
    {
        match import_report(&import_result) {
            ImportReport::Valid { useful, useless } => {
                let report_valid = <T::OnHeadersSubmitted as OnHeadersSubmitted<
                    T::AccountId,
                >>::on_valid_headers_submitted;
                report_valid(submitter, useful, useless);
            },
            ImportReport::Invalid => {
                let report_invalid = <T::OnHeadersSubmitted as OnHeadersSubmitted<
                    T::AccountId,
                >>::on_invalid_headers_submitted;
                report_invalid(submitter);
            },
        }
        match import_result {
            Ok(_) => Ok(()),
            Err(error) => Err(error),
        }
    }
}

/// What the submission handler is told of a header import.
#[derive(Debug, Clone, Copy, PartialEq, Eq, Structural)]
pub enum ImportReport {
    /// The import succeeded, with these counts of useful and useless headers.
    Valid { useful: u64, useless: u64 },
    /// The import failed: even though some headers may have been accepted,
    /// whoever provides invalid headers is not rewarded.
    Invalid,
}

/// The report that an import's outcome calls for: a successful import is
/// valid with its counts of useful and useless headers, a failed one invalid.
pub fn import_report<E>(import_result: &Result<(u64, u64), E>) -> (report: ImportReport)
    ensures
        report == (match import_result {
            Ok((useful, useless)) => ImportReport::Valid { useful: *useful, useless: *useless },
            Err(_) => ImportReport::Invalid,
        }),
{
    match import_result {
        Ok((useful, useless)) => ImportReport::Valid { useful: *useful, useless: *useless },
        Err(_) => ImportReport::Invalid,
    }
}

/// The walk from a header through its stored ancestors, newest first.
///
/// The walk stops at the first ancestor that is not stored, and before the
/// genesis header (number zero).
pub struct Ancestry {
    parent_hash: BlockHash,
}

/// Starts the walk over the ancestors of `header`.
pub fn ancestry<H: Header>(header: &H) -> (walk: Ancestry)
    ensures
        walk.next_hash() == header.spec_parent_hash(),
{
    Ancestry { parent_hash: header.parent_hash() }
}

/// The step that the walk takes from `hash`: the header stored there with
/// its hash, unless no header is stored there or it is the genesis header.
pub open spec fn walk_step<H: Header>(headers: Map<BlockHash, H>, hash: BlockHash) -> Option<
    (BlockHash, H),
> {
    if headers.dom().contains(hash) && headers[hash].spec_number() != 0 {
        Some((hash, headers[hash]))
    } else {
        None
    }
}

/// The first `n` items of the walk from `hash` (fewer when the walk stops
/// before that).
pub open spec fn ancestors<H: Header>(headers: Map<BlockHash, H>, hash: BlockHash, n: nat) -> Seq<
    (BlockHash, H),
>
    decreases n,
{
    if n == 0 {
        Seq::empty()
    } else {
        match walk_step(headers, hash) {
            Some((found, header)) => seq![(found, header)] + ancestors(
                headers,
                header.spec_parent_hash(),
                (n - 1) as nat,
            ),
            None => Seq::empty(),
        }
    }
}

impl Ancestry {
    /// The hash of the ancestor that the walk reaches next.
    pub closed spec fn next_hash(&self) -> BlockHash {
        self.parent_hash
    }

    /// The next ancestor and its hash, if the walk goes on: it goes on while
    /// the ancestor is stored and is not the genesis header, and then moves
    /// to that ancestor's parent; otherwise it stays where it is.
    pub fn next<'a, C: HeaderChain, S: Storage<C>>(&mut self, storage: &'a S) -> (item: Option<
        (BlockHash, &'a C::Header),
    >)
        requires
            storage.inv(),
        ensures
            match walk_step(storage.state().headers, old(self).next_hash()) {
                Some((hash, header)) => {
                    &&& item == Some((hash, &header))
                    &&& final(self).next_hash() == header.spec_parent_hash()
                },
                None => {
                    &&& item == None::<(BlockHash, &'a C::Header)>
                    &&& final(self).next_hash() == old(self).next_hash()
                },
            },
    {
        let header = match storage.header(&self.parent_hash) {
            Some(header) => header,
            None => return None,
        };
        if header.number() == 0 {
            return None;
        }
        let hash = self.parent_hash;
        self.parent_hash = header.parent_hash();
        Some((hash, header))
    }
}

} // verus!
