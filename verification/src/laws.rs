//! Properties of the storage operations that span several calls.
use vstd::prelude::*;

use crate::storage::{ancestors, walk_step};
use crate::traits::{BlockHash, BlockNumber, ChainState, Header, StorageOp};

verus! {

/// A header that was inserted under a hash is what reading that hash gives back.
pub proof fn law_header_read_after_insert<H>(
    state: ChainState<H>,
    is_best: bool,
    number: BlockNumber,
    hash: BlockHash,
    header: H,
)
    ensures
        state.insert_header(is_best, number, hash, header).header(hash) == Some(header),
{
}

/// Inserting a header leaves the headers stored under other hashes as they were.
pub proof fn law_insert_keeps_other_headers<H>(
    state: ChainState<H>,
    is_best: bool,
    number: BlockNumber,
    hash: BlockHash,
    header: H,
    other: BlockHash,
)
    requires
        other != hash,
    ensures
        state.insert_header(is_best, number, hash, header).header(other) == state.header(other),
{
}

/// Inserting a header appends its hash to the hashes at its number, keeps
/// the hashes at every other number, and keeps the finalized block.
pub proof fn law_insert_appends_hash<H>(
    state: ChainState<H>,
    is_best: bool,
    number: BlockNumber,
    hash: BlockHash,
    header: H,
    other: BlockNumber,
)
    ensures
        state.insert_header(is_best, number, hash, header).hashes_at(number) == state.hashes_at(
            number,
        ).push(hash),
        other != number ==> state.insert_header(is_best, number, hash, header).hashes_at(other)
            == state.hashes_at(other),
        state.insert_header(is_best, number, hash, header).finalized_block == state.finalized_block,
{
}

/// A header inserted as the best one becomes the best block; any other
/// insertion leaves the best block as it was.
pub proof fn law_insert_best_block<H>(
    state: ChainState<H>,
    is_best: bool,
    number: BlockNumber,
    hash: BlockHash,
    header: H,
)
    ensures
        is_best ==> state.insert_header(is_best, number, hash, header).best_block == (number, hash),
        !is_best ==> state.insert_header(is_best, number, hash, header).best_block
            == state.best_block,
{
}

/// Finalizing a block makes it the finalized block, finalizing nothing keeps
/// the finalized block, and neither touches the best block.
pub proof fn law_finalize_sets_finalized_block<H: Header>(
    state: ChainState<H>,
    finalized: Option<(BlockNumber, BlockHash)>,
    prune_end: Option<BlockNumber>,
)
    ensures
        state.finalize_headers(finalized, prune_end).finalized_block == (match finalized {
            Some(block) => block,
            None => state.finalized_block,
        }),
        state.finalize_headers(finalized, prune_end).best_block == state.best_block,
{
}

/// Without a pruning bound, finalization leaves the headers and their lists
/// by number as they were; with neither a block nor a bound it changes nothing.
pub proof fn law_finalize_without_pruning<H: Header>(
    state: ChainState<H>,
    finalized: Option<(BlockNumber, BlockHash)>,
)
    ensures
        state.finalize_headers(finalized, None).headers == state.headers,
        state.finalize_headers(finalized, None).headers_by_number == state.headers_by_number,
        state.finalize_headers(None, None) == state,
{
}

/// After pruning below `end`, no number below `end` has a list of hashes,
/// the lists at the other numbers are kept, a stored header whose number is
/// below `end` is gone, a stored header whose number is not below `end` is
/// kept, and no header appears.
pub proof fn law_prune_removes_exactly_old_headers<H: Header>(
    state: ChainState<H>,
    end: BlockNumber,
    number: BlockNumber,
    hash: BlockHash,
)
    ensures
        number < end ==> !state.prune(end).headers_by_number.dom().contains(number),
        number >= end ==> state.prune(end).hashes_at(number) == state.hashes_at(number),
        match state.header(hash) {
            Some(header) => if header.spec_number() < end {
                state.prune(end).header(hash) is None
            } else {
                state.prune(end).header(hash) == Some(header)
            },
            None => state.prune(end).header(hash) is None,
        },
{
}

/// Pruning twice below the same bound is the same as pruning once.
pub proof fn law_prune_idempotent<H: Header>(state: ChainState<H>, end: BlockNumber)
    ensures
        state.prune(end).prune(end) == state.prune(end),
{
    let once = state.prune(end);
    assert(once.pruned_hashes(end) =~= Set::<BlockHash>::empty());
    assert(once.prune(end).headers =~= once.headers);
    assert(once.prune(end).headers_by_number =~= once.headers_by_number);
}

/// The finalized block given by the last finalization in `ops` that names
/// one; `initial` if there is none.
pub open spec fn last_finalized<H>(ops: Seq<StorageOp<H>>, initial: (BlockNumber, BlockHash)) -> (
    BlockNumber,
    BlockHash,
)
    decreases ops.len(),
{
    if ops.len() == 0 {
        initial
    } else {
        match ops.last() {
            StorageOp::FinalizeHeaders { finalized: Some(block), .. } => block,
            _ => last_finalized(ops.drop_last(), initial),
        }
    }
}

/// The block of the last insertion in `ops` made as the best one; `initial`
/// if there is none.
pub open spec fn last_best<H>(ops: Seq<StorageOp<H>>, initial: (BlockNumber, BlockHash)) -> (
    BlockNumber,
    BlockHash,
)
    decreases ops.len(),
{
    if ops.len() == 0 {
        initial
    } else {
        match ops.last() {
            StorageOp::InsertHeader { is_best: true, number, hash, .. } => (number, hash),
            _ => last_best(ops.drop_last(), initial),
        }
    }
}

/// The header of the last insertion in `ops` under `hash`; `initial` if
/// there is none.
pub open spec fn last_inserted<H>(ops: Seq<StorageOp<H>>, hash: BlockHash, initial: Option<H>) -> Option<H>
    decreases ops.len(),
{
    if ops.len() == 0 {
        initial
    } else {
        match ops.last() {
            StorageOp::InsertHeader { hash: h, header, .. } => if h == hash {
                Some(header)
            } else {
                last_inserted(ops.drop_last(), hash, initial)
            },
            _ => last_inserted(ops.drop_last(), hash, initial),
        }
    }
}

/// No finalization in `ops` prunes.
pub open spec fn never_prunes<H>(ops: Seq<StorageOp<H>>) -> bool {
    forall|i: int|
        0 <= i < ops.len() ==> match #[trigger] ops[i] {
            StorageOp::FinalizeHeaders { prune_end, .. } => prune_end is None,
            _ => true,
        }
}

/// Over any sequence of insertions and finalizations, the finalized block is
/// the one the last finalization named, and otherwise the one the storage
/// started with; from genesis, that is the initial header's block.
pub proof fn law_finalized_block_over_calls<H: Header>(
    state: ChainState<H>,
    initial_header: H,
    ops: Seq<StorageOp<H>>,
)
    ensures
        state.apply_all(ops).finalized_block == last_finalized(ops, state.finalized_block),
        ChainState::genesis(initial_header).apply_all(ops).finalized_block == last_finalized(
            ops,
            (initial_header.spec_number(), initial_header.spec_hash()),
        ),
    decreases ops.len(),
{
    if ops.len() > 0 {
        law_finalized_block_over_calls(state, initial_header, ops.drop_last());
    }
}

/// Over any sequence of insertions and finalizations, the best block is the
/// one the last insertion as best named, and otherwise the one the storage
/// started with; from genesis, that is the initial header's block.
pub proof fn law_best_block_over_calls<H: Header>(
    state: ChainState<H>,
    initial_header: H,
    ops: Seq<StorageOp<H>>,
)
    ensures
        state.apply_all(ops).best_block == last_best(ops, state.best_block),
        ChainState::genesis(initial_header).apply_all(ops).best_block == last_best(
            ops,
            (initial_header.spec_number(), initial_header.spec_hash()),
        ),
    decreases ops.len(),
{
    if ops.len() > 0 {
        law_best_block_over_calls(state, initial_header, ops.drop_last());
    }
}

/// Over any sequence of insertions and finalizations that do not prune,
/// reading a hash gives the header last inserted under it, and otherwise
/// what the storage started with; from genesis, that is the initial header
/// under its own hash and nothing under any other.
pub proof fn law_header_over_calls<H: Header>(
    state: ChainState<H>,
    initial_header: H,
    ops: Seq<StorageOp<H>>,
    hash: BlockHash,
)
    requires
        never_prunes(ops),
    ensures
        state.apply_all(ops).header(hash) == last_inserted(ops, hash, state.header(hash)),
        ChainState::genesis(initial_header).apply_all(ops).header(hash) == last_inserted(
            ops,
            hash,
            if hash == initial_header.spec_hash() {
                Some(initial_header)
            } else {
                None
            },
        ),
    decreases ops.len(),
{
    if ops.len() > 0 {
        let rest = ops.drop_last();
        assert(never_prunes(rest)) by {
            assert forall|i: int| 0 <= i < rest.len() implies match #[trigger] rest[i] {
                StorageOp::FinalizeHeaders { prune_end, .. } => prune_end is None,
                _ => true,
            } by {
                assert(rest[i] == ops[i]);
            }
        }
        assert(match ops[ops.len() - 1] {
            StorageOp::FinalizeHeaders { prune_end, .. } => prune_end is None,
            _ => true,
        });
        law_header_over_calls(state, initial_header, rest, hash);
    }
}

/// The walk over a header's ancestors depends on the header only through its
/// parent hash: two headers with the same parent have the same ancestry.
pub proof fn law_ancestry_depends_only_on_parent_hash<H: Header>(
    headers: Map<BlockHash, H>,
    first: H,
    second: H,
    n: nat,
)
    requires
        first.spec_parent_hash() == second.spec_parent_hash(),
    ensures
        ancestors(headers, first.spec_parent_hash(), n) == ancestors(
            headers,
            second.spec_parent_hash(),
            n,
        ),
{
}

/// When the walk from `hash` yields the stored header `parent` first, the
/// rest of it is the walk over `parent`'s own ancestors.
pub proof fn law_ancestry_continues_as_parents_walk<H: Header>(
    headers: Map<BlockHash, H>,
    hash: BlockHash,
    n: nat,
)
    ensures
        match walk_step(headers, hash) {
            Some((found, parent)) => ancestors(headers, hash, n + 1) == seq![(found, parent)]
                + ancestors(headers, parent.spec_parent_hash(), n),
            None => ancestors(headers, hash, n + 1) == Seq::<(BlockHash, H)>::empty(),
        },
{
}

/// The walk from `hash` yields at most as many items as asked for; it starts
/// at `hash`; every item is a stored non-genesis header under its own key;
/// and each item after the first is the parent of the one before.
pub proof fn law_ancestry_items_are_linked_stored_headers<H: Header>(
    headers: Map<BlockHash, H>,
    hash: BlockHash,
    n: nat,
)
    ensures
        ancestors(headers, hash, n).len() <= n,
        ancestors(headers, hash, n).len() > 0 ==> ancestors(headers, hash, n)[0].0 == hash,
        forall|i: int|
            0 <= i < ancestors(headers, hash, n).len() ==> {
                let item = #[trigger] ancestors(headers, hash, n)[i];
                &&& headers.dom().contains(item.0)
                &&& headers[item.0] == item.1
                &&& item.1.spec_number() != 0
            },
        forall|i: int|
            0 < i < ancestors(headers, hash, n).len() ==> #[trigger] ancestors(headers, hash, n)[i].0
                == ancestors(headers, hash, n)[i - 1].1.spec_parent_hash(),
    decreases n,
{
    if n > 0 {
        if let Some((found, parent)) = walk_step(headers, hash) {
            let rest = ancestors(headers, parent.spec_parent_hash(), (n - 1) as nat);
            law_ancestry_items_are_linked_stored_headers(
                headers,
                parent.spec_parent_hash(),
                (n - 1) as nat,
            );
            let all = ancestors(headers, hash, n);
            assert(all == seq![(found, parent)] + rest);
            assert forall|i: int| 0 < i < all.len() implies #[trigger] all[i].0 == all[i
                - 1].1.spec_parent_hash() by {
                assert(all[i] == rest[i - 1]);
                if i > 1 {
                    assert(all[i - 1] == rest[i - 2]);
                }
            }
            assert forall|i: int| 0 <= i < all.len() implies {
                let item = #[trigger] all[i];
                &&& headers.dom().contains(item.0)
                &&& headers[item.0] == item.1
                &&& item.1.spec_number() != 0
            } by {
                if i > 0 {
                    assert(all[i] == rest[i - 1]);
                }
            }
        }
    }
}

/// Asking the walk for fewer items gives a prefix of what asking for more
/// gives.
pub proof fn law_ancestry_prefix<H: Header>(
    headers: Map<BlockHash, H>,
    hash: BlockHash,
    fewer: nat,
    more: nat,
)
    requires
        fewer <= more,
    ensures
        ancestors(headers, hash, fewer).is_prefix_of(ancestors(headers, hash, more)),
    decreases fewer,
{
    if fewer > 0 {
        if let Some((found, parent)) = walk_step(headers, hash) {
            let next = parent.spec_parent_hash();
            law_ancestry_prefix(headers, next, (fewer - 1) as nat, (more - 1) as nat);
            let short = ancestors(headers, next, (fewer - 1) as nat);
            let long = ancestors(headers, next, (more - 1) as nat);
            assert(ancestors(headers, hash, fewer) == seq![(found, parent)] + short);
            assert(ancestors(headers, hash, more) == seq![(found, parent)] + long);
            assert((seq![(found, parent)] + short) =~= (seq![(found, parent)] + long).subrange(
                0,
                short.len() + 1int,
            ));
        }
    }
}

/// With a pruning bound, finalization keeps exactly the stored headers whose
/// own number is at least the bound, unchanged, and exactly the lists of
/// hashes at numbers at least the bound, unchanged, whatever block is being
/// finalized and whatever block was finalized before; it records the given
/// block as finalized and leaves the best block alone.
pub proof fn law_finalize_with_bound_prunes_exactly_below_it<H: Header>(
    state: ChainState<H>,
    finalized: Option<(BlockNumber, BlockHash)>,
    end: BlockNumber,
    hash: BlockHash,
    number: BlockNumber,
)
    ensures
        state.finalize_headers(finalized, Some(end)).headers.dom().contains(hash) <==> (
        state.headers.dom().contains(hash) && state.headers[hash].spec_number() >= end),
        state.finalize_headers(finalized, Some(end)).headers.dom().contains(hash) ==> state.finalize_headers(
            finalized,
            Some(end),
        ).headers[hash] == state.headers[hash],
        state.finalize_headers(finalized, Some(end)).headers_by_number.dom().contains(number) <==> (
        state.headers_by_number.dom().contains(number) && number >= end),
        state.finalize_headers(finalized, Some(end)).headers_by_number.dom().contains(number)
            ==> state.finalize_headers(finalized, Some(end)).headers_by_number[number]
            == state.headers_by_number[number],
        state.finalize_headers(finalized, Some(end)).finalized_block == (match finalized {
            Some(block) => block,
            None => state.finalized_block,
        }),
        state.finalize_headers(finalized, Some(end)).best_block == state.best_block,
{
}

/// Inserting a header gives a list of hashes to exactly one more number, the
/// inserted one (if it had none), lists its hash last there, stores the
/// header under exactly one more hash, and changes no other list or header.
pub proof fn law_insert_lists_exactly_the_inserted_number<H>(
    state: ChainState<H>,
    is_best: bool,
    number: BlockNumber,
    hash: BlockHash,
    header: H,
    other_number: BlockNumber,
    other_hash: BlockHash,
)
    ensures
        state.insert_header(is_best, number, hash, header).headers_by_number.dom()
            == state.headers_by_number.dom().insert(number),
        state.insert_header(is_best, number, hash, header).headers_by_number[number] == (if state.headers_by_number.dom().contains(number) {
            state.headers_by_number[number]
        } else {
            Seq::<BlockHash>::empty()
        }).push(hash),
        other_number != number && state.headers_by_number.dom().contains(other_number)
            ==> state.insert_header(is_best, number, hash, header).headers_by_number[other_number]
            == state.headers_by_number[other_number],
        state.insert_header(is_best, number, hash, header).headers.dom() == state.headers.dom().insert(hash),
        state.insert_header(is_best, number, hash, header).headers[hash] == header,
        other_hash != hash && state.headers.dom().contains(other_hash) ==> state.insert_header(
            is_best,
            number,
            hash,
            header,
        ).headers[other_hash] == state.headers[other_hash],
{
}

/// Genesis stores exactly the initial header, under its hash, and lists
/// exactly its hash, at its number and nowhere else; that block is both the
/// best and the finalized block.
pub proof fn law_genesis_holds_exactly_the_initial_header<H: Header>(
    initial_header: H,
    number: BlockNumber,
    hash: BlockHash,
)
    ensures
        ChainState::genesis(initial_header).headers.dom() == set![initial_header.spec_hash()],
        ChainState::genesis(initial_header).headers[initial_header.spec_hash()] == initial_header,
        ChainState::genesis(initial_header).headers_by_number.dom() == set![
            initial_header.spec_number(),
        ],
        ChainState::genesis(initial_header).hashes_at(number) == (if number
            == initial_header.spec_number() {
            seq![initial_header.spec_hash()]
        } else {
            Seq::<BlockHash>::empty()
        }),
        ChainState::genesis(initial_header).best_block == (
            initial_header.spec_number(),
            initial_header.spec_hash(),
        ),
        ChainState::genesis(initial_header).finalized_block == (
            initial_header.spec_number(),
            initial_header.spec_hash(),
        ),
{
    assert(ChainState::genesis(initial_header).headers.dom() =~= set![initial_header.spec_hash()]);
    assert(ChainState::genesis(initial_header).headers_by_number.dom() =~= set![
        initial_header.spec_number(),
    ]);
}

} // verus!
