use headerchain::storage::{ancestry, import_report, BridgeStorage, Configuration, ImportReport, Module, Trait};
use headerchain::traits::{BlockHash, Header, HeaderChain, OnHeadersSubmitted, Storage};
use headerchain::vec_map::{KeyEq, VecMap};

#[derive(Clone, Debug, PartialEq)]
struct TestHeader {
    number: u64,
    parent: BlockHash,
    hash: BlockHash,
}

impl Header for TestHeader {
    fn spec_hash(&self) -> BlockHash {
        self.hash
    }

    fn spec_number(&self) -> u64 {
        self.number
    }

    fn spec_parent_hash(&self) -> BlockHash {
        self.parent
    }

    fn compute_hash(&self) -> BlockHash {
        self.hash
    }

    fn number(&self) -> u64 {
        self.number
    }

    fn parent_hash(&self) -> BlockHash {
        self.parent
    }
}

struct TestChain;

impl HeaderChain for TestChain {
    type Header = TestHeader;
    type HeaderAuxiliaryData = ();
    type Event = ();
    type EventProofData = ();
    type Transaction = ();
    type TransactionProofData = ();
}

struct TestRuntime;

impl Trait for TestRuntime {
    type BridgeTypes = TestChain;
    type AccountId = u64;
    type OnHeadersSubmitted = ();
}

struct PanicOnInvalid;

impl OnHeadersSubmitted<u64> for PanicOnInvalid {
    fn on_valid_headers_submitted(submitter: u64, useful: u64, useless: u64) {
        assert_eq!((submitter, useful, useless), (7, 3, 1));
    }

    fn on_invalid_headers_submitted(_submitter: u64) {
        panic!("invalid headers reported");
    }
}

struct StrictRuntime;

impl Trait for StrictRuntime {
    type BridgeTypes = TestChain;
    type AccountId = u64;
    type OnHeadersSubmitted = PanicOnInvalid;
}

fn hash_of(n: u8) -> BlockHash {
    let mut hash = [0u8; 32];
    hash[0] = n;
    hash[31] = 0xAA;
    hash
}

fn header(number: u64, parent: u8, hash: u8) -> TestHeader {
    TestHeader { number, parent: hash_of(parent), hash: hash_of(hash) }
}

/// A storage whose genesis header is block 0 and which holds blocks 1..=5
/// on a single chain, block `n` having hash `hash_of(n)`.
fn chain_of_five() -> BridgeStorage<TestChain> {
    let mut storage = BridgeStorage::<TestChain>::genesis(header(0, 200, 0));
    for n in 1..=5u8 {
        storage.insert_header(true, n as u64, hash_of(n), header(n as u64, n - 1, n));
    }
    storage
}

#[test]
fn genesis_sets_best_finalized_and_oldest_block() {
    let storage = BridgeStorage::<TestChain>::genesis(header(10, 9, 10));
    assert_eq!(storage.best_block(), (10, hash_of(10)));
    assert_eq!(storage.finalized_block(), (10, hash_of(10)));
    assert_eq!(storage.oldest_unpruned_block(), 10);
    assert_eq!(storage.header(&hash_of(10)), Some(&header(10, 9, 10)));
    assert_eq!(storage.headers_at(10), Some(&vec![hash_of(10)]));
    assert_eq!(storage.headers_at(9), None);
}

#[test]
fn default_storage_is_empty() {
    let storage = BridgeStorage::<TestChain>::default();
    assert_eq!(storage.best_block(), (0, [0u8; 32]));
    assert_eq!(storage.finalized_block(), (0, [0u8; 32]));
    assert_eq!(storage.oldest_unpruned_block(), 0);
    assert_eq!(storage.header(&[0u8; 32]), None);
    assert_eq!(storage.headers_at(0), None);
}

#[test]
fn module_best_block_follows_storage() {
    let mut module = Module::<TestRuntime>::genesis(header(0, 200, 0));
    assert_eq!(module.best_block(), (0, hash_of(0)));
    module.storage.insert_header(true, 1, hash_of(1), header(1, 0, 1));
    assert_eq!(module.best_block(), (1, hash_of(1)));
    module.storage.insert_header(false, 2, hash_of(2), header(2, 1, 2));
    assert_eq!(module.best_block(), (1, hash_of(1)));
}

#[test]
fn insert_header_is_read_back() {
    let mut storage = BridgeStorage::<TestChain>::genesis(header(0, 200, 0));
    storage.insert_header(false, 1, hash_of(1), header(1, 0, 1));
    assert_eq!(storage.header(&hash_of(1)), Some(&header(1, 0, 1)));
    assert_eq!(storage.header(&hash_of(0)), Some(&header(0, 200, 0)));
    assert_eq!(storage.header(&hash_of(2)), None);
    assert_eq!(storage.best_block(), (0, hash_of(0)));
    assert_eq!(storage.finalized_block(), (0, hash_of(0)));
}

#[test]
fn insert_header_appends_to_hashes_at_number() {
    let mut storage = BridgeStorage::<TestChain>::genesis(header(0, 200, 0));
    storage.insert_header(true, 1, hash_of(1), header(1, 0, 1));
    storage.insert_header(false, 1, hash_of(11), header(1, 0, 11));
    assert_eq!(storage.headers_at(1), Some(&vec![hash_of(1), hash_of(11)]));
    assert_eq!(storage.headers_at(0), Some(&vec![hash_of(0)]));
    assert_eq!(storage.best_block(), (1, hash_of(1)));
}

#[test]
fn insert_header_replaces_header_under_same_hash() {
    let mut storage = BridgeStorage::<TestChain>::genesis(header(0, 200, 0));
    storage.insert_header(false, 1, hash_of(1), header(1, 0, 1));
    storage.insert_header(false, 1, hash_of(1), header(1, 50, 1));
    assert_eq!(storage.header(&hash_of(1)), Some(&header(1, 50, 1)));
    assert_eq!(storage.headers_at(1), Some(&vec![hash_of(1), hash_of(1)]));
}

#[test]
fn finalize_headers_sets_finalized_block_only_when_given() {
    let mut storage = chain_of_five();
    storage.finalize_headers(Some((3, hash_of(3))), None);
    assert_eq!(storage.finalized_block(), (3, hash_of(3)));
    assert_eq!(storage.best_block(), (5, hash_of(5)));
    storage.finalize_headers(None, None);
    assert_eq!(storage.finalized_block(), (3, hash_of(3)));
    for n in 0..=5u8 {
        assert!(storage.header(&hash_of(n)).is_some());
    }
    assert_eq!(storage.oldest_unpruned_block(), 0);
}

#[test]
fn finalize_headers_prunes_below_end() {
    let mut storage = chain_of_five();
    storage.insert_header(false, 2, hash_of(22), header(2, 1, 22));
    storage.finalize_headers(Some((4, hash_of(4))), Some(3));
    assert_eq!(storage.finalized_block(), (4, hash_of(4)));
    assert_eq!(storage.oldest_unpruned_block(), 3);
    for n in 0..3u8 {
        assert_eq!(storage.header(&hash_of(n)), None);
        assert_eq!(storage.headers_at(n as u64), None);
    }
    assert_eq!(storage.header(&hash_of(22)), None);
    for n in 3..=5u8 {
        assert_eq!(storage.header(&hash_of(n)), Some(&header(n as u64, n - 1, n)));
        assert_eq!(storage.headers_at(n as u64), Some(&vec![hash_of(n)]));
    }
    assert_eq!(storage.best_block(), (5, hash_of(5)));
}

#[test]
fn pruning_twice_with_same_bound_changes_nothing_more() {
    let mut storage = chain_of_five();
    storage.finalize_headers(None, Some(2));
    storage.finalize_headers(None, Some(2));
    assert_eq!(storage.header(&hash_of(1)), None);
    assert_eq!(storage.header(&hash_of(2)), Some(&header(2, 1, 2)));
    assert_eq!(storage.oldest_unpruned_block(), 2);
}

#[test]
fn pruning_keeps_header_whose_number_is_not_below_end() {
    let mut storage = chain_of_five();
    storage.insert_header(false, 4, hash_of(1), header(4, 3, 1));
    storage.finalize_headers(None, Some(2));
    assert_eq!(storage.header(&hash_of(1)), Some(&header(4, 3, 1)));
    assert_eq!(storage.header(&hash_of(0)), None);
    assert_eq!(storage.headers_at(1), None);
    assert_eq!(storage.headers_at(4), Some(&vec![hash_of(4), hash_of(1)]));
}

#[test]
fn pruning_removes_header_by_its_own_number() {
    let mut storage = chain_of_five();
    storage.insert_header(false, 7, hash_of(40), header(1, 0, 40));
    storage.finalize_headers(None, Some(2));
    assert_eq!(storage.header(&hash_of(40)), None);
    assert_eq!(storage.headers_at(7), Some(&vec![hash_of(40)]));
    assert_eq!(storage.header(&hash_of(2)), Some(&header(2, 1, 2)));
}

#[test]
fn ancestry_walks_to_genesis_exclusive() {
    let storage = chain_of_five();
    let tip = header(6, 5, 6);
    let mut walk = ancestry(&tip);
    let mut seen = Vec::new();
    while let Some((hash, header)) = walk.next::<TestChain, _>(&storage) {
        assert_eq!(header.compute_hash(), hash);
        seen.push(header.number());
    }
    assert_eq!(seen, vec![5, 4, 3, 2, 1]);
    assert!(walk.next::<TestChain, _>(&storage).is_none());
}

#[test]
fn ancestry_stops_at_missing_header() {
    let mut storage = chain_of_five();
    storage.finalize_headers(None, Some(3));
    let tip = header(6, 5, 6);
    let mut walk = ancestry(&tip);
    let mut seen = Vec::new();
    while let Some((_, header)) = walk.next::<TestChain, _>(&storage) {
        seen.push(header.number());
    }
    assert_eq!(seen, vec![5, 4, 3]);
}

#[test]
fn ancestry_of_unknown_parent_is_empty() {
    let storage = chain_of_five();
    let orphan = header(9, 99, 100);
    let mut walk = ancestry(&orphan);
    assert!(walk.next::<TestChain, _>(&storage).is_none());
}

#[test]
fn import_result_ok_reports_valid() {
    let result: Result<(), &str> = Module::<StrictRuntime>::report_import_result(7, Ok((3, 1)));
    assert_eq!(result, Ok(()));
}

#[test]
fn import_result_error_is_returned() {
    let result: Result<(), &str> = Module::<TestRuntime>::report_import_result(7, Err("bad header"));
    assert_eq!(result, Err("bad header"));
}

#[test]
fn unit_handler_accepts_both_reports() {
    <() as OnHeadersSubmitted<u64>>::on_valid_headers_submitted(1, 2, 3);
    <() as OnHeadersSubmitted<u64>>::on_invalid_headers_submitted(1);
}

#[test]
fn configuration_holds_flags() {
    let config = Configuration { signed_transactions: true, unsigned_transactions: false };
    assert!(config.signed_transactions);
    assert!(!config.unsigned_transactions);
}

#[test]
fn vec_map_insert_get_remove() {
    let mut map: VecMap<u64, &str> = VecMap::new();
    map.insert(1, "one");
    map.insert(2, "two");
    map.insert(1, "uno");
    assert_eq!(map.get(&1), Some(&"uno"));
    assert_eq!(map.get(&2), Some(&"two"));
    assert!(!map.contains_key(&3));
    assert_eq!(map.remove(&1), Some("uno"));
    assert_eq!(map.remove(&1), None);
    let mut keys = map.keys();
    keys.sort();
    assert_eq!(keys, vec![2]);
    map.insert(5, "five");
    map.remove_all(&vec![2, 7]);
    assert_eq!(map.keys(), vec![5]);
}

#[test]
fn hash_key_eq_compares_every_byte() {
    let a = hash_of(1);
    let mut b = hash_of(1);
    assert!(a.key_eq(&b));
    b[31] = 0;
    assert!(!a.key_eq(&b));
    assert!(5u64.key_eq(&5));
    assert!(!5u64.key_eq(&6));
}

#[test]
fn import_report_of_success_carries_counts() {
    let result: Result<(u64, u64), &str> = Ok((3, 1));
    assert_eq!(import_report(&result), ImportReport::Valid { useful: 3, useless: 1 });
}

#[test]
fn import_report_of_failure_is_invalid() {
    let result: Result<(u64, u64), &str> = Err("bad header");
    assert_eq!(import_report(&result), ImportReport::Invalid);
}

fn walk_numbers(storage: &BridgeStorage<TestChain>, from: &TestHeader) -> Vec<u64> {
    let mut walk = ancestry(from);
    let mut seen = Vec::new();
    while let Some((_, header)) = walk.next::<TestChain, _>(storage) {
        seen.push(header.number());
    }
    seen
}

#[test]
fn ancestry_depends_only_on_parent_hash() {
    let storage = chain_of_five();
    let one = header(6, 5, 60);
    let other = header(17, 5, 61);
    assert_eq!(walk_numbers(&storage, &one), walk_numbers(&storage, &other));
}

#[test]
fn ancestry_continues_as_parents_walk() {
    let storage = chain_of_five();
    let tip = header(6, 5, 6);
    let mut walk = ancestry(&tip);
    let (_, parent) = walk.next::<TestChain, _>(&storage).unwrap();
    let parent = parent.clone();
    let mut rest = Vec::new();
    while let Some((_, header)) = walk.next::<TestChain, _>(&storage) {
        rest.push(header.number());
    }
    assert_eq!(rest, walk_numbers(&storage, &parent));
    assert_eq!(rest, vec![4, 3, 2, 1]);
}
