use ingestion::block::{BlockHeader, BlockInfo};
use ingestion::error::IngestError;
use ingestion::walker::{ChainWalker, Reply, Walk};

/// A hash that is easy to tell apart: the height in its first eight bytes.
fn hash_at(height: usize) -> [u8; 32] {
    let mut bytes = [0u8; 32];
    bytes[..8].copy_from_slice(&(height as u64).to_le_bytes());
    bytes[31] = 0xee;
    bytes
}

fn root_at(height: usize) -> [u8; 32] {
    let mut bytes = [0x11u8; 32];
    bytes[..8].copy_from_slice(&(height as u64).to_be_bytes());
    bytes
}

/// The block at `height` of a chain whose genesis block is at `lowest`.
fn header_at(height: usize, lowest: usize) -> BlockHeader {
    BlockHeader {
        hash: hash_at(height),
        height,
        time: 1_600_000_000 + 600 * height,
        size: 1_000 + height,
        merkle_root: root_at(height),
        tx_count: height % 7 + 1,
        previous: if height > lowest { Some(hash_at(height - 1)) } else { None },
    }
}

/// A node that knows the blocks from `lowest` to `highest` and fails on the
/// block at `broken`, if there is one.
struct Node {
    lowest: usize,
    highest: usize,
    broken: Option<usize>,
}

impl Node {
    fn fetch(&self, hash: &[u8; 32]) -> Reply {
        let mut height = self.lowest;
        while height <= self.highest {
            if hash_at(height) == *hash {
                if self.broken == Some(height) {
                    return Reply::Unavailable;
                }
                return Reply::Block(header_at(height, self.lowest));
            }
            height += 1;
        }
        Reply::Unavailable
    }
}

/// Runs a walk to its end and returns its result with the hashes asked for.
fn walk(
    node: &Node,
    tip: [u8; 32],
    window: usize,
) -> (Result<Vec<BlockInfo>, IngestError>, Vec<[u8; 32]>) {
    let mut asked = Vec::new();
    let mut state = ChainWalker::start(tip, window);
    loop {
        match state {
            Walk::Pending(walker) => {
                let hash = walker.request();
                asked.push(hash);
                assert!(asked.len() <= window);
                state = walker.advance(node.fetch(&hash));
            }
            Walk::Finished(blocks) => return (Ok(blocks), asked),
            Walk::Failed(error) => return (Err(error), asked),
        }
    }
}

fn text_of(hash: [u8; 32]) -> String {
    let header = BlockHeader {
        hash,
        height: 0,
        time: 0,
        size: 0,
        merkle_root: [0u8; 32],
        tx_count: 0,
        previous: None,
    };
    BlockInfo::from_header(1, &header).hash
}

#[test]
fn walk_of_ten_from_height_100_descends_to_91() {
    let node = Node { lowest: 0, highest: 100, broken: None };
    let (result, asked) = walk(&node, hash_at(100), 10);
    let blocks = result.expect("the walk succeeds");
    assert_eq!(blocks.len(), 10);
    for (i, block) in blocks.iter().enumerate() {
        assert_eq!(block.id, i + 1);
        assert_eq!(block.height, 100 - i);
        assert_eq!(block.hash, text_of(hash_at(100 - i)));
    }
    assert_eq!(asked.len(), 10);
    assert_eq!(asked[0], hash_at(100));
    assert_eq!(asked[9], hash_at(91));
}

#[test]
fn walk_stops_at_genesis_after_three_blocks() {
    let node = Node { lowest: 0, highest: 2, broken: None };
    let (result, asked) = walk(&node, hash_at(2), 10);
    let blocks = result.expect("reaching the genesis block is no error");
    assert_eq!(blocks.len(), 3);
    assert_eq!(blocks[0].height, 2);
    assert_eq!(blocks[1].height, 1);
    assert_eq!(blocks[2].height, 0);
    assert_eq!(blocks[2].id, 3);
    assert_eq!(asked, vec![hash_at(2), hash_at(1), hash_at(0)]);
}

#[test]
fn walk_copies_every_field_of_the_block() {
    let node = Node { lowest: 40, highest: 50, broken: None };
    let (result, _) = walk(&node, hash_at(50), 2);
    let blocks = result.expect("the walk succeeds");
    let second = header_at(49, 40);
    assert_eq!(
        blocks[1],
        BlockInfo {
            id: 2,
            hash: text_of(second.hash),
            height: 49,
            timestamp: 1_600_000_000 + 600 * 49,
            size: 1_049,
            merkle_root: BlockInfo::from_header(9, &second).merkle_root,
            num_transactions: 49 % 7 + 1,
        }
    );
    assert_eq!(
        blocks[1].merkle_root,
        "1111111111111111111111111111111111111111111111113100000000000000"
    );
}

#[test]
fn walk_never_takes_more_than_the_window() {
    let node = Node { lowest: 0, highest: 30, broken: None };
    for window in 1..=12usize {
        let (result, asked) = walk(&node, hash_at(30), window);
        let blocks = result.expect("the walk succeeds");
        assert_eq!(blocks.len(), window);
        assert_eq!(asked.len(), window);
        for (i, block) in blocks.iter().enumerate() {
            assert_eq!(block.id, i + 1);
        }
    }
}

#[test]
fn walk_rows_follow_predecessor_links() {
    let node = Node { lowest: 3, highest: 9, broken: None };
    let (result, _) = walk(&node, hash_at(9), 10);
    let blocks = result.expect("the walk succeeds");
    assert_eq!(blocks.len(), 7);
    for i in 0..blocks.len() - 1 {
        let named = header_at(blocks[i].height, 3).previous.expect("has a predecessor");
        assert_eq!(text_of(named), blocks[i + 1].hash);
    }
    assert_eq!(header_at(blocks[6].height, 3).previous, None);
}

#[test]
fn walk_of_a_chain_as_long_as_the_window_is_full() {
    let node = Node { lowest: 0, highest: 9, broken: None };
    let (result, asked) = walk(&node, hash_at(9), 10);
    let blocks = result.expect("the walk succeeds");
    assert_eq!(blocks.len(), 10);
    assert_eq!(blocks[9].height, 0);
    assert_eq!(asked.len(), 10);
}

#[test]
fn walk_with_window_of_one_takes_the_tip_only() {
    let node = Node { lowest: 0, highest: 5, broken: None };
    let (result, asked) = walk(&node, hash_at(5), 1);
    let blocks = result.expect("the walk succeeds");
    assert_eq!(blocks.len(), 1);
    assert_eq!(blocks[0].id, 1);
    assert_eq!(blocks[0].height, 5);
    assert_eq!(asked, vec![hash_at(5)]);
}

#[test]
fn walk_with_empty_window_asks_for_nothing() {
    match ChainWalker::start(hash_at(5), 0) {
        Walk::Finished(blocks) => assert!(blocks.is_empty()),
        _ => panic!("an empty window has nothing to fetch"),
    }
}

#[test]
fn walk_fails_when_the_tip_cannot_be_fetched() {
    let node = Node { lowest: 0, highest: 20, broken: Some(20) };
    let (result, asked) = walk(&node, hash_at(20), 10);
    assert_eq!(result, Err(IngestError::UpstreamUnavailable));
    assert_eq!(asked.len(), 1);
}

#[test]
fn walk_fails_without_partial_report_when_a_later_fetch_fails() {
    let node = Node { lowest: 0, highest: 20, broken: Some(16) };
    let (result, asked) = walk(&node, hash_at(20), 10);
    assert_eq!(result, Err(IngestError::UpstreamUnavailable));
    assert_eq!(asked.len(), 5);
    assert_eq!(asked[4], hash_at(16));
}

#[test]
fn walk_does_not_fetch_beyond_a_failure_outside_the_window() {
    let node = Node { lowest: 0, highest: 20, broken: Some(10) };
    let (result, asked) = walk(&node, hash_at(20), 10);
    let blocks = result.expect("the broken block lies outside the window");
    assert_eq!(blocks.len(), 10);
    assert_eq!(blocks[9].height, 11);
    assert_eq!(asked.len(), 10);
}

#[test]
fn walker_reports_its_window_and_progress() {
    let node = Node { lowest: 0, highest: 20, broken: None };
    let walker = match ChainWalker::start(hash_at(20), 4) {
        Walk::Pending(walker) => walker,
        _ => panic!("the walk waits for the tip"),
    };
    assert_eq!(walker.window(), 4);
    assert_eq!(walker.taken(), 0);
    assert_eq!(walker.request(), hash_at(20));
    let walker = match walker.advance(node.fetch(&hash_at(20))) {
        Walk::Pending(walker) => walker,
        _ => panic!("the walk waits for the second block"),
    };
    assert_eq!(walker.window(), 4);
    assert_eq!(walker.taken(), 1);
    assert_eq!(walker.request(), hash_at(19));
}

#[test]
fn walk_records_what_the_node_answers() {
    // A node that answers with another block than the one asked for: the row
    // holds the hash that the node reported.
    let walker = match ChainWalker::start(hash_at(7), 3) {
        Walk::Pending(walker) => walker,
        _ => panic!("the walk waits for the tip"),
    };
    let mut other = header_at(99, 0);
    other.previous = None;
    match walker.advance(Reply::Block(other)) {
        Walk::Finished(blocks) => {
            assert_eq!(blocks.len(), 1);
            assert_eq!(blocks[0].hash, text_of(hash_at(99)));
            assert_ne!(blocks[0].hash, text_of(hash_at(7)));
        }
        _ => panic!("a block without predecessor ends the walk"),
    }
}
