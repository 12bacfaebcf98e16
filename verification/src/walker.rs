//! The backward walk over the chain: from the tip, follow predecessor links
//! until the window is full or the genesis block is reached.
//!
//! Fetching a block is the caller's work. A [`ChainWalker`] says which block
//! to fetch, takes the node's reply, and decides how the walk goes on.

use crate::block::{row_of, rows, BlockHeader, BlockInfo, BlockRow};
use crate::error::IngestError;
use crate::store::{distinct_positions, within_window};
use vstd::prelude::*;

verus! {

/// What came back from asking the node for one block.
#[derive(Clone, Copy, Debug)]
pub enum Reply {
    /// The node answered with this block.
    Block(BlockHeader),
    /// The query failed.
    Unavailable,
}

/// A walk that waits for a block: it holds the rows taken so far and knows
/// which block comes next. It always has room for at least one more row.
pub struct ChainWalker {
    window: usize,
    next: [u8; 32],
    blocks: Vec<BlockInfo>,
}

/// Where a walk stands.
pub enum Walk {
    /// A block has to be fetched before the walk can go on.
    Pending(ChainWalker),
    /// The walk is over: these are its rows, the tip first.
    Finished(Vec<BlockInfo>),
    /// A fetch failed; nothing is reported.
    Failed(IngestError),
}

/// The mathematical content of a [`ChainWalker`].
pub struct WalkerView {
    /// The most rows that the walk may take.
    pub window: nat,
    /// The hash of the block to fetch next.
    pub next: [u8; 32],
    /// The rows taken so far, the tip first.
    pub rows: Seq<BlockRow>,
}

/// The mathematical content of a [`Walk`].
pub enum WalkView {
    Pending(WalkerView),
    Finished(Seq<BlockRow>),
    Failed(IngestError),
}

/// The state in which a walk from `tip` over at most `window` blocks begins.
pub open spec fn begin(tip: [u8; 32], window: nat) -> WalkView {
    if window == 0 {
        WalkView::Finished(Seq::empty())
    } else {
        WalkView::Pending(WalkerView { window, next: tip, rows: Seq::empty() })
    }
}

/// How a waiting walk goes on once the node has replied. A failed fetch
/// fails the walk. A block becomes the next row; the walk then ends if the
/// block has no predecessor or the window is full, and asks for the
/// predecessor otherwise.
pub open spec fn step(walker: WalkerView, reply: Reply) -> WalkView {
    match reply {
        Reply::Unavailable => WalkView::Failed(IngestError::UpstreamUnavailable),
        Reply::Block(header) => {
            let taken = walker.rows.push(row_of(walker.rows.len() + 1, header));
            match header.previous {
                Some(parent) if taken.len() < walker.window => WalkView::Pending(
                    WalkerView { window: walker.window, next: parent, rows: taken },
                ),
                _ => WalkView::Finished(taken),
            }
        },
    }
}

/// The walk as a whole, against a node that answers a request for the block
/// with hash `h` by `node(h)`: the walk is moved on by the node's replies,
/// at most `fuel` times.
pub open spec fn run(node: spec_fn([u8; 32]) -> Reply, walk: WalkView, fuel: nat) -> WalkView
    decreases fuel,
{
    match walk {
        WalkView::Pending(walker) if fuel > 0 => run(
            node,
            step(walker, node(walker.next)),
            (fuel - 1) as nat,
        ),
        _ => walk,
    }
}

/// The result of walking from `tip` over at most `window` blocks of `node`.
pub open spec fn walk(node: spec_fn([u8; 32]) -> Reply, tip: [u8; 32], window: nat) -> WalkView {
    run(node, begin(tip, window), window)
}

/// The blocks that `node` shows from the block with hash `from` backward
/// along predecessor links: at most `limit` of them, ending early at a block
/// without predecessor or before a block that the node fails to give.
pub open spec fn visited(node: spec_fn([u8; 32]) -> Reply, from: [u8; 32], limit: nat) -> Seq<
    BlockHeader,
>
    decreases limit,
{
    if limit == 0 {
        Seq::empty()
    } else {
        match node(from) {
            Reply::Unavailable => Seq::empty(),
            Reply::Block(header) => match header.previous {
                None => seq![header],
                Some(parent) => seq![header] + visited(node, parent, (limit - 1) as nat),
            },
        }
    }
}

/// Whether `blocks`, visited with room for `limit` of them, are all that a
/// walk needs: the last one fills the window or has no predecessor.
pub open spec fn complete(blocks: Seq<BlockHeader>, limit: nat) -> bool {
    blocks.len() > 0 && (blocks.len() == limit || blocks.last().previous is None)
}

/// The rows for `blocks` at the positions after `base`.
pub open spec fn numbered(blocks: Seq<BlockHeader>, base: nat) -> Seq<BlockRow> {
    Seq::new(blocks.len(), |i: int| row_of((base + i + 1) as nat, blocks[i]))
}

/// Whether `node` answers every request with the block that was asked for.
pub open spec fn faithful(node: spec_fn([u8; 32]) -> Reply) -> bool {
    forall|hash: [u8; 32]| #[trigger] node(hash) matches Reply::Block(header) ==> header.hash == hash
}

/// No more blocks are visited than the limit allows.
pub proof fn lemma_visited_within_limit(node: spec_fn([u8; 32]) -> Reply, from: [u8; 32], limit: nat)
    ensures
        visited(node, from, limit).len() <= limit,
    decreases limit,
{
    if limit > 0 {
        if let Reply::Block(header) = node(from) {
            if let Some(parent) = header.previous {
                lemma_visited_within_limit(node, parent, (limit - 1) as nat);
            }
        }
    }
}

/// The visited blocks hang together: the first is the node's answer for
/// `from`, each later one is the node's answer for the predecessor that the
/// block before it names, and only the last one can lack a predecessor.
pub proof fn lemma_visited_linked(node: spec_fn([u8; 32]) -> Reply, from: [u8; 32], limit: nat)
    ensures
        visited(node, from, limit).len() > 0 ==> node(from) == Reply::Block(
            visited(node, from, limit)[0],
        ),
        forall|i: int|
            #![trigger visited(node, from, limit)[i]]
            0 <= i < visited(node, from, limit).len() - 1 ==> {
                let here = visited(node, from, limit)[i];
                let there = visited(node, from, limit)[i + 1];
                here.previous matches Some(parent) && node(parent) == Reply::Block(there)
            },
    decreases limit,
{
    if limit > 0 {
        if let Reply::Block(header) = node(from) {
            if let Some(parent) = header.previous {
                let rest = visited(node, parent, (limit - 1) as nat);
                let all = visited(node, from, limit);
                lemma_visited_linked(node, parent, (limit - 1) as nat);
                assert(all == seq![header] + rest);
                assert forall|i: int| 0 <= i < all.len() - 1 implies {
                    let here = #[trigger] all[i];
                    let there = all[i + 1];
                    here.previous matches Some(parent) && node(parent) == Reply::Block(there)
                } by {
                    if i > 0 {
                        assert(all[i] == rest[i - 1]);
                        assert(all[i + 1] == rest[i]);
                    } else {
                        assert(all[1] == rest[0]);
                    }
                }
            }
        }
    }
}

/// A waiting walk with room for `fuel` more rows ends with the rows for the
/// blocks visited from its next block, after those it has, if the visit is
/// complete, and fails otherwise.
proof fn lemma_run_from(node: spec_fn([u8; 32]) -> Reply, walker: WalkerView, fuel: nat)
    requires
        fuel >= 1,
        walker.rows.len() + fuel == walker.window,
    ensures
        run(node, WalkView::Pending(walker), fuel) == ({
            let blocks = visited(node, walker.next, fuel);
            if complete(blocks, fuel) {
                WalkView::Finished(walker.rows + numbered(blocks, walker.rows.len()))
            } else {
                WalkView::Failed(IngestError::UpstreamUnavailable)
            }
        }),
    decreases fuel,
{
    let base = walker.rows.len();
    let blocks = visited(node, walker.next, fuel);
    match node(walker.next) {
        Reply::Unavailable => {
            assert(run(node, WalkView::Failed(IngestError::UpstreamUnavailable), (fuel - 1) as nat)
                == WalkView::Failed(IngestError::UpstreamUnavailable));
        },
        Reply::Block(header) => {
            let taken = walker.rows.push(row_of(base + 1, header));
            match header.previous {
                Some(parent) if taken.len() < walker.window => {
                    let onward = WalkerView { window: walker.window, next: parent, rows: taken };
                    let rest = visited(node, parent, (fuel - 1) as nat);
                    lemma_run_from(node, onward, (fuel - 1) as nat);
                    lemma_visited_within_limit(node, parent, (fuel - 1) as nat);
                    assert(blocks == seq![header] + rest);
                    if rest.len() > 0 {
                        assert(blocks.last() == rest.last());
                    }
                    assert(complete(blocks, fuel) == complete(rest, (fuel - 1) as nat));
                    assert(taken + numbered(rest, taken.len()) =~= walker.rows + numbered(
                        blocks,
                        base,
                    ));
                },
                _ => {
                    assert(run(node, WalkView::Finished(taken), (fuel - 1) as nat)
                        == WalkView::Finished(taken));
                    if header.previous is Some {
                        assert(fuel == 1);
                        assert(visited(node, header.previous->0, 0) =~= Seq::empty());
                    }
                    assert(blocks =~= seq![header]);
                    assert(taken =~= walker.rows + numbered(blocks, base));
                },
            }
        },
    }
}

/// What a walk returns, in closed form: the rows of the blocks visited from
/// the tip, numbered from 1, if the visit is complete; a failure if a fetch
/// fails before the window is full or the genesis block is reached.
pub proof fn lemma_walk_result(node: spec_fn([u8; 32]) -> Reply, tip: [u8; 32], window: nat)
    ensures
        walk(node, tip, window) == (if window == 0 {
            WalkView::Finished(Seq::empty())
        } else if complete(visited(node, tip, window), window) {
            WalkView::Finished(numbered(visited(node, tip, window), 0))
        } else {
            WalkView::Failed(IngestError::UpstreamUnavailable)
        }),
{
    if window > 0 {
        let walker = WalkerView { window, next: tip, rows: Seq::empty() };
        lemma_run_from(node, walker, window);
        assert(walker.rows + numbered(visited(node, tip, window), 0) =~= numbered(
            visited(node, tip, window),
            0,
        ));
    }
}

/// For every window of at least one block, a walk that succeeds returns at
/// least one and at most `window` rows, numbered 1, 2, 3 and so on, each the
/// row of the block visited at that position. Of a faithful node, the first
/// block is the tip, and the predecessor that each block names is the hash
/// of the block in the next row.
pub proof fn lemma_walk_window(node: spec_fn([u8; 32]) -> Reply, tip: [u8; 32], window: nat)
    requires
        window >= 1,
    ensures
        walk(node, tip, window) matches WalkView::Finished(taken) ==> {
            let blocks = visited(node, tip, window);
            &&& 1 <= taken.len() <= window
            &&& taken.len() == blocks.len()
            &&& forall|i: int| 0 <= i < taken.len() ==> (#[trigger] taken[i]).id == i + 1
            &&& forall|i: int|
                0 <= i < taken.len() ==> #[trigger] taken[i] == row_of((i + 1) as nat, blocks[i])
            &&& faithful(node) ==> blocks[0].hash == tip
            &&& faithful(node) ==> forall|i: int|
                0 <= i < blocks.len() - 1 ==> (#[trigger] blocks[i]).previous == Some(
                    blocks[i + 1].hash,
                )
        },
        !(walk(node, tip, window) is Pending),
{
    lemma_walk_result(node, tip, window);
    lemma_visited_within_limit(node, tip, window);
    lemma_visited_linked(node, tip, window);
    let blocks = visited(node, tip, window);
    if faithful(node) && complete(blocks, window) {
        assert forall|i: int| 0 <= i < blocks.len() - 1 implies (#[trigger] blocks[i]).previous
            == Some(blocks[i + 1].hash) by {
            let parent = blocks[i].previous->0;
            assert(node(parent) == Reply::Block(blocks[i + 1]));
        }
    }
}

/// Whether every block that `node` shows stands higher than the predecessor
/// that it names, as the blocks of a chain do.
pub open spec fn descending(node: spec_fn([u8; 32]) -> Reply) -> bool {
    forall|hash: [u8; 32], parent: [u8; 32]|
        #![trigger node(hash), node(parent)]
        (node(hash) matches Reply::Block(block) && block.previous == Some(parent) && node(
            parent,
        ) is Block) ==> node(parent)->Block_0.height < node(hash)->Block_0.height
}

/// Along the blocks visited on a chain, the heights fall from each block to
/// the next.
proof fn lemma_visited_heights_fall(
    node: spec_fn([u8; 32]) -> Reply,
    from: [u8; 32],
    limit: nat,
    i: int,
    j: int,
)
    requires
        descending(node),
        0 <= i < j < visited(node, from, limit).len(),
    ensures
        visited(node, from, limit)[j].height < visited(node, from, limit)[i].height,
    decreases j - i,
{
    let blocks = visited(node, from, limit);
    lemma_visited_linked(node, from, limit);
    let asked = if j - 1 == 0 {
        from
    } else {
        blocks[j - 2].previous->0
    };
    assert(node(asked) == Reply::Block(blocks[j - 1])) by {
        if j - 1 > 0 {
            let before = blocks[j - 2];
            assert(before.previous matches Some(parent) && node(parent) == Reply::Block(
                blocks[j - 1],
            ));
        }
    }
    let here = blocks[j - 1];
    assert(here.previous matches Some(parent) && node(parent) == Reply::Block(blocks[j]));
    let parent = here.previous->0;
    assert(node(parent)->Block_0.height < node(asked)->Block_0.height);
    if i < j - 1 {
        lemma_visited_heights_fall(node, from, limit, i, j - 1);
    }
}

/// On a chain shown by a faithful node, no hash occurs twice in a window:
/// the rows of a walk that succeeds differ in their hashes, and the heights
/// fall from each row to the next.
pub proof fn lemma_walk_hashes_distinct(
    node: spec_fn([u8; 32]) -> Reply,
    tip: [u8; 32],
    window: nat,
)
    requires
        faithful(node),
        descending(node),
    ensures
        walk(node, tip, window) matches WalkView::Finished(taken) ==> {
            &&& forall|i: int, j: int|
                0 <= i < j < taken.len() ==> (#[trigger] taken[i]).hash != (
                #[trigger] taken[j]).hash
            &&& forall|i: int, j: int|
                0 <= i < j < taken.len() ==> (#[trigger] taken[j]).height < (
                #[trigger] taken[i]).height
        },
{
    lemma_walk_result(node, tip, window);
    if window > 0 && complete(visited(node, tip, window), window) {
        let blocks = visited(node, tip, window);
        let taken = numbered(blocks, 0);
        lemma_visited_linked(node, tip, window);
        assert forall|i: int, j: int| 0 <= i < j < taken.len() implies (#[trigger] taken[j]).height
            < (#[trigger] taken[i]).height by {
            lemma_visited_heights_fall(node, tip, window, i, j);
        }
        assert forall|i: int, j: int| 0 <= i < j < taken.len() implies (#[trigger] taken[i]).hash
            != (#[trigger] taken[j]).hash by {
            lemma_visited_heights_fall(node, tip, window, i, j);
            if taken[i].hash == taken[j].hash {
                crate::block::lemma_digest_text_injective(blocks[i].hash@, blocks[j].hash@);
                assert(blocks[i].hash =~= blocks[j].hash);
                let asked_i = if i == 0 {
                    tip
                } else {
                    blocks[i - 1].previous->0
                };
                let asked_j = blocks[j - 1].previous->0;
                assert(node(asked_i) == Reply::Block(blocks[i])) by {
                    if i > 0 {
                        let before = blocks[i - 1];
                        assert(before.previous matches Some(parent) && node(parent)
                            == Reply::Block(blocks[i]));
                    }
                }
                assert(node(asked_j) == Reply::Block(blocks[j])) by {
                    let before = blocks[j - 1];
                    assert(before.previous matches Some(parent) && node(parent) == Reply::Block(
                        blocks[j],
                    ));
                }
                assert(asked_i == blocks[i].hash);
                assert(asked_j == blocks[j].hash);
                assert(false);
            }
        }
    }
}

/// The rows of a walk that succeeds fit the table of recent blocks: no two
/// of them share a position, and every position lies within the window.
pub proof fn lemma_walk_rows_fit(node: spec_fn([u8; 32]) -> Reply, tip: [u8; 32], window: nat)
    ensures
        walk(node, tip, window) matches WalkView::Finished(taken) ==> distinct_positions(taken)
            && within_window(taken, window),
{
    lemma_walk_result(node, tip, window);
    lemma_visited_within_limit(node, tip, window);
}

/// Where the node shows a chain of fewer blocks than the window from the tip
/// down to the genesis block, the walk succeeds with exactly the rows of that
/// chain: it is shorter than the window and its last row is the genesis
/// block's. A chain of at least `window` blocks gives its first `window`.
pub proof fn lemma_walk_follows_chain(
    node: spec_fn([u8; 32]) -> Reply,
    tip: [u8; 32],
    window: nat,
    chain: Seq<BlockHeader>,
)
    requires
        window >= 1,
        chain.len() >= 1,
        node(tip) == Reply::Block(chain[0]),
        forall|i: int|
            0 <= i < chain.len() - 1 ==> ((#[trigger] chain[i]).previous matches Some(parent)
                && node(parent) == Reply::Block(chain[i + 1])),
        chain.last().previous is None,
    ensures
        chain.len() < window ==> walk(node, tip, window) == WalkView::Finished(numbered(chain, 0)),
        chain.len() >= window ==> walk(node, tip, window) == WalkView::Finished(
            numbered(chain.take(window as int), 0),
        ),
{
    lemma_walk_result(node, tip, window);
    lemma_visited_along(node, tip, window, chain);
    if chain.len() == window {
        assert(chain.take(window as int) =~= chain);
    }
}

/// Along a chain that the node shows from `from`, the visit takes the blocks
/// of the chain, as many as the limit allows.
proof fn lemma_visited_along(
    node: spec_fn([u8; 32]) -> Reply,
    from: [u8; 32],
    limit: nat,
    chain: Seq<BlockHeader>,
)
    requires
        limit >= 1,
        chain.len() >= 1,
        node(from) == Reply::Block(chain[0]),
        forall|i: int|
            0 <= i < chain.len() - 1 ==> ((#[trigger] chain[i]).previous matches Some(parent)
                && node(parent) == Reply::Block(chain[i + 1])),
        chain.last().previous is None,
    ensures
        chain.len() <= limit ==> visited(node, from, limit) == chain,
        chain.len() > limit ==> visited(node, from, limit) == chain.take(limit as int),
    decreases limit,
{
    let head = chain[0];
    match head.previous {
        None => {
            assert(chain.len() == 1) by {
                if chain.len() > 1 {
                    assert(chain[0].previous is Some);
                }
            }
            assert(visited(node, from, limit) =~= chain);
        },
        Some(parent) => {
            assert(chain.len() > 1);
            let rest = chain.skip(1);
            assert(rest[0] == chain[1]);
            assert(rest.last() == chain.last());
            if limit == 1 {
                assert(visited(node, parent, 0) =~= Seq::empty());
                assert(visited(node, from, limit) =~= chain.take(1));
            } else {
                assert forall|i: int| 0 <= i < rest.len() - 1 implies ((
                #[trigger] rest[i]).previous matches Some(p) && node(p) == Reply::Block(
                    rest[i + 1],
                )) by {
                    assert(rest[i] == chain[i + 1]);
                    assert(rest[i + 1] == chain[i + 2]);
                }
                lemma_visited_along(node, parent, (limit - 1) as nat, rest);
                if chain.len() <= limit {
                    assert(visited(node, from, limit) =~= chain);
                } else {
                    assert(visited(node, from, limit) =~= chain.take(limit as int));
                }
            }
        },
    }
}

impl View for ChainWalker {
    type V = WalkerView;

    closed spec fn view(&self) -> WalkerView {
        WalkerView { window: self.window as nat, next: self.next, rows: rows(self.blocks@) }
    }
}

impl View for Walk {
    type V = WalkView;

    open spec fn view(&self) -> WalkView {
        match self {
            Walk::Pending(walker) => WalkView::Pending(walker@),
            Walk::Finished(blocks) => WalkView::Finished(rows(blocks@)),
            Walk::Failed(error) => WalkView::Failed(*error),
        }
    }
}

impl ChainWalker {
    #[verifier::type_invariant]
    spec fn has_room(self) -> bool {
        self.blocks@.len() < self.window
    }

    /// Begins a walk from `tip` that takes at most `window` blocks. With an
    /// empty window the walk is over before any block is asked for.
    pub fn start(tip: [u8; 32], window: usize) -> (walk: Walk)
        ensures
            walk@ == begin(tip, window as nat),
    {
        let blocks: Vec<BlockInfo> = Vec::new();
        assert(rows(blocks@) =~= Seq::<BlockRow>::empty());
        if window == 0 {
            Walk::Finished(blocks)
        } else {
            Walk::Pending(ChainWalker { window, next: tip, blocks })
        }
    }

    /// The hash of the block that the walk waits for.
    pub fn request(&self) -> (hash: [u8; 32])
        ensures
            hash == self@.next,
    {
        self.next
    }

    /// The most rows that the walk may take.
    pub fn window(&self) -> (window: usize)
        ensures
            window == self@.window,
    {
        self.window
    }

    /// The number of rows taken so far.
    pub fn taken(&self) -> (count: usize)
        ensures
            count == self@.rows.len(),
            count < self@.window,
    {
        proof {
            use_type_invariant(self);
        }
        self.blocks.len()
    }

    /// Takes the node's reply to [`ChainWalker::request`] and moves the walk
    /// on by one block.
    pub fn advance(self, reply: Reply) -> (walk: Walk)
        ensures
            walk@ == step(self@, reply),
    {
        proof {
            use_type_invariant(&self);
        }
        match reply {
            Reply::Unavailable => Walk::Failed(IngestError::UpstreamUnavailable),
            Reply::Block(header) => {
                let ghost before = rows(self.blocks@);
                let window = self.window;
                let mut blocks = self.blocks;
                let id: usize = blocks.len() + 1;
                let row = BlockInfo::from_header(id, &header);
                blocks.push(row);
                assert(rows(blocks@) =~= before.push(row_of(before.len() + 1, header)));
                match header.previous {
                    Some(parent) => {
                        if blocks.len() < window {
                            Walk::Pending(ChainWalker { window, next: parent, blocks })
                        } else {
                            Walk::Finished(blocks)
                        }
                    },
                    None => Walk::Finished(blocks),
                }
            },
        }
    }
}

} // verus!
