//! The snapshot of network metrics: the queries that collect it from the
//! node, one at a time, and the key/value pairs under which it is published.
//!
//! Querying the node is the caller's work. A [`MetricsCollector`] says which
//! query comes next, takes the node's answer, and either goes on, completes
//! the snapshot or gives up: a snapshot is never reported in part.

use crate::error::IngestError;
use vstd::prelude::*;

verus! {

/// One observation of the network's state. The three measures that the node
/// reports as fractions are held as the decimal text that is published.
#[derive(Debug, PartialEq, Eq)]
pub struct MetricsSnapshot {
    /// Height of the chain tip.
    pub block_height: u64,
    /// Size of the chain on the node's disk, in bytes.
    pub chain_size_bytes: u64,
    /// Estimated hashes per second of the whole network.
    pub network_hashrate: String,
    /// Current proof-of-work difficulty.
    pub difficulty: String,
    /// Number of transactions waiting in the node's memory pool.
    pub mempool_size: u64,
    /// Total amount in circulation, from the set of unspent outputs.
    pub total_supply: String,
}

/// The mathematical content of a [`MetricsSnapshot`].
pub struct SnapshotView {
    pub block_height: nat,
    pub chain_size_bytes: nat,
    pub network_hashrate: Seq<char>,
    pub difficulty: Seq<char>,
    pub mempool_size: nat,
    pub total_supply: Seq<char>,
}

impl View for MetricsSnapshot {
    type V = SnapshotView;

    open spec fn view(&self) -> SnapshotView {
        SnapshotView {
            block_height: self.block_height as nat,
            chain_size_bytes: self.chain_size_bytes as nat,
            network_hashrate: self.network_hashrate@,
            difficulty: self.difficulty@,
            mempool_size: self.mempool_size as nat,
            total_supply: self.total_supply@,
        }
    }
}

impl Clone for MetricsSnapshot {
    fn clone(&self) -> (copy: MetricsSnapshot)
        ensures
            copy@ == self@,
    {
        MetricsSnapshot {
            block_height: self.block_height,
            chain_size_bytes: self.chain_size_bytes,
            network_hashrate: self.network_hashrate.clone(),
            difficulty: self.difficulty.clone(),
            mempool_size: self.mempool_size,
            total_supply: self.total_supply.clone(),
        }
    }
}

/// A query to the node for one metric.
#[derive(Clone, Copy, Debug, PartialEq, Eq)]
pub enum MetricQuery {
    /// The height of the chain tip.
    BlockHeight,
    /// The size of the chain on disk.
    ChainSize,
    /// The estimated hash rate of the network.
    NetworkHashrate,
    /// The current difficulty.
    Difficulty,
    /// The number of transactions in the memory pool.
    MempoolSize,
    /// The total amount in the set of unspent outputs as of `height`.
    TotalSupply { height: u64 },
}

/// What came back from one query.
#[derive(Debug, PartialEq, Eq)]
pub enum MetricAnswer {
    /// A whole number.
    Count(u64),
    /// A measure as decimal text.
    Decimal(String),
    /// The query failed.
    Unavailable,
}

/// The mathematical content of a [`MetricAnswer`].
pub enum AnswerView {
    Count(u64),
    Decimal(Seq<char>),
    Unavailable,
}

impl View for MetricAnswer {
    type V = AnswerView;

    open spec fn view(&self) -> AnswerView {
        match self {
            MetricAnswer::Count(n) => AnswerView::Count(*n),
            MetricAnswer::Decimal(text) => AnswerView::Decimal(text@),
            MetricAnswer::Unavailable => AnswerView::Unavailable,
        }
    }
}

/// A collection that waits for an answer: it holds the answers taken so far.
pub struct MetricsCollector {
    taken: u8,
    block_height: u64,
    chain_size_bytes: u64,
    network_hashrate: String,
    difficulty: String,
    mempool_size: u64,
}

/// Where a collection stands.
pub enum Collection {
    /// A query has to be made before the collection can go on.
    Pending(MetricsCollector),
    /// All six metrics were collected.
    Complete(MetricsSnapshot),
    /// A query failed; nothing is reported.
    Failed(IngestError),
}

/// The mathematical content of a [`MetricsCollector`]: the number of answers
/// taken, from none to five, and the metrics that they gave. A metric not
/// yet taken is zero or empty.
pub struct CollectorView {
    pub taken: nat,
    pub block_height: u64,
    pub chain_size_bytes: u64,
    pub network_hashrate: Seq<char>,
    pub difficulty: Seq<char>,
    pub mempool_size: u64,
}

/// The mathematical content of a [`Collection`].
pub enum CollectionView {
    Pending(CollectorView),
    Complete(SnapshotView),
    Failed(IngestError),
}

/// The state in which a collection begins: nothing taken.
pub open spec fn begin() -> CollectorView {
    CollectorView {
        taken: 0,
        block_height: 0,
        chain_size_bytes: 0,
        network_hashrate: Seq::empty(),
        difficulty: Seq::empty(),
        mempool_size: 0,
    }
}

/// The query that a collection makes next. The queries come in a fixed
/// order; the last asks for the supply as of the height that the first gave.
pub open spec fn query_of(collector: CollectorView) -> MetricQuery {
    if collector.taken == 0 {
        MetricQuery::BlockHeight
    } else if collector.taken == 1 {
        MetricQuery::ChainSize
    } else if collector.taken == 2 {
        MetricQuery::NetworkHashrate
    } else if collector.taken == 3 {
        MetricQuery::Difficulty
    } else if collector.taken == 4 {
        MetricQuery::MempoolSize
    } else {
        MetricQuery::TotalSupply { height: collector.block_height }
    }
}

/// How a waiting collection goes on once the node has answered. A failed
/// query fails the collection, and so does an answer that is not of the
/// kind that the query asks for: a count for the height, the chain size and
/// the memory pool, decimal text for the hash rate, the difficulty and the
/// supply. The sixth answer completes the snapshot.
pub open spec fn step(collector: CollectorView, answer: AnswerView) -> CollectionView {
    let failed = CollectionView::Failed(IngestError::UpstreamUnavailable);
    match answer {
        AnswerView::Unavailable => failed,
        AnswerView::Count(n) => {
            if collector.taken == 0 {
                CollectionView::Pending(CollectorView { taken: 1, block_height: n, ..collector })
            } else if collector.taken == 1 {
                CollectionView::Pending(
                    CollectorView { taken: 2, chain_size_bytes: n, ..collector },
                )
            } else if collector.taken == 4 {
                CollectionView::Pending(CollectorView { taken: 5, mempool_size: n, ..collector })
            } else {
                failed
            }
        },
        AnswerView::Decimal(text) => {
            if collector.taken == 2 {
                CollectionView::Pending(
                    CollectorView { taken: 3, network_hashrate: text, ..collector },
                )
            } else if collector.taken == 3 {
                CollectionView::Pending(CollectorView { taken: 4, difficulty: text, ..collector })
            } else if collector.taken == 5 {
                CollectionView::Complete(
                    SnapshotView {
                        block_height: collector.block_height as nat,
                        chain_size_bytes: collector.chain_size_bytes as nat,
                        network_hashrate: collector.network_hashrate,
                        difficulty: collector.difficulty,
                        mempool_size: collector.mempool_size as nat,
                        total_supply: text,
                    },
                )
            } else {
                failed
            }
        },
    }
}

/// The collection as a whole, against a node that answers the query `q` by
/// `node(q)`: the collection is moved on by the node's answers, at most
/// `fuel` times.
pub open spec fn run(
    node: spec_fn(MetricQuery) -> AnswerView,
    collection: CollectionView,
    fuel: nat,
) -> CollectionView
    decreases fuel,
{
    match collection {
        CollectionView::Pending(collector) if fuel > 0 => run(
            node,
            step(collector, node(query_of(collector))),
            (fuel - 1) as nat,
        ),
        _ => collection,
    }
}

/// The result of collecting the six metrics from `node`.
pub open spec fn collect(node: spec_fn(MetricQuery) -> AnswerView) -> CollectionView {
    run(node, CollectionView::Pending(begin()), 6)
}

/// What a collection returns, in closed form. It is the snapshot of the six
/// answers where the node gives a count for the height, the chain size and
/// the memory pool and decimal text for the hash rate, the difficulty and
/// the supply, the supply being asked as of the height that was answered.
/// In every other case it fails, and no snapshot is reported.
pub proof fn lemma_collect_result(node: spec_fn(MetricQuery) -> AnswerView)
    ensures
        collect(node) == (match (
            node(MetricQuery::BlockHeight),
            node(MetricQuery::ChainSize),
            node(MetricQuery::NetworkHashrate),
            node(MetricQuery::Difficulty),
            node(MetricQuery::MempoolSize),
        ) {
            (
                AnswerView::Count(height),
                AnswerView::Count(size),
                AnswerView::Decimal(rate),
                AnswerView::Decimal(difficulty),
                AnswerView::Count(pool),
            ) => match node(MetricQuery::TotalSupply { height }) {
                AnswerView::Decimal(supply) => CollectionView::Complete(
                    SnapshotView {
                        block_height: height as nat,
                        chain_size_bytes: size as nat,
                        network_hashrate: rate,
                        difficulty,
                        mempool_size: pool as nat,
                        total_supply: supply,
                    },
                ),
                _ => CollectionView::Failed(IngestError::UpstreamUnavailable),
            },
            _ => CollectionView::Failed(IngestError::UpstreamUnavailable),
        }),
{
    reveal_with_fuel(run, 7);
}

impl View for MetricsCollector {
    type V = CollectorView;

    closed spec fn view(&self) -> CollectorView {
        CollectorView {
            taken: self.taken as nat,
            block_height: self.block_height,
            chain_size_bytes: self.chain_size_bytes,
            network_hashrate: self.network_hashrate@,
            difficulty: self.difficulty@,
            mempool_size: self.mempool_size,
        }
    }
}

impl View for Collection {
    type V = CollectionView;

    open spec fn view(&self) -> CollectionView {
        match self {
            Collection::Pending(collector) => CollectionView::Pending(collector@),
            Collection::Complete(snapshot) => CollectionView::Complete(snapshot@),
            Collection::Failed(error) => CollectionView::Failed(*error),
        }
    }
}

impl MetricsCollector {
    /// Begins a collection: nothing is taken, the first query is for the
    /// height of the chain tip.
    pub fn start() -> (collector: MetricsCollector)
        ensures
            collector@ == begin(),
    {
        MetricsCollector {
            taken: 0,
            block_height: 0,
            chain_size_bytes: 0,
            network_hashrate: String::new(),
            difficulty: String::new(),
            mempool_size: 0,
        }
    }

    /// The query that the collection waits for.
    pub fn query(&self) -> (query: MetricQuery)
        ensures
            query == query_of(self@),
    {
        if self.taken == 0 {
            MetricQuery::BlockHeight
        } else if self.taken == 1 {
            MetricQuery::ChainSize
        } else if self.taken == 2 {
            MetricQuery::NetworkHashrate
        } else if self.taken == 3 {
            MetricQuery::Difficulty
        } else if self.taken == 4 {
            MetricQuery::MempoolSize
        } else {
            MetricQuery::TotalSupply { height: self.block_height }
        }
    }

    /// Takes the node's answer to [`MetricsCollector::query`] and moves the
    /// collection on by one metric.
    pub fn advance(self, answer: MetricAnswer) -> (collection: Collection)
        ensures
            collection@ == step(self@, answer@),
    {
        let failed = Collection::Failed(IngestError::UpstreamUnavailable);
        match answer {
            MetricAnswer::Unavailable => failed,
            MetricAnswer::Count(n) => {
                if self.taken == 0 {
                    Collection::Pending(MetricsCollector { taken: 1, block_height: n, ..self })
                } else if self.taken == 1 {
                    Collection::Pending(
                        MetricsCollector { taken: 2, chain_size_bytes: n, ..self },
                    )
                } else if self.taken == 4 {
                    Collection::Pending(MetricsCollector { taken: 5, mempool_size: n, ..self })
                } else {
                    failed
                }
            },
            MetricAnswer::Decimal(text) => {
                if self.taken == 2 {
                    Collection::Pending(
                        MetricsCollector { taken: 3, network_hashrate: text, ..self },
                    )
                } else if self.taken == 3 {
                    Collection::Pending(MetricsCollector { taken: 4, difficulty: text, ..self })
                } else if self.taken == 5 {
                    Collection::Complete(
                        MetricsSnapshot {
                            block_height: self.block_height,
                            chain_size_bytes: self.chain_size_bytes,
                            network_hashrate: self.network_hashrate,
                            difficulty: self.difficulty,
                            mempool_size: self.mempool_size,
                            total_supply: text,
                        },
                    )
                } else {
                    failed
                }
            },
        }
    }
}

} // verus!
