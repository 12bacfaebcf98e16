//! The cache of latest metrics: the key/value pairs that publish a snapshot,
//! and what the cache holds after they are written.
//!
//! A snapshot is published by one command that sets all six pairs, so a
//! reader never sees some keys of a newer snapshot beside some of an older.

use crate::error::IngestError;
use crate::metrics::{MetricsSnapshot, SnapshotView};
use crate::text::{decimal, decimal_text};
use vstd::prelude::*;

verus! {

/// The six pairs under which a snapshot is published: the fixed keys, each
/// with its value as decimal text.
pub open spec fn entries_of(snapshot: SnapshotView) -> Seq<(Seq<char>, Seq<char>)> {
    seq![
        ("block_height"@, decimal(snapshot.block_height)),
        ("blockchain_size"@, decimal(snapshot.chain_size_bytes)),
        ("network_hashrate"@, snapshot.network_hashrate),
        ("difficulty"@, snapshot.difficulty),
        ("mempool_size"@, decimal(snapshot.mempool_size)),
        ("total_supply"@, snapshot.total_supply),
    ]
}

/// What a list of pairs of strings stands for.
pub open spec fn pairs(entries: Seq<(String, String)>) -> Seq<(Seq<char>, Seq<char>)> {
    entries.map_values(|e: (String, String)| (e.0@, e.1@))
}

/// The pairs to set, in one command, to publish `snapshot`.
pub fn cache_entries(snapshot: &MetricsSnapshot) -> (entries: Vec<(String, String)>)
    ensures
        pairs(entries@) == entries_of(snapshot@),
{
    let mut entries: Vec<(String, String)> = Vec::new();
    entries.push((String::from_str("block_height"), decimal_text(snapshot.block_height)));
    entries.push((String::from_str("blockchain_size"), decimal_text(snapshot.chain_size_bytes)));
    entries.push((String::from_str("network_hashrate"), snapshot.network_hashrate.clone()));
    entries.push((String::from_str("difficulty"), snapshot.difficulty.clone()));
    entries.push((String::from_str("mempool_size"), decimal_text(snapshot.mempool_size)));
    entries.push((String::from_str("total_supply"), snapshot.total_supply.clone()));
    assert(pairs(entries@) =~= entries_of(snapshot@));
    entries
}

/// What a cache holds after a command has set `entries`: each key holds the
/// value of the last pair that names it, and every other key is untouched.
pub open spec fn written(
    cache: Map<Seq<char>, Seq<char>>,
    entries: Seq<(Seq<char>, Seq<char>)>,
) -> Map<Seq<char>, Seq<char>>
    decreases entries.len(),
{
    if entries.len() == 0 {
        cache
    } else {
        written(cache, entries.drop_last()).insert(entries.last().0, entries.last().1)
    }
}

/// What a cache holds after `snapshot` has been published to it.
pub open spec fn published(cache: Map<Seq<char>, Seq<char>>, snapshot: SnapshotView) -> Map<
    Seq<char>,
    Seq<char>,
> {
    written(cache, entries_of(snapshot))
}

/// Whether `key` is one of the six keys of a snapshot.
pub open spec fn is_metric_key(key: Seq<char>) -> bool {
    ||| key == "block_height"@
    ||| key == "blockchain_size"@
    ||| key == "network_hashrate"@
    ||| key == "difficulty"@
    ||| key == "mempool_size"@
    ||| key == "total_supply"@
}

/// The six keys of a snapshot differ from each other.
pub proof fn lemma_keys_distinct(snapshot: SnapshotView)
    ensures
        entries_of(snapshot).len() == 6,
        forall|i: int, j: int|
            0 <= i < j < 6 ==> (#[trigger] entries_of(snapshot)[i]).0 != (
            #[trigger] entries_of(snapshot)[j]).0,
{
    reveal_strlit("block_height");
    reveal_strlit("blockchain_size");
    reveal_strlit("network_hashrate");
    reveal_strlit("difficulty");
    reveal_strlit("mempool_size");
    reveal_strlit("total_supply");
    let e = entries_of(snapshot);
    assert(e[0].0.len() == 12 && e[0].0[0] == 'b');
    assert(e[1].0.len() == 15);
    assert(e[2].0.len() == 16);
    assert(e[3].0.len() == 10);
    assert(e[4].0.len() == 12 && e[4].0[0] == 'm');
    assert(e[5].0.len() == 12 && e[5].0[0] == 't');
}

/// After one publish, each of the six keys is present and holds the value of
/// the snapshot just published, and every other key holds what it held
/// before.
pub proof fn lemma_published(cache: Map<Seq<char>, Seq<char>>, snapshot: SnapshotView)
    ensures
        forall|i: int|
            #![trigger entries_of(snapshot)[i]]
            0 <= i < 6 ==> {
                let entry = entries_of(snapshot)[i];
                published(cache, snapshot).contains_key(entry.0) && published(
                    cache,
                    snapshot,
                )[entry.0] == entry.1
            },
        forall|key: Seq<char>|
            !is_metric_key(key) ==> {
                &&& #[trigger] published(cache, snapshot).contains_key(key) == cache.contains_key(
                    key,
                )
                &&& published(cache, snapshot)[key] == cache[key]
            },
{
    lemma_keys_distinct(snapshot);
    lemma_published_unfolds(cache, snapshot);
}

/// Publishing sets the six pairs one after the other.
proof fn lemma_published_unfolds(cache: Map<Seq<char>, Seq<char>>, snapshot: SnapshotView)
    ensures
        published(cache, snapshot) == cache.insert(
            "block_height"@,
            decimal(snapshot.block_height),
        ).insert("blockchain_size"@, decimal(snapshot.chain_size_bytes)).insert(
            "network_hashrate"@,
            snapshot.network_hashrate,
        ).insert("difficulty"@, snapshot.difficulty).insert(
            "mempool_size"@,
            decimal(snapshot.mempool_size),
        ).insert("total_supply"@, snapshot.total_supply),
{
    let e6 = entries_of(snapshot);
    let e5 = e6.drop_last();
    let e4 = e5.drop_last();
    let e3 = e4.drop_last();
    let e2 = e3.drop_last();
    let e1 = e2.drop_last();
    let e0 = e1.drop_last();
    assert(e0.len() == 0);
    assert(written(cache, e0) == cache);
    assert(written(cache, e1) == written(cache, e0).insert(e1.last().0, e1.last().1));
    assert(written(cache, e2) == written(cache, e1).insert(e2.last().0, e2.last().1));
    assert(written(cache, e3) == written(cache, e2).insert(e3.last().0, e3.last().1));
    assert(written(cache, e4) == written(cache, e3).insert(e4.last().0, e4.last().1));
    assert(written(cache, e5) == written(cache, e4).insert(e5.last().0, e5.last().1));
    assert(written(cache, e6) == written(cache, e5).insert(e6.last().0, e6.last().1));
}

/// Publishing the same snapshot twice leaves the cache as publishing it once
/// does.
pub proof fn lemma_publish_idempotent(cache: Map<Seq<char>, Seq<char>>, snapshot: SnapshotView)
    ensures
        published(published(cache, snapshot), snapshot) == published(cache, snapshot),
{
    let once = published(cache, snapshot);
    lemma_keys_distinct(snapshot);
    lemma_published_unfolds(cache, snapshot);
    lemma_published_unfolds(once, snapshot);
    assert(published(once, snapshot) =~= once);
}

/// The six keys of the cache that the agent writes, held in memory: a cache
/// for dry runs, which can be made unreachable to see how a cycle copes.
pub struct MetricsCache {
    reachable: bool,
    block_height: Option<String>,
    blockchain_size: Option<String>,
    network_hashrate: Option<String>,
    difficulty: Option<String>,
    mempool_size: Option<String>,
    total_supply: Option<String>,
}

/// The map with `key` bound to the text in `slot`, if there is one.
spec fn bound(
    cache: Map<Seq<char>, Seq<char>>,
    key: Seq<char>,
    slot: Option<String>,
) -> Map<Seq<char>, Seq<char>> {
    match slot {
        Some(text) => cache.insert(key, text@),
        None => cache,
    }
}

impl View for MetricsCache {
    type V = Map<Seq<char>, Seq<char>>;

    closed spec fn view(&self) -> Map<Seq<char>, Seq<char>> {
        bound(
            bound(
                bound(
                    bound(
                        bound(
                            bound(Map::empty(), "block_height"@, self.block_height),
                            "blockchain_size"@,
                            self.blockchain_size,
                        ),
                        "network_hashrate"@,
                        self.network_hashrate,
                    ),
                    "difficulty"@,
                    self.difficulty,
                ),
                "mempool_size"@,
                self.mempool_size,
            ),
            "total_supply"@,
            self.total_supply,
        )
    }
}

impl MetricsCache {
    /// Whether writes reach the cache.
    pub closed spec fn reachable(&self) -> bool {
        self.reachable
    }

    /// A cache in which nothing has been published, within reach.
    pub fn new() -> (cache: MetricsCache)
        ensures
            cache@ == Map::<Seq<char>, Seq<char>>::empty(),
            cache.reachable(),
    {
        MetricsCache {
            reachable: true,
            block_height: None,
            blockchain_size: None,
            network_hashrate: None,
            difficulty: None,
            mempool_size: None,
            total_supply: None,
        }
    }

    /// Puts the cache within or out of reach. Its keys stay as they are.
    pub fn set_reachable(&mut self, reachable: bool)
        ensures
            final(self)@ == old(self)@,
            final(self).reachable() == reachable,
    {
        self.reachable = reachable;
    }

    /// Whether writes reach the cache.
    pub fn is_reachable(&self) -> (reachable: bool)
        ensures
            reachable == self.reachable(),
    {
        self.reachable
    }

    /// Publishes a snapshot: sets all six keys to its values at once. Out of
    /// reach, the cache fails the publish with a persistence error and keeps
    /// every key as it was: no key of the snapshot becomes visible.
    pub fn publish(&mut self, snapshot: &MetricsSnapshot) -> (result: Result<(), IngestError>)
        ensures
            final(self).reachable() == old(self).reachable(),
            match result {
                Ok(()) => old(self).reachable() && final(self)@ == published(
                    old(self)@,
                    snapshot@,
                ),
                Err(error) => !old(self).reachable() && error == IngestError::PersistenceError
                    && final(self)@ == old(self)@,
            },
    {
        if !self.reachable {
            return Err(IngestError::PersistenceError);
        }
        self.block_height = Some(decimal_text(snapshot.block_height));
        self.blockchain_size = Some(decimal_text(snapshot.chain_size_bytes));
        self.network_hashrate = Some(snapshot.network_hashrate.clone());
        self.difficulty = Some(snapshot.difficulty.clone());
        self.mempool_size = Some(decimal_text(snapshot.mempool_size));
        self.total_supply = Some(snapshot.total_supply.clone());
        proof {
            lemma_keys_distinct(snapshot@);
            lemma_published_unfolds(old(self)@, snapshot@);
            assert(self@ =~= published(old(self)@, snapshot@));
        }
        Ok(())
    }

    /// The value that the cache holds under `key`, if any.
    pub fn get(&self, key: &str) -> (value: Option<String>)
        ensures
            match value {
                Some(text) => self@.contains_key(key@) && text@ == self@[key@],
                None => !self@.contains_key(key@),
            },
    {
        proof {
            lemma_keys_distinct(
                SnapshotView {
                    block_height: 0,
                    chain_size_bytes: 0,
                    network_hashrate: Seq::empty(),
                    difficulty: Seq::empty(),
                    mempool_size: 0,
                    total_supply: Seq::empty(),
                },
            );
        }
        let wanted = String::from_str(key);
        let slot = if wanted == String::from_str("block_height") {
            &self.block_height
        } else if wanted == String::from_str("blockchain_size") {
            &self.blockchain_size
        } else if wanted == String::from_str("network_hashrate") {
            &self.network_hashrate
        } else if wanted == String::from_str("difficulty") {
            &self.difficulty
        } else if wanted == String::from_str("mempool_size") {
            &self.mempool_size
        } else if wanted == String::from_str("total_supply") {
            &self.total_supply
        } else {
            return None;
        };
        match slot {
            Some(text) => Some(text.clone()),
            None => None,
        }
    }
}

} // verus!
