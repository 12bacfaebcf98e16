use ingestion::cache::{cache_entries, MetricsCache};
use ingestion::error::IngestError;
use ingestion::metrics::{Collection, MetricAnswer, MetricQuery, MetricsCollector, MetricsSnapshot};
use ingestion::text::{append_decimal, decimal_text};

/// Runs a collection against `answer` and returns its result with the
/// queries made.
fn collect(
    answer: &dyn Fn(MetricQuery) -> MetricAnswer,
) -> (Result<MetricsSnapshot, IngestError>, Vec<MetricQuery>) {
    let mut asked = Vec::new();
    let mut state = Collection::Pending(MetricsCollector::start());
    loop {
        match state {
            Collection::Pending(collector) => {
                let query = collector.query();
                asked.push(query);
                assert!(asked.len() <= 6);
                state = collector.advance(answer(query));
            }
            Collection::Complete(snapshot) => return (Ok(snapshot), asked),
            Collection::Failed(error) => return (Err(error), asked),
        }
    }
}

fn healthy(query: MetricQuery) -> MetricAnswer {
    match query {
        MetricQuery::BlockHeight => MetricAnswer::Count(840_000),
        MetricQuery::ChainSize => MetricAnswer::Count(623_456_789_012),
        MetricQuery::NetworkHashrate => MetricAnswer::Decimal(String::from("612345678901234500000")),
        MetricQuery::Difficulty => MetricAnswer::Decimal(String::from("83148355189239.77")),
        MetricQuery::MempoolSize => MetricAnswer::Count(15_321),
        MetricQuery::TotalSupply { height } => {
            MetricAnswer::Decimal(format!("supply-at-{}", height))
        }
    }
}

fn sample() -> MetricsSnapshot {
    MetricsSnapshot {
        block_height: 840_000,
        chain_size_bytes: 623_456_789_012,
        network_hashrate: String::from("612345678901234500000"),
        difficulty: String::from("83148355189239.77"),
        mempool_size: 15_321,
        total_supply: String::from("19687500.5"),
    }
}

#[test]
fn collect_makes_six_queries_in_order() {
    let (result, asked) = collect(&healthy);
    assert_eq!(
        asked,
        vec![
            MetricQuery::BlockHeight,
            MetricQuery::ChainSize,
            MetricQuery::NetworkHashrate,
            MetricQuery::Difficulty,
            MetricQuery::MempoolSize,
            MetricQuery::TotalSupply { height: 840_000 },
        ]
    );
    assert_eq!(
        result,
        Ok(MetricsSnapshot {
            block_height: 840_000,
            chain_size_bytes: 623_456_789_012,
            network_hashrate: String::from("612345678901234500000"),
            difficulty: String::from("83148355189239.77"),
            mempool_size: 15_321,
            total_supply: String::from("supply-at-840000"),
        })
    );
}

#[test]
fn collect_fails_at_the_difficulty_and_asks_no_more() {
    let (result, asked) = collect(&|query| match query {
        MetricQuery::Difficulty => MetricAnswer::Unavailable,
        other => healthy(other),
    });
    assert_eq!(result, Err(IngestError::UpstreamUnavailable));
    assert_eq!(asked.len(), 4);
    assert_eq!(asked[3], MetricQuery::Difficulty);
}

#[test]
fn collect_fails_whichever_query_fails() {
    for broken in 0..6usize {
        let (result, asked) = collect(&|query| {
            let position = match query {
                MetricQuery::BlockHeight => 0,
                MetricQuery::ChainSize => 1,
                MetricQuery::NetworkHashrate => 2,
                MetricQuery::Difficulty => 3,
                MetricQuery::MempoolSize => 4,
                MetricQuery::TotalSupply { .. } => 5,
            };
            if position == broken {
                MetricAnswer::Unavailable
            } else {
                healthy(query)
            }
        });
        assert_eq!(result, Err(IngestError::UpstreamUnavailable));
        assert_eq!(asked.len(), broken + 1);
    }
}

#[test]
fn collect_fails_on_an_answer_of_the_wrong_kind() {
    let (result, asked) = collect(&|query| match query {
        MetricQuery::ChainSize => MetricAnswer::Decimal(String::from("623456789012")),
        other => healthy(other),
    });
    assert_eq!(result, Err(IngestError::UpstreamUnavailable));
    assert_eq!(asked.len(), 2);

    let (result, asked) = collect(&|query| match query {
        MetricQuery::TotalSupply { .. } => MetricAnswer::Count(19),
        other => healthy(other),
    });
    assert_eq!(result, Err(IngestError::UpstreamUnavailable));
    assert_eq!(asked.len(), 6);
}

#[test]
fn collect_asks_the_supply_as_of_the_height_answered() {
    let (_, asked) = collect(&|query| match query {
        MetricQuery::BlockHeight => MetricAnswer::Count(7),
        other => healthy(other),
    });
    assert_eq!(asked[5], MetricQuery::TotalSupply { height: 7 });
}

#[test]
fn snapshot_clone_keeps_every_field() {
    let snapshot = sample();
    assert_eq!(snapshot.clone(), snapshot);
}

#[test]
fn decimal_text_of_numbers() {
    assert_eq!(decimal_text(0), "0");
    assert_eq!(decimal_text(7), "7");
    assert_eq!(decimal_text(10), "10");
    assert_eq!(decimal_text(907), "907");
    assert_eq!(decimal_text(1_000_000), "1000000");
    assert_eq!(decimal_text(u64::MAX), "18446744073709551615");
    for n in [1u64, 9, 11, 99, 100, 101, 65_535, 4_294_967_296] {
        assert_eq!(decimal_text(n), n.to_string());
    }
}

#[test]
fn append_decimal_keeps_what_is_there() {
    let mut text = String::from("port ");
    append_decimal(&mut text, 6379);
    assert_eq!(text, "port 6379");
    append_decimal(&mut text, 0);
    assert_eq!(text, "port 63790");
}

#[test]
fn cache_entries_are_the_six_keys_with_decimal_values() {
    let entries = cache_entries(&sample());
    let expected = vec![
        ("block_height", "840000"),
        ("blockchain_size", "623456789012"),
        ("network_hashrate", "612345678901234500000"),
        ("difficulty", "83148355189239.77"),
        ("mempool_size", "15321"),
        ("total_supply", "19687500.5"),
    ];
    assert_eq!(entries.len(), 6);
    for (entry, (key, value)) in entries.iter().zip(expected) {
        assert_eq!(entry.0, key);
        assert_eq!(entry.1, value);
    }
}

#[test]
fn publish_makes_all_six_keys_visible() {
    let mut cache = MetricsCache::new();
    for key in ["block_height", "blockchain_size", "network_hashrate", "difficulty", "mempool_size", "total_supply"] {
        assert_eq!(cache.get(key), None);
    }
    assert_eq!(cache.publish(&sample()), Ok(()));
    assert_eq!(cache.get("block_height"), Some(String::from("840000")));
    assert_eq!(cache.get("blockchain_size"), Some(String::from("623456789012")));
    assert_eq!(cache.get("network_hashrate"), Some(String::from("612345678901234500000")));
    assert_eq!(cache.get("difficulty"), Some(String::from("83148355189239.77")));
    assert_eq!(cache.get("mempool_size"), Some(String::from("15321")));
    assert_eq!(cache.get("total_supply"), Some(String::from("19687500.5")));
    assert_eq!(cache.get("chain_size_bytes"), None);
    assert_eq!(cache.get(""), None);
}

#[test]
fn publish_replaces_the_values_of_the_snapshot_before() {
    let mut cache = MetricsCache::new();
    assert_eq!(cache.publish(&sample()), Ok(()));
    let later = MetricsSnapshot {
        block_height: 840_001,
        chain_size_bytes: 623_458_000_000,
        network_hashrate: String::from("6.2e20"),
        difficulty: String::from("83148355189240"),
        mempool_size: 0,
        total_supply: String::from("19687503.625"),
    };
    assert_eq!(cache.publish(&later), Ok(()));
    for (key, value) in cache_entries(&later) {
        assert_eq!(cache.get(&key), Some(value));
    }
    assert_eq!(cache.get("mempool_size"), Some(String::from("0")));
}

#[test]
fn publish_twice_is_publish_once() {
    let mut once = MetricsCache::new();
    assert_eq!(once.publish(&sample()), Ok(()));
    let mut twice = MetricsCache::new();
    assert_eq!(twice.publish(&sample()), Ok(()));
    assert_eq!(twice.publish(&sample()), Ok(()));
    for (key, _) in cache_entries(&sample()) {
        assert_eq!(twice.get(&key), once.get(&key));
    }
}

#[test]
fn publish_out_of_reach_fails_and_leaves_every_key_as_it_was() {
    let mut cache = MetricsCache::new();
    assert!(cache.is_reachable());
    assert_eq!(cache.publish(&sample()), Ok(()));

    cache.set_reachable(false);
    let later = MetricsSnapshot {
        block_height: 1,
        chain_size_bytes: 2,
        network_hashrate: String::from("3"),
        difficulty: String::from("4"),
        mempool_size: 5,
        total_supply: String::from("6"),
    };
    assert_eq!(cache.publish(&later), Err(IngestError::PersistenceError));
    for (key, value) in cache_entries(&sample()) {
        assert_eq!(cache.get(&key), Some(value));
    }

    let mut empty = MetricsCache::new();
    empty.set_reachable(false);
    assert_eq!(empty.publish(&later), Err(IngestError::PersistenceError));
    for (key, _) in cache_entries(&later) {
        assert_eq!(empty.get(&key), None);
    }
}
