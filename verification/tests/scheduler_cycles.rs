use ingestion::block::BlockInfo;
use ingestion::cache::MetricsCache;
use ingestion::error::IngestError;
use ingestion::metrics::{Collection, MetricAnswer, MetricQuery, MetricsCollector, MetricsSnapshot};
use ingestion::scheduler::{
    CycleReport, Directive, Event, IngestionScheduler, Phase, StageOutcome, DEFAULT_INTERVAL_SECONDS,
    DEFAULT_WINDOW,
};
use ingestion::store::BlockStore;

fn rows(tip: usize, count: usize) -> Vec<BlockInfo> {
    (0..count)
        .map(|i| BlockInfo {
            id: i + 1,
            hash: format!("hash-{}", tip - i),
            height: tip - i,
            timestamp: 1_700_000_000 + (tip - i),
            size: 1_000,
            merkle_root: format!("root-{}", tip - i),
            num_transactions: 3,
        })
        .collect()
}

fn snapshot() -> MetricsSnapshot {
    MetricsSnapshot {
        block_height: 100,
        chain_size_bytes: 5_000_000,
        network_hashrate: String::from("1234.5"),
        difficulty: String::from("17.25"),
        mempool_size: 42,
        total_supply: String::from("5000"),
    }
}

fn blank() -> CycleReport {
    CycleReport {
        connect: StageOutcome::NotRun,
        walk: StageOutcome::NotRun,
        collect: StageOutcome::NotRun,
        store: StageOutcome::NotRun,
        publish: StageOutcome::NotRun,
    }
}

/// A scheduler that has begun a cycle and waits for the connections.
fn connecting() -> IngestionScheduler {
    let scheduler = IngestionScheduler::with_defaults();
    assert_eq!(scheduler.phase(), Phase::Idle);
    assert_eq!(scheduler.directive(), Directive::BeginCycle);
    let scheduler = scheduler.handle(Event::Begun);
    assert_eq!(scheduler.phase(), Phase::Connecting);
    assert_eq!(scheduler.directive(), Directive::Connect);
    scheduler
}

#[test]
fn scheduler_defaults_are_ten_blocks_and_five_seconds() {
    assert_eq!(DEFAULT_WINDOW, 10);
    assert_eq!(DEFAULT_INTERVAL_SECONDS, 5);
    let scheduler = connecting().handle(Event::Connected);
    assert_eq!(scheduler.directive(), Directive::Walk { window: 10 });
    let scheduler = scheduler.handle(Event::WalkFailed).handle(Event::CollectFailed);
    assert_eq!(scheduler.directive(), Directive::Sleep { seconds: 5 });
}

#[test]
fn scheduler_uses_the_window_and_interval_it_was_given() {
    let scheduler = IngestionScheduler::new(3, 60)
        .handle(Event::Begun)
        .handle(Event::Connected);
    assert_eq!(scheduler.directive(), Directive::Walk { window: 3 });
    let scheduler = scheduler.handle(Event::WalkFailed).handle(Event::CollectFailed);
    assert_eq!(scheduler.directive(), Directive::Sleep { seconds: 60 });
}

#[test]
fn cycle_in_which_everything_succeeds() {
    let scheduler = connecting();
    assert_eq!(scheduler.report(), blank());

    let scheduler = scheduler.handle(Event::Connected);
    assert_eq!(scheduler.phase(), Phase::Walking);

    let scheduler = scheduler.handle(Event::Walked(rows(100, 10)));
    assert_eq!(scheduler.phase(), Phase::Collecting);
    assert_eq!(scheduler.directive(), Directive::Collect);
    assert_eq!(scheduler.blocks(), Some(&rows(100, 10)));

    let scheduler = scheduler.handle(Event::Collected(snapshot()));
    assert_eq!(scheduler.phase(), Phase::Persisting);
    assert_eq!(scheduler.directive(), Directive::StoreBlocks);
    assert_eq!(scheduler.blocks(), Some(&rows(100, 10)));
    assert_eq!(scheduler.snapshot(), Some(&snapshot()));

    let scheduler = scheduler.handle(Event::Stored);
    assert_eq!(scheduler.phase(), Phase::Persisting);
    assert_eq!(scheduler.directive(), Directive::PublishMetrics);
    assert_eq!(scheduler.blocks(), None);
    assert_eq!(scheduler.snapshot(), Some(&snapshot()));

    let scheduler = scheduler.handle(Event::Published);
    assert_eq!(scheduler.phase(), Phase::Sleeping);
    assert_eq!(scheduler.directive(), Directive::Sleep { seconds: 5 });
    assert_eq!(scheduler.snapshot(), None);
    assert_eq!(
        scheduler.report(),
        CycleReport {
            connect: StageOutcome::Succeeded,
            walk: StageOutcome::Succeeded,
            collect: StageOutcome::Succeeded,
            store: StageOutcome::Succeeded,
            publish: StageOutcome::Succeeded,
        }
    );

    let scheduler = scheduler.handle(Event::Woke);
    assert_eq!(scheduler.phase(), Phase::Idle);
    assert_eq!(scheduler.directive(), Directive::BeginCycle);
}

#[test]
fn unreachable_store_aborts_the_cycle_and_the_next_one_connects_anew() {
    // The relational store cannot be reached at the start of the cycle.
    let mut store = BlockStore::new();
    store.set_reachable(false);
    let cache = MetricsCache::new();
    let connect = |store: &BlockStore, cache: &MetricsCache| {
        if store.is_reachable() && cache.is_reachable() {
            Event::Connected
        } else {
            Event::ConnectFailed
        }
    };

    let mut directives = Vec::new();
    let scheduler = connecting();
    directives.push(scheduler.directive());
    let scheduler = scheduler.handle(connect(&store, &cache));
    directives.push(scheduler.directive());

    assert_eq!(scheduler.phase(), Phase::Sleeping);
    assert_eq!(
        scheduler.report(),
        CycleReport { connect: StageOutcome::Failed(IngestError::ConnectionError), ..blank() }
    );
    assert_eq!(scheduler.blocks(), None);
    assert_eq!(scheduler.snapshot(), None);

    // No query goes to the node in this cycle.
    assert_eq!(directives, vec![Directive::Connect, Directive::Sleep { seconds: 5 }]);

    // After the delay the next cycle starts from scratch.
    let scheduler = scheduler.handle(Event::Woke);
    assert_eq!(scheduler.directive(), Directive::BeginCycle);
    let scheduler = scheduler.handle(Event::Begun);
    assert_eq!(scheduler.directive(), Directive::Connect);
    assert_eq!(scheduler.report(), blank());
    store.set_reachable(true);
    let scheduler = scheduler.handle(connect(&store, &cache));
    assert_eq!(scheduler.directive(), Directive::Walk { window: 10 });
    assert_eq!(store.len(), 0);
}

#[test]
fn failed_difficulty_query_skips_the_publish_but_not_the_block_write() {
    let mut store = BlockStore::new();
    let mut cache = MetricsCache::new();
    let mut published = 0;
    let mut stored = 0;

    let mut scheduler = IngestionScheduler::with_defaults();
    loop {
        let event = match scheduler.directive() {
            Directive::BeginCycle => Event::Begun,
            Directive::Connect => Event::Connected,
            Directive::Walk { window } => Event::Walked(rows(100, window)),
            Directive::Collect => {
                let mut state = Collection::Pending(MetricsCollector::start());
                loop {
                    match state {
                        Collection::Pending(collector) => {
                            let answer = match collector.query() {
                                MetricQuery::BlockHeight => MetricAnswer::Count(100),
                                MetricQuery::ChainSize => MetricAnswer::Count(5_000_000),
                                MetricQuery::NetworkHashrate => {
                                    MetricAnswer::Decimal(String::from("1234.5"))
                                }
                                MetricQuery::Difficulty => MetricAnswer::Unavailable,
                                _ => panic!("no query follows the one that failed"),
                            };
                            state = collector.advance(answer);
                        }
                        Collection::Complete(snapshot) => break Event::Collected(snapshot),
                        Collection::Failed(error) => {
                            assert_eq!(error, IngestError::UpstreamUnavailable);
                            break Event::CollectFailed;
                        }
                    }
                }
            }
            Directive::StoreBlocks => {
                stored += 1;
                match store.upsert(scheduler.blocks().expect("blocks wait to be written")) {
                    Ok(()) => Event::Stored,
                    Err(_) => Event::StoreFailed,
                }
            }
            Directive::PublishMetrics => {
                published += 1;
                match cache.publish(scheduler.snapshot().expect("a snapshot waits")) {
                    Ok(()) => Event::Published,
                    Err(_) => Event::PublishFailed,
                }
            }
            Directive::Sleep { .. } => break,
            Directive::Halt => panic!("the loop does not end"),
        };
        scheduler = scheduler.handle(event);
    }

    assert_eq!(published, 0);
    assert_eq!(stored, 1);
    assert_eq!(cache.get("difficulty"), None);
    assert_eq!(cache.get("block_height"), None);
    assert_eq!(store.len(), 10);
    assert_eq!(store.get(1).expect("the tip is stored").height, 100);
    assert_eq!(store.get(10).expect("the window is full").height, 91);
    assert_eq!(
        scheduler.report(),
        CycleReport {
            connect: StageOutcome::Succeeded,
            walk: StageOutcome::Succeeded,
            collect: StageOutcome::Failed(IngestError::UpstreamUnavailable),
            store: StageOutcome::Succeeded,
            publish: StageOutcome::NotRun,
        }
    );
}

#[test]
fn failed_walk_does_not_keep_the_metrics_from_being_published() {
    let scheduler = connecting().handle(Event::Connected).handle(Event::WalkFailed);
    assert_eq!(scheduler.directive(), Directive::Collect);
    let scheduler = scheduler.handle(Event::Collected(snapshot()));
    assert_eq!(scheduler.directive(), Directive::PublishMetrics);
    assert_eq!(scheduler.blocks(), None);
    let scheduler = scheduler.handle(Event::Published);
    assert_eq!(scheduler.phase(), Phase::Sleeping);
    assert_eq!(
        scheduler.report(),
        CycleReport {
            connect: StageOutcome::Succeeded,
            walk: StageOutcome::Failed(IngestError::UpstreamUnavailable),
            collect: StageOutcome::Succeeded,
            store: StageOutcome::NotRun,
            publish: StageOutcome::Succeeded,
        }
    );
}

#[test]
fn failed_block_write_does_not_keep_the_snapshot_from_being_published() {
    let scheduler = connecting()
        .handle(Event::Connected)
        .handle(Event::Walked(rows(100, 10)))
        .handle(Event::Collected(snapshot()))
        .handle(Event::StoreFailed);
    assert_eq!(scheduler.phase(), Phase::Persisting);
    assert_eq!(scheduler.directive(), Directive::PublishMetrics);
    assert_eq!(scheduler.snapshot(), Some(&snapshot()));
    let scheduler = scheduler.handle(Event::PublishFailed);
    assert_eq!(scheduler.phase(), Phase::Sleeping);
    assert_eq!(scheduler.report().store, StageOutcome::Failed(IngestError::PersistenceError));
    assert_eq!(scheduler.report().publish, StageOutcome::Failed(IngestError::PersistenceError));
}

#[test]
fn cycle_with_nothing_gathered_sleeps_without_writing() {
    let scheduler = connecting()
        .handle(Event::Connected)
        .handle(Event::WalkFailed)
        .handle(Event::CollectFailed);
    assert_eq!(scheduler.phase(), Phase::Sleeping);
    assert_eq!(scheduler.directive(), Directive::Sleep { seconds: 5 });
    assert_eq!(scheduler.report().store, StageOutcome::NotRun);
    assert_eq!(scheduler.report().publish, StageOutcome::NotRun);
}

#[test]
fn event_that_is_not_awaited_changes_nothing() {
    let scheduler = connecting().handle(Event::Walked(rows(5, 2)));
    assert_eq!(scheduler.phase(), Phase::Connecting);
    assert_eq!(scheduler.blocks(), None);
    let scheduler = scheduler.handle(Event::Woke).handle(Event::Published).handle(Event::Begun);
    assert_eq!(scheduler.phase(), Phase::Connecting);
    assert_eq!(scheduler.report(), blank());

    let scheduler = scheduler
        .handle(Event::Connected)
        .handle(Event::Walked(rows(5, 2)))
        .handle(Event::Collected(snapshot()));
    // The blocks come first: a report on the publish is not awaited yet.
    let scheduler = scheduler.handle(Event::Published);
    assert_eq!(scheduler.directive(), Directive::StoreBlocks);
    assert_eq!(scheduler.snapshot(), Some(&snapshot()));
}

#[test]
fn shutdown_stops_the_scheduler_for_good() {
    let scheduler = connecting()
        .handle(Event::Connected)
        .handle(Event::Walked(rows(100, 10)))
        .handle(Event::Shutdown);
    assert_eq!(scheduler.phase(), Phase::Stopped);
    assert_eq!(scheduler.directive(), Directive::Halt);
    assert_eq!(scheduler.blocks(), None);
    let scheduler = scheduler.handle(Event::Woke).handle(Event::Begun).handle(Event::Connected);
    assert_eq!(scheduler.phase(), Phase::Stopped);
    assert_eq!(scheduler.directive(), Directive::Halt);
}

#[test]
fn failures_never_stop_the_scheduler() {
    let mut scheduler = IngestionScheduler::with_defaults();
    for cycle in 0..20usize {
        scheduler = scheduler.handle(Event::Begun);
        scheduler = if cycle % 2 == 0 {
            scheduler.handle(Event::ConnectFailed)
        } else {
            scheduler
                .handle(Event::Connected)
                .handle(Event::Walked(rows(100 + cycle, 10)))
                .handle(Event::CollectFailed)
                .handle(Event::StoreFailed)
        };
        assert_eq!(scheduler.phase(), Phase::Sleeping);
        scheduler = scheduler.handle(Event::Woke);
        assert_eq!(scheduler.phase(), Phase::Idle);
    }
}
