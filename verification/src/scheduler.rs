//! The ingestion cycle as a state machine: connect, walk the chain, collect
//! the metrics, write both to their stores, sleep, and begin again.
//!
//! The scheduler decides; the caller acts. In each state the scheduler names
//! one [`Directive`]. The caller carries it out and reports what happened as
//! an [`Event`], which moves the scheduler to its next state. A failure of
//! one stage is recorded and never ends the loop.

use crate::block::{rows, BlockInfo, BlockRow};
use crate::error::IngestError;
use crate::metrics::{MetricsSnapshot, SnapshotView};
use vstd::prelude::*;

verus! {

/// The number of blocks in a window where none is configured.
pub const DEFAULT_WINDOW: usize = 10;

/// The seconds between two cycles where none are configured.
pub const DEFAULT_INTERVAL_SECONDS: u64 = 5;

/// The states of the scheduler.
#[derive(Clone, Copy, Debug, PartialEq, Eq, Structural)]
pub enum Phase {
    /// Between two cycles: the next one has not begun.
    Idle,
    /// The connections to the node and to both stores are being made.
    Connecting,
    /// The chain is being walked.
    Walking,
    /// The metrics are being collected.
    Collecting,
    /// What the cycle gathered is being written to the stores.
    Persisting,
    /// The cycle is over; the delay before the next one runs.
    Sleeping,
    /// The process shuts down. No cycle begins any more.
    Stopped,
}

/// How one stage of a cycle went.
#[derive(Clone, Copy, Debug, PartialEq, Eq, Structural)]
pub enum StageOutcome {
    /// The stage did not run, or has not run yet.
    NotRun,
    /// The stage ran and succeeded.
    Succeeded,
    /// The stage ran and failed for this reason.
    Failed(IngestError),
}

/// How each stage of the current cycle went: what a cycle logs.
#[derive(Clone, Copy, Debug, PartialEq, Eq, Structural)]
pub struct CycleReport {
    /// Making the three connections.
    pub connect: StageOutcome,
    /// Walking the chain.
    pub walk: StageOutcome,
    /// Collecting the metrics.
    pub collect: StageOutcome,
    /// Writing the window of blocks to the relational store.
    pub store: StageOutcome,
    /// Publishing the snapshot to the cache.
    pub publish: StageOutcome,
}

/// What the caller is to do next.
#[derive(Clone, Copy, Debug, PartialEq, Eq, Structural)]
pub enum Directive {
    /// Announce that a cycle begins.
    BeginCycle,
    /// Make the connections to the node, the relational store and the cache
    /// anew.
    Connect,
    /// Walk the chain from its current tip over at most `window` blocks.
    Walk { window: usize },
    /// Collect the snapshot of metrics.
    Collect,
    /// Write the blocks that the scheduler holds to the relational store.
    StoreBlocks,
    /// Publish the snapshot that the scheduler holds to the cache.
    PublishMetrics,
    /// Wait for `seconds` seconds.
    Sleep { seconds: u64 },
    /// Leave the loop.
    Halt,
}

/// What the caller reports back.
#[derive(Debug)]
pub enum Event {
    /// The beginning of the cycle was announced.
    Begun,
    /// All three connections were made.
    Connected,
    /// One of the connections could not be made.
    ConnectFailed,
    /// The walk ended with these rows.
    Walked(Vec<BlockInfo>),
    /// The walk failed.
    WalkFailed,
    /// The collection ended with this snapshot.
    Collected(MetricsSnapshot),
    /// The collection failed.
    CollectFailed,
    /// The blocks were written.
    Stored,
    /// Writing the blocks failed.
    StoreFailed,
    /// The snapshot was published.
    Published,
    /// Publishing the snapshot failed.
    PublishFailed,
    /// The delay is over.
    Woke,
    /// The process is shutting down.
    Shutdown,
}

/// The mathematical content of an [`Event`].
pub enum EventView {
    Begun,
    Connected,
    ConnectFailed,
    Walked(Seq<BlockRow>),
    WalkFailed,
    Collected(SnapshotView),
    CollectFailed,
    Stored,
    StoreFailed,
    Published,
    PublishFailed,
    Woke,
    Shutdown,
}

impl View for Event {
    type V = EventView;

    open spec fn view(&self) -> EventView {
        match self {
            Event::Begun => EventView::Begun,
            Event::Connected => EventView::Connected,
            Event::ConnectFailed => EventView::ConnectFailed,
            Event::Walked(blocks) => EventView::Walked(rows(blocks@)),
            Event::WalkFailed => EventView::WalkFailed,
            Event::Collected(snapshot) => EventView::Collected(snapshot@),
            Event::CollectFailed => EventView::CollectFailed,
            Event::Stored => EventView::Stored,
            Event::StoreFailed => EventView::StoreFailed,
            Event::Published => EventView::Published,
            Event::PublishFailed => EventView::PublishFailed,
            Event::Woke => EventView::Woke,
            Event::Shutdown => EventView::Shutdown,
        }
    }
}

/// The scheduler of ingestion cycles.
pub struct IngestionScheduler {
    window: usize,
    interval: u64,
    phase: Phase,
    blocks: Option<Vec<BlockInfo>>,
    snapshot: Option<MetricsSnapshot>,
    report: CycleReport,
}

/// The mathematical content of an [`IngestionScheduler`].
pub struct SchedulerView {
    /// The most blocks that a walk may take.
    pub window: usize,
    /// The seconds to wait between two cycles.
    pub interval: u64,
    /// The state of the machine.
    pub phase: Phase,
    /// The rows that this cycle walked and has not written yet.
    pub blocks: Option<Seq<BlockRow>>,
    /// The snapshot that this cycle collected and has not published yet.
    pub snapshot: Option<SnapshotView>,
    /// How the stages of this cycle went so far.
    pub report: CycleReport,
}

/// The report of a cycle in which no stage has run.
pub open spec fn blank_report() -> CycleReport {
    CycleReport {
        connect: StageOutcome::NotRun,
        walk: StageOutcome::NotRun,
        collect: StageOutcome::NotRun,
        store: StageOutcome::NotRun,
        publish: StageOutcome::NotRun,
    }
}

/// The state of a scheduler that has not begun its first cycle.
pub open spec fn initial(window: usize, interval: u64) -> SchedulerView {
    SchedulerView {
        window,
        interval,
        phase: Phase::Idle,
        blocks: None,
        snapshot: None,
        report: blank_report(),
    }
}

/// The phase that follows once a write is done or skipped: there is more to
/// write while the scheduler holds blocks or a snapshot, and the cycle
/// sleeps when it holds neither.
pub open spec fn write_or_sleep(
    blocks: Option<Seq<BlockRow>>,
    snapshot: Option<SnapshotView>,
) -> Phase {
    if blocks is Some || snapshot is Some {
        Phase::Persisting
    } else {
        Phase::Sleeping
    }
}

/// The transition function: the state that follows `state` on `event`.
///
/// An event that the state does not wait for changes nothing. A shutdown
/// stops the machine from every state. Otherwise:
/// - `Idle` begins a cycle with a blank report and connects;
/// - `Connecting` goes on to walk, or, if a connection fails, records a
///   connection error and sleeps without any further work;
/// - `Walking` keeps the rows, or records that the node was unavailable,
///   and collects in either case;
/// - `Collecting` keeps the snapshot, or records that the node was
///   unavailable, and then writes what the cycle holds, if anything;
/// - `Persisting` writes the blocks first and the snapshot second, records
///   a persistence error for a write that fails, and lets the other write
///   run in either case;
/// - `Sleeping` returns to `Idle` when the delay is over.
pub open spec fn next(state: SchedulerView, event: EventView) -> SchedulerView {
    if state.phase == Phase::Stopped {
        state
    } else if event is Shutdown {
        SchedulerView { phase: Phase::Stopped, blocks: None, snapshot: None, ..state }
    } else {
        match (state.phase, event) {
            (Phase::Idle, EventView::Begun) => SchedulerView {
                phase: Phase::Connecting,
                blocks: None,
                snapshot: None,
                report: blank_report(),
                ..state
            },
            (Phase::Connecting, EventView::Connected) => SchedulerView {
                phase: Phase::Walking,
                report: CycleReport { connect: StageOutcome::Succeeded, ..state.report },
                ..state
            },
            (Phase::Connecting, EventView::ConnectFailed) => SchedulerView {
                phase: Phase::Sleeping,
                report: CycleReport {
                    connect: StageOutcome::Failed(IngestError::ConnectionError),
                    ..state.report
                },
                ..state
            },
            (Phase::Walking, EventView::Walked(taken)) => SchedulerView {
                phase: Phase::Collecting,
                blocks: Some(taken),
                report: CycleReport { walk: StageOutcome::Succeeded, ..state.report },
                ..state
            },
            (Phase::Walking, EventView::WalkFailed) => SchedulerView {
                phase: Phase::Collecting,
                blocks: None,
                report: CycleReport {
                    walk: StageOutcome::Failed(IngestError::UpstreamUnavailable),
                    ..state.report
                },
                ..state
            },
            (Phase::Collecting, EventView::Collected(snapshot)) => SchedulerView {
                phase: Phase::Persisting,
                snapshot: Some(snapshot),
                report: CycleReport { collect: StageOutcome::Succeeded, ..state.report },
                ..state
            },
            (Phase::Collecting, EventView::CollectFailed) => SchedulerView {
                phase: write_or_sleep(state.blocks, None),
                snapshot: None,
                report: CycleReport {
                    collect: StageOutcome::Failed(IngestError::UpstreamUnavailable),
                    ..state.report
                },
                ..state
            },
            (Phase::Persisting, EventView::Stored) if state.blocks is Some => SchedulerView {
                phase: write_or_sleep(None, state.snapshot),
                blocks: None,
                report: CycleReport { store: StageOutcome::Succeeded, ..state.report },
                ..state
            },
            (Phase::Persisting, EventView::StoreFailed) if state.blocks is Some => SchedulerView {
                phase: write_or_sleep(None, state.snapshot),
                blocks: None,
                report: CycleReport {
                    store: StageOutcome::Failed(IngestError::PersistenceError),
                    ..state.report
                },
                ..state
            },
            (Phase::Persisting, EventView::Published) if state.blocks is None
                && state.snapshot is Some => SchedulerView {
                phase: Phase::Sleeping,
                snapshot: None,
                report: CycleReport { publish: StageOutcome::Succeeded, ..state.report },
                ..state
            },
            (Phase::Persisting, EventView::PublishFailed) if state.blocks is None
                && state.snapshot is Some => SchedulerView {
                phase: Phase::Sleeping,
                snapshot: None,
                report: CycleReport {
                    publish: StageOutcome::Failed(IngestError::PersistenceError),
                    ..state.report
                },
                ..state
            },
            (Phase::Persisting, EventView::Woke) if state.blocks is None
                && state.snapshot is None => SchedulerView { phase: Phase::Idle, ..state },
            (Phase::Sleeping, EventView::Woke) => SchedulerView { phase: Phase::Idle, ..state },
            _ => state,
        }
    }
}

/// What the caller is to do in `state`.
pub open spec fn directive_of(state: SchedulerView) -> Directive {
    match state.phase {
        Phase::Idle => Directive::BeginCycle,
        Phase::Connecting => Directive::Connect,
        Phase::Walking => Directive::Walk { window: state.window },
        Phase::Collecting => Directive::Collect,
        Phase::Persisting => if state.blocks is Some {
            Directive::StoreBlocks
        } else if state.snapshot is Some {
            Directive::PublishMetrics
        } else {
            Directive::Sleep { seconds: state.interval }
        },
        Phase::Sleeping => Directive::Sleep { seconds: state.interval },
        Phase::Stopped => Directive::Halt,
    }
}

/// Whether a state holds only what its phase can hold: blocks between the
/// walk and their write, a snapshot between the collection and its
/// publication, and something to write while persisting.
pub open spec fn valid(state: SchedulerView) -> bool {
    match state.phase {
        Phase::Collecting => state.snapshot is None,
        Phase::Persisting => state.blocks is Some || state.snapshot is Some,
        _ => state.blocks is None && state.snapshot is None,
    }
}

/// Whether `state` waits for `event`: the event reports on the directive
/// that the state names, or shuts the machine down.
pub open spec fn awaited(state: SchedulerView, event: EventView) -> bool {
    state.phase != Phase::Stopped && (event is Shutdown || match directive_of(state) {
        Directive::BeginCycle => event is Begun,
        Directive::Connect => event is Connected || event is ConnectFailed,
        Directive::Walk { .. } => event is Walked || event is WalkFailed,
        Directive::Collect => event is Collected || event is CollectFailed,
        Directive::StoreBlocks => event is Stored || event is StoreFailed,
        Directive::PublishMetrics => event is Published || event is PublishFailed,
        Directive::Sleep { .. } => event is Woke,
        Directive::Halt => false,
    })
}

/// The number of reports that a cycle still needs, at most, before it
/// sleeps.
pub open spec fn remaining(state: SchedulerView) -> nat {
    match state.phase {
        Phase::Idle => 6,
        Phase::Connecting => 5,
        Phase::Walking => 4,
        Phase::Collecting => 3,
        Phase::Persisting => if state.blocks is Some {
            2
        } else if state.snapshot is Some {
            1
        } else {
            0
        },
        Phase::Sleeping => 0,
        Phase::Stopped => 0,
    }
}

/// The machine begins in a valid state and stays in one, and it keeps its
/// window and its interval.
pub proof fn lemma_next_valid(state: SchedulerView, event: EventView)
    requires
        valid(state),
    ensures
        valid(next(state, event)),
        next(state, event).window == state.window,
        next(state, event).interval == state.interval,
        valid(initial(state.window, state.interval)),
{
}

/// An event that the state does not wait for changes nothing, and an event
/// that it waits for is never refused: it moves the machine on.
pub proof fn lemma_awaited(state: SchedulerView, event: EventView)
    requires
        valid(state),
    ensures
        !awaited(state, event) ==> next(state, event) == state,
        awaited(state, event) ==> next(state, event).phase != state.phase || remaining(
            next(state, event),
        ) < remaining(state),
{
}

/// Every cycle ends in the delay, whatever its stages report: each report
/// that the machine waits for brings a cycle closer to `Sleeping`, which it
/// reaches after five reports at most, and from which the next cycle begins
/// at `Idle`.
pub proof fn lemma_cycle_ends(state: SchedulerView, event: EventView)
    requires
        valid(state),
        awaited(state, event),
        !(event is Shutdown),
    ensures
        state.phase != Phase::Sleeping ==> remaining(next(state, event)) < remaining(state),
        state.phase == Phase::Sleeping ==> next(state, event).phase == Phase::Idle,
        state.phase != Phase::Idle ==> remaining(state) <= 5,
        remaining(state) == 0 <==> state.phase == Phase::Sleeping,
        next(state, event).phase != Phase::Stopped,
{
}

/// The machine stops only when it is told to shut down.
pub proof fn lemma_stops_on_shutdown_only(state: SchedulerView, event: EventView)
    ensures
        next(state, event).phase == Phase::Stopped <==> (state.phase == Phase::Stopped
            || event is Shutdown),
        state.phase == Phase::Stopped ==> next(state, event) == state,
{
}

/// A connection that cannot be made ends the cycle at once: the failure is
/// recorded as a connection error, no other stage runs, and the machine
/// sleeps. The cycle after the delay connects anew, with a blank report.
pub proof fn lemma_connection_failure_aborts(state: SchedulerView)
    requires
        valid(state),
        state.phase == Phase::Connecting,
        state.report == blank_report(),
    ensures
        ({
            let failed = next(state, EventView::ConnectFailed);
            let woke = next(failed, EventView::Woke);
            let again = next(woke, EventView::Begun);
            &&& failed.phase == Phase::Sleeping
            &&& directive_of(failed) == Directive::Sleep { seconds: state.interval }
            &&& failed.report == CycleReport {
                connect: StageOutcome::Failed(IngestError::ConnectionError),
                ..blank_report()
            }
            &&& woke.phase == Phase::Idle
            &&& again.phase == Phase::Connecting
            &&& directive_of(again) == Directive::Connect
            &&& again.report == blank_report()
        }),
{
}

/// The two paths of a cycle do not hold each other up. A walk that fails
/// does not keep the metrics from being collected; a collection that fails
/// does not keep walked blocks from being written; a write of blocks that
/// fails does not keep a collected snapshot from being published.
pub proof fn lemma_stages_isolated(state: SchedulerView)
    requires
        valid(state),
    ensures
        state.phase == Phase::Walking ==> directive_of(next(state, EventView::WalkFailed))
            == Directive::Collect,
        state.phase == Phase::Collecting && state.blocks is Some ==> {
            let after = next(state, EventView::CollectFailed);
            directive_of(after) == Directive::StoreBlocks && after.blocks == state.blocks
        },
        state.phase == Phase::Persisting && state.blocks is Some && state.snapshot is Some ==> {
            let after = next(state, EventView::StoreFailed);
            directive_of(after) == Directive::PublishMetrics && after.snapshot == state.snapshot
        },
{
}

/// Nothing is written that was not gathered: blocks are written only after
/// a walk of this cycle succeeded, a snapshot is published only after a
/// collection of this cycle succeeded.
pub proof fn lemma_writes_follow_success(state: SchedulerView, event: EventView)
    requires
        valid(state),
        state.blocks is Some ==> state.report.walk == StageOutcome::Succeeded,
        state.snapshot is Some ==> state.report.collect == StageOutcome::Succeeded,
    ensures
        ({
            let after = next(state, event);
            &&& after.blocks is Some ==> after.report.walk == StageOutcome::Succeeded
            &&& after.snapshot is Some ==> after.report.collect == StageOutcome::Succeeded
            &&& directive_of(after) == Directive::StoreBlocks ==> after.report.walk
                == StageOutcome::Succeeded
            &&& directive_of(after) == Directive::PublishMetrics ==> after.report.collect
                == StageOutcome::Succeeded
        }),
{
}

impl View for IngestionScheduler {
    type V = SchedulerView;

    closed spec fn view(&self) -> SchedulerView {
        SchedulerView {
            window: self.window,
            interval: self.interval,
            phase: self.phase,
            blocks: match self.blocks {
                Some(blocks) => Some(rows(blocks@)),
                None => None,
            },
            snapshot: match self.snapshot {
                Some(snapshot) => Some(snapshot@),
                None => None,
            },
            report: self.report,
        }
    }
}

impl CycleReport {
    /// The report of a cycle in which no stage has run.
    pub fn blank() -> (report: CycleReport)
        ensures
            report == blank_report(),
    {
        CycleReport {
            connect: StageOutcome::NotRun,
            walk: StageOutcome::NotRun,
            collect: StageOutcome::NotRun,
            store: StageOutcome::NotRun,
            publish: StageOutcome::NotRun,
        }
    }
}

impl IngestionScheduler {
    /// A scheduler that walks over `window` blocks in each cycle and waits
    /// `interval_seconds` between two cycles. It begins idle.
    pub fn new(window: usize, interval_seconds: u64) -> (scheduler: IngestionScheduler)
        ensures
            scheduler@ == initial(window, interval_seconds),
    {
        IngestionScheduler {
            window,
            interval: interval_seconds,
            phase: Phase::Idle,
            blocks: None,
            snapshot: None,
            report: CycleReport::blank(),
        }
    }

    /// A scheduler with the default window and interval.
    pub fn with_defaults() -> (scheduler: IngestionScheduler)
        ensures
            scheduler@ == initial(DEFAULT_WINDOW, DEFAULT_INTERVAL_SECONDS),
    {
        IngestionScheduler::new(DEFAULT_WINDOW, DEFAULT_INTERVAL_SECONDS)
    }

    /// The state of the machine.
    pub fn phase(&self) -> (phase: Phase)
        ensures
            phase == self@.phase,
    {
        self.phase
    }

    /// How the stages of the current cycle went so far.
    pub fn report(&self) -> (report: CycleReport)
        ensures
            report == self@.report,
    {
        self.report
    }

    /// The blocks that wait to be written, if any.
    pub fn blocks(&self) -> (blocks: Option<&Vec<BlockInfo>>)
        ensures
            match blocks {
                Some(held) => self@.blocks == Some(rows(held@)),
                None => self@.blocks is None,
            },
    {
        self.blocks.as_ref()
    }

    /// The snapshot that waits to be published, if any.
    pub fn snapshot(&self) -> (snapshot: Option<&MetricsSnapshot>)
        ensures
            match snapshot {
                Some(held) => self@.snapshot == Some(held@),
                None => self@.snapshot is None,
            },
    {
        self.snapshot.as_ref()
    }

    /// What the caller is to do next.
    pub fn directive(&self) -> (directive: Directive)
        ensures
            directive == directive_of(self@),
    {
        match self.phase {
            Phase::Idle => Directive::BeginCycle,
            Phase::Connecting => Directive::Connect,
            Phase::Walking => Directive::Walk { window: self.window },
            Phase::Collecting => Directive::Collect,
            Phase::Persisting => {
                if self.blocks.is_some() {
                    Directive::StoreBlocks
                } else if self.snapshot.is_some() {
                    Directive::PublishMetrics
                } else {
                    Directive::Sleep { seconds: self.interval }
                }
            },
            Phase::Sleeping => Directive::Sleep { seconds: self.interval },
            Phase::Stopped => Directive::Halt,
        }
    }

    /// Takes the caller's report and moves the machine to its next state.
    pub fn handle(self, event: Event) -> (after: IngestionScheduler)
        ensures
            after@ == next(self@, event@),
    {
        if let Phase::Stopped = self.phase {
            return self;
        }
        if let Event::Shutdown = event {
            return IngestionScheduler {
                phase: Phase::Stopped,
                blocks: None,
                snapshot: None,
                ..self
            };
        }
        let report = self.report;
        let has_blocks = self.blocks.is_some();
        let has_snapshot = self.snapshot.is_some();
        match (self.phase, event) {
            (Phase::Idle, Event::Begun) => IngestionScheduler {
                phase: Phase::Connecting,
                blocks: None,
                snapshot: None,
                report: CycleReport::blank(),
                ..self
            },
            (Phase::Connecting, Event::Connected) => IngestionScheduler {
                phase: Phase::Walking,
                report: CycleReport { connect: StageOutcome::Succeeded, ..report },
                ..self
            },
            (Phase::Connecting, Event::ConnectFailed) => IngestionScheduler {
                phase: Phase::Sleeping,
                report: CycleReport {
                    connect: StageOutcome::Failed(IngestError::ConnectionError),
                    ..report
                },
                ..self
            },
            (Phase::Walking, Event::Walked(taken)) => IngestionScheduler {
                phase: Phase::Collecting,
                blocks: Some(taken),
                report: CycleReport { walk: StageOutcome::Succeeded, ..report },
                ..self
            },
            (Phase::Walking, Event::WalkFailed) => IngestionScheduler {
                phase: Phase::Collecting,
                blocks: None,
                report: CycleReport {
                    walk: StageOutcome::Failed(IngestError::UpstreamUnavailable),
                    ..report
                },
                ..self
            },
            (Phase::Collecting, Event::Collected(snapshot)) => IngestionScheduler {
                phase: Phase::Persisting,
                snapshot: Some(snapshot),
                report: CycleReport { collect: StageOutcome::Succeeded, ..report },
                ..self
            },
            (Phase::Collecting, Event::CollectFailed) => IngestionScheduler {
                phase: if has_blocks {
                    Phase::Persisting
                } else {
                    Phase::Sleeping
                },
                snapshot: None,
                report: CycleReport {
                    collect: StageOutcome::Failed(IngestError::UpstreamUnavailable),
                    ..report
                },
                ..self
            },
            (Phase::Persisting, Event::Stored) if has_blocks => IngestionScheduler {
                phase: if has_snapshot {
                    Phase::Persisting
                } else {
                    Phase::Sleeping
                },
                blocks: None,
                report: CycleReport { store: StageOutcome::Succeeded, ..report },
                ..self
            },
            (Phase::Persisting, Event::StoreFailed) if has_blocks => IngestionScheduler {
                phase: if has_snapshot {
                    Phase::Persisting
                } else {
                    Phase::Sleeping
                },
                blocks: None,
                report: CycleReport {
                    store: StageOutcome::Failed(IngestError::PersistenceError),
                    ..report
                },
                ..self
            },
            (Phase::Persisting, Event::Published) if !has_blocks
                && has_snapshot => IngestionScheduler {
                phase: Phase::Sleeping,
                snapshot: None,
                report: CycleReport { publish: StageOutcome::Succeeded, ..report },
                ..self
            },
            (Phase::Persisting, Event::PublishFailed) if !has_blocks
                && has_snapshot => IngestionScheduler {
                phase: Phase::Sleeping,
                snapshot: None,
                report: CycleReport {
                    publish: StageOutcome::Failed(IngestError::PersistenceError),
                    ..report
                },
                ..self
            },
            (Phase::Persisting, Event::Woke) if !has_blocks
                && !has_snapshot => IngestionScheduler { phase: Phase::Idle, ..self },
            (Phase::Sleeping, Event::Woke) => IngestionScheduler { phase: Phase::Idle, ..self },
            _ => self,
        }
    }
}

} // verus!
