//! The heartbeat: on each tick, run one retry sequence for the symbol;
//! store and publish a success, keep the old value on a failure, then wait
//! the interval before the next tick. A shutdown request stops it at the
//! next event.
//!
//! The host runs the actions (fetching, publishing, sleeping) and reports
//! back what happened as events.

use vstd::prelude::*;
use crate::error::DataError;
use crate::snapshot::MarketSnapshot;
use crate::store::{SnapshotStore, latest_of};

verus! {

/// Seconds between the end of one tick's work and the next tick.
pub const HEARTBEAT_INTERVAL_SECS: u64 = 10;

#[derive(Debug, Clone, Copy, PartialEq, Eq, Structural)]
pub enum Phase {
    /// Waiting for the next tick.
    Idle,
    /// A retry sequence is in flight.
    Fetching,
    /// Shut down; every event is answered with `Stop`.
    Stopped,
}

/// What the host reports to the scheduler.
#[derive(Debug)]
pub enum SchedulerEvent {
    /// The wait before a tick is over.
    TimerElapsed,
    /// The tick's retry sequence ended with this result.
    FetchFinished(Result<MarketSnapshot, DataError>),
    /// The host wants the heartbeat to end.
    ShutdownRequested,
}

/// What the scheduler asks the host to do.
#[derive(Debug)]
pub enum SchedulerAction {
    /// Run a retry sequence for this symbol and report its result.
    Fetch(String),
    /// Broadcast this snapshot, already stored, then wait this many seconds.
    PublishAndWait(MarketSnapshot, u64),
    /// Wait this many seconds before the next tick.
    Wait(u64),
    /// End the heartbeat.
    Stop,
    /// The event does not apply in the current phase; carry on.
    Ignore,
}

/// Drives the fetch-and-publish cycle for one symbol.
#[derive(Debug)]
pub struct HeartbeatScheduler {
    pub symbol: String,
    pub interval_secs: u64,
    pub phase: Phase,
}

/// The phase after an event.
pub open spec fn phase_after(phase: Phase, ev: SchedulerEvent) -> Phase {
    match (phase, ev) {
        (Phase::Stopped, _) => Phase::Stopped,
        (_, SchedulerEvent::ShutdownRequested) => Phase::Stopped,
        (Phase::Idle, SchedulerEvent::TimerElapsed) => Phase::Fetching,
        (Phase::Fetching, SchedulerEvent::FetchFinished(_)) => Phase::Idle,
        (p, _) => p,
    }
}

/// The store's writes after an event: only a fetch that finished with a
/// success while one was in flight adds one.
pub open spec fn writes_after(phase: Phase, writes: Seq<MarketSnapshot>, ev: SchedulerEvent) -> Seq<
    MarketSnapshot,
> {
    match (phase, ev) {
        (Phase::Fetching, SchedulerEvent::FetchFinished(Ok(s))) => writes.push(s),
        _ => writes,
    }
}

/// The action taken on an event.
pub open spec fn action_of(
    symbol: String,
    interval_secs: u64,
    phase: Phase,
    ev: SchedulerEvent,
) -> SchedulerAction {
    match (phase, ev) {
        (Phase::Stopped, _) => SchedulerAction::Stop,
        (_, SchedulerEvent::ShutdownRequested) => SchedulerAction::Stop,
        (Phase::Idle, SchedulerEvent::TimerElapsed) => SchedulerAction::Fetch(symbol),
        (Phase::Fetching, SchedulerEvent::FetchFinished(Ok(s))) => SchedulerAction::PublishAndWait(
            s,
            interval_secs,
        ),
        (Phase::Fetching, SchedulerEvent::FetchFinished(Err(_))) => SchedulerAction::Wait(
            interval_secs,
        ),
        _ => SchedulerAction::Ignore,
    }
}

impl HeartbeatScheduler {
    /// A scheduler for `symbol`, idle before its first tick.
    pub fn new(symbol: String, interval_secs: u64) -> (r: HeartbeatScheduler)
        ensures
            r == (HeartbeatScheduler { symbol, interval_secs, phase: Phase::Idle }),
    {
        HeartbeatScheduler { symbol, interval_secs, phase: Phase::Idle }
    }

    /// Takes one event, updates the store on a successful fetch, and says
    /// what the host does next.
    pub fn handle(&mut self, store: &mut SnapshotStore, ev: SchedulerEvent) -> (r: SchedulerAction)
        ensures
            final(self).phase == phase_after(old(self).phase, ev),
            final(self).symbol == old(self).symbol,
            final(self).interval_secs == old(self).interval_secs,
            final(store)@ == writes_after(old(self).phase, old(store)@, ev),
            r == action_of(old(self).symbol, old(self).interval_secs, old(self).phase, ev),
    {
        match self.phase {
            Phase::Stopped => SchedulerAction::Stop,
            Phase::Idle => match ev {
                SchedulerEvent::ShutdownRequested => {
                    self.phase = Phase::Stopped;
                    SchedulerAction::Stop
                },
                SchedulerEvent::TimerElapsed => {
                    self.phase = Phase::Fetching;
                    SchedulerAction::Fetch(self.symbol.clone())
                },
                SchedulerEvent::FetchFinished(_) => SchedulerAction::Ignore,
            },
            Phase::Fetching => match ev {
                SchedulerEvent::ShutdownRequested => {
                    self.phase = Phase::Stopped;
                    SchedulerAction::Stop
                },
                SchedulerEvent::TimerElapsed => SchedulerAction::Ignore,
                SchedulerEvent::FetchFinished(Ok(s)) => {
                    store.write(s.clone());
                    self.phase = Phase::Idle;
                    SchedulerAction::PublishAndWait(s, self.interval_secs)
                },
                SchedulerEvent::FetchFinished(Err(_)) => {
                    self.phase = Phase::Idle;
                    SchedulerAction::Wait(self.interval_secs)
                },
            },
        }
    }
}

/// The phase and the store's writes after a run of events.
pub open spec fn replay(phase: Phase, writes: Seq<MarketSnapshot>, events: Seq<SchedulerEvent>) -> (
    Phase,
    Seq<MarketSnapshot>,
)
    decreases events.len(),
{
    if events.len() == 0 {
        (phase, writes)
    } else {
        replay(
            phase_after(phase, events[0]),
            writes_after(phase, writes, events[0]),
            events.drop_first(),
        )
    }
}

/// Whether an event reports a successful fetch.
pub open spec fn is_success(ev: SchedulerEvent) -> bool {
    ev is FetchFinished && ev->FetchFinished_0 is Ok
}

/// Events that report no successful fetch leave the latest value as it
/// was: absent before the first success, the last success after it.
pub proof fn lemma_latest_kept_without_success(
    phase: Phase,
    writes: Seq<MarketSnapshot>,
    events: Seq<SchedulerEvent>,
)
    requires
        forall|i: int| 0 <= i < events.len() ==> !is_success(#[trigger] events[i]),
    ensures
        latest_of(replay(phase, writes, events).1) == latest_of(writes),
    decreases events.len(),
{
    if events.len() > 0 {
        assert(!is_success(events[0]));
        let rest = events.drop_first();
        assert forall|i: int| 0 <= i < rest.len() implies !is_success(#[trigger] rest[i]) by {
            assert(rest[i] == events[i + 1]);
        }
        lemma_latest_kept_without_success(
            phase_after(phase, events[0]),
            writes_after(phase, writes, events[0]),
            rest,
        );
    }
}

/// A heartbeat that has fetched `s` while idle and ticking makes `s` the
/// latest value, and it stays so through any events that report no other
/// success.
pub proof fn lemma_success_becomes_latest(
    writes: Seq<MarketSnapshot>,
    s: MarketSnapshot,
    events: Seq<SchedulerEvent>,
)
    requires
        forall|i: int| 0 <= i < events.len() ==> !is_success(#[trigger] events[i]),
    ensures
        ({
            let first = seq![
                SchedulerEvent::TimerElapsed,
                SchedulerEvent::FetchFinished(Ok::<MarketSnapshot, DataError>(s)),
            ];
            latest_of(replay(Phase::Idle, writes, first + events).1) == Some(s)
        }),
{
    let first = seq![
        SchedulerEvent::TimerElapsed,
        SchedulerEvent::FetchFinished(Ok::<MarketSnapshot, DataError>(s)),
    ];
    let all = first + events;
    assert(all[0] == SchedulerEvent::TimerElapsed);
    assert(all.drop_first()[0] == SchedulerEvent::FetchFinished(Ok::<MarketSnapshot, DataError>(s)));
    assert(all.drop_first().drop_first() =~= events);
    assert(replay(Phase::Idle, writes, all) == replay(Phase::Fetching, writes, all.drop_first()));
    assert(replay(Phase::Fetching, writes, all.drop_first()) == replay(
        Phase::Idle,
        writes.push(s),
        events,
    ));
    lemma_latest_kept_without_success(Phase::Idle, writes.push(s), events);
}

} // verus!
