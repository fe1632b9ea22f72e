//! Network recovery after sleep/wake and lost peers.
//!
//! Three strategies are combined:
//! 1. Wake detection: a large gap between heartbeat ticks means the system
//!    slept.
//! 2. Periodic refresh: while there are no peers, refresh every interval.
//! 3. Stale detection and retry: having lost every peer, refresh after a
//!    threshold, then retry at growing intervals up to a limit.
//!
//! Time is given by the caller as nanoseconds on a monotonic clock.

use vstd::prelude::*;
use crate::text::{push_decimal, decimal};

verus! {

/// Nanoseconds in a second.
pub const NANOS_PER_SEC: u64 = 1_000_000_000;

/// Thresholds and intervals of the recovery strategies, in nanoseconds.
#[derive(Debug, Clone, Copy, PartialEq, Eq)]
pub struct RecoveryConfig {
    /// Time without peers before the first recovery (default 5 s).
    pub stale_threshold: u64,
    /// Periodic refresh interval while there are no peers (default 60 s).
    pub refresh_interval: u64,
    /// Added wait per further retry (default 10 s).
    pub retry_interval: u64,
    /// Retries before giving up until the next change (default 5).
    pub max_retries: u8,
    /// A tick gap above this means the system slept (default 30 s).
    pub sleep_threshold: u64,
}

impl RecoveryConfig {
    /// The default settings.
    pub fn standard() -> (c: Self)
        ensures
            c.stale_threshold == 5 * NANOS_PER_SEC,
            c.refresh_interval == 60 * NANOS_PER_SEC,
            c.retry_interval == 10 * NANOS_PER_SEC,
            c.max_retries == 5,
            c.sleep_threshold == 30 * NANOS_PER_SEC,
    {
        RecoveryConfig {
            stale_threshold: 5 * NANOS_PER_SEC,
            refresh_interval: 60 * NANOS_PER_SEC,
            retry_interval: 10 * NANOS_PER_SEC,
            max_retries: 5,
            sleep_threshold: 30 * NANOS_PER_SEC,
        }
    }
}

/// Reason why recovery was triggered.
#[derive(Debug, Clone, Copy, PartialEq, Eq)]
pub enum RecoveryReason {
    /// The system just woke from sleep.
    WakeFromSleep { elapsed_secs: u64 },
    /// Periodic refresh while there are no peers.
    PeriodicRefresh,
    /// Stale detection triggered (first attempt).
    StaleDetected,
    /// Retry attempt after a failed recovery.
    Retry { attempt: u8 },
}

/// Current recovery status for diagnostics.
#[derive(Debug, Clone, Copy, PartialEq, Eq)]
pub struct RecoveryStatus {
    pub had_peers: bool,
    pub in_recovery: bool,
    pub retry_count: u8,
    /// Nanoseconds since the peer count dropped to zero, if it is zero.
    pub zero_since: Option<u64>,
}

/// The state of the recovery manager.
#[derive(Debug, Clone, Copy, PartialEq, Eq)]
pub struct RecoveryModel {
    pub had_peers_before: bool,
    pub zero_peers_since: Option<u64>,
    pub last_refresh: u64,
    pub last_tick: u64,
    pub retry_count: u8,
    pub in_recovery: bool,
    pub config: RecoveryConfig,
}

/// Network recovery state and configuration.
#[derive(Debug)]
pub struct NetworkRecovery {
    state: RecoveryModel,
}

impl View for NetworkRecovery {
    type V = RecoveryModel;

    closed spec fn view(&self) -> RecoveryModel {
        self.state
    }
}

/// `a - b` on a monotonic clock, zero when `b` is later (as
/// `Instant::duration_since` saturates).
pub open spec fn since(a: u64, b: u64) -> u64 {
    if a >= b { (a - b) as u64 } else { 0 }
}

/// The wait, from losing the last peer, before retry `retry + 1`.
pub open spec fn retry_due(c: RecoveryConfig, retry: u8) -> int {
    c.stale_threshold + c.retry_interval * retry
}

/// One wake check at time `now`: the new state and the reason, if any.
pub open spec fn wake_step(m: RecoveryModel, now: u64) -> (RecoveryModel, Option<RecoveryReason>) {
    let elapsed = since(now, m.last_tick);
    let ticked = RecoveryModel { last_tick: now, ..m };
    if elapsed > m.config.sleep_threshold {
        (
            RecoveryModel { zero_peers_since: None, retry_count: 0, in_recovery: false, ..ticked },
            Some(RecoveryReason::WakeFromSleep { elapsed_secs: elapsed / NANOS_PER_SEC }),
        )
    } else {
        (ticked, None)
    }
}

/// One recovery check at time `now` with `count` peers: the new state and
/// the reason, if recovery should run.
pub open spec fn recover_step(m: RecoveryModel, now: u64, count: nat) -> (RecoveryModel, Option<RecoveryReason>) {
    let c = m.config;
    if count > 0 {
        (
            RecoveryModel {
                had_peers_before: true,
                zero_peers_since: None,
                retry_count: 0,
                in_recovery: false,
                ..m
            },
            None,
        )
    } else if since(now, m.last_refresh) >= c.refresh_interval {
        (RecoveryModel { last_refresh: now, ..m }, Some(RecoveryReason::PeriodicRefresh))
    } else if m.had_peers_before {
        match m.zero_peers_since {
            Some(t) => {
                let elapsed = since(now, t);
                if !m.in_recovery && elapsed >= c.stale_threshold {
                    (
                        RecoveryModel { in_recovery: true, retry_count: 1, ..m },
                        Some(RecoveryReason::StaleDetected),
                    )
                } else if m.in_recovery && m.retry_count < c.max_retries && elapsed >= retry_due(
                    c,
                    m.retry_count,
                ) {
                    (
                        RecoveryModel { retry_count: (m.retry_count + 1) as u8, ..m },
                        Some(RecoveryReason::Retry { attempt: (m.retry_count + 1) as u8 }),
                    )
                } else {
                    (m, None)
                }
            },
            None => (RecoveryModel { zero_peers_since: Some(now), ..m }, None),
        }
    } else {
        (RecoveryModel { zero_peers_since: Some(now), ..m }, None)
    }
}

/// The text shown for a recovery reason.
pub open spec fn reason_text(r: RecoveryReason) -> Seq<char> {
    match r {
        RecoveryReason::WakeFromSleep { elapsed_secs } => "wake from sleep ("@ + decimal(
            elapsed_secs as nat,
        ) + "s elapsed)"@,
        RecoveryReason::PeriodicRefresh => "periodic refresh"@,
        RecoveryReason::StaleDetected => "stale detection"@,
        RecoveryReason::Retry { attempt } => "retry #"@ + decimal(attempt as nat),
    }
}

impl RecoveryReason {
    /// The text shown for this reason.
    pub fn describe(&self) -> (s: String)
        ensures
            s@ == reason_text(*self),
    {
        match self {
            RecoveryReason::WakeFromSleep { elapsed_secs } => {
                let mut s = String::from_str("wake from sleep (");
                push_decimal(&mut s, *elapsed_secs);
                s.append("s elapsed)");
                s
            },
            RecoveryReason::PeriodicRefresh => String::from_str("periodic refresh"),
            RecoveryReason::StaleDetected => String::from_str("stale detection"),
            RecoveryReason::Retry { attempt } => {
                let mut s = String::from_str("retry #");
                push_decimal(&mut s, *attempt as u64);
                s
            },
        }
    }
}

fn elapsed_between(now: u64, earlier: u64) -> (r: u64)
    ensures
        r == since(now, earlier),
{
    if now >= earlier {
        now - earlier
    } else {
        0
    }
}

impl NetworkRecovery {
    /// A manager with the default settings, started at `now`.
    pub fn new(now: u64) -> (r: Self)
        ensures
            r@ == (RecoveryModel {
                had_peers_before: false,
                zero_peers_since: None,
                last_refresh: now,
                last_tick: now,
                retry_count: 0,
                in_recovery: false,
                config: r@.config,
            }),
            r@.config.stale_threshold == 5 * NANOS_PER_SEC,
            r@.config.refresh_interval == 60 * NANOS_PER_SEC,
            r@.config.retry_interval == 10 * NANOS_PER_SEC,
            r@.config.max_retries == 5,
            r@.config.sleep_threshold == 30 * NANOS_PER_SEC,
    {
        Self::with_config(now, RecoveryConfig::standard())
    }

    /// A manager with the given settings, started at `now`.
    pub fn with_config(now: u64, config: RecoveryConfig) -> (r: Self)
        ensures
            r@ == (RecoveryModel {
                had_peers_before: false,
                zero_peers_since: None,
                last_refresh: now,
                last_tick: now,
                retry_count: 0,
                in_recovery: false,
                config,
            }),
    {
        NetworkRecovery {
            state: RecoveryModel {
                had_peers_before: false,
                zero_peers_since: None,
                last_refresh: now,
                last_tick: now,
                retry_count: 0,
                in_recovery: false,
                config,
            },
        }
    }

    /// Detects a wake from sleep by the gap since the last tick; call at
    /// the start of each heartbeat tick. A wake resets the recovery state.
    pub fn detect_wake(&mut self, now: u64) -> (r: Option<RecoveryReason>)
        ensures
            (final(self)@, r) == wake_step(old(self)@, now),
    {
        let elapsed = elapsed_between(now, self.state.last_tick);
        self.state.last_tick = now;
        if elapsed > self.state.config.sleep_threshold {
            self.state.zero_peers_since = None;
            self.state.retry_count = 0;
            self.state.in_recovery = false;
            return Some(RecoveryReason::WakeFromSleep { elapsed_secs: elapsed / NANOS_PER_SEC });
        }
        None
    }

    /// Whether recovery (restarting the listener) should run, given the
    /// current peer count.
    pub fn should_recover(&mut self, now: u64, current_peer_count: usize) -> (r: Option<RecoveryReason>)
        ensures
            (final(self)@, r) == recover_step(old(self)@, now, current_peer_count as nat),
    {
        if current_peer_count > 0 {
            self.state.had_peers_before = true;
            self.state.zero_peers_since = None;
            self.state.retry_count = 0;
            self.state.in_recovery = false;
            return None;
        }
        let c = self.state.config;
        if elapsed_between(now, self.state.last_refresh) >= c.refresh_interval {
            self.state.last_refresh = now;
            return Some(RecoveryReason::PeriodicRefresh);
        }
        if self.state.had_peers_before {
            match self.state.zero_peers_since {
                Some(t) => {
                    let elapsed = elapsed_between(now, t);
                    if !self.state.in_recovery && elapsed >= c.stale_threshold {
                        self.state.in_recovery = true;
                        self.state.retry_count = 1;
                        return Some(RecoveryReason::StaleDetected);
                    }
                    if self.state.in_recovery && self.state.retry_count < c.max_retries {
                        let interval: u128 = c.retry_interval as u128;
                        let count: u128 = self.state.retry_count as u128;
                        assert(interval * count <= 0xffff_ffff_ffff_ffff * 255) by (nonlinear_arith)
                            requires
                                interval <= 0xffff_ffff_ffff_ffff,
                                count <= 255,
                        ;
                        let due: u128 = c.stale_threshold as u128 + interval * count;
                        if elapsed as u128 >= due {
                            self.state.retry_count = self.state.retry_count + 1;
                            return Some(RecoveryReason::Retry { attempt: self.state.retry_count });
                        }
                    }
                },
                None => {
                    self.state.zero_peers_since = Some(now);
                },
            }
        } else {
            self.state.zero_peers_since = Some(now);
        }
        None
    }

    /// The recovery status at time `now`.
    pub fn status(&self, now: u64) -> (s: RecoveryStatus)
        ensures
            s.had_peers == self@.had_peers_before,
            s.in_recovery == self@.in_recovery,
            s.retry_count == self@.retry_count,
            s.zero_since == match self@.zero_peers_since {
                Some(t) => Some(since(now, t)),
                None => None::<u64>,
            },
    {
        RecoveryStatus {
            had_peers: self.state.had_peers_before,
            in_recovery: self.state.in_recovery,
            retry_count: self.state.retry_count,
            zero_since: match self.state.zero_peers_since {
                Some(t) => Some(elapsed_between(now, t)),
                None => None,
            },
        }
    }
}


/// While any peer is connected no recovery runs, and the retry state is
/// cleared.
pub proof fn law_peers_present_no_recovery(m: RecoveryModel, now: u64, count: nat)
    requires
        count > 0,
    ensures
        recover_step(m, now, count).1 is None,
        recover_step(m, now, count).0.retry_count == 0,
        !recover_step(m, now, count).0.in_recovery,
        recover_step(m, now, count).0.zero_peers_since is None,
        recover_step(m, now, count).0.had_peers_before,
{
}

/// A retry is numbered one past the retries already made and never goes
/// beyond the configured maximum.
pub proof fn law_retry_bounded(m: RecoveryModel, now: u64, count: nat)
    ensures
        recover_step(m, now, count).1 matches Some(RecoveryReason::Retry { attempt }) ==> {
            &&& attempt == m.retry_count + 1
            &&& attempt <= m.config.max_retries
        },
{
}

/// Stale detection and retries only follow a loss of peers: a node that
/// never had a peer only gets periodic refreshes.
pub proof fn law_no_stale_without_peers(m: RecoveryModel, now: u64, count: nat)
    requires
        !m.had_peers_before,
    ensures
        recover_step(m, now, count).1 is None || recover_step(m, now, count).1 == Some(
            RecoveryReason::PeriodicRefresh,
        ),
{
}

/// A periodic refresh is not repeated before the refresh interval has
/// passed.
pub proof fn law_refresh_spacing(m: RecoveryModel, t1: u64, t2: u64)
    requires
        recover_step(m, t1, 0).1 == Some(RecoveryReason::PeriodicRefresh),
        t1 <= t2,
        t2 - t1 < m.config.refresh_interval,
    ensures
        recover_step(recover_step(m, t1, 0).0, t2, 0).1 != Some(RecoveryReason::PeriodicRefresh),
{
}

/// A detected wake starts recovery over: the next check without peers
/// only starts timing the outage (or makes a periodic refresh), it never
/// retries at once.
pub proof fn law_wake_restarts(m: RecoveryModel, t1: u64, t2: u64)
    requires
        wake_step(m, t1).1 is Some,
    ensures
        !wake_step(m, t1).0.in_recovery,
        wake_step(m, t1).0.retry_count == 0,
        ({
            let r = recover_step(wake_step(m, t1).0, t2, 0).1;
            r is None || r == Some(RecoveryReason::PeriodicRefresh)
        }),
{
}

/// The retry counter stays within its bound: once recovery is active it
/// counts from one up to the larger of one and the configured maximum.
pub open spec fn retry_state_ok(m: RecoveryModel) -> bool {
    &&& m.in_recovery ==> m.retry_count >= 1
    &&& m.retry_count <= m.config.max_retries || m.retry_count <= 1
}

/// Every check keeps the retry counter within its bound.
pub proof fn law_retry_state_kept(m: RecoveryModel, now: u64, count: nat)
    requires
        retry_state_ok(m),
    ensures
        retry_state_ok(recover_step(m, now, count).0),
        retry_state_ok(wake_step(m, now).0),
        recover_step(m, now, count).0.config == m.config,
        wake_step(m, now).0.config == m.config,
{
}


/// One call on the recovery manager: a wake check or a recovery check
/// with a number of connected peers.
pub enum RecoveryEvent {
    Wake { now: u64 },
    Check { now: u64, peers: nat },
}

/// The new state and reason of one call.
pub open spec fn event_step(m: RecoveryModel, e: RecoveryEvent) -> (RecoveryModel, Option<RecoveryReason>) {
    match e {
        RecoveryEvent::Wake { now } => wake_step(m, now),
        RecoveryEvent::Check { now, peers } => recover_step(m, now, peers),
    }
}

/// The state after a sequence of calls.
pub open spec fn run(m: RecoveryModel, evs: Seq<RecoveryEvent>) -> RecoveryModel
    decreases evs.len(),
{
    if evs.len() == 0 {
        m
    } else {
        event_step(run(m, evs.drop_last()), evs.last()).0
    }
}

/// What one call of a run keeps: a retry is numbered from two up to the
/// configured maximum and is the counter afterwards; a stale detection
/// only follows a loss of peers and starts recovery once (it needs
/// recovery not to be running); and recovery only stops on a reset (see
/// `is_reset`).
pub open spec fn step_keeps(pre: RecoveryModel, e: RecoveryEvent) -> bool {
    let (post, r) = event_step(pre, e);
    &&& (r matches Some(RecoveryReason::Retry { attempt }) ==> 2 <= attempt <= pre.config.max_retries && attempt
        == post.retry_count)
    &&& (r == Some(RecoveryReason::StaleDetected) ==> pre.had_peers_before && !pre.in_recovery && post.in_recovery)
    &&& (pre.in_recovery && !post.in_recovery ==> is_reset(pre, e))
}

/// A call that starts recovery over: a wake check that detects a wake, or
/// a check that sees peers.
pub open spec fn is_reset(pre: RecoveryModel, e: RecoveryEvent) -> bool {
    ||| (e is Wake && event_step(pre, e).1 is Some)
    ||| (e matches RecoveryEvent::Check { peers, .. } && peers > 0)
}

proof fn lemma_step_keeps(m: RecoveryModel, e: RecoveryEvent)
    requires
        retry_state_ok(m),
    ensures
        step_keeps(m, e),
        retry_state_ok(event_step(m, e).0),
        event_step(m, e).0.config == m.config,
{
}

/// Over any sequence of calls, from a state whose retry counter is in
/// bounds (as every new manager's is): the counter stays within the
/// configured maximum (or one), the settings never change (so the wake
/// threshold stays what it was made with), and every call keeps
/// `step_keeps`.
pub proof fn law_recovery_over_runs(m: RecoveryModel, evs: Seq<RecoveryEvent>)
    requires
        retry_state_ok(m),
    ensures
        retry_state_ok(run(m, evs)),
        run(m, evs).config == m.config,
        run(m, evs).retry_count <= m.config.max_retries || run(m, evs).retry_count <= 1,
        forall|i: int| 0 <= i < evs.len() ==> step_keeps(#[trigger] run(m, evs.take(i)), evs[i]),
    decreases evs.len(),
{
    if evs.len() > 0 {
        let init = evs.drop_last();
        law_recovery_over_runs(m, init);
        lemma_step_keeps(run(m, init), evs.last());
        assert forall|i: int| 0 <= i < evs.len() implies step_keeps(#[trigger] run(m, evs.take(i)), evs[i]) by {
            if i < evs.len() - 1 {
                assert(evs.take(i) =~= init.take(i));
                assert(evs[i] == init[i]);
                assert(step_keeps(run(m, init.take(i)), init[i]));
            } else {
                assert(evs.take(i) =~= init);
            }
        }
    }
}


/// The state after the first `k + 1` calls is one call after the state
/// after the first `k`.
proof fn lemma_run_step(m: RecoveryModel, evs: Seq<RecoveryEvent>, k: int)
    requires
        0 <= k < evs.len(),
    ensures
        run(m, evs.take(k + 1)) == event_step(run(m, evs.take(k)), evs[k]).0,
{
    assert(evs.take(k + 1).drop_last() =~= evs.take(k));
    assert(evs.take(k + 1).last() == evs[k]);
}

/// A stale network is reported at most once until a reset: after a stale
/// report at call `i`, no later call `j` reports it again unless a call in
/// between was a reset (a detected wake or a check that saw peers).
pub proof fn law_stale_once(m: RecoveryModel, evs: Seq<RecoveryEvent>, i: int, j: int)
    requires
        retry_state_ok(m),
        0 <= i < j < evs.len(),
        event_step(run(m, evs.take(i)), evs[i]).1 == Some(RecoveryReason::StaleDetected),
        forall|k: int| i < k < j ==> !is_reset(#[trigger] run(m, evs.take(k)), evs[k]),
    ensures
        event_step(run(m, evs.take(j)), evs[j]).1 != Some(RecoveryReason::StaleDetected),
{
    law_recovery_over_runs(m, evs);
    assert(step_keeps(run(m, evs.take(i)), evs[i]));
    lemma_run_step(m, evs, i);
    lemma_stays_in_recovery(m, evs, i + 1, j);
    assert(step_keeps(run(m, evs.take(j)), evs[j]));
}

proof fn lemma_stays_in_recovery(m: RecoveryModel, evs: Seq<RecoveryEvent>, from: int, to: int)
    requires
        retry_state_ok(m),
        0 <= from <= to < evs.len(),
        run(m, evs.take(from)).in_recovery,
        forall|k: int| from - 1 < k < to ==> !is_reset(#[trigger] run(m, evs.take(k)), evs[k]),
        forall|k: int| 0 <= k < evs.len() ==> step_keeps(#[trigger] run(m, evs.take(k)), evs[k]),
    ensures
        run(m, evs.take(to)).in_recovery,
    decreases to - from,
{
    if from < to {
        assert(step_keeps(run(m, evs.take(from)), evs[from]));
        assert(!is_reset(run(m, evs.take(from)), evs[from]));
        lemma_run_step(m, evs, from);
        lemma_stays_in_recovery(m, evs, from + 1, to);
    }
}

/// A wake check is exact: after a gap above the threshold it reports the
/// gap in whole seconds, clears the outage timing and the retries and
/// keeps whether peers were ever seen; otherwise it reports nothing and
/// changes nothing but the tick. Either way the tick restarts, so a second
/// check at the same moment reports nothing.
pub proof fn law_wake_detection(m: RecoveryModel, now: u64)
    ensures
        since(now, m.last_tick) > m.config.sleep_threshold ==> {
            &&& wake_step(m, now).1 == Some(
                RecoveryReason::WakeFromSleep { elapsed_secs: since(now, m.last_tick) / NANOS_PER_SEC },
            )
            &&& wake_step(m, now).0.zero_peers_since is None
            &&& wake_step(m, now).0.retry_count == 0
            &&& !wake_step(m, now).0.in_recovery
            &&& wake_step(m, now).0.had_peers_before == m.had_peers_before
        },
        since(now, m.last_tick) <= m.config.sleep_threshold ==> wake_step(m, now) == (
            RecoveryModel { last_tick: now, ..m },
            None::<RecoveryReason>,
        ),
        wake_step(m, now).0.last_tick == now,
        wake_step(wake_step(m, now).0, now).1 is None,
{
}

} // verus!
