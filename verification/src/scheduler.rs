//! The daemon's main loop: when to poll the review server, when to look at
//! the cron schedules, and for how long to sleep in between.
//!
//! Times are milliseconds of the local wall clock since the epoch.  Sums
//! that leave the range of `i64` stop at its ends.

use crate::runtime_data::{s5ciRuntimeData, spec_cron_triggers, CronTriggerSchedule};
use crate::s5ci_config::{
    position_of, s5CronTrigger, s5TriggerAction, s5ciConfig, spec_position_of,
};
use crate::schedule::{next_fire_after, time_in_range};
use cron::Schedule;
use vstd::prelude::*;

verus! {

/// How far back the first poll reaches where the configuration does not
/// say, in seconds.
pub const DEFAULT_SYNC_HORIZON_SEC: u32 = 86400;

/// The pause between two polls where the configuration does not say, in
/// milliseconds.
pub const DEFAULT_POLL_WAIT_MS: u64 = 300000;

/// By how much a poll is due before its pause is over, in milliseconds.
pub const POLL_EARLY_MS: i64 = 10;

/// How far ahead the next firing of a schedule is looked for, in
/// milliseconds: within a day there is a poll for sure.
pub const CRON_CEILING_MS: i64 = 86400000;

/// An integer as a time: unchanged within the range of `i64`, and the
/// nearest end of the range outside it.
pub open spec fn spec_clamp(t: int) -> i64 {
    if t < i64::MIN {
        i64::MIN
    } else if t > i64::MAX {
        i64::MAX
    } else {
        t as i64
    }
}

pub fn clamp(t: i128) -> (c: i64)
    ensures
        c == spec_clamp(t as int),
{
    if t < -0x8000_0000_0000_0000 {
        -0x8000_0000_0000_0000
    } else if t > 0x7fff_ffff_ffff_ffff {
        0x7fff_ffff_ffff_ffff
    } else {
        t as i64
    }
}

/// A time moved by a number of seconds.
pub fn ndt_add_seconds(ndt: i64, sec: i32) -> (moved: i64)
    ensures
        moved == spec_clamp(ndt + sec * 1000),
{
    clamp((ndt as i128) + (sec as i128) * 1000)
}

/// A time moved by a number of seconds; `None` where that leaves the
/// range of times.
pub fn ndt_add_seconds_safe(ndt: i64, sec: i32) -> (moved: Option<i64>)
    ensures
        moved.is_some() == (i64::MIN <= ndt + sec * 1000 <= i64::MAX),
        moved matches Some(t) ==> t == ndt + sec * 1000,
{
    let wide: i128 = (ndt as i128) + (sec as i128) * 1000;
    if wide < -0x8000_0000_0000_0000 || wide > 0x7fff_ffff_ffff_ffff {
        None
    } else {
        Some(wide as i64)
    }
}

/// A time moved by a number of milliseconds.
pub fn ndt_add_ms(ndt: i64, ms: i64) -> (moved: i64)
    ensures
        moved == spec_clamp(ndt + ms),
{
    clamp((ndt as i128) + (ms as i128))
}

/// How far back the first poll reaches, in seconds: what the server's
/// section says, else the configuration's default, else
/// `DEFAULT_SYNC_HORIZON_SEC`.
pub open spec fn spec_sync_horizon_sec(config: &s5ciConfig) -> u32 {
    match config.server.sync_horizon_sec {
        Some(h) => h,
        None => match config.default_sync_horizon_sec {
            Some(h) => h,
            None => DEFAULT_SYNC_HORIZON_SEC,
        },
    }
}

pub fn sync_horizon_sec(config: &s5ciConfig) -> (h: u32)
    ensures
        h == spec_sync_horizon_sec(config),
{
    match config.server.sync_horizon_sec {
        Some(h) => h,
        None => match config.default_sync_horizon_sec {
            Some(h) => h,
            None => DEFAULT_SYNC_HORIZON_SEC,
        },
    }
}

/// The pause after a poll, in milliseconds: the configured pause, or the
/// one for catching up while older changes are still to be fetched and
/// such a pause is configured.
pub open spec fn spec_poll_wait_ms(config: &s5ciConfig, syncing: bool) -> u64 {
    let usual = match config.server.poll_wait_ms {
        Some(w) => w,
        None => DEFAULT_POLL_WAIT_MS,
    };
    if syncing {
        match config.server.syncing_poll_wait_ms {
            Some(w) => w,
            None => usual,
        }
    } else {
        usual
    }
}

pub fn poll_wait_ms(config: &s5ciConfig, syncing: bool) -> (w: u64)
    ensures
        w == spec_poll_wait_ms(config, syncing),
{
    let usual = match config.server.poll_wait_ms {
        Some(w) => w,
        None => DEFAULT_POLL_WAIT_MS,
    };
    if syncing {
        match config.server.syncing_poll_wait_ms {
            Some(w) => w,
            None => usual,
        }
    } else {
        usual
    }
}

/// The whole second in which a time lies, in seconds since the epoch.
pub open spec fn spec_seconds(t: i64) -> int {
    if t >= 0 {
        t / 1000
    } else {
        -((-t + 999) / 1000)
    }
}

pub fn seconds(t: i64) -> (s: i64)
    ensures
        s == spec_seconds(t),
{
    if t >= 0 {
        t / 1000
    } else {
        let up: i128 = (-(t as i128) + 999) / 1000;
        (-up) as i64
    }
}

/// What the loop carries from one round to the next.
#[derive(Debug, Clone, Copy, PartialEq, Eq, Structural)]
pub struct LoopState {
    /// Changes older than this are still to be fetched; `None` once the
    /// past has been caught up with.
    pub before: Option<i64>,
    /// Changes newer than this are to be fetched next.
    pub after: Option<i64>,
    /// When the schedules were last looked at: every firing up to then
    /// has been dealt with.
    pub cron_timestamp: i64,
    /// When the schedules are to be looked at next.
    pub cron_wakeup: i64,
    /// When the next poll is due.
    pub poll_timestamp: i64,
}

/// The state with which the loop starts at `now`: the first poll is due at
/// once and reaches back by the sync horizon from the start of the current
/// second, and the schedules are to be looked at at once, for what fires
/// from `now` on.
pub open spec fn spec_loop_start(now: i64, horizon_sec: u32) -> LoopState {
    LoopState {
        before: None,
        after: Some(spec_clamp((spec_seconds(now) - horizon_sec) * 1000)),
        cron_timestamp: now,
        cron_wakeup: now,
        poll_timestamp: now,
    }
}

pub fn loop_start(now: i64, horizon_sec: u32) -> (state: LoopState)
    ensures
        state == spec_loop_start(now, horizon_sec),
{
    let start = clamp(((seconds(now) as i128) - (horizon_sec as i128)) * 1000);
    LoopState {
        before: None,
        after: Some(start),
        cron_timestamp: now,
        cron_wakeup: now,
        poll_timestamp: now,
    }
}

/// The state at the top of a round: the start of the window to fetch
/// moves back by the configured trigger delay.
pub open spec fn spec_round_begins(state: LoopState, delay_sec: Option<u32>) -> LoopState {
    match (delay_sec, state.after) {
        (Some(delay), Some(after)) => LoopState {
            after: Some(spec_clamp(after - delay * 1000)),
            ..state
        },
        _ => state,
    }
}

pub fn round_begins(state: LoopState, delay_sec: Option<u32>) -> (next: LoopState)
    ensures
        next == spec_round_begins(state, delay_sec),
{
    match (delay_sec, state.after) {
        (Some(delay), Some(after)) => LoopState {
            before: state.before,
            after: Some(clamp((after as i128) - (delay as i128) * 1000)),
            cron_timestamp: state.cron_timestamp,
            cron_wakeup: state.cron_wakeup,
            poll_timestamp: state.poll_timestamp,
        },
        _ => state,
    }
}

/// Whether a poll is due at `now`.
pub open spec fn spec_poll_is_due(state: LoopState, now: i64) -> bool {
    now > state.poll_timestamp
}

pub fn poll_is_due(state: LoopState, now: i64) -> (due: bool)
    ensures
        due == spec_poll_is_due(state, now),
{
    now > state.poll_timestamp
}

/// What a poll brought: the bounds for the next one.
#[derive(Debug, Clone, Copy, PartialEq, Eq, Structural)]
pub struct PollWindow {
    /// Where to go on fetching older changes, if the server has more.
    pub before_when: Option<i64>,
    /// From when on to fetch newer changes.
    pub after_when: Option<i64>,
}

/// Whether a bound on older changes lies beyond the sync horizon at `now`:
/// its second is more than the horizon before the current one.
pub open spec fn spec_beyond_horizon(before: i64, now: i64, horizon_sec: u32) -> bool {
    spec_seconds(before) < spec_seconds(now) - horizon_sec
}

/// The state after a poll that was due.  A poll that succeeded moves the
/// window to what it brought, and fetching older changes ends once their
/// bound lies beyond the sync horizon; a poll that failed leaves the
/// window as it was, so that nothing is skipped.  Either way the next poll
/// is due one pause after this one was, less `POLL_EARLY_MS`; the pause is
/// the one for catching up while older changes are still to be fetched.
pub open spec fn spec_after_poll(
    state: LoopState,
    window: Option<PollWindow>,
    now: i64,
    config: &s5ciConfig,
) -> LoopState {
    let horizon = spec_sync_horizon_sec(config);
    let (before, after) = match window {
        Some(w) => (
            match w.before_when {
                Some(b) => if spec_beyond_horizon(b, now, horizon) {
                    None
                } else {
                    Some(b)
                },
                None => None,
            },
            w.after_when,
        ),
        None => (state.before, state.after),
    };
    LoopState {
        before,
        after,
        cron_timestamp: state.cron_timestamp,
        cron_wakeup: state.cron_wakeup,
        poll_timestamp: spec_clamp(
            state.poll_timestamp + spec_poll_wait_ms(config, before.is_some()) - POLL_EARLY_MS,
        ),
    }
}

pub fn after_poll(state: LoopState, window: Option<PollWindow>, now: i64, config: &s5ciConfig) -> (next:
    LoopState)
    ensures
        next == spec_after_poll(state, window, now, config),
{
    let horizon = sync_horizon_sec(config);
    let (before, after) = match window {
        Some(w) => {
            let before = match w.before_when {
                Some(b) => {
                    if (seconds(b) as i128) < (seconds(now) as i128) - (horizon as i128) {
                        None
                    } else {
                        Some(b)
                    }
                },
                None => None,
            };
            (before, w.after_when)
        },
        None => (state.before, state.after),
    };
    let wait = poll_wait_ms(config, before.is_some());
    LoopState {
        before,
        after,
        cron_timestamp: state.cron_timestamp,
        cron_wakeup: state.cron_wakeup,
        poll_timestamp: clamp(
            (state.poll_timestamp as i128) + (wait as i128) - (POLL_EARLY_MS as i128),
        ),
    }
}

/// Whether the schedules are to be looked at, at `now`: the time to look
/// at them has come.
pub open spec fn spec_cron_is_due(state: LoopState, now: i64) -> bool {
    now >= state.cron_wakeup
}

pub fn cron_is_due(state: LoopState, now: i64) -> (due: bool)
    ensures
        due == spec_cron_is_due(state, now),
{
    now >= state.cron_wakeup
}

/// The state after the schedules were looked at as of `looked_at`, and
/// are to be looked at again at `next_check`.
pub fn after_cron(state: LoopState, looked_at: i64, next_check: i64) -> (next: LoopState)
    ensures
        next == (LoopState { cron_timestamp: looked_at, cron_wakeup: next_check, ..state }),
{
    LoopState {
        before: state.before,
        after: state.after,
        cron_timestamp: looked_at,
        cron_wakeup: next_check,
        poll_timestamp: state.poll_timestamp,
    }
}

/// When the loop has to be awake again: when the next poll is due or when
/// the schedules are to be looked at, whichever comes first.
pub open spec fn spec_next_wakeup(state: LoopState) -> int {
    if state.poll_timestamp < state.cron_wakeup {
        state.poll_timestamp as int
    } else {
        state.cron_wakeup as int
    }
}

/// For how long to sleep at `now`, in milliseconds: up to one millisecond
/// past the next wake-up; not at all if that has passed.
pub open spec fn spec_sleep_ms(state: LoopState, now: i64) -> Option<u64> {
    let wait = spec_next_wakeup(state) - now + 1;
    if wait > u64::MAX {
        Some(u64::MAX)
    } else if wait > 0 {
        Some(wait as u64)
    } else {
        None
    }
}

pub fn sleep_ms(state: LoopState, now: i64) -> (pause: Option<u64>)
    ensures
        pause == spec_sleep_ms(state, now),
{
    let wake: i128 = if state.poll_timestamp < state.cron_wakeup {
        state.poll_timestamp as i128
    } else {
        state.cron_wakeup as i128
    };
    let wait: i128 = wake - (now as i128) + 1;
    if wait > 0xffff_ffff_ffff_ffff {
        Some(0xffff_ffff_ffff_ffff)
    } else if wait > 0 {
        Some(wait as u64)
    } else {
        None
    }
}

/// The loop never sleeps past a poll that is due or past the time to look
/// at the schedules: the sleep ends one millisecond after the earlier of
/// the two, and then a poll is due, or the schedules are.  Where there is
/// nothing to sleep for, one of the two is due already.
pub proof fn lemma_sleep_reaches_next_task(state: LoopState, now: i64)
    ensures
        match spec_sleep_ms(state, now) {
            Some(pause) => {
                &&& pause >= 1
                &&& now + pause <= spec_next_wakeup(state) + 1
                &&& now + pause <= state.cron_wakeup + 1
                &&& now + pause <= state.poll_timestamp + 1
                &&& pause < u64::MAX ==> now + pause == spec_next_wakeup(state) + 1
                &&& pause < u64::MAX ==> (now + pause > state.poll_timestamp || now + pause
                    >= state.cron_wakeup)
            },
            None => spec_poll_is_due(state, now) || spec_cron_is_due(state, now),
        },
{
}

/// Where a round of the loop stands.
#[derive(Debug, Clone, Copy, PartialEq, Eq, Structural)]
pub enum LoopPhase {
    /// A round is about to begin.
    Waking,
    /// The review server is being polled, in a round that began at `now`.
    Polling { now: i64 },
    /// The schedules are being looked at, as of `now`.
    CheckingCron { now: i64 },
    /// The clock is being read to see for how long to sleep.
    Settling,
}

/// What the loop is told.
#[derive(Debug, Clone, Copy, PartialEq, Eq, Structural)]
pub enum LoopEvent {
    /// A round begins at `now`.
    Woke { now: i64 },
    /// The poll has ended at `now`; it brought `window`, or failed.
    Polled { now: i64, window: Option<PollWindow> },
    /// The schedules were looked at, and are to be looked at again then.
    CronChecked { next_check: i64 },
    /// The clock reads `now`.
    Clock { now: i64 },
}

/// What the loop asks for.
#[derive(Debug, Clone, Copy, PartialEq, Eq, Structural)]
pub enum LoopAction {
    /// Poll the review server for this window and process what it brings.
    Poll { before: Option<i64>, after: Option<i64> },
    /// Look at the schedules: those that fired since `since`, as of `now`.
    CheckCron { since: i64, now: i64 },
    /// Read the clock.
    ReadClock,
    /// Reap the children that have ended, then sleep for so long, if at
    /// all; then begin the next round.
    ReapAndSleep { pause: Option<u64> },
    /// The loop was told something it had not asked for.
    Halt,
}

/// What follows the poll, or its omission, in a round that began at `now`.
pub open spec fn spec_cron_stage(state: LoopState, now: i64) -> (
    (LoopState, LoopPhase),
    LoopAction,
) {
    if spec_cron_is_due(state, now) {
        (
            (state, LoopPhase::CheckingCron { now }),
            LoopAction::CheckCron { since: state.cron_timestamp, now },
        )
    } else {
        ((state, LoopPhase::Settling), LoopAction::ReadClock)
    }
}

/// One step of the loop.  A round moves the window by the trigger delay,
/// polls if a poll is due, looks at the schedules if that is due, and
/// sleeps until the next of the two is.  A look at the schedules as of
/// some time deals with every firing up to that time, and the next look
/// goes on from there, so that no firing is passed over.
pub open spec fn spec_loop_step(
    state: LoopState,
    phase: LoopPhase,
    event: LoopEvent,
    config: &s5ciConfig,
) -> ((LoopState, LoopPhase), LoopAction) {
    match (phase, event) {
        (LoopPhase::Waking, LoopEvent::Woke { now }) => {
            let begun = spec_round_begins(state, config.default_regex_trigger_delay_sec);
            if spec_poll_is_due(begun, now) {
                (
                    (begun, LoopPhase::Polling { now }),
                    LoopAction::Poll { before: begun.before, after: begun.after },
                )
            } else {
                spec_cron_stage(begun, now)
            }
        },
        (LoopPhase::Polling { now: began }, LoopEvent::Polled { now, window }) => spec_cron_stage(
            spec_after_poll(state, window, now, config),
            began,
        ),
        (LoopPhase::CheckingCron { now: looked_at }, LoopEvent::CronChecked { next_check }) => (
            (
                LoopState { cron_timestamp: looked_at, cron_wakeup: next_check, ..state },
                LoopPhase::Settling,
            ),
            LoopAction::ReadClock,
        ),
        (LoopPhase::Settling, LoopEvent::Clock { now }) => (
            (state, LoopPhase::Waking),
            LoopAction::ReapAndSleep { pause: spec_sleep_ms(state, now) },
        ),
        _ => ((state, LoopPhase::Waking), LoopAction::Halt),
    }
}

/// Each look at the schedules goes on from where the one before it
/// stopped.  After a look as of `looked_at` the state remembers that time
/// through the start of a round and through a poll, the schedules are due
/// again exactly from `next_check` on, and the look that follows asks for
/// what has fired since `looked_at`: no firing is passed over, and none is
/// dealt with twice.
pub proof fn lemma_looks_follow_on(
    state: LoopState,
    looked_at: i64,
    next_check: i64,
    window: Option<PollWindow>,
    poll_now: i64,
    now: i64,
    config: &s5ciConfig,
)
    ensures
        ({
            let ((after, phase), action) = spec_loop_step(
                state,
                LoopPhase::CheckingCron { now: looked_at },
                LoopEvent::CronChecked { next_check },
                config,
            );
            let begun = spec_round_begins(after, config.default_regex_trigger_delay_sec);
            let polled = spec_after_poll(begun, window, poll_now, config);
            &&& action == LoopAction::ReadClock
            &&& after.cron_timestamp == looked_at && after.cron_wakeup == next_check
            &&& begun.cron_timestamp == looked_at && begun.cron_wakeup == next_check
            &&& polled.cron_timestamp == looked_at && polled.cron_wakeup == next_check
            &&& spec_cron_is_due(polled, now) == (now >= next_check)
            &&& now >= next_check ==> spec_cron_stage(polled, now).1 == (LoopAction::CheckCron {
                since: looked_at,
                now,
            })
            &&& now < next_check ==> spec_cron_stage(polled, now).1 == LoopAction::ReadClock
        }),
{
}

fn cron_stage(state: LoopState, now: i64) -> (next: ((LoopState, LoopPhase), LoopAction))
    ensures
        next == spec_cron_stage(state, now),
{
    if cron_is_due(state, now) {
        (
            (state, LoopPhase::CheckingCron { now }),
            LoopAction::CheckCron { since: state.cron_timestamp, now },
        )
    } else {
        ((state, LoopPhase::Settling), LoopAction::ReadClock)
    }
}

/// Feeds the loop what happened, and says what to do next.
pub fn do_loop(state: LoopState, phase: LoopPhase, event: LoopEvent, config: &s5ciConfig) -> (next:
    ((LoopState, LoopPhase), LoopAction))
    ensures
        next == spec_loop_step(state, phase, event, config),
{
    let halt = ((state, LoopPhase::Waking), LoopAction::Halt);
    match phase {
        LoopPhase::Waking => match event {
            LoopEvent::Woke { now } => {
                let begun = round_begins(state, config.default_regex_trigger_delay_sec);
                if poll_is_due(begun, now) {
                    (
                        (begun, LoopPhase::Polling { now }),
                        LoopAction::Poll { before: begun.before, after: begun.after },
                    )
                } else {
                    cron_stage(begun, now)
                }
            },
            _ => halt,
        },
        LoopPhase::Polling { now: began } => match event {
            LoopEvent::Polled { now, window } => cron_stage(
                after_poll(state, window, now, config),
                began,
            ),
            _ => halt,
        },
        LoopPhase::CheckingCron { now: looked_at } => match event {
            LoopEvent::CronChecked { next_check } => (
                (after_cron(state, looked_at, next_check), LoopPhase::Settling),
                LoopAction::ReadClock,
            ),
            _ => halt,
        },
        LoopPhase::Settling => match event {
            LoopEvent::Clock { now } => (
                (state, LoopPhase::Waking),
                LoopAction::ReapAndSleep { pause: sleep_ms(state, now) },
            ),
            _ => halt,
        },
    }
}

/// Whether a schedule has fired since it was last looked at: its first
/// firing after that time lies at or before `now`.
pub open spec fn spec_cron_fires(first_after_since: Option<i64>, now: i64) -> bool {
    match first_after_since {
        Some(t) => t <= now,
        None => false,
    }
}

pub fn cron_fires(first_after_since: Option<i64>, now: i64) -> (fires: bool)
    ensures
        fires == spec_cron_fires(first_after_since, now),
{
    match first_after_since {
        Some(t) => t <= now,
        None => false,
    }
}

/// The wake-up time after one more firing is taken into account: the
/// firing itself if it is still to come and not later than the time found
/// so far, else that time.
pub open spec fn spec_earlier_wakeup(current: i64, firing: Option<i64>, now: i64) -> i64 {
    match firing {
        Some(d) => if d > now && d <= current {
            d
        } else {
            current
        },
        None => current,
    }
}

pub fn earlier_wakeup(current: i64, firing: Option<i64>, now: i64) -> (wakeup: i64)
    ensures
        wakeup == spec_earlier_wakeup(current, firing, now),
{
    match firing {
        Some(d) => if d > now && d <= current {
            d
        } else {
            current
        },
        None => current,
    }
}

/// The command that the cron trigger of a name runs: that of the first
/// trigger so named, if its action is a command.
pub open spec fn spec_cron_command(triggers: Seq<(String, s5CronTrigger)>, name: Seq<char>) -> Option<
    Seq<char>,
> {
    match spec_position_of(triggers, name) {
        Some(i) => match triggers[i].1.action {
            s5TriggerAction::command(cmd) => Some(cmd@),
            s5TriggerAction::event(_) => None,
        },
        None => None,
    }
}

pub fn cron_command(config: &s5ciConfig, name: &str) -> (command: Option<String>)
    ensures
        command.deep_view() == spec_cron_command(spec_cron_triggers(config), name@),
{
    match &config.cron_triggers {
        Some(triggers) => match position_of(triggers, name) {
            Some(i) => {
                proof {
                    crate::s5ci_config::lemma_position_of(triggers@, name@);
                }
                match &triggers[i].1.action {
                    s5TriggerAction::command(cmd) => Some(cmd.clone()),
                    s5TriggerAction::event(_) => None,
                }
            },
            None => None,
        },
        None => None,
    }
}

/// The first firing of a schedule that is still to come after `now`,
/// looked for from `since` on, firing by firing.  The search ends where the
/// schedule has no further firing or does not move forward.
///
/// What the schedule answers depends on the time zone of the machine, so
/// the contract speaks of the answers it gave, whatever they were: the
/// result is what `firing_step` makes of them, one after the other, up to
/// the first answer that ends the search.
fn first_firing_from(schedule: &Schedule, since: i64, now: i64) -> (found: Option<i64>)
    requires
        time_in_range(since),
        time_in_range(now),
    ensures
        found matches Some(d) ==> d > now,
        exists|answers: Seq<Option<i64>>| #[trigger]
            search_ends_with(since, now, answers, found),
{
    let mut cursor = since;
    let mut found: Option<i64> = None;
    let mut done = false;
    let ghost mut answers: Seq<Option<i64>> = Seq::empty();
    while !done
        invariant
            time_in_range(since),
            time_in_range(now),
            time_in_range(cursor),
            since <= cursor,
            found matches Some(d) ==> d > now,
            !done ==> found.is_none(),
            !done ==> spec_cursor_after(since, now, answers) == Some(cursor),
            done ==> search_ends_with(since, now, answers, found),
        decreases
                (if done {
                    0int
                } else if cursor <= now {
                    now - cursor + 2
                } else {
                    1int
                }),
    {
        let answer = next_fire_after(schedule, cursor);
        proof {
            let before = answers;
            answers = answers.push(answer);
            assert(answers.drop_last() =~= before);
            assert(answers.last() == answer);
        }
        match firing_step(cursor, answer, now) {
            FiringSearch::Found(t) => {
                found = Some(t);
                done = true;
            },
            FiringSearch::Ended => {
                done = true;
            },
            FiringSearch::Continue(t) => {
                cursor = t;
            },
        }
    }
    found
}

/// What one answer of a schedule does to the search for its first firing
/// that is still to come after `now`.
#[derive(Debug, Clone, Copy, PartialEq, Eq, Structural)]
pub enum FiringSearch {
    /// The firing is the one looked for.
    Found(i64),
    /// The search is over, and nothing was found.
    Ended,
    /// The firing is not after `now`; the search goes on from it.
    Continue(i64),
}

/// What the answer to "when do you fire next after `cursor`?" does to the
/// search: a firing after `now` is the one looked for; one at or before
/// `now` is where the search goes on, if it lies after `cursor`; no
/// firing, or one that does not lie after `cursor`, ends the search.
pub open spec fn spec_firing_step(cursor: i64, answer: Option<i64>, now: i64) -> FiringSearch {
    match answer {
        None => FiringSearch::Ended,
        Some(t) => if t > now {
            FiringSearch::Found(t)
        } else if t <= cursor {
            FiringSearch::Ended
        } else {
            FiringSearch::Continue(t)
        },
    }
}

pub fn firing_step(cursor: i64, answer: Option<i64>, now: i64) -> (step: FiringSearch)
    ensures
        step == spec_firing_step(cursor, answer, now),
{
    match answer {
        None => FiringSearch::Ended,
        Some(t) => if t > now {
            FiringSearch::Found(t)
        } else if t <= cursor {
            FiringSearch::Ended
        } else {
            FiringSearch::Continue(t)
        },
    }
}

/// Where the search stands after the schedule has given `answers`, one
/// after the other, each to the question from where the search stood: the
/// time to ask from next, or `None` once an answer has ended the search.
pub open spec fn spec_cursor_after(since: i64, now: i64, answers: Seq<Option<i64>>) -> Option<i64>
    decreases answers.len(),
{
    if answers.len() == 0 {
        Some(since)
    } else {
        match spec_cursor_after(since, now, answers.drop_last()) {
            Some(cursor) => match spec_firing_step(cursor, answers.last(), now) {
                FiringSearch::Continue(t) => Some(t),
                _ => None,
            },
            None => None,
        }
    }
}

/// Whether a search from `since` that was given `answers` ends with the
/// last of them, and with `found`: every answer but the last sends the
/// search on, and the last one either is the firing found or ends the
/// search with nothing.
pub open spec fn search_ends_with(
    since: i64,
    now: i64,
    answers: Seq<Option<i64>>,
    found: Option<i64>,
) -> bool {
    &&& answers.len() >= 1
    &&& match spec_cursor_after(since, now, answers.drop_last()) {
        Some(cursor) => match spec_firing_step(cursor, answers.last(), now) {
            FiringSearch::Found(t) => found == Some(t),
            FiringSearch::Ended => found.is_none(),
            FiringSearch::Continue(t) => false,
        },
        None => false,
    }
}

/// A search never goes back and only finds a firing that is still to
/// come: while it goes on it stands at or after `since` and not after
/// `now`, and what it finds lies after `now`.
pub proof fn lemma_search_moves_forward(
    since: i64,
    now: i64,
    answers: Seq<Option<i64>>,
    found: Option<i64>,
)
    ensures
        spec_cursor_after(since, now, answers) matches Some(cursor) ==> since <= cursor && (
        answers.len() > 0 ==> since < cursor <= now),
        search_ends_with(since, now, answers, found) ==> (found matches Some(d) ==> d > now),
    decreases answers.len(),
{
    if answers.len() > 0 {
        lemma_search_moves_forward(since, now, answers.drop_last(), None);
    }
}

/// What a look at the schedules gave.
#[derive(Debug, Clone)]
pub struct CronOutcome {
    /// The commands of the triggers that fired, in the order of the
    /// schedules.
    pub commands: Vec<String>,
    /// When to look at the schedules again: when the next of them fires.
    pub next_check: i64,
}

/// What one schedule was found to do.
#[derive(Debug, Clone)]
pub struct ScheduleFirings {
    /// The name of the schedule's trigger.
    pub name: String,
    /// Its first firing after the last look, if it fires again at all.
    pub first_after_since: Option<i64>,
    /// Its first firing that is still to come, if one was found.
    pub first_after_now: Option<i64>,
}

/// The commands to start for the first `upto` schedules, in their order:
/// for each that has fired, the command of its trigger, if it has one.
pub open spec fn spec_cron_commands(
    triggers: Seq<(String, s5CronTrigger)>,
    firings: Seq<ScheduleFirings>,
    now: i64,
    upto: int,
) -> Seq<Seq<char>>
    decreases upto,
{
    if upto <= 0 {
        Seq::empty()
    } else {
        let before = spec_cron_commands(triggers, firings, now, upto - 1);
        let f = firings[upto - 1];
        if spec_cron_fires(f.first_after_since, now) {
            match spec_cron_command(triggers, f.name@) {
                Some(command) => before.push(command),
                None => before,
            }
        } else {
            before
        }
    }
}

/// The time to look again, going by the first `upto` schedules: the
/// earliest of their firings that are still to come after `now`, and at
/// the latest `CRON_CEILING_MS` after `now`.
pub open spec fn spec_cron_wakeup(firings: Seq<ScheduleFirings>, now: i64, upto: int) -> i64
    decreases upto,
{
    if upto <= 0 {
        spec_clamp(now + CRON_CEILING_MS)
    } else {
        spec_earlier_wakeup(
            spec_cron_wakeup(firings, now, upto - 1),
            firings[upto - 1].first_after_now,
            now,
        )
    }
}

/// The time to look again is ahead: after `now`, unless the end of time is
/// nearer than the ceiling, never after the ceiling, and never after a
/// firing that is still to come.
pub proof fn lemma_cron_wakeup(firings: Seq<ScheduleFirings>, now: i64, upto: int)
    requires
        0 <= upto <= firings.len(),
    ensures
        now <= spec_cron_wakeup(firings, now, upto) <= spec_clamp(now + CRON_CEILING_MS),
        now < i64::MAX ==> now < spec_cron_wakeup(firings, now, upto),
        forall|i: int|
            0 <= i < upto && (#[trigger] firings[i]).first_after_now.is_some()
                && firings[i].first_after_now.unwrap() > now ==> spec_cron_wakeup(
                firings,
                now,
                upto,
            ) <= firings[i].first_after_now.unwrap(),
    decreases upto,
{
    if upto > 0 {
        lemma_cron_wakeup(firings, now, upto - 1);
    }
}

/// Decides what to do about the schedules from what each was found to do:
/// which commands to start, and when to look again.
pub fn cron_decisions(config: &s5ciConfig, firings: &Vec<ScheduleFirings>, now: i64) -> (outcome:
    CronOutcome)
    ensures
        outcome.commands.deep_view() == spec_cron_commands(
            spec_cron_triggers(config),
            firings@,
            now,
            firings@.len() as int,
        ),
        outcome.next_check == spec_cron_wakeup(firings@, now, firings@.len() as int),
        now <= outcome.next_check <= spec_clamp(now + CRON_CEILING_MS),
        now < i64::MAX ==> now < outcome.next_check,
{
    proof {
        lemma_cron_wakeup(firings@, now, firings@.len() as int);
    }
    let mut wakeup = clamp((now as i128) + (CRON_CEILING_MS as i128));
    let mut commands: Vec<String> = Vec::new();
    let mut i: usize = 0;
    assert(commands.deep_view() =~= Seq::<Seq<char>>::empty());
    while i < firings.len()
        invariant
            i <= firings@.len(),
            commands.deep_view() == spec_cron_commands(
                spec_cron_triggers(config),
                firings@,
                now,
                i as int,
            ),
            wakeup == spec_cron_wakeup(firings@, now, i as int),
        decreases firings.len() - i,
    {
        let f = &firings[i];
        if cron_fires(f.first_after_since, now) {
            match cron_command(config, f.name.as_str()) {
                Some(cmd) => {
                    let ghost before = commands.deep_view();
                    commands.push(cmd);
                    assert(commands.deep_view() =~= before.push(cmd@));
                },
                None => {},
            }
        }
        wakeup = earlier_wakeup(wakeup, f.first_after_now, now);
        i += 1;
    }
    CronOutcome { commands, next_check: wakeup }
}

/// Whether `firings` tells of the schedules, one by one, and every firing
/// said to be still to come lies after `now`.
pub open spec fn firings_of(
    firings: Seq<ScheduleFirings>,
    schedules: Seq<CronTriggerSchedule>,
    now: i64,
) -> bool {
    &&& firings.len() == schedules.len()
    &&& forall|i: int|
        0 <= i < firings.len() ==> {
            &&& (#[trigger] firings[i]).name@ == schedules[i].name@
            &&& firings[i].first_after_now matches Some(d) ==> d > now
        }
}

/// Looks at every schedule as of `now`, `since` being when they were last
/// looked at.  A schedule whose first firing after `since` lies at or
/// before `now` has fired: the command of its trigger, if it has one, is
/// to be started, once, however many firings were missed.  The schedules
/// are to be looked at again at the earliest firing of any schedule that
/// is still to come after `now`, and at the latest `CRON_CEILING_MS` after
/// `now`; that look is to go on from `now`, so that no firing is passed
/// over and none is dealt with twice.
///
/// When a schedule fires depends on the time zone of the machine, so the
/// contract states what holds of every outcome: it is what `cron_decisions`
/// makes of some firings of these schedules.  Both times have to lie in the
/// range that schedules can be asked about.
pub fn process_cron_triggers(config: &s5ciConfig, rtdt: &s5ciRuntimeData, since: i64, now: i64) -> (outcome:
    CronOutcome)
    requires
        time_in_range(since),
        time_in_range(now),
    ensures
        exists|firings: Seq<ScheduleFirings>|
            {
                &&& #[trigger] firings_of(firings, rtdt.cron_trigger_schedules@, now)
                &&& outcome.commands.deep_view() == spec_cron_commands(
                    spec_cron_triggers(config),
                    firings,
                    now,
                    firings.len() as int,
                )
                &&& outcome.next_check == spec_cron_wakeup(firings, now, firings.len() as int)
            },
        outcome.commands@.len() <= rtdt.cron_trigger_schedules@.len(),
        now < outcome.next_check <= now + CRON_CEILING_MS,
        rtdt.cron_trigger_schedules@.len() == 0 ==> outcome.next_check == now + CRON_CEILING_MS,
{
    let mut firings: Vec<ScheduleFirings> = Vec::new();
    let mut i: usize = 0;
    while i < rtdt.cron_trigger_schedules.len()
        invariant
            i <= rtdt.cron_trigger_schedules@.len(),
            time_in_range(since),
            time_in_range(now),
            firings@.len() == i,
            forall|k: int|
                0 <= k < i ==> {
                    &&& (#[trigger] firings@[k]).name@ == rtdt.cron_trigger_schedules@[k].name@
                    &&& firings@[k].first_after_now matches Some(d) ==> d > now
                },
        decreases rtdt.cron_trigger_schedules.len() - i,
    {
        let sched = &rtdt.cron_trigger_schedules[i];
        let first_after_since = next_fire_after(&sched.schedule, since);
        let first_after_now = first_firing_from(&sched.schedule, since, now);
        firings.push(ScheduleFirings { name: sched.name.clone(), first_after_since, first_after_now });
        i += 1;
    }
    let outcome = cron_decisions(config, &firings, now);
    proof {
        assert(firings_of(firings@, rtdt.cron_trigger_schedules@, now));
        lemma_cron_wakeup(firings@, now, firings@.len() as int);
        lemma_cron_commands_len(spec_cron_triggers(config), firings@, now, firings@.len() as int);
        assert(outcome.commands.deep_view().len() == outcome.commands@.len());
    }
    outcome
}

/// No more commands are started than there are schedules.
pub proof fn lemma_cron_commands_len(
    triggers: Seq<(String, s5CronTrigger)>,
    firings: Seq<ScheduleFirings>,
    now: i64,
    upto: int,
)
    requires
        0 <= upto,
    ensures
        spec_cron_commands(triggers, firings, now, upto).len() <= upto,
    decreases upto,
{
    if upto > 0 {
        lemma_cron_commands_len(triggers, firings, now, upto - 1);
    }
}

} // verus!
