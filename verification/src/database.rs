//! The persisted counters and their allocation under a named lock.
//!
//! The store and the lock live outside this crate.  What is decided here
//! is what to ask of them next: the allocation of one counter value is a
//! state machine that is fed what the store and the lock answered and says
//! what to do about it.

use vstd::prelude::*;

verus! {

/// How often a busy lock is tried again before the attempt is given up.
pub const LOCK_RETRIES: u32 = 20;

/// The pause after the first failed attempt at a lock, in milliseconds; the
/// pause after the n-th failed attempt is n times as long.
pub const LOCK_BACKOFF_MS: u64 = 300;

/// How many times an allocation is run again, after its stored value was
/// found changed, before it is given up.
pub const ALLOCATION_ROUNDS: u32 = 8;

/// The comment id of a change of which no comment has been seen.
pub const UNSEEN_COMMENT_ID: i32 = -1;

/// The number of comments seen of a change: what is stored for it, or
/// `UNSEEN_COMMENT_ID` where nothing is.
pub fn db_get_changeset_last_comment_id(stored: Option<i32>) -> (id: i32)
    ensures
        id == match stored {
            Some(seen) => seen,
            None => UNSEEN_COMMENT_ID,
        },
{
    match stored {
        Some(seen) => seen,
        None => UNSEEN_COMMENT_ID,
    }
}

/// What to do after the `failures`-th attempt in a row at a lock has found
/// it taken: the pause before the next attempt, growing linearly, or
/// `None` once the retries are used up.
pub open spec fn spec_lock_backoff(failures: u32) -> Option<u64> {
    if 1 <= failures <= LOCK_RETRIES {
        Some((LOCK_BACKOFF_MS * failures) as u64)
    } else {
        None
    }
}

pub fn lock_backoff(failures: u32) -> (pause: Option<u64>)
    ensures
        pause == spec_lock_backoff(failures),
{
    if 1 <= failures && failures <= LOCK_RETRIES {
        Some(LOCK_BACKOFF_MS * (failures as u64))
    } else {
        None
    }
}

/// The path of the directory whose existence is the lock of `name`.
pub open spec fn spec_lock_path(name: Seq<char>) -> Seq<char> {
    "/tmp/"@ + name + ".lock"@
}

pub fn get_lock_path(a_name: &str) -> (path: String)
    ensures
        path@ == spec_lock_path(a_name@),
{
    let mut path = "/tmp/".to_owned();
    crate::text::append(&mut path, a_name);
    crate::text::append(&mut path, ".lock");
    path
}

/// What a read of a counter's rows found.
#[derive(Debug, Clone, Copy, PartialEq, Eq, Structural)]
pub enum CounterRows {
    /// No counter of that name is stored.
    Missing,
    /// One counter is stored, with this value.
    One(i32),
    /// More than one counter of that name is stored.
    Many,
}

/// Why no counter value was allocated.
#[derive(Debug, Clone, Copy, PartialEq, Eq, Structural)]
pub enum CounterError {
    /// The lock stayed taken through every retry.
    LockTimeout,
    /// The stored value kept changing behind the lock through every round.
    LockContention,
    /// More than one counter of the name is stored.
    Duplicate,
    /// The counter has reached the largest value it can hold.
    Exhausted,
    /// The store could not be read.
    Storage,
    /// The machine was fed an answer to a question it had not asked.
    Protocol,
}

/// The value that an allocation returns and the value that it leaves in
/// the store.
#[derive(Debug, Clone, Copy, PartialEq, Eq, Structural)]
pub struct CounterWrite {
    /// The value allocated.
    pub value: i32,
    /// The value to store: one more.
    pub store: i32,
    /// Whether the counter is yet to be created.
    pub create: bool,
}

/// The value that an allocation takes from a counter: the stored value, or
/// the floor where that is higher or nothing is stored.
pub open spec fn spec_candidate(current: Option<int>, floor: int) -> int {
    match current {
        Some(value) => if value < floor {
            floor
        } else {
            value
        },
        None => floor,
    }
}

/// What an allocation does to the rows it has read.
pub open spec fn spec_counter_update(rows: CounterRows, floor: i32) -> Result<
    CounterWrite,
    CounterError,
> {
    match rows {
        CounterRows::Many => Err(CounterError::Duplicate),
        CounterRows::Missing => if floor == i32::MAX {
            Err(CounterError::Exhausted)
        } else {
            Ok(CounterWrite { value: floor, store: (floor + 1) as i32, create: true })
        },
        CounterRows::One(value) => {
            let candidate = spec_candidate(Some(value as int), floor as int);
            if candidate == i32::MAX {
                Err(CounterError::Exhausted)
            } else {
                Ok(
                    CounterWrite {
                        value: candidate as i32,
                        store: (candidate + 1) as i32,
                        create: false,
                    },
                )
            }
        },
    }
}

/// Decides, inside the critical section, what value to allocate and what to
/// store, from the rows read and the floor.
pub fn counter_update(rows: CounterRows, a_min: i32) -> (r: Result<CounterWrite, CounterError>)
    ensures
        r == spec_counter_update(rows, a_min),
{
    match rows {
        CounterRows::Many => Err(CounterError::Duplicate),
        CounterRows::Missing => {
            if a_min == i32::MAX {
                Err(CounterError::Exhausted)
            } else {
                Ok(CounterWrite { value: a_min, store: a_min + 1, create: true })
            }
        },
        CounterRows::One(value) => {
            let candidate = if value < a_min {
                a_min
            } else {
                value
            };
            if candidate == i32::MAX {
                Err(CounterError::Exhausted)
            } else {
                Ok(CounterWrite { value: candidate, store: candidate + 1, create: false })
            }
        },
    }
}

/// Where an allocation stands: what it has asked for and waits to hear of.
#[derive(Debug, Clone, Copy, PartialEq, Eq)]
pub enum AllocationPhase {
    /// Nothing has been asked yet.
    Idle,
    /// The lock is being taken; `failures` attempts have found it taken.
    Locking { failures: u32 },
    /// A pause before the next attempt at the lock.
    LockPause { failures: u32 },
    /// The lock is held and the counter's rows are being read.
    Reading,
    /// The lock is held and the new value is being written.
    Writing { value: i32 },
    /// The lock is being released after the critical section gave `result`.
    Releasing { result: Result<i32, CounterError> },
    /// The stored value is being read back, outside the lock.
    Verifying { value: i32 },
    /// A pause before the allocation is run again.
    RoundPause,
    /// The allocation has ended.
    Finished,
}

/// An allocation in progress.
#[derive(Debug, Clone, Copy, PartialEq, Eq)]
pub struct Allocation {
    /// The least value that may be allocated.
    pub floor: i32,
    /// How many times the allocation has been run again.
    pub rounds: u32,
    pub phase: AllocationPhase,
}

/// What the store or the lock answered.
#[derive(Debug, Clone, Copy, PartialEq, Eq, Structural)]
pub enum AllocationEvent {
    /// The allocation is to begin.
    Start,
    /// The lock was created: it is now held.
    LockCreated,
    /// The lock exists already: someone else holds it.
    LockBusy,
    /// The pause is over.
    Slept,
    /// The counter's rows were read.
    Rows(CounterRows),
    /// The counter's rows could not be read.
    ReadFailed,
    /// The write was handed to the store.
    Written,
    /// The lock was removed, or could not be; either way it is let go.
    LockRemoved { removed: bool },
    /// The stored value was read back; `None` if none is stored.
    ReadBack { stored: Option<i32> },
}

/// What to do next.
#[derive(Debug, Clone, Copy, PartialEq, Eq)]
pub enum AllocationAction {
    /// Try to create the lock.
    CreateLock,
    /// Pause for so many milliseconds.
    Sleep(u64),
    /// Read the counter's rows, in a transaction that the write will join.
    ReadCounter,
    /// Store the new value.
    WriteCounter(CounterWrite),
    /// Remove the lock.
    RemoveLock,
    /// Read the stored value back.
    ReadStored,
    /// Stop: the allocation has ended, with this result.
    Done(Result<i32, CounterError>),
}

/// Whether the lock is held in a phase.
pub open spec fn holds_lock(phase: AllocationPhase) -> bool {
    phase is Reading || phase is Writing || phase is Releasing
}

/// The pause before an allocation is run again, from the value found in
/// the store: its last two decimal digits in milliseconds, so that two
/// allocators that ran into each other do not do so again.
pub open spec fn spec_round_pause(stored: Option<i32>) -> u64 {
    match stored {
        Some(value) => if value >= 0 {
            (value % 100) as u64
        } else {
            0
        },
        None => 0,
    }
}

/// The state of an allocation that is yet to begin.
pub fn begin_allocation(a_min: i32) -> (a: Allocation)
    ensures
        a == (Allocation { floor: a_min, rounds: 0, phase: AllocationPhase::Idle }),
{
    Allocation { floor: a_min, rounds: 0, phase: AllocationPhase::Idle }
}

/// The transition of an allocation: the state after `event` and what to do
/// next.  An event that does not answer what the phase asked for ends the
/// allocation with `CounterError::Protocol`.
pub open spec fn spec_allocation_step(a: Allocation, event: AllocationEvent) -> (
    Allocation,
    AllocationAction,
) {
    let stop = |result: Result<i32, CounterError>|
        (
            Allocation { phase: AllocationPhase::Finished, ..a },
            AllocationAction::Done(result),
        );
    let go = |phase: AllocationPhase, action: AllocationAction| (Allocation { phase, ..a }, action);
    match (a.phase, event) {
        (AllocationPhase::Idle, AllocationEvent::Start) => go(
            AllocationPhase::Locking { failures: 0 },
            AllocationAction::CreateLock,
        ),
        (AllocationPhase::Locking { failures }, AllocationEvent::LockCreated) => go(
            AllocationPhase::Reading,
            AllocationAction::ReadCounter,
        ),
        (AllocationPhase::Locking { failures }, AllocationEvent::LockBusy) => {
            if failures >= LOCK_RETRIES {
                stop(Err(CounterError::LockTimeout))
            } else {
                go(
                    AllocationPhase::LockPause { failures: (failures + 1) as u32 },
                    AllocationAction::Sleep((LOCK_BACKOFF_MS * (failures + 1)) as u64),
                )
            }
        },
        (AllocationPhase::LockPause { failures }, AllocationEvent::Slept) => go(
            AllocationPhase::Locking { failures },
            AllocationAction::CreateLock,
        ),
        (AllocationPhase::Reading, AllocationEvent::Rows(rows)) => match spec_counter_update(
            rows,
            a.floor,
        ) {
            Ok(write) => go(
                AllocationPhase::Writing { value: write.value },
                AllocationAction::WriteCounter(write),
            ),
            Err(e) => go(
                AllocationPhase::Releasing { result: Err(e) },
                AllocationAction::RemoveLock,
            ),
        },
        (AllocationPhase::Reading, AllocationEvent::ReadFailed) => go(
            AllocationPhase::Releasing { result: Err(CounterError::Storage) },
            AllocationAction::RemoveLock,
        ),
        (AllocationPhase::Writing { value }, AllocationEvent::Written) => go(
            AllocationPhase::Releasing { result: Ok(value) },
            AllocationAction::RemoveLock,
        ),
        (AllocationPhase::Releasing { result }, AllocationEvent::LockRemoved { removed }) => {
            match result {
                Ok(value) => go(AllocationPhase::Verifying { value }, AllocationAction::ReadStored),
                Err(e) => stop(Err(e)),
            }
        },
        (AllocationPhase::Verifying { value }, AllocationEvent::ReadBack { stored }) => {
            if stored == Some((value + 1) as i32) && value < i32::MAX {
                stop(Ok(value))
            } else if a.rounds >= ALLOCATION_ROUNDS {
                stop(Err(CounterError::LockContention))
            } else {
                (
                    Allocation {
                        rounds: (a.rounds + 1) as u32,
                        phase: AllocationPhase::RoundPause,
                        ..a
                    },
                    AllocationAction::Sleep(spec_round_pause(stored)),
                )
            }
        },
        (AllocationPhase::RoundPause, AllocationEvent::Slept) => go(
            AllocationPhase::Locking { failures: 0 },
            AllocationAction::CreateLock,
        ),
        _ => stop(Err(CounterError::Protocol)),
    }
}

fn round_pause(stored: Option<i32>) -> (pause: u64)
    ensures
        pause == spec_round_pause(stored),
{
    match stored {
        Some(value) => if value >= 0 {
            (value % 100) as u64
        } else {
            0
        },
        None => 0,
    }
}

/// Feeds an allocation what the store or the lock answered, and says what
/// to do next.
pub fn db_get_next_counter_value_with_min(a: Allocation, event: AllocationEvent) -> (next: (
    Allocation,
    AllocationAction,
))
    ensures
        next == spec_allocation_step(a, event),
{
    let protocol = (
        Allocation { floor: a.floor, rounds: a.rounds, phase: AllocationPhase::Finished },
        AllocationAction::Done(Err(CounterError::Protocol)),
    );
    match a.phase {
        AllocationPhase::Idle => match event {
            AllocationEvent::Start => (
                Allocation {
                    floor: a.floor,
                    rounds: a.rounds,
                    phase: AllocationPhase::Locking { failures: 0 },
                },
                AllocationAction::CreateLock,
            ),
            _ => protocol,
        },
        AllocationPhase::Locking { failures } => match event {
            AllocationEvent::LockCreated => (
                Allocation { floor: a.floor, rounds: a.rounds, phase: AllocationPhase::Reading },
                AllocationAction::ReadCounter,
            ),
            AllocationEvent::LockBusy => {
                if failures >= LOCK_RETRIES {
                    (
                        Allocation {
                            floor: a.floor,
                            rounds: a.rounds,
                            phase: AllocationPhase::Finished,
                        },
                        AllocationAction::Done(Err(CounterError::LockTimeout)),
                    )
                } else {
                    (
                        Allocation {
                            floor: a.floor,
                            rounds: a.rounds,
                            phase: AllocationPhase::LockPause { failures: failures + 1 },
                        },
                        AllocationAction::Sleep(LOCK_BACKOFF_MS * ((failures + 1) as u64)),
                    )
                }
            },
            _ => protocol,
        },
        AllocationPhase::LockPause { failures } => match event {
            AllocationEvent::Slept => (
                Allocation {
                    floor: a.floor,
                    rounds: a.rounds,
                    phase: AllocationPhase::Locking { failures },
                },
                AllocationAction::CreateLock,
            ),
            _ => protocol,
        },
        AllocationPhase::Reading => match event {
            AllocationEvent::Rows(rows) => match counter_update(rows, a.floor) {
                Ok(write) => (
                    Allocation {
                        floor: a.floor,
                        rounds: a.rounds,
                        phase: AllocationPhase::Writing { value: write.value },
                    },
                    AllocationAction::WriteCounter(write),
                ),
                Err(e) => (
                    Allocation {
                        floor: a.floor,
                        rounds: a.rounds,
                        phase: AllocationPhase::Releasing { result: Err(e) },
                    },
                    AllocationAction::RemoveLock,
                ),
            },
            AllocationEvent::ReadFailed => (
                Allocation {
                    floor: a.floor,
                    rounds: a.rounds,
                    phase: AllocationPhase::Releasing { result: Err(CounterError::Storage) },
                },
                AllocationAction::RemoveLock,
            ),
            _ => protocol,
        },
        AllocationPhase::Writing { value } => match event {
            AllocationEvent::Written => (
                Allocation {
                    floor: a.floor,
                    rounds: a.rounds,
                    phase: AllocationPhase::Releasing { result: Ok(value) },
                },
                AllocationAction::RemoveLock,
            ),
            _ => protocol,
        },
        AllocationPhase::Releasing { result } => match event {
            AllocationEvent::LockRemoved { removed } => match result {
                Ok(value) => (
                    Allocation {
                        floor: a.floor,
                        rounds: a.rounds,
                        phase: AllocationPhase::Verifying { value },
                    },
                    AllocationAction::ReadStored,
                ),
                Err(e) => (
                    Allocation {
                        floor: a.floor,
                        rounds: a.rounds,
                        phase: AllocationPhase::Finished,
                    },
                    AllocationAction::Done(Err(e)),
                ),
            },
            _ => protocol,
        },
        AllocationPhase::Verifying { value } => match event {
            AllocationEvent::ReadBack { stored } => {
                let confirmed = match stored {
                    Some(found) => value < i32::MAX && found == value + 1,
                    None => false,
                };
                if confirmed {
                    (
                        Allocation {
                            floor: a.floor,
                            rounds: a.rounds,
                            phase: AllocationPhase::Finished,
                        },
                        AllocationAction::Done(Ok(value)),
                    )
                } else if a.rounds >= ALLOCATION_ROUNDS {
                    (
                        Allocation {
                            floor: a.floor,
                            rounds: a.rounds,
                            phase: AllocationPhase::Finished,
                        },
                        AllocationAction::Done(Err(CounterError::LockContention)),
                    )
                } else {
                    (
                        Allocation {
                            floor: a.floor,
                            rounds: a.rounds + 1,
                            phase: AllocationPhase::RoundPause,
                        },
                        AllocationAction::Sleep(round_pause(stored)),
                    )
                }
            },
            _ => protocol,
        },
        AllocationPhase::RoundPause => match event {
            AllocationEvent::Slept => (
                Allocation {
                    floor: a.floor,
                    rounds: a.rounds,
                    phase: AllocationPhase::Locking { failures: 0 },
                },
                AllocationAction::CreateLock,
            ),
            _ => protocol,
        },
        AllocationPhase::Finished => protocol,
    }
}

/// The values that allocations return when they run one after another on
/// one counter, as the lock makes them: the first on a counter that holds
/// `current`, each with its own floor.
pub open spec fn spec_allocations(current: Option<int>, floors: Seq<int>) -> Seq<int>
    decreases floors.len(),
{
    if floors.len() == 0 {
        Seq::empty()
    } else {
        let value = spec_candidate(current, floors[0]);
        seq![value] + spec_allocations(Some(value + 1), floors.drop_first())
    }
}

/// The floors of `n` allocations that all ask for at least `floor`.
pub open spec fn same_floor(floor: int, n: nat) -> Seq<int> {
    Seq::new(n, |k: int| floor)
}

/// One allocation returns the value that `counter_update` decides while
/// that fits the counter, and leaves one more in the store.
pub proof fn lemma_counter_update_allocates(rows: CounterRows, floor: i32)
    requires
        !(rows is Many),
    ensures
        ({
            let current = match rows {
                CounterRows::One(value) => Some(value as int),
                _ => None,
            };
            match spec_counter_update(rows, floor) {
                Ok(write) => write.value == spec_candidate(current, floor as int) && write.store
                    == write.value + 1 && write.value >= floor && write.create == (rows is Missing),
                Err(e) => e == CounterError::Exhausted && spec_candidate(current, floor as int)
                    == i32::MAX,
            }
        }),
{
}

/// Allocations on one counter return values that no earlier allocation
/// has returned: each is above those before it, and none is below its own
/// floor or below what the counter held at first.
pub proof fn lemma_allocations_increase(current: Option<int>, floors: Seq<int>)
    ensures
        spec_allocations(current, floors).len() == floors.len(),
        forall|i: int|
            0 <= i < floors.len() ==> (#[trigger] spec_allocations(current, floors)[i])
                >= floors[i],
        forall|i: int|
            0 <= i < floors.len() && current.is_some() ==> (#[trigger] spec_allocations(
                current,
                floors,
            )[i]) >= current.unwrap(),
        forall|i: int, j: int|
            0 <= i < j < floors.len() ==> (#[trigger] spec_allocations(current, floors)[i]) < (
            #[trigger] spec_allocations(current, floors)[j]),
    decreases floors.len(),
{
    if floors.len() > 0 {
        let value = spec_candidate(current, floors[0]);
        let rest = spec_allocations(Some(value + 1), floors.drop_first());
        lemma_allocations_increase(Some(value + 1), floors.drop_first());
        let all = spec_allocations(current, floors);
        assert(all == seq![value] + rest);
        assert forall|i: int| 0 <= i < floors.len() implies (#[trigger] all[i]) >= floors[i] by {
            if i > 0 {
                assert(all[i] == rest[i - 1]);
                assert(floors.drop_first()[i - 1] == floors[i]);
            }
        }
        assert forall|i: int| 0 <= i < floors.len() && current.is_some() implies (#[trigger] all[i])
            >= current.unwrap() by {
            if i > 0 {
                assert(all[i] == rest[i - 1]);
            }
        }
        assert forall|i: int, j: int| 0 <= i < j < floors.len() implies (#[trigger] all[i]) < (
        #[trigger] all[j]) by {
            assert(all[j] == rest[j - 1]);
            if i > 0 {
                assert(all[i] == rest[i - 1]);
            }
        }
    }
}

/// Any number of allocations with one floor on a counter that is new, or
/// holds no more than the floor, return the floor and the numbers that
/// follow it, each once: the k-th returns `floor + k`.
pub proof fn lemma_allocations_count_up(current: Option<int>, floor: int, n: nat)
    requires
        current matches Some(value) ==> value <= floor,
    ensures
        spec_allocations(current, same_floor(floor, n)).len() == n,
        forall|k: int|
            0 <= k < n ==> #[trigger] spec_allocations(current, same_floor(floor, n))[k]
                == floor + k,
    decreases n,
{
    let floors = same_floor(floor, n);
    if n > 0 {
        let rest_floors = same_floor(floor, (n - 1) as nat);
        assert(floors.drop_first() =~= rest_floors);
        let rest = spec_allocations(Some(floor + 1), rest_floors);
        lemma_allocations_from(floor + 1, (n - 1) as nat, floor);
        let all = spec_allocations(current, floors);
        assert(all == seq![floor] + rest);
        assert forall|k: int| 0 <= k < n implies #[trigger] all[k] == floor + k by {
            if k > 0 {
                assert(all[k] == rest[k - 1]);
            }
        }
    }
}

/// Allocations on a counter that holds `stored`, with a floor below it,
/// return `stored` and the numbers that follow it.
pub proof fn lemma_allocations_from(stored: int, n: nat, floor: int)
    requires
        floor <= stored,
    ensures
        spec_allocations(Some(stored), same_floor(floor, n)).len() == n,
        forall|k: int|
            0 <= k < n ==> #[trigger] spec_allocations(
                Some(stored),
                same_floor(floor, n),
            )[k] == stored + k,
    decreases n,
{
    let floors = same_floor(floor, n);
    if n > 0 {
        let rest_floors = same_floor(floor, (n - 1) as nat);
        assert(floors.drop_first() =~= rest_floors);
        let rest = spec_allocations(Some(stored + 1), rest_floors);
        lemma_allocations_from(stored + 1, (n - 1) as nat, floor);
        let all = spec_allocations(Some(stored), floors);
        assert(all == seq![stored] + rest);
        assert forall|k: int| 0 <= k < n implies #[trigger] all[k] == stored + k by {
            if k > 0 {
                assert(all[k] == rest[k - 1]);
            }
        }
    }
}

/// Whether the value that an allocation carries along is at or above its
/// floor.
pub open spec fn allocation_wf(a: Allocation) -> bool {
    match a.phase {
        AllocationPhase::Writing { value } => value >= a.floor,
        AllocationPhase::Releasing { result: Ok(value) } => value >= a.floor,
        AllocationPhase::Verifying { value } => value >= a.floor,
        AllocationPhase::Locking { failures } => failures <= LOCK_RETRIES,
        AllocationPhase::LockPause { failures } => 1 <= failures <= LOCK_RETRIES,
        _ => true,
    }
}

/// The discipline of an allocation.  The store is read and written only
/// while the lock is held, and the lock is asked for only while it is not;
/// a value is announced only after the store was found to hold its
/// successor, and is never below the floor; a pause for a busy lock grows
/// with each failure and the retries are bounded, as are the rounds.
pub proof fn lemma_allocation_discipline(a: Allocation, event: AllocationEvent)
    requires
        allocation_wf(a),
        a.rounds <= ALLOCATION_ROUNDS,
    ensures
        ({
            let (next, action) = spec_allocation_step(a, event);
            &&& allocation_wf(next)
            &&& next.floor == a.floor
            &&& a.rounds <= next.rounds <= ALLOCATION_ROUNDS
            &&& (action is ReadCounter || action is WriteCounter) ==> holds_lock(a.phase)
                || a.phase is Locking
            &&& (action is ReadCounter || action is WriteCounter) ==> holds_lock(next.phase)
            &&& action is CreateLock ==> !holds_lock(a.phase) && next.phase is Locking
            &&& action is RemoveLock ==> holds_lock(a.phase) && next.phase is Releasing
            &&& action is ReadStored ==> !holds_lock(next.phase)
            &&& action matches AllocationAction::Done(Ok(value)) ==> value >= a.floor && event
                == (AllocationEvent::ReadBack { stored: Some((value + 1) as i32) })
            &&& action is Done <==> next.phase is Finished
            &&& (a.phase is Locking && event is LockBusy) ==> (action
                matches AllocationAction::Sleep(ms) ==> ms == LOCK_BACKOFF_MS * (
            a.phase->Locking_failures + 1))
        }),
{
}

/// An allocation that nothing disturbs ends after one round with the
/// value that `spec_candidate` names and leaves its successor stored: the
/// lock is taken at the first attempt, the rows are read, the new value is
/// written, the lock is released, and the value read back is the one
/// written.
pub proof fn lemma_undisturbed_allocation(floor: i32, rows: CounterRows)
    requires
        spec_counter_update(rows, floor).is_ok(),
    ensures
        ({
            let write = spec_counter_update(rows, floor).unwrap();
            let start = Allocation { floor, rounds: 0, phase: AllocationPhase::Idle };
            let (locking, ask_lock) = spec_allocation_step(start, AllocationEvent::Start);
            let (reading, ask_rows) = spec_allocation_step(locking, AllocationEvent::LockCreated);
            let (writing, ask_write) = spec_allocation_step(reading, AllocationEvent::Rows(rows));
            let (releasing, ask_unlock) = spec_allocation_step(writing, AllocationEvent::Written);
            let (verifying, ask_stored) = spec_allocation_step(
                releasing,
                AllocationEvent::LockRemoved { removed: true },
            );
            let (finished, answer) = spec_allocation_step(
                verifying,
                AllocationEvent::ReadBack { stored: Some(write.store) },
            );
            &&& ask_lock == AllocationAction::CreateLock
            &&& ask_rows == AllocationAction::ReadCounter
            &&& ask_write == AllocationAction::WriteCounter(write)
            &&& ask_unlock == AllocationAction::RemoveLock
            &&& ask_stored == AllocationAction::ReadStored
            &&& answer == AllocationAction::Done(Ok(write.value))
            &&& finished.phase is Finished
            &&& write.store == write.value + 1
        }),
{
}

/// A lock that stays taken is tried `LOCK_RETRIES` times more, with a
/// pause that grows by `LOCK_BACKOFF_MS` each time, and is then given up
/// with `CounterError::LockTimeout`.
pub proof fn lemma_busy_lock(a: Allocation, failures: u32)
    requires
        a.phase == (AllocationPhase::Locking { failures }),
    ensures
        ({
            let (next, action) = spec_allocation_step(a, AllocationEvent::LockBusy);
            if failures < LOCK_RETRIES {
                &&& action == AllocationAction::Sleep((LOCK_BACKOFF_MS * (failures + 1)) as u64)
                &&& spec_lock_backoff((failures + 1) as u32) == Some(
                    (LOCK_BACKOFF_MS * (failures + 1)) as u64,
                )
                &&& spec_allocation_step(next, AllocationEvent::Slept) == (
                    Allocation {
                        phase: AllocationPhase::Locking { failures: (failures + 1) as u32 },
                        ..a
                    },
                    AllocationAction::CreateLock,
                )
            } else {
                &&& action == AllocationAction::Done(Err(CounterError::LockTimeout))
                &&& next.phase is Finished
            }
        }),
{
}

} // verus!
