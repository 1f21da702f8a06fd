use s5ci::database::{
    db_get_next_counter_value_with_min, begin_allocation, counter_update, db_get_changeset_last_comment_id,
    get_lock_path, lock_backoff, AllocationAction, AllocationEvent, AllocationPhase, CounterError,
    CounterRows, CounterWrite, ALLOCATION_ROUNDS, LOCK_RETRIES,
};

/// A counter store and a lock, as one process among others sees them.
struct World {
    stored: Option<i32>,
    lock_taken_for: u32,
    disturb_read_back: u32,
    sleeps: Vec<u64>,
}

fn run(world: &mut World, floor: i32) -> Result<i32, CounterError> {
    let mut state = begin_allocation(floor);
    let mut event = AllocationEvent::Start;
    let mut holding = false;
    for _ in 0..10_000 {
        let (next, action) = db_get_next_counter_value_with_min(state, event);
        state = next;
        event = match action {
            AllocationAction::CreateLock => {
                if world.lock_taken_for > 0 {
                    world.lock_taken_for -= 1;
                    AllocationEvent::LockBusy
                } else {
                    assert!(!holding);
                    holding = true;
                    AllocationEvent::LockCreated
                }
            }
            AllocationAction::Sleep(ms) => {
                world.sleeps.push(ms);
                AllocationEvent::Slept
            }
            AllocationAction::ReadCounter => {
                assert!(holding);
                match world.stored {
                    Some(v) => AllocationEvent::Rows(CounterRows::One(v)),
                    None => AllocationEvent::Rows(CounterRows::Missing),
                }
            }
            AllocationAction::WriteCounter(write) => {
                assert!(holding);
                assert_eq!(write.create, world.stored.is_none());
                world.stored = Some(write.store);
                AllocationEvent::Written
            }
            AllocationAction::RemoveLock => {
                assert!(holding);
                holding = false;
                AllocationEvent::LockRemoved { removed: true }
            }
            AllocationAction::ReadStored => {
                assert!(!holding);
                if world.disturb_read_back > 0 {
                    world.disturb_read_back -= 1;
                    world.stored = world.stored.map(|v| v + 1);
                }
                AllocationEvent::ReadBack { stored: world.stored }
            }
            AllocationAction::Done(result) => {
                assert!(!holding);
                assert_eq!(state.phase, AllocationPhase::Finished);
                return result;
            }
        };
    }
    panic!("the allocation did not end");
}

fn quiet(stored: Option<i32>) -> World {
    World { stored, lock_taken_for: 0, disturb_read_back: 0, sleeps: Vec::new() }
}

#[test]
fn allocations_from_a_new_counter_count_up_from_the_floor() {
    let mut world = quiet(None);
    let values: Vec<i32> = (0..25).map(|_| run(&mut world, 7).unwrap()).collect();
    let expected: Vec<i32> = (7..32).collect();
    assert_eq!(values, expected);
    assert_eq!(world.stored, Some(32));
    assert!(world.sleeps.is_empty());
}

#[test]
fn allocations_never_repeat_whatever_the_floors() {
    let mut world = quiet(Some(3));
    let floors = [0, 10, 2, 11, 40, 0, 0, 41];
    let values: Vec<i32> = floors.iter().map(|f| run(&mut world, *f).unwrap()).collect();
    assert_eq!(values, vec![3, 10, 11, 12, 40, 41, 42, 43]);
    for (value, floor) in values.iter().zip(floors.iter()) {
        assert!(value >= floor);
    }
}

#[test]
fn counter_update_takes_the_higher_of_stored_and_floor() {
    assert_eq!(
        counter_update(CounterRows::Missing, 5),
        Ok(CounterWrite { value: 5, store: 6, create: true })
    );
    assert_eq!(
        counter_update(CounterRows::One(9), 5),
        Ok(CounterWrite { value: 9, store: 10, create: false })
    );
    assert_eq!(
        counter_update(CounterRows::One(2), 5),
        Ok(CounterWrite { value: 5, store: 6, create: false })
    );
    assert_eq!(counter_update(CounterRows::Many, 5), Err(CounterError::Duplicate));
    assert_eq!(counter_update(CounterRows::One(i32::MAX), 0), Err(CounterError::Exhausted));
    assert_eq!(counter_update(CounterRows::Missing, i32::MAX), Err(CounterError::Exhausted));
    assert_eq!(
        counter_update(CounterRows::One(i32::MAX - 1), 0),
        Ok(CounterWrite { value: i32::MAX - 1, store: i32::MAX, create: false })
    );
}

#[test]
fn busy_lock_is_retried_with_growing_pauses() {
    let mut world = quiet(Some(1));
    world.lock_taken_for = 3;
    assert_eq!(run(&mut world, 0), Ok(1));
    assert_eq!(world.sleeps, vec![300, 600, 900]);
}

#[test]
fn lock_that_stays_busy_times_out() {
    let mut world = quiet(Some(1));
    world.lock_taken_for = 1000;
    assert_eq!(run(&mut world, 0), Err(CounterError::LockTimeout));
    let expected: Vec<u64> = (1..=20).map(|k| 300 * k).collect();
    assert_eq!(world.sleeps, expected);
    assert_eq!(world.stored, Some(1));
    assert_eq!(LOCK_RETRIES, 20);
}

#[test]
fn lock_backoff_is_linear_and_bounded() {
    assert_eq!(lock_backoff(0), None);
    assert_eq!(lock_backoff(1), Some(300));
    assert_eq!(lock_backoff(20), Some(6000));
    assert_eq!(lock_backoff(21), None);
}

#[test]
fn changed_store_runs_the_allocation_again() {
    let mut world = quiet(Some(10));
    world.disturb_read_back = 1;
    assert_eq!(run(&mut world, 0), Ok(12));
    assert_eq!(world.sleeps, vec![12]);
    assert_eq!(world.stored, Some(13));
}

#[test]
fn store_that_keeps_changing_ends_in_contention() {
    let mut world = quiet(Some(10));
    world.disturb_read_back = 1000;
    assert_eq!(run(&mut world, 0), Err(CounterError::LockContention));
    assert_eq!(world.sleeps.len() as u32, ALLOCATION_ROUNDS);
}

#[test]
fn duplicate_counter_releases_the_lock_and_fails() {
    let state = begin_allocation(0);
    let (state, action) = db_get_next_counter_value_with_min(state, AllocationEvent::Start);
    assert_eq!(action, AllocationAction::CreateLock);
    let (state, action) = db_get_next_counter_value_with_min(state, AllocationEvent::LockCreated);
    assert_eq!(action, AllocationAction::ReadCounter);
    let (state, action) = db_get_next_counter_value_with_min(state, AllocationEvent::Rows(CounterRows::Many));
    assert_eq!(action, AllocationAction::RemoveLock);
    let (state, action) = db_get_next_counter_value_with_min(state, AllocationEvent::LockRemoved { removed: false });
    assert_eq!(action, AllocationAction::Done(Err(CounterError::Duplicate)));
    assert_eq!(state.phase, AllocationPhase::Finished);
}

#[test]
fn failed_read_releases_the_lock_and_fails() {
    let state = begin_allocation(0);
    let (state, _) = db_get_next_counter_value_with_min(state, AllocationEvent::Start);
    let (state, _) = db_get_next_counter_value_with_min(state, AllocationEvent::LockCreated);
    let (state, action) = db_get_next_counter_value_with_min(state, AllocationEvent::ReadFailed);
    assert_eq!(action, AllocationAction::RemoveLock);
    let (_, action) = db_get_next_counter_value_with_min(state, AllocationEvent::LockRemoved { removed: true });
    assert_eq!(action, AllocationAction::Done(Err(CounterError::Storage)));
}

#[test]
fn unexpected_answer_ends_the_allocation() {
    let state = begin_allocation(0);
    let (state, action) = db_get_next_counter_value_with_min(state, AllocationEvent::Written);
    assert_eq!(action, AllocationAction::Done(Err(CounterError::Protocol)));
    let (_, action) = db_get_next_counter_value_with_min(state, AllocationEvent::Start);
    assert_eq!(action, AllocationAction::Done(Err(CounterError::Protocol)));
}

#[test]
fn lock_path_and_unseen_comment_id() {
    assert_eq!(get_lock_path("build-x86"), "/tmp/build-x86.lock");
    assert_eq!(db_get_changeset_last_comment_id(None), -1);
    assert_eq!(db_get_changeset_last_comment_id(Some(12)), 12);
}
