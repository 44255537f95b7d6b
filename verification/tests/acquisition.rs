use deadlock_detect::matrix::DdStruct;
use deadlock_detect::protocol::Admission;

fn two_tasks_two_resources() -> DdStruct {
    let mut dd = DdStruct::new();
    dd.add_resource(0, 1);
    dd.add_resource(1, 1);
    dd.add_task(1);
    dd
}

#[test]
fn free_units_are_granted() {
    let mut dd = DdStruct::new();
    dd.add_resource(0, 3);
    assert_eq!(dd.acquire(true, 0, 0, 2), Admission::Granted);
    assert_eq!(dd.work, vec![1]);
    assert_eq!(dd.allocation, vec![vec![2]]);
    assert_eq!(dd.need, vec![vec![0]]);
}

#[test]
fn missing_units_defer_the_request() {
    let mut dd = DdStruct::new();
    dd.add_resource(0, 1);
    dd.add_task(1);
    assert_eq!(dd.acquire(true, 0, 0, 1), Admission::Granted);
    assert_eq!(dd.acquire(true, 1, 0, 1), Admission::Deferred);
    assert_eq!(dd.work, vec![0]);
    assert_eq!(dd.allocation, vec![vec![1], vec![0]]);
    assert_eq!(dd.need, vec![vec![0], vec![1]]);
}

#[test]
fn second_lock_by_the_holder_is_refused() {
    let mut dd = DdStruct::new();
    dd.add_resource(0, 1);
    assert_eq!(dd.acquire(true, 0, 0, 1), Admission::Granted);
    assert_eq!(dd.acquire(true, 0, 0, 1), Admission::Refused);
    assert_eq!(dd.work, vec![0]);
    assert_eq!(dd.allocation, vec![vec![1]]);
    assert_eq!(dd.need, vec![vec![0]]);
}

#[test]
fn cyclic_wait_refuses_the_second_request() {
    let mut dd = two_tasks_two_resources();
    assert_eq!(dd.acquire(true, 0, 0, 1), Admission::Granted);
    assert_eq!(dd.acquire(true, 1, 1, 1), Admission::Granted);
    assert_eq!(dd.acquire(true, 0, 1, 1), Admission::Deferred);
    let work = dd.work.clone();
    let allocation = dd.allocation.clone();
    let need = dd.need.clone();
    let finish = dd.finish.clone();
    assert_eq!(dd.acquire(true, 1, 0, 1), Admission::Refused);
    assert_eq!(dd.work, work);
    assert_eq!(dd.allocation, allocation);
    assert_eq!(dd.need, need);
    assert_eq!(dd.finish, finish);
    assert_eq!(dd.need, vec![vec![0, 1], vec![0, 0]]);
}

#[test]
fn without_detection_the_cyclic_request_is_admitted() {
    let mut dd = two_tasks_two_resources();
    assert_eq!(dd.acquire(false, 0, 0, 1), Admission::Granted);
    assert_eq!(dd.acquire(false, 1, 1, 1), Admission::Granted);
    assert_eq!(dd.acquire(false, 0, 1, 1), Admission::Deferred);
    assert_eq!(dd.acquire(false, 1, 0, 1), Admission::Deferred);
    assert_eq!(dd.need, vec![vec![0, 1], vec![1, 0]]);
    assert_eq!(dd.check_state(), -1);
}

#[test]
fn grant_that_would_be_unsafe_is_rolled_back() {
    // Two units, two tasks that each will want both: the first unit goes out,
    // the second request of the other task would leave no way to finish.
    let mut dd = DdStruct::new();
    dd.add_resource(0, 2);
    dd.add_task(1);
    assert_eq!(dd.acquire(true, 0, 0, 1), Admission::Granted);
    dd.declare(0, 0, 1);
    // Task 0 holds one and waits for one more; one unit is free.
    assert_eq!(dd.check_state(), 0);
    // With the request pending the state is safe, since task 0 can still
    // finish; with the unit granted to task 1 it is not.
    dd.declare(1, 0, 1);
    assert_eq!(dd.acquire(true, 1, 0, 1), Admission::Refused);
    assert_eq!(dd.work, vec![1]);
    assert_eq!(dd.allocation, vec![vec![1], vec![0]]);
    assert_eq!(dd.need, vec![vec![1], vec![1]]);
}

#[test]
fn release_after_acquire_restores_the_counters() {
    let mut dd = DdStruct::new();
    dd.add_resource(0, 5);
    dd.add_task(1);
    dd.acquire(true, 1, 0, 1);
    let work = dd.work.clone();
    let allocation = dd.allocation.clone();
    let need = dd.need.clone();
    assert_eq!(dd.acquire(true, 0, 0, 3), Admission::Granted);
    assert_eq!(dd.work, vec![1]);
    dd.release(0, 0, 3);
    assert_eq!(dd.work, work);
    assert_eq!(dd.allocation, allocation);
    assert_eq!(dd.need, need);
}

#[test]
fn settle_commits_a_grant_after_a_wait() {
    let mut dd = DdStruct::new();
    dd.add_resource(0, 1);
    dd.add_task(1);
    assert_eq!(dd.acquire(true, 0, 0, 1), Admission::Granted);
    assert_eq!(dd.acquire(true, 1, 0, 1), Admission::Deferred);
    dd.release(0, 0, 1);
    assert_eq!(dd.work, vec![1]);
    assert!(dd.settle(true, 1, 0, 1));
    assert_eq!(dd.work, vec![0]);
    assert_eq!(dd.allocation, vec![vec![0], vec![1]]);
    assert_eq!(dd.need, vec![vec![0], vec![0]]);
    dd.release(1, 0, 1);
    assert_eq!(dd.work, vec![1]);
    assert_eq!(dd.allocation, vec![vec![0], vec![0]]);
}

#[test]
fn settle_drops_a_grant_that_is_unsafe() {
    // Task 1 holds resource 0 and waits for resource 1. Task 0 waits for both.
    let mut dd = two_tasks_two_resources();
    dd.grant(1, 0, 1);
    dd.declare(1, 1, 1);
    dd.declare(0, 0, 1);
    dd.declare(0, 1, 1);
    assert_eq!(dd.work, vec![0, 1]);
    // The primitive hands resource 1 to task 0: neither task could finish.
    assert!(!dd.settle(true, 0, 1, 1));
    assert_eq!(dd.work, vec![0, 1]);
    assert_eq!(dd.allocation, vec![vec![0, 0], vec![1, 0]]);
    assert_eq!(dd.need, vec![vec![1, 0], vec![0, 1]]);
}

#[test]
fn settle_without_detection_lets_the_grant_stand() {
    let mut dd = two_tasks_two_resources();
    dd.grant(1, 0, 1);
    dd.declare(1, 1, 1);
    dd.declare(0, 0, 1);
    dd.declare(0, 1, 1);
    assert!(dd.settle(false, 0, 1, 1));
    assert_eq!(dd.work, vec![0, 0]);
    assert_eq!(dd.allocation, vec![vec![0, 1], vec![1, 0]]);
    assert_eq!(dd.need, vec![vec![1, 0], vec![0, 1]]);
    assert_eq!(dd.check_state(), -1);
}

#[test]
fn condvar_wait_returns_to_the_same_counters() {
    let mut dd = DdStruct::new();
    dd.add_resource(0, 1);
    dd.add_task(1);
    assert_eq!(dd.acquire(true, 1, 0, 1), Admission::Granted);
    let work = dd.work.clone();
    let allocation = dd.allocation.clone();
    let need = dd.need.clone();
    dd.park(1, 0);
    assert_eq!(dd.work, vec![1]);
    assert_eq!(dd.allocation, vec![vec![0], vec![0]]);
    assert_eq!(dd.need, vec![vec![0], vec![1]]);
    dd.unpark(1, 0);
    assert_eq!(dd.work, work);
    assert_eq!(dd.allocation, allocation);
    assert_eq!(dd.need, need);
}

#[test]
fn sleeper_does_not_block_the_safety_check() {
    // Task 1 sleeps with the mutex modelled as free, so task 0 can take it.
    let mut dd = DdStruct::new();
    dd.add_resource(0, 1);
    dd.add_task(1);
    assert_eq!(dd.acquire(true, 1, 0, 1), Admission::Granted);
    dd.park(1, 0);
    assert_eq!(dd.acquire(true, 0, 0, 1), Admission::Granted);
    dd.release(0, 0, 1);
    dd.unpark(1, 0);
    assert_eq!(dd.allocation, vec![vec![0], vec![1]]);
}
