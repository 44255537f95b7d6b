use deadlock_detect::matrix::DdStruct;

#[test]
fn empty_matrix_is_safe() {
    let dd = DdStruct::new();
    assert_eq!(dd.work.len(), 0);
    assert_eq!(dd.allocation, vec![Vec::<usize>::new()]);
    assert_eq!(dd.need, vec![Vec::<usize>::new()]);
    assert_eq!(dd.finish, vec![false]);
    assert_eq!(dd.resource_count(), 0);
    assert_eq!(dd.task_count(), 1);
    assert_eq!(dd.check_state(), 0);
}

#[test]
fn all_tasks_finished_is_safe() {
    let mut dd = DdStruct::new();
    dd.add_resource(0, 0);
    dd.declare(0, 0, 5);
    assert_eq!(dd.check_state(), -1);
    dd.delete_task(0);
    assert_eq!(dd.finish, vec![true]);
    assert_eq!(dd.need, vec![vec![5]]);
    assert_eq!(dd.check_state(), 0);
}

#[test]
fn waiter_behind_a_holder_is_safe() {
    let mut dd = DdStruct::new();
    dd.add_resource(0, 1);
    dd.add_task(1);
    dd.grant(0, 0, 1);
    dd.declare(1, 0, 1);
    assert_eq!(dd.work, vec![0]);
    assert_eq!(dd.allocation, vec![vec![1], vec![0]]);
    assert_eq!(dd.need, vec![vec![0], vec![1]]);
    assert_eq!(dd.check_state(), 0);
}

#[test]
fn cyclic_wait_is_unsafe() {
    let mut dd = DdStruct::new();
    dd.add_resource(0, 1);
    dd.add_resource(1, 1);
    dd.add_task(1);
    dd.grant(0, 0, 1);
    dd.grant(1, 1, 1);
    dd.declare(0, 1, 1);
    dd.declare(1, 0, 1);
    assert_eq!(dd.check_state(), -1);
}

#[test]
fn check_state_leaves_the_matrix_alone() {
    let mut dd = DdStruct::new();
    dd.add_resource(0, 2);
    dd.add_task(1);
    dd.grant(0, 0, 1);
    dd.grant(1, 0, 1);
    dd.declare(1, 0, 1);
    assert_eq!(dd.check_state(), 0);
    assert_eq!(dd.work, vec![0]);
    assert_eq!(dd.allocation, vec![vec![1], vec![1]]);
    assert_eq!(dd.need, vec![vec![0], vec![1]]);
    assert_eq!(dd.finish, vec![false, false]);
}

#[test]
fn need_equal_to_free_units_is_eligible() {
    let mut dd = DdStruct::new();
    dd.add_resource(0, 3);
    dd.declare(0, 0, 3);
    assert_eq!(dd.check_state(), 0);
    dd.declare(0, 0, 1);
    assert_eq!(dd.check_state(), -1);
}

#[test]
fn later_task_unblocks_earlier_one() {
    // Task 0 needs two units and none is free; task 1 holds two and needs none.
    let mut dd = DdStruct::new();
    dd.add_resource(0, 2);
    dd.add_task(1);
    dd.grant(1, 0, 2);
    dd.declare(0, 0, 2);
    assert_eq!(dd.check_state(), 0);
}

#[test]
fn finished_task_does_not_give_back_what_it_holds() {
    let mut dd = DdStruct::new();
    dd.add_resource(0, 1);
    dd.add_task(1);
    dd.grant(1, 0, 1);
    dd.declare(0, 0, 1);
    assert_eq!(dd.check_state(), 0);
    // A retired task that still holds a unit never gives it back.
    dd.finish[1] = true;
    assert_eq!(dd.check_state(), -1);
}

#[test]
fn negative_free_units_cover_no_request() {
    let mut dd = DdStruct::new();
    dd.add_resource(0, 0);
    dd.work[0] = -1;
    assert_eq!(dd.check_state(), -1);
    dd.work[0] = 0;
    assert_eq!(dd.check_state(), 0);
}

#[test]
fn simulation_counts_past_the_signed_range() {
    // What two tasks hold adds up to one more than a signed word can count.
    let half = (isize::MAX as usize) / 2 + 1;
    let mut dd = DdStruct::new();
    dd.add_resource(0, 0);
    dd.add_task(2);
    dd.allocation[1][0] = half;
    dd.allocation[2][0] = half;
    dd.need[0][0] = half + half;
    assert_eq!(dd.check_state(), 0);
    dd.need[0][0] = half + half + 1;
    assert_eq!(dd.check_state(), -1);
}

#[test]
fn simulation_with_more_units_than_a_counter_holds() {
    // The held units add up to more than any request can ask for.
    let mut dd = DdStruct::new();
    dd.add_resource(0, 0);
    dd.add_task(3);
    dd.allocation[1][0] = usize::MAX;
    dd.allocation[2][0] = usize::MAX;
    dd.allocation[3][0] = usize::MAX;
    dd.need[0][0] = usize::MAX;
    assert_eq!(dd.check_state(), 0);
    // One unit short of the request once only one task gives units back.
    dd.allocation[3][0] = 0;
    dd.allocation[2][0] = 0;
    dd.allocation[1][0] = usize::MAX - 1;
    assert_eq!(dd.check_state(), -1);
    dd.work[0] = 1;
    assert_eq!(dd.check_state(), 0);
}
