use deadlock_detect::matrix::DdStruct;

#[test]
fn add_resource_grows_with_zero_columns_between() {
    let mut dd = DdStruct::new();
    dd.add_resource(2, 7);
    assert_eq!(dd.resource_count(), 3);
    assert_eq!(dd.work, vec![0, 0, 7]);
    assert_eq!(dd.allocation, vec![vec![0, 0, 0]]);
    assert_eq!(dd.need, vec![vec![0, 0, 0]]);
    assert_eq!(dd.finish, vec![false]);
}

#[test]
fn add_resource_in_any_order() {
    let mut dd = DdStruct::new();
    dd.add_resource(1, 4);
    dd.add_resource(0, 9);
    dd.add_resource(3, 2);
    assert_eq!(dd.work, vec![9, 4, 0, 2]);
    assert_eq!(dd.resource_count(), 4);
}

#[test]
fn add_resource_resets_an_existing_column() {
    let mut dd = DdStruct::new();
    dd.add_resource(0, 3);
    dd.add_resource(1, 3);
    dd.add_task(1);
    dd.grant(0, 0, 2);
    dd.grant(1, 1, 1);
    dd.declare(1, 0, 5);
    dd.add_resource(0, 6);
    assert_eq!(dd.work, vec![6, 2]);
    assert_eq!(dd.allocation, vec![vec![0, 0], vec![0, 1]]);
    assert_eq!(dd.need, vec![vec![0, 0], vec![0, 0]]);
    assert_eq!(dd.resource_count(), 2);
}

#[test]
fn delete_resource_zeroes_the_column_and_keeps_the_size() {
    let mut dd = DdStruct::new();
    dd.add_resource(0, 3);
    dd.add_resource(1, 5);
    dd.grant(0, 1, 2);
    dd.declare(0, 1, 1);
    dd.delete_resource(1);
    assert_eq!(dd.work, vec![3, 0]);
    assert_eq!(dd.allocation, vec![vec![0, 0]]);
    assert_eq!(dd.need, vec![vec![0, 0]]);
    assert_eq!(dd.resource_count(), 2);
}

#[test]
fn add_task_grows_with_fresh_rows() {
    let mut dd = DdStruct::new();
    dd.add_resource(1, 1);
    dd.add_task(3);
    assert_eq!(dd.task_count(), 4);
    assert_eq!(dd.allocation, vec![vec![0, 0]; 4]);
    assert_eq!(dd.need, vec![vec![0, 0]; 4]);
    assert_eq!(dd.finish, vec![false; 4]);
    assert_eq!(dd.work, vec![0, 1]);
}

#[test]
fn add_task_resets_an_existing_row() {
    let mut dd = DdStruct::new();
    dd.add_resource(0, 2);
    dd.add_task(1);
    dd.grant(1, 0, 1);
    dd.release(1, 0, 1);
    dd.declare(1, 0, 4);
    dd.delete_task(1);
    assert_eq!(dd.finish, vec![false, true]);
    dd.add_task(1);
    assert_eq!(dd.finish, vec![false, false]);
    assert_eq!(dd.need, vec![vec![0], vec![0]]);
    assert_eq!(dd.allocation, vec![vec![0], vec![0]]);
    assert_eq!(dd.task_count(), 2);
    assert_eq!(dd.work, vec![2]);
}

#[test]
fn delete_task_sets_the_flag_only() {
    let mut dd = DdStruct::new();
    dd.add_resource(0, 2);
    dd.declare(0, 0, 1);
    dd.delete_task(0);
    assert_eq!(dd.finish, vec![true]);
    assert!(dd.is_finished(0));
    assert_eq!(dd.need, vec![vec![1]]);
    assert_eq!(dd.work, vec![2]);
}

#[test]
fn resources_added_after_tasks_reach_every_row() {
    let mut dd = DdStruct::new();
    dd.add_task(2);
    dd.add_resource(1, 8);
    assert_eq!(dd.allocation, vec![vec![0, 0]; 3]);
    assert_eq!(dd.need, vec![vec![0, 0]; 3]);
    assert_eq!(dd.work, vec![0, 8]);
}

#[test]
fn setup_keeps_free_plus_held_at_the_registered_units() {
    let mut dd = DdStruct::new();
    let registered: [usize; 3] = [5, 0, 2];
    dd.add_resource(2, 2);
    dd.add_task(1);
    dd.add_resource(0, 1);
    dd.add_task(4);
    dd.add_resource(0, 5);
    dd.add_task(1);
    for r in 0..3 {
        let held: usize = dd.allocation.iter().map(|row| row[r]).sum();
        assert_eq!(dd.work[r] + held as isize, registered[r] as isize);
    }
}

#[test]
fn counters_read_back() {
    let mut dd = DdStruct::new();
    dd.add_resource(0, 4);
    dd.add_task(1);
    dd.declare(1, 0, 3);
    dd.grant(1, 0, 2);
    assert_eq!(dd.free_units(0), 2);
    assert_eq!(dd.held(1, 0), 2);
    assert_eq!(dd.wanted(1, 0), 3);
    dd.withdraw(1, 0, 2);
    assert_eq!(dd.wanted(1, 0), 1);
    dd.release(1, 0, 1);
    assert_eq!(dd.free_units(0), 3);
    assert_eq!(dd.held(1, 0), 1);
    assert!(!dd.is_finished(1));
}

#[test]
fn clone_copies_every_counter() {
    let mut dd = DdStruct::new();
    dd.add_resource(1, 4);
    dd.add_task(1);
    dd.grant(1, 1, 3);
    dd.declare(0, 0, 2);
    let copy = dd.clone();
    dd.release(1, 1, 3);
    assert_eq!(copy.work, vec![0, 1]);
    assert_eq!(copy.allocation, vec![vec![0, 0], vec![0, 3]]);
    assert_eq!(copy.need, vec![vec![2, 0], vec![0, 0]]);
    assert_eq!(copy.finish, vec![false, false]);
    assert_eq!(copy.resource_count(), 2);
    assert_eq!(copy.task_count(), 2);
    assert_eq!(copy.check_state(), -1);
}
