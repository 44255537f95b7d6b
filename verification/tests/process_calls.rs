use deadlock_detect::process::{
    sys_mmap, sys_munmap, sys_set_priority, MapRequest, PAGE_SIZE, PERMISSION_R, PERMISSION_U,
    PERMISSION_W, PERMISSION_X,
};

#[test]
fn mmap_takes_aligned_start_and_valid_port() {
    assert_eq!(
        sys_mmap(0x1000_0000, 4096, 3),
        Some(MapRequest {
            start: 0x1000_0000,
            end: 0x1000_1000,
            permission: PERMISSION_U | PERMISSION_R | PERMISSION_W,
        })
    );
    assert_eq!(sys_mmap(0, 1, 1).unwrap().permission, PERMISSION_U | PERMISSION_R);
    assert_eq!(sys_mmap(0, 1, 2).unwrap().permission, PERMISSION_U | PERMISSION_W);
    assert_eq!(sys_mmap(0, 1, 4).unwrap().permission, PERMISSION_U | PERMISSION_X);
    assert_eq!(sys_mmap(0, 1, 7).unwrap().permission, 30);
    assert_eq!(sys_mmap(PAGE_SIZE, 0, 5).unwrap().end, PAGE_SIZE);
}

#[test]
fn mmap_refuses_unaligned_start() {
    assert_eq!(sys_mmap(0x1000_0001, 4096, 3), None);
    assert_eq!(sys_mmap(4095, 4096, 3), None);
    assert_eq!(sys_mmap(1, usize::MAX, 3), None);
}

#[test]
fn mmap_refuses_bad_port() {
    assert_eq!(sys_mmap(0x1000_0000, 4096, 0), None);
    assert_eq!(sys_mmap(0x1000_0000, 4096, 8), None);
    assert_eq!(sys_mmap(0x1000_0000, 4096, 0x10), None);
    assert_eq!(sys_mmap(0x1000_0000, 4096, usize::MAX), None);
    assert_eq!(sys_mmap(0x1000, usize::MAX, 0), None);
}

#[test]
fn munmap_checks_alignment_only() {
    assert_eq!(sys_munmap(0x2000, 0x3000), Some((0x2000, 0x5000)));
    assert_eq!(sys_munmap(0x2001, 0x3000), None);
    assert_eq!(sys_munmap(usize::MAX, 1), None);
    assert_eq!(sys_munmap(0, 0), Some((0, 0)));
}

#[test]
fn priority_of_two_or_more_is_set() {
    let mut priority: usize = 16;
    assert_eq!(sys_set_priority(&mut priority, 2), 2);
    assert_eq!(priority, 2);
    assert_eq!(sys_set_priority(&mut priority, isize::MAX), isize::MAX);
    assert_eq!(priority, isize::MAX as usize);
}

#[test]
fn priority_below_two_is_refused() {
    let mut priority: usize = 16;
    assert_eq!(sys_set_priority(&mut priority, 1), -1);
    assert_eq!(sys_set_priority(&mut priority, 0), -1);
    assert_eq!(sys_set_priority(&mut priority, -5), -1);
    assert_eq!(priority, 16);
}
