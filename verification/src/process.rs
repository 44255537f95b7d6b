//! Argument rules of the calls that map memory and set a task's priority.
use vstd::prelude::*;

verus! {

/// The size of a page in bytes.
pub const PAGE_SIZE: usize = 4096;

/// Permission bit: the pages may be read.
pub const PERMISSION_R: u8 = 2;

/// Permission bit: the pages may be written.
pub const PERMISSION_W: u8 = 4;

/// Permission bit: the pages may be executed.
pub const PERMISSION_X: u8 = 8;

/// Permission bit: the pages belong to user space.
pub const PERMISSION_U: u8 = 16;

/// A range of virtual addresses, `start` included and `end` not, with the
/// permission bits of its pages.
#[derive(Clone, Copy, Debug, PartialEq, Eq, Structural)]
pub struct MapRequest {
    pub start: usize,
    pub end: usize,
    pub permission: u8,
}

/// `port` holds at least one of the three access bits and nothing else.
pub open spec fn port_is_valid(port: usize) -> bool {
    1 <= port < 8
}

/// The permission bits for a valid `port`: the user bit, and each access bit
/// of `port` one place higher.
pub open spec fn permission_of(port: usize) -> int {
    PERMISSION_U + 2 * port
}

/// Checks a request to map `len` bytes at `start` with access bits `port`
/// (bit 0 read, bit 1 write, bit 2 execute). The request is refused where
/// `start` is not page aligned or `port` is not valid.
pub fn sys_mmap(start: usize, len: usize, port: usize) -> (request: Option<MapRequest>)
    requires
        start % PAGE_SIZE == 0 && port_is_valid(port) ==> start + len <= usize::MAX,
    ensures
        request.is_some() <==> start % PAGE_SIZE == 0 && port_is_valid(port),
        request.is_some() ==> {
            &&& request.unwrap().start == start
            &&& request.unwrap().end == start + len
            &&& request.unwrap().permission == permission_of(port)
        },
{
    if start % PAGE_SIZE != 0 {
        return None;
    }
    if port >= 8 || port == 0 {
        return None;
    }
    let mut permission: u8 = PERMISSION_U;
    if port % 2 == 1 {
        permission = permission + PERMISSION_R;
    }
    if (port / 2) % 2 == 1 {
        permission = permission + PERMISSION_W;
    }
    if (port / 4) % 2 == 1 {
        permission = permission + PERMISSION_X;
    }
    Some(MapRequest { start, end: start + len, permission })
}

/// Checks a request to unmap `len` bytes at `start`. The request is refused
/// where `start` is not page aligned.
pub fn sys_munmap(start: usize, len: usize) -> (range: Option<(usize, usize)>)
    requires
        start % PAGE_SIZE == 0 ==> start + len <= usize::MAX,
    ensures
        range == if start % PAGE_SIZE == 0 {
            Some((start, (start + len) as usize))
        } else {
            None
        },
{
    if start % PAGE_SIZE != 0 {
        return None;
    }
    Some((start, start + len))
}

/// Sets a task's priority to `prio`, which must be at least 2, and returns
/// it. A lower value is refused with -1 and changes nothing.
pub fn sys_set_priority(priority: &mut usize, prio: isize) -> (r: isize)
    ensures
        prio >= 2 ==> r == prio && *final(priority) == prio,
        prio < 2 ==> r == -1 && *final(priority) == *old(priority),
{
    if prio >= 2 {
        *priority = prio as usize;
        prio
    } else {
        -1
    }
}

} // verus!
