//! Hardening of a child process before it executes: which inherited file
//! descriptors to close.

use vstd::prelude::*;

verus! {

/// First file descriptor that is not one of the standard streams.
pub const FIRST_FD: u32 = 3;

/// Upper bound on descriptor numbers where the system does not name one.
pub const DEFAULT_MAX_FD: i32 = 1024;

/// A range of file descriptors, both ends included.
#[derive(Debug, Clone, Copy, PartialEq, Eq, Structural)]
pub struct FdRange {
    /// The first descriptor of the range.
    pub first: u32,
    /// The last descriptor of the range.
    pub last: u32,
}

/// Whether a descriptor is to be closed: every one from 3 on, but the one
/// that is preserved.
pub open spec fn closes(preserve: Option<i32>, fd: int) -> bool {
    fd >= 3 && match preserve {
        Some(keep) => fd != keep,
        None => true,
    }
}

/// Whether one of the ranges holds the descriptor.
pub open spec fn covered(ranges: Seq<FdRange>, fd: int) -> bool {
    exists|i: int| 0 <= i < ranges.len() && (#[trigger] ranges[i]).first <= fd <= ranges[i].last
}

/// The ranges of descriptors to close, in ascending order: all descriptors
/// from 3 on, in one range, or in two around the preserved one.
pub fn close_inherited_fds(preserve: Option<i32>) -> (ranges: Vec<FdRange>)
    ensures
        1 <= ranges.len() <= 2,
        forall|fd: int|
            0 <= fd <= u32::MAX ==> (#[trigger] covered(ranges@, fd) <==> closes(preserve, fd)),
        forall|i: int| 0 <= i < ranges.len() ==> (#[trigger] ranges[i]).first <= ranges[i].last,
        ranges.len() == 2 ==> ranges[0].last < ranges[1].first,
{
    let mut ranges: Vec<FdRange> = Vec::new();
    match preserve {
        Some(keep) => {
            if keep < 3 {
                ranges.push(FdRange { first: FIRST_FD, last: u32::MAX });
                assert forall|fd: int| 0 <= fd <= u32::MAX implies (#[trigger] covered(ranges@, fd)
                    <==> closes(preserve, fd)) by {
                    if closes(preserve, fd) {
                        assert(ranges@[0].first <= fd <= ranges@[0].last);
                    }
                }
            } else {
                let keep: u32 = keep as u32;
                if keep > 3 {
                    ranges.push(FdRange { first: FIRST_FD, last: keep - 1 });
                }
                ranges.push(FdRange { first: keep + 1, last: u32::MAX });
                assert forall|fd: int| 0 <= fd <= u32::MAX implies (#[trigger] covered(ranges@, fd)
                    <==> closes(preserve, fd)) by {
                    if closes(preserve, fd) {
                        if fd < keep {
                            assert(ranges@[0].first <= fd <= ranges@[0].last);
                        } else {
                            let at = ranges.len() - 1;
                            assert(ranges@[at].first <= fd <= ranges@[at].last);
                        }
                    }
                }
            }
        },
        None => {
            ranges.push(FdRange { first: FIRST_FD, last: u32::MAX });
            assert forall|fd: int| 0 <= fd <= u32::MAX implies (#[trigger] covered(ranges@, fd)
                <==> closes(preserve, fd)) by {
                if closes(preserve, fd) {
                    assert(ranges@[0].first <= fd <= ranges@[0].last);
                }
            }
        },
    }
    ranges
}

/// Upper bound on descriptor numbers, from what the system reports as the
/// limit on open files: the limit where it is positive, capped at the
/// largest descriptor number, and 1024 where it is not.
pub fn max_fd(limit: i64) -> (end: i32)
    ensures
        end == if limit <= 0 {
            DEFAULT_MAX_FD as int
        } else if limit > i32::MAX {
            i32::MAX as int
        } else {
            limit as int
        },
{
    if limit <= 0 {
        DEFAULT_MAX_FD
    } else if limit > i32::MAX as i64 {
        i32::MAX
    } else {
        limit as i32
    }
}

/// Whether a descriptor below the upper bound is to be closed, where the
/// descriptors are closed one by one.
pub fn close_fd(preserve: Option<i32>, fd: i32) -> (b: bool)
    ensures
        b == closes(preserve, fd as int),
{
    fd >= 3 && match preserve {
        Some(keep) => fd != keep,
        None => true,
    }
}

} // verus!
