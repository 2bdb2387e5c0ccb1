//! The fields of the superblock's flag word.

use vstd::prelude::*;

verus! {

/// Bits 0 and 1: how the filesystem was last left.
#[derive(Clone, Copy, PartialEq, Eq, Structural, Debug)]
pub enum MountState {
    Clean,
    Dirty,
    Error,
    Recovering,
}

/// Bits 2 and 3: what to do on finding the filesystem dirty.
#[derive(Clone, Copy, PartialEq, Eq, Structural, Debug)]
pub enum ErrorPolicy {
    Ignore,
    RemountReadOnly,
    Abort,
    LogAndIgnore,
}

pub open spec fn state_of(code: u64) -> MountState {
    if code == 0 {
        MountState::Clean
    } else if code == 1 {
        MountState::Dirty
    } else if code == 2 {
        MountState::Error
    } else {
        MountState::Recovering
    }
}

pub open spec fn policy_of(code: u64) -> ErrorPolicy {
    if code == 0 {
        ErrorPolicy::Ignore
    } else if code == 1 {
        ErrorPolicy::RemountReadOnly
    } else if code == 2 {
        ErrorPolicy::Abort
    } else {
        ErrorPolicy::LogAndIgnore
    }
}

pub fn mount_state(flags: u64) -> (r: MountState)
    ensures
        r == state_of(flags & 3),
{
    let code = flags & 3;
    if code == 0 {
        MountState::Clean
    } else if code == 1 {
        MountState::Dirty
    } else if code == 2 {
        MountState::Error
    } else {
        MountState::Recovering
    }
}

pub fn error_policy(flags: u64) -> (r: ErrorPolicy)
    ensures
        r == policy_of((flags >> 2) & 3),
{
    let code = (flags >> 2) & 3;
    if code == 0 {
        ErrorPolicy::Ignore
    } else if code == 1 {
        ErrorPolicy::RemountReadOnly
    } else if code == 2 {
        ErrorPolicy::Abort
    } else {
        ErrorPolicy::LogAndIgnore
    }
}

/// Bits 4 to 7: the format revision.
pub fn revision(flags: u64) -> (r: u64)
    ensures
        r == (flags >> 4) & 0xf,
{
    (flags >> 4) & 0xf
}

/// Bits 8, 9 and 10: copy-on-write, deduplication and journaling.
pub fn features(flags: u64) -> (r: (bool, bool, bool))
    ensures
        r == ((flags >> 8) & 1 == 1, (flags >> 9) & 1 == 1, (flags >> 10) & 1 == 1),
{
    ((flags >> 8) & 1 == 1, (flags >> 9) & 1 == 1, (flags >> 10) & 1 == 1)
}

/// Whether the reserved bits, 11 and up, are all zero.
pub fn reserved_clear(flags: u64) -> (r: bool)
    ensures
        r == (flags >> 11 == 0),
{
    flags >> 11 == 0
}

} // verus!
