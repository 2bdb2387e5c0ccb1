//! Deciding whether a backing path can hold a filesystem of a given size.

use vstd::prelude::*;

verus! {

/// What a backing path turned out to be.
#[derive(Clone, Copy, PartialEq, Eq, Structural, Debug)]
pub enum Target {
    /// Nothing exists there yet.
    Missing,
    /// A regular file of this many bytes.
    File(u64),
    /// A block device, with its size in bytes where it could be queried.
    BlockDevice(Option<u64>),
    /// Anything else.
    Other,
}

/// Why a backing path cannot be used.
#[derive(Clone, Copy, PartialEq, Eq, Structural, Debug)]
pub enum TargetError {
    /// The file or device holds `have` bytes; `want` were asked for.
    InsufficientBackingSize { have: u64, want: u64 },
    /// The size of the block device could not be queried.
    DeviceQueryFailed,
    /// The path is neither a regular file nor a block device.
    UnsupportedTarget,
}

/// Whether `target` can hold a `size`-byte filesystem: `Ok(true)` where it
/// exists and is large enough, `Ok(false)` where it has to be created.
pub fn check_target(target: Target, size: u64) -> (r: Result<bool, TargetError>)
    ensures
        r == match target {
            Target::Missing => Ok(false),
            Target::File(have) => if size > have {
                Err(TargetError::InsufficientBackingSize { have, want: size })
            } else {
                Ok(true)
            },
            Target::BlockDevice(Some(have)) => if size > have {
                Err(TargetError::InsufficientBackingSize { have, want: size })
            } else {
                Ok(true)
            },
            Target::BlockDevice(None) => Err(TargetError::DeviceQueryFailed),
            Target::Other => Err(TargetError::UnsupportedTarget),
        },
{
    match target {
        Target::Missing => Ok(false),
        Target::File(have) => {
            if size > have {
                Err(TargetError::InsufficientBackingSize { have, want: size })
            } else {
                Ok(true)
            }
        },
        Target::BlockDevice(Some(have)) => {
            if size > have {
                Err(TargetError::InsufficientBackingSize { have, want: size })
            } else {
                Ok(true)
            }
        },
        Target::BlockDevice(None) => Err(TargetError::DeviceQueryFailed),
        Target::Other => Err(TargetError::UnsupportedTarget),
    }
}

/// Bytes in `sectors` sectors of 512 bytes; `None` where that overflows.
pub fn sectors_to_bytes(sectors: u64) -> (r: Option<u64>)
    ensures
        r == (if sectors * 512 <= u64::MAX {
            Some((sectors * 512) as u64)
        } else {
            None
        }),
{
    sectors.checked_mul(512)
}

} // verus!
