//! The decisions taken when a file system is created, opened and closed: the
//! check for an existing file system, the layout derived from the device
//! size, the checks of the main header and the mount bookkeeping in its
//! transient part.

use vstd::prelude::*;

use super::block_allocator::FsError;
use super::existing_fs_check::{wasabi_magic, FsFound};
use super::fs_structs::{FsStatus, MainTransientHeader};
use super::lba::LBA;

verus! {

/// How a file system is opened.
#[derive(Debug, Clone, Copy, PartialEq, Eq, Structural)]
pub enum AccessMode {
    /// No writes are allowed
    ReadOnly,
    /// Reads and writes are allowed
    ReadWrite,
}

/// What to do when the device already holds a file system.
#[derive(Debug, Clone, Copy, PartialEq, Eq, Structural)]
pub enum OverrideCheck {
    /// Fail if there is a file system
    Check,
    /// Override any file system
    IgnoreExisting,
}

/// Decides whether a new file system may be created on a device on which
/// `found` was detected.
pub fn check_override(found: FsFound, override_check: OverrideCheck) -> (r: Result<(), FsError>)
    ensures
        r == (if found != FsFound::NotFound && override_check == OverrideCheck::Check {
            Err(FsError::OverrideCheck)
        } else {
            Ok(())
        }),
{
    if !matches!(found, FsFound::NotFound) {
        match override_check {
            OverrideCheck::Check => {
                return Err(FsError::OverrideCheck);
            },
            OverrideCheck::IgnoreExisting => {},
        }
    }
    Ok(())
}

/// The minimum number of blocks a device needs to hold a file system.
pub const MIN_BLOCK_COUNT: u64 = 9;

/// Where a file system lies on its device.
#[derive(Debug, Clone, Copy, PartialEq, Eq, Structural)]
pub struct FsGeometry {
    /// The number of blocks of the file system
    pub max_block_count: u64,
    /// The last block that may hold data
    pub max_usable_lba: LBA,
    /// The block of the backup of the main header, the last block
    pub backup_header_lba: LBA,
}

/// The layout of a new file system on a device with `max_block_count` blocks.
pub fn geometry_for_device(max_block_count: u64) -> (r: Result<FsGeometry, FsError>)
    ensures
        max_block_count < MIN_BLOCK_COUNT ==> r == Err::<FsGeometry, FsError>(
            FsError::BlockDeviceToSmall(max_block_count, MIN_BLOCK_COUNT),
        ),
        max_block_count >= MIN_BLOCK_COUNT ==> (r matches Ok(g) && g.max_block_count
            == max_block_count && g.max_usable_lba@ == max_block_count - 2 && g.backup_header_lba@
            == max_block_count - 1),
{
    if max_block_count < MIN_BLOCK_COUNT {
        return Err(FsError::BlockDeviceToSmall(max_block_count, MIN_BLOCK_COUNT));
    }
    let max_usable_lba = LBA::new(max_block_count - 2).unwrap();
    let backup_header_lba = LBA::new(max_block_count - 1).unwrap();
    Ok(FsGeometry { max_block_count, max_usable_lba, backup_header_lba })
}

/// The layout of an existing file system whose main header names
/// `backup_header_lba` as the block of its backup, on a device with
/// `device_block_count` blocks.
///
/// The backup lies in the last block of the file system, so it is not block 0.
pub fn geometry_from_header(backup_header_lba: LBA, device_block_count: u64) -> (r: Result<
    FsGeometry,
    FsError,
>)
    requires
        backup_header_lba@ >= 1,
    ensures
        device_block_count < backup_header_lba@ + 1 ==> r == Err::<FsGeometry, FsError>(
            FsError::BlockDeviceToSmall(device_block_count, (backup_header_lba@ + 1) as u64),
        ),
        device_block_count >= backup_header_lba@ + 1 ==> (r matches Ok(g) && g.max_block_count
            == backup_header_lba@ + 1 && g.max_usable_lba@ == backup_header_lba@ - 1
            && g.backup_header_lba == backup_header_lba),
{
    let max_usable_lba = backup_header_lba - 1;
    let max_block_count = backup_header_lba.get() + 1;
    if device_block_count < max_block_count {
        return Err(FsError::BlockDeviceToSmall(device_block_count, max_block_count));
    }
    Ok(FsGeometry { max_block_count, max_usable_lba, backup_header_lba })
}

/// The version of the file system: major, minor, patch and alpha status.
pub open spec fn spec_fs_version() -> Seq<u8> {
    seq![0u8, 1u8, 0u8, 3u8]
}

/// The version of the file system: major, minor, patch and alpha status.
pub fn fs_version() -> (r: [u8; 4])
    ensures
        r@ == spec_fs_version(),
{
    [0u8, 1u8, 0u8, 3u8]
}

/// Whether the bytes of `a` and `b` are the same.
fn same_bytes(a: &[u8], b: &[u8]) -> (r: bool)
    ensures
        r == (a@ == b@),
{
    if a.len() != b.len() {
        return false;
    }
    let mut i: usize = 0;
    while i < a.len()
        invariant
            a@.len() == b@.len(),
            i <= a@.len(),
            forall|k: int| 0 <= k < i ==> a@[k] == b@[k],
        decreases a@.len() - i,
    {
        if a[i] != b[i] {
            return false;
        }
        i += 1;
    }
    assert(a@ =~= b@);
    true
}

/// The outcome of the checks of a main header, see [check_header].
pub open spec fn spec_check_header(
    magic: Seq<u8>,
    version: [u8; 4],
    transient: Option<MainTransientHeader>,
) -> Result<MainTransientHeader, FsError> {
    if magic != wasabi_magic() {
        Err(FsError::HeaderMagicInvalid)
    } else if version@ != spec_fs_version() {
        Err(FsError::HeaderVersionMismatch(version))
    } else {
        match transient {
            None => Err(FsError::HeaderWithoutTransient),
            Some(t) => if t.status != FsStatus::Ready {
                Err(FsError::NotInitialized)
            } else {
                Ok(t)
            },
        }
    }
}

/// Checks the fields of a main header read from a device before it is
/// opened: its magic, its version, and a transient part that says the file
/// system is ready. Returns the transient part.
pub fn check_header(magic: &[u8; 8], version: [u8; 4], transient: Option<MainTransientHeader>) -> (r:
    Result<MainTransientHeader, FsError>)
    ensures
        r == spec_check_header(magic@, version, transient),
{
    let expected_magic: [u8; 8] = [87u8, 97u8, 115u8, 97u8, 98u8, 105u8, 70u8, 115u8];
    assert(expected_magic@ == wasabi_magic());
    if !same_bytes(magic.as_slice(), expected_magic.as_slice()) {
        return Err(FsError::HeaderMagicInvalid);
    }
    let expected_version = fs_version();
    if !same_bytes(version.as_slice(), expected_version.as_slice()) {
        return Err(FsError::HeaderVersionMismatch(version));
    }
    match transient {
        None => Err(FsError::HeaderWithoutTransient),
        Some(t) => {
            if !matches!(t.status, FsStatus::Ready) {
                Err(FsError::NotInitialized)
            } else {
                Ok(t)
            }
        },
    }
}

/// The transient header written when the file system is mounted with
/// `access`, or the reason the mount is refused.
pub open spec fn spec_mount(on_device: MainTransientHeader, access: AccessMode, force_open: bool) -> Result<
    MainTransientHeader,
    FsError,
> {
    if force_open {
        Ok(
            MainTransientHeader {
                mount_count: 1,
                open_in_write_mode: access == AccessMode::ReadWrite,
                ..on_device
            },
        )
    } else {
        match access {
            AccessMode::ReadOnly => if on_device.open_in_write_mode {
                Err(FsError::AlreadyMounted)
            } else {
                Ok(
                    MainTransientHeader {
                        mount_count: (on_device.mount_count + 1) as u8,
                        ..on_device
                    },
                )
            },
            AccessMode::ReadWrite => if on_device.mount_count != 0 {
                Err(FsError::AlreadyMounted)
            } else {
                Ok(
                    MainTransientHeader {
                        mount_count: (on_device.mount_count + 1) as u8,
                        open_in_write_mode: true,
                        ..on_device
                    },
                )
            },
        }
    }
}

/// The transient header to write when a file system whose transient header
/// on the device is `on_device` is mounted with `access`.
///
/// A read only mount is refused while a mount may write, a writing mount
/// while any other mount exists, unless `force_open` skips these checks.
/// A read only mount that joins others must leave room in the counter.
pub fn mount_transient(on_device: MainTransientHeader, access: AccessMode, force_open: bool) -> (r:
    Result<MainTransientHeader, FsError>)
    requires
        !force_open && access == AccessMode::ReadOnly && !on_device.open_in_write_mode
            ==> on_device.mount_count < u8::MAX,
    ensures
        r == spec_mount(on_device, access, force_open),
{
    let mut new_transient = on_device;
    if force_open {
        match access {
            AccessMode::ReadOnly => {
                new_transient.open_in_write_mode = false;
                new_transient.mount_count = 1;
            },
            AccessMode::ReadWrite => {
                new_transient.open_in_write_mode = true;
                new_transient.mount_count = 1;
            },
        }
    } else {
        match access {
            AccessMode::ReadOnly => {
                if on_device.open_in_write_mode {
                    return Err(FsError::AlreadyMounted);
                }
                new_transient.mount_count = new_transient.mount_count + 1;
            },
            AccessMode::ReadWrite => {
                if on_device.mount_count != 0 {
                    return Err(FsError::AlreadyMounted);
                }
                new_transient.mount_count = new_transient.mount_count + 1;
                new_transient.open_in_write_mode = true;
            },
        }
    }
    Ok(new_transient)
}

/// The transient header written when a mount with `access` is closed.
pub open spec fn spec_close(open: MainTransientHeader, access: AccessMode) -> MainTransientHeader {
    match access {
        AccessMode::ReadOnly => MainTransientHeader {
            mount_count: (open.mount_count - 1) as u8,
            ..open
        },
        AccessMode::ReadWrite => MainTransientHeader {
            mount_count: (open.mount_count - 1) as u8,
            open_in_write_mode: false,
            ..open
        },
    }
}

/// The transient header to write when a mount with `access` of a file
/// system whose transient header is `open` is closed; it counts the mount.
pub fn close_transient(open: MainTransientHeader, access: AccessMode) -> (r: MainTransientHeader)
    requires
        open.mount_count >= 1,
    ensures
        r == spec_close(open, access),
        r.mount_count == open.mount_count - 1,
{
    let mut closed = open;
    match access {
        AccessMode::ReadOnly => {
            closed.mount_count = closed.mount_count - 1;
        },
        AccessMode::ReadWrite => {
            closed.mount_count = closed.mount_count - 1;
            closed.open_in_write_mode = false;
        },
    }
    closed
}

/// Closing a mount that was not forced restores the transient header that was
/// on the device before the mount; for a writing mount, the header said that
/// no mount may write.
pub proof fn lemma_close_undoes_mount(on_device: MainTransientHeader, access: AccessMode)
    requires
        spec_mount(on_device, access, false) is Ok,
        access == AccessMode::ReadOnly ==> on_device.mount_count < u8::MAX,
        access == AccessMode::ReadWrite ==> !on_device.open_in_write_mode,
    ensures
        spec_mount(on_device, access, false) matches Ok(mounted) && mounted.mount_count >= 1
            && spec_close(mounted, access) == on_device,
{
}

/// A mount that is not forced never lets a writer share the file system: a
/// writing mount needs no other mount, and a read only mount needs no writer.
pub proof fn lemma_writer_is_alone(on_device: MainTransientHeader, access: AccessMode)
    requires
        spec_mount(on_device, access, false) is Ok,
    ensures
        access == AccessMode::ReadWrite ==> on_device.mount_count == 0,
        access == AccessMode::ReadOnly ==> !on_device.open_in_write_mode,
{
}

/// Every mount that is let in records on the device whether it writes: the
/// transient header it writes says that a writer is mounted exactly for a
/// writing mount, forced or not, and counts at least one mount. The other
/// fields of the header stay as they were on the device.
pub proof fn lemma_mount_records_writer(
    on_device: MainTransientHeader,
    access: AccessMode,
    force_open: bool,
)
    requires
        !force_open && access == AccessMode::ReadOnly ==> on_device.mount_count < u8::MAX,
    ensures
        spec_mount(on_device, access, force_open) matches Ok(written) ==> {
            &&& written.open_in_write_mode == (access == AccessMode::ReadWrite)
            &&& written.mount_count >= 1
            &&& written.magic == on_device.magic
            &&& written.status == on_device.status
        },
{
}

/// Once a writing mount is let in, no other mount that is not forced is let
/// in beside it, whether it reads or writes.
pub proof fn lemma_writer_keeps_others_out(
    on_device: MainTransientHeader,
    force_open: bool,
    access: AccessMode,
)
    requires
        spec_mount(on_device, AccessMode::ReadWrite, force_open) is Ok,
    ensures
        spec_mount(spec_mount(on_device, AccessMode::ReadWrite, force_open)->Ok_0, access, false)
            == Err::<MainTransientHeader, FsError>(FsError::AlreadyMounted),
{
}

} // verus!
