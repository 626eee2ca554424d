//! The LittleFS side of the flash: how the file system's block-device calls
//! map onto the flash partition, and the mount sequence at start-up.

use vstd::prelude::*;

verus! {

/// Size in bytes of the flash area given to LittleFS.
pub const LITTLEFS_AREA_SIZE: usize = 0x430000;

/// Erase cycles per block before LittleFS moves data away from it.
pub const LITTLEFS_BLOCK_CYCLES: isize = 100;

/// Number of LittleFS blocks for a given erase-block size.
pub fn block_count(block_size: usize) -> (count: usize)
    requires
        block_size > 0,
    ensures
        count == LITTLEFS_AREA_SIZE as int / block_size as int,
{
    LITTLEFS_AREA_SIZE / block_size
}

/// The error LittleFS is given for a failed block-device call.
#[derive(Debug, Clone, Copy, PartialEq, Eq, Structural)]
pub enum FsIoError {
    Io,
}

/// The flash address of a LittleFS offset: the offset truncated to 32 bits.
pub fn flash_address(off: usize) -> (addr: u32)
    ensures
        addr == off as u32,
{
    off as u32
}

/// The flash addresses `[from, to)` erased for `len` bytes at offset `off`.
pub fn erase_bounds(off: usize, len: usize) -> (bounds: (u32, u32))
    requires
        off + len <= usize::MAX,
    ensures
        bounds.0 == off as u32,
        bounds.1 == (off + len) as u32,
{
    (off as u32, (off + len) as u32)
}

/// What a block-device call answers LittleFS: the byte count handed over
/// when the flash call succeeded, else an I/O error.
pub fn transfer_result<E>(flash: Result<(), E>, count: usize) -> (r: Result<usize, FsIoError>)
    ensures
        flash is Ok ==> r == Ok::<usize, FsIoError>(count),
        flash is Err ==> r == Err::<usize, FsIoError>(FsIoError::Io),
{
    match flash {
        Ok(()) => Ok(count),
        Err(_) => Err(FsIoError::Io),
    }
}

/// Where the start-up of the file system stands.
///
/// A first mount only probes whether the partition holds a file system; if it
/// does not, the partition is formatted. Either way the file system is then
/// mounted for use.
#[derive(Debug, Clone, Copy, PartialEq, Eq, Structural)]
pub enum MountStep {
    /// Probe by mounting once.
    Probe,
    /// Format the partition.
    Format,
    /// Mount the file system for use.
    Mount,
    /// The file system is mounted.
    Mounted,
    /// Formatting failed.
    FormatFailed,
    /// The final mount failed.
    MountFailed,
}

/// The step that follows `step` when its action succeeded or failed.
pub open spec fn mount_transition(step: MountStep, succeeded: bool) -> MountStep {
    match step {
        MountStep::Probe => if succeeded { MountStep::Mount } else { MountStep::Format },
        MountStep::Format => if succeeded { MountStep::Mount } else { MountStep::FormatFailed },
        MountStep::Mount => if succeeded { MountStep::Mounted } else { MountStep::MountFailed },
        _ => step,
    }
}

/// Whether the start-up has ended.
pub open spec fn mount_finished(step: MountStep) -> bool {
    step is Mounted || step is FormatFailed || step is MountFailed
}

/// The step after `step`, given whether its action succeeded.
pub fn next_mount_step(step: MountStep, succeeded: bool) -> (next: MountStep)
    ensures
        next == mount_transition(step, succeeded),
{
    match step {
        MountStep::Probe => if succeeded { MountStep::Mount } else { MountStep::Format },
        MountStep::Format => if succeeded { MountStep::Mount } else { MountStep::FormatFailed },
        MountStep::Mount => if succeeded { MountStep::Mounted } else { MountStep::MountFailed },
        _ => step,
    }
}

/// The start-up from a probe ends after at most three actions, whatever they
/// report.
pub proof fn law_mount_sequence_ends(a: bool, b: bool, c: bool)
    ensures
        mount_finished(
            mount_transition(mount_transition(mount_transition(MountStep::Probe, a), b), c),
        ),
{
}

/// The partition is formatted only after the probe failed.
pub proof fn law_format_only_after_failed_probe(step: MountStep, succeeded: bool)
    ensures
        mount_transition(step, succeeded) is Format <==> (step is Probe && !succeeded),
{
}

/// The start-up ends mounted exactly when the final mount succeeds after the
/// probe found a file system, or after a failed probe and a successful format.
pub proof fn law_mounted_exactly_when(probe: bool, second: bool, third: bool)
    ensures
        mount_transition(mount_transition(mount_transition(MountStep::Probe, probe), second), third)
            is Mounted <==> (if probe { second } else { second && third }),
{
}

/// Once the start-up has ended it stays where it ended.
pub proof fn law_finished_is_final(step: MountStep, succeeded: bool)
    requires
        mount_finished(step),
    ensures
        mount_transition(step, succeeded) == step,
{
}

} // verus!
