use kazam::storage::littlefs::{
    block_count, erase_bounds, flash_address, next_mount_step, transfer_result, FsIoError,
    MountStep, LITTLEFS_AREA_SIZE, LITTLEFS_BLOCK_CYCLES,
};

#[test]
fn block_count_for_flash_sectors() {
    assert_eq!(block_count(4096), 1072);
    assert_eq!(block_count(1), LITTLEFS_AREA_SIZE);
    assert_eq!(LITTLEFS_BLOCK_CYCLES, 100);
}

#[test]
fn offsets_map_to_flash_addresses() {
    assert_eq!(flash_address(0), 0);
    assert_eq!(flash_address(0x1234), 0x1234);
    assert_eq!(flash_address(0x42_0000), 0x42_0000);
}

#[test]
fn offsets_truncate_to_32_bits() {
    assert_eq!(flash_address(usize::MAX), u32::MAX);
}

#[test]
fn erase_covers_offset_and_length() {
    assert_eq!(erase_bounds(4096, 4096), (4096, 8192));
    assert_eq!(erase_bounds(0, 0), (0, 0));
}

#[test]
fn transfers_report_count_or_io_error() {
    assert_eq!(transfer_result::<()>(Ok(()), 16), Ok(16));
    assert_eq!(transfer_result(Err("flash"), 16), Err(FsIoError::Io));
}

fn run(outcomes: &[bool]) -> Vec<MountStep> {
    let mut step = MountStep::Probe;
    let mut seen = vec![step];
    for &ok in outcomes {
        step = next_mount_step(step, ok);
        seen.push(step);
    }
    seen
}

#[test]
fn existing_file_system_is_mounted_without_format() {
    assert_eq!(
        run(&[true, true]),
        vec![MountStep::Probe, MountStep::Mount, MountStep::Mounted]
    );
}

#[test]
fn empty_partition_is_formatted_then_mounted() {
    assert_eq!(
        run(&[false, true, true]),
        vec![MountStep::Probe, MountStep::Format, MountStep::Mount, MountStep::Mounted]
    );
}

#[test]
fn failed_format_ends_start_up() {
    assert_eq!(
        run(&[false, false, true]),
        vec![MountStep::Probe, MountStep::Format, MountStep::FormatFailed, MountStep::FormatFailed]
    );
}

#[test]
fn failed_final_mount_ends_start_up() {
    assert_eq!(
        run(&[true, false, true]),
        vec![MountStep::Probe, MountStep::Mount, MountStep::MountFailed, MountStep::MountFailed]
    );
    assert_eq!(run(&[false, true, false])[3], MountStep::MountFailed);
}
