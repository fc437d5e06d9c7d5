use xtrooder::fat::DeviceError;
use xtrooder::handles::OpenHandles;

#[test]
fn a_file_opens_once() {
    let mut h = OpenHandles::new();
    assert_eq!(h.open_file(10, 1, 200, 32), Ok(()));
    assert!(h.file_is_open(1, 200, 32));
    assert!(!h.file_is_open(1, 200, 64));
    assert!(!h.file_is_open(2, 200, 32));
    assert_eq!(h.open_file(11, 1, 200, 32), Err(DeviceError::FileAlreadyOpen));
    assert_eq!(h.file_position(11), Err(DeviceError::BadHandle));
    // The same entry on another volume is another file.
    assert_eq!(h.open_file(12, 2, 200, 32), Ok(()));
    assert_eq!(h.file_position(12), Ok(1));
}

#[test]
fn at_most_four_files_and_dirs() {
    let mut h = OpenHandles::new();
    for k in 0..4u32 {
        assert_eq!(h.open_file(k, 1, 100, 32 * k), Ok(()));
        assert_eq!(h.open_dir(100 + k, 1, 2), Ok(()));
    }
    assert_eq!(h.open_file(9, 1, 100, 500), Err(DeviceError::TooManyOpenFiles));
    // A full table refuses before it looks for the file.
    assert_eq!(h.open_file(9, 1, 100, 0), Err(DeviceError::TooManyOpenFiles));
    assert_eq!(h.open_dir(109, 1, 2), Err(DeviceError::TooManyOpenDirs));
    assert_eq!(h.close_file(2), Ok(()));
    assert_eq!(h.open_file(9, 1, 100, 500), Ok(()));
}

#[test]
fn closing_swaps_in_the_last_handle() {
    let mut h = OpenHandles::new();
    for k in 0..3u32 {
        assert_eq!(h.open_file(k, 1, 100, 32 * k), Ok(()));
    }
    assert_eq!(h.close_file(0), Ok(()));
    assert_eq!(h.file_position(2), Ok(0));
    assert_eq!(h.file_position(1), Ok(1));
    assert_eq!(h.file_position(0), Err(DeviceError::BadHandle));
    assert_eq!(h.close_file(0), Err(DeviceError::BadHandle));
    assert!(!h.file_is_open(1, 100, 0));
    // Closing a just-opened file leaves the table as it was.
    assert_eq!(h.open_file(7, 1, 300, 0), Ok(()));
    assert_eq!(h.close_file(7), Ok(()));
    assert_eq!(h.file_position(2), Ok(0));
    assert_eq!(h.file_position(1), Ok(1));
    assert_eq!(h.file_position(7), Err(DeviceError::BadHandle));
}

#[test]
fn directories_open_twice() {
    let mut h = OpenHandles::new();
    assert_eq!(h.open_dir(1, 5, 2), Ok(()));
    assert_eq!(h.open_dir(2, 5, 2), Ok(()));
    assert_eq!(h.dir_position(2), Ok(1));
    assert_eq!(h.close_dir(1), Ok(()));
    assert_eq!(h.dir_position(2), Ok(0));
    assert_eq!(h.close_dir(1), Err(DeviceError::BadHandle));
}

#[test]
fn volume_in_use_cannot_close() {
    let mut h = OpenHandles::new();
    assert_eq!(h.open_volume(5, 0), Ok(()));
    assert_eq!(h.open_dir(1, 5, 2), Ok(()));
    assert_eq!(h.close_volume(5), Err(DeviceError::VolumeStillInUse));
    assert_eq!(h.open_file(3, 5, 10, 0), Ok(()));
    assert_eq!(h.close_dir(1), Ok(()));
    assert!(h.volume_in_use(5));
    assert!(!h.volume_in_use(6));
    assert_eq!(h.close_volume(6), Err(DeviceError::BadHandle));
    assert_eq!(h.close_volume(5), Err(DeviceError::VolumeStillInUse));
    assert_eq!(h.close_file(3), Ok(()));
    assert_eq!(h.close_volume(5), Ok(()));
    assert_eq!(h.volume_position(5), Err(DeviceError::BadHandle));
    assert_eq!(h.close_volume(5), Err(DeviceError::BadHandle));
    // The partition can be opened again once closed.
    assert_eq!(h.open_volume(8, 0), Ok(()));
    assert_eq!(h.volume_position(8), Ok(0));
}

#[test]
fn one_volume_at_a_time() {
    let mut h = OpenHandles::new();
    assert_eq!(h.open_volume(1, 0), Ok(()));
    assert_eq!(h.open_volume(2, 1), Err(DeviceError::TooManyOpenVolumes));
    // A full table refuses before it looks at the partition.
    assert_eq!(h.open_volume(2, 0), Err(DeviceError::TooManyOpenVolumes));
    assert_eq!(h.close_volume(1), Ok(()));
    assert_eq!(h.open_volume(2, 1), Ok(()));
}

#[test]
fn open_handles_are_files_or_directories() {
    let mut h = OpenHandles::new();
    assert!(!h.has_open_handles());
    assert_eq!(h.open_volume(5, 0), Ok(()));
    assert!(!h.has_open_handles());
    assert_eq!(h.open_dir(1, 5, 2), Ok(()));
    assert!(h.has_open_handles());
    assert_eq!(h.close_dir(1), Ok(()));
    assert_eq!(h.open_file(2, 5, 10, 0), Ok(()));
    assert!(h.has_open_handles());
    assert_eq!(h.close_file(2), Ok(()));
    assert!(!h.has_open_handles());
}
