use xtrooder::clusters::{
    plan_alloc, retry_start, truncate_step, AllocPlan, FreeSearch, TruncAction, TruncEvent, TruncState,
};
use xtrooder::dirwrite::{
    directory_full, fill_dot_entries, grow_directory, place_entry_in_block, write_entry, AllocRequest,
    DirGrowth, EntryFields, ATTR_DIRECTORY,
};
use xtrooder::fat::{
    BlockCount, BlockIdx, ClusterId, DeviceError, Fat16Info, Fat32Info, FatSpecificInfo, FatType,
    FatVolume, VolumeName,
};
use xtrooder::dir::find_entry_in_block;
use xtrooder::filerw::{extend_on, grow_failed, FileState};
use xtrooder::mkdir::{make_dir_step, MkdirAction, MkdirEvent, MkdirState};
use xtrooder::volume::EntryFacts;

const ROOT: ClusterId = ClusterId(0xFFFF_FFFC);
const EOF: ClusterId = ClusterId(0xFFFF_FFFF);

fn volume(info: FatSpecificInfo, free: Option<u32>) -> FatVolume {
    FatVolume {
        lba_start: BlockIdx(100),
        num_blocks: BlockCount(100_000),
        name: VolumeName::new(*b"NO NAME    "),
        blocks_per_cluster: 4,
        first_data_block: BlockCount(50),
        fat_start: BlockCount(2),
        free_clusters_count: free,
        next_free_cluster: Some(ClusterId(9)),
        cluster_count: 20_000,
        fat_specific_info: info,
    }
}

fn fat16() -> FatVolume {
    volume(FatSpecificInfo::Fat16(Fat16Info { first_root_dir_block: BlockCount(30), root_entries_count: 512 }), None)
}

fn fat32() -> FatVolume {
    volume(
        FatSpecificInfo::Fat32(Fat32Info { first_root_dir_cluster: ClusterId(2), info_location: BlockIdx(1) }),
        Some(7),
    )
}

fn entry() -> EntryFields {
    EntryFields {
        name: *b"HELLO   TXT",
        attributes: 0x20,
        cluster: ClusterId(0x0012_3456),
        size: 0x0102_0304,
        ctime: 0x5A21_6C40,
        mtime: 0x5A22_6C41,
    }
}

#[test]
fn entry_bytes() {
    let mut block = [0xAAu8; 512];
    write_entry(&mut block, 32, &entry(), FatType::Fat32);
    assert_eq!(&block[32..43], b"HELLO   TXT");
    assert_eq!(block[43], 0x20);
    assert_eq!(&block[44..46], &[0, 0]);
    assert_eq!(&block[46..50], &0x5A21_6C40u32.to_le_bytes());
    assert_eq!(&block[50..52], &0x5A21u16.to_le_bytes());
    assert_eq!(&block[52..54], &0x0012u16.to_le_bytes());
    assert_eq!(&block[54..58], &0x5A22_6C41u32.to_le_bytes());
    assert_eq!(&block[58..60], &0x3456u16.to_le_bytes());
    assert_eq!(&block[60..64], &0x0102_0304u32.to_le_bytes());
    assert!(block[..32].iter().all(|b| *b == 0xAA));
    assert!(block[64..].iter().all(|b| *b == 0xAA));
    // FAT16 entries have no high half of the cluster.
    write_entry(&mut block, 0, &entry(), FatType::Fat16);
    assert_eq!(&block[20..22], &[0, 0]);
    assert_eq!(&block[26..28], &0x3456u16.to_le_bytes());
}

#[test]
fn new_entry_takes_first_free_slot() {
    let mut block = [0u8; 512];
    block[0] = b'A';
    block[32] = 0xE5;
    block[64] = b'B';
    let before = block;
    assert_eq!(place_entry_in_block(&mut block, &entry(), FatType::Fat16), Some(1));
    assert_eq!(&block[32..43], b"HELLO   TXT");
    assert_eq!(&block[..32], &before[..32]);
    assert_eq!(&block[64..], &before[64..]);
    let mut full = [b'X'; 512];
    assert_eq!(place_entry_in_block(&mut full, &entry(), FatType::Fat32), None);
    assert!(full.iter().all(|b| *b == b'X'));
}

#[test]
fn dot_entries_of_a_new_directory() {
    let mut block = [0x55u8; 512];
    fill_dot_entries(&fat16(), &mut block, ClusterId(40), ROOT, 0x1234_5678);
    assert_eq!(&block[0..11], b".          ");
    assert_eq!(block[11], ATTR_DIRECTORY);
    assert_eq!(&block[26..28], &40u16.to_le_bytes());
    assert_eq!(&block[32..43], b"..         ");
    assert_eq!(block[43], ATTR_DIRECTORY);
    // On FAT16 a parent that is the root directory is recorded as cluster 0.
    assert_eq!(&block[58..60], &[0, 0]);
    assert_eq!(&block[60..64], &[0, 0, 0, 0]);
    assert!(block[64..].iter().all(|b| *b == 0));
    let mut block = [0x55u8; 512];
    fill_dot_entries(&fat32(), &mut block, ClusterId(0x0001_0005), ClusterId(0x0002_0007), 0);
    assert_eq!(&block[20..22], &1u16.to_le_bytes());
    assert_eq!(&block[26..28], &5u16.to_le_bytes());
    assert_eq!(&block[52..54], &2u16.to_le_bytes());
    assert_eq!(&block[58..60], &7u16.to_le_bytes());
}

#[test]
fn full_directories() {
    assert_eq!(directory_full(&fat16(), ROOT, ROOT), Err(DeviceError::NotEnoughSpace));
    assert_eq!(
        directory_full(&fat16(), ClusterId(5), ClusterId(8)),
        Ok(AllocRequest { prev: Some(ClusterId(8)), zero: true })
    );
    assert_eq!(
        directory_full(&fat32(), ROOT, ClusterId(3)),
        Ok(AllocRequest { prev: Some(ClusterId(3)), zero: true })
    );
    assert_eq!(grow_directory(&fat32(), ROOT, ClusterId(3), Ok(ClusterId(4))), Ok(DirGrowth::Next(ClusterId(4))));
    assert_eq!(
        grow_directory(&fat32(), ROOT, ClusterId(3), Err(DeviceError::EndOfFile)),
        Ok(DirGrowth::Allocate(AllocRequest { prev: Some(ClusterId(3)), zero: true }))
    );
    assert_eq!(
        grow_directory(&fat32(), ROOT, ClusterId(3), Err(DeviceError::BadCluster)),
        Err(DeviceError::NotEnoughSpace)
    );
}

#[test]
fn free_cluster_search() {
    let v = fat16();
    // Clusters 256.. have their entries in the second FAT block.
    let mut s = FreeSearch::new(ClusterId(300), ClusterId(20_002));
    assert!(!s.exhausted());
    assert_eq!(s.block(&v), BlockIdx(100 + 2 + 1));
    let mut block = [0xFFu8; 512];
    assert_eq!(s.scan(&v, &block), None);
    assert_eq!(s.current_cluster(), ClusterId(512));
    block[2 * 5] = 0;
    block[2 * 5 + 1] = 0;
    assert_eq!(s.scan(&v, &block), Some(ClusterId(517)));
    let done = FreeSearch::new(ClusterId(10), ClusterId(10));
    assert!(done.exhausted());
    assert_eq!(retry_start(ClusterId(9)), Some(ClusterId(2)));
    assert_eq!(retry_start(ClusterId(2)), None);
}

#[test]
fn allocation_plan() {
    let mut v = fat32();
    let p = plan_alloc(&v, ClusterId(12), Some(ClusterId(11)));
    assert_eq!(
        p,
        AllocPlan {
            new_cluster: ClusterId(12),
            mark_end: (ClusterId(12), EOF),
            link: Some((ClusterId(11), ClusterId(12))),
            free_clusters_count: Some(6),
        }
    );
    v.finish_alloc(&p, ClusterId(13));
    assert_eq!(v.free_clusters_count, Some(6));
    assert_eq!(v.next_free_cluster, Some(ClusterId(13)));
    let p = plan_alloc(&fat16(), ClusterId(3), None);
    assert_eq!(p.link, None);
    assert_eq!(p.free_clusters_count, None);
}

#[test]
fn truncating_a_chain() {
    let mut v = fat32();
    v.next_free_cluster = Some(ClusterId(50));
    // 20 stays; 21 and 22 follow it.
    let (st, a) = truncate_step(&mut v, TruncState::Start(ClusterId(20)), TruncEvent::Go);
    assert_eq!(a, TruncAction::ReadNext(ClusterId(20)));
    let (st, a) = truncate_step(&mut v, st, TruncEvent::Next(Ok(ClusterId(21))));
    assert_eq!(a, TruncAction::Write(ClusterId(20), EOF));
    assert_eq!(v.next_free_cluster, Some(ClusterId(21)));
    let (st, a) = truncate_step(&mut v, st, TruncEvent::Written(Ok(())));
    assert_eq!(a, TruncAction::ReadNext(ClusterId(21)));
    let (st, a) = truncate_step(&mut v, st, TruncEvent::Next(Ok(ClusterId(22))));
    assert_eq!(a, TruncAction::Write(ClusterId(21), ClusterId(0)));
    let (st, a) = truncate_step(&mut v, st, TruncEvent::Written(Ok(())));
    assert_eq!(a, TruncAction::ReadNext(ClusterId(22)));
    assert_eq!(v.free_clusters_count, Some(8));
    let (st, a) = truncate_step(&mut v, st, TruncEvent::Next(Err(DeviceError::EndOfFile)));
    assert_eq!(a, TruncAction::Write(ClusterId(22), ClusterId(0)));
    let (st, a) = truncate_step(&mut v, st, TruncEvent::Written(Ok(())));
    assert_eq!(a, TruncAction::Finish(Ok(())));
    assert_eq!(st, TruncState::Done(Ok(())));
    // The last cluster freed is not counted.
    assert_eq!(v.free_clusters_count, Some(8));
    // Nothing to do for a file without clusters, or a chain of one.
    assert_eq!(truncate_step(&mut v, TruncState::Start(ClusterId(0)), TruncEvent::Go).1, TruncAction::Finish(Ok(())));
    assert_eq!(
        truncate_step(&mut v, TruncState::Head(ClusterId(5)), TruncEvent::Next(Err(DeviceError::EndOfFile))).1,
        TruncAction::Finish(Ok(()))
    );
    assert_eq!(
        truncate_step(&mut v, TruncState::Walking(ClusterId(5)), TruncEvent::Next(Err(DeviceError::BadCluster))).1,
        TruncAction::Finish(Err(DeviceError::BadCluster))
    );
}

#[test]
fn making_a_directory() {
    let v = fat32();
    let free = Err(DeviceError::NotFound);
    let (st, a) = make_dir_step(&v, MkdirState::Start, MkdirEvent::Looked(false, free));
    assert_eq!(a, MkdirAction::CreateEntry);
    let (st, a) = make_dir_step(&v, st, MkdirEvent::Created(Ok(ClusterId(0))));
    assert_eq!(a, MkdirAction::Allocate(AllocRequest { prev: None, zero: false }));
    let (st, a) = make_dir_step(&v, st, MkdirEvent::Allocated(Ok(ClusterId(30))));
    assert_eq!(a, MkdirAction::RecordCluster(ClusterId(30)));
    let (st, a) = make_dir_step(&v, st, MkdirEvent::Written(Ok(())));
    assert_eq!(a, MkdirAction::WriteDots(ClusterId(30)));
    let mut st = st;
    for k in 1..4u8 {
        let (s2, a) = make_dir_step(&v, st, MkdirEvent::Written(Ok(())));
        assert_eq!(a, MkdirAction::ZeroBlock(ClusterId(30), k));
        st = s2;
    }
    let (st, a) = make_dir_step(&v, st, MkdirEvent::Written(Ok(())));
    assert_eq!(a, MkdirAction::Finish(Ok(())));
    assert_eq!(st, MkdirState::Done(Ok(())));
    // Refusals and failures.
    let taken = Ok(EntryFacts { read_only: false, directory: true });
    assert_eq!(
        make_dir_step(&v, MkdirState::Start, MkdirEvent::Looked(false, taken)).1,
        MkdirAction::Finish(Err(DeviceError::DirAlreadyExists))
    );
    assert_eq!(
        make_dir_step(&v, MkdirState::Start, MkdirEvent::Looked(true, free)).1,
        MkdirAction::Finish(Err(DeviceError::TooManyOpenDirs))
    );
    assert_eq!(
        make_dir_step(&v, MkdirState::Allocating, MkdirEvent::Allocated(Err(DeviceError::NotEnoughSpace))).1,
        MkdirAction::Finish(Err(DeviceError::NotEnoughSpace))
    );
}

fn file(offset: u32, length: u32) -> FileState {
    FileState {
        read_only: false,
        dirty: false,
        first_cluster: ClusterId(10),
        cluster_start: 0,
        cluster: ClusterId(10),
        offset,
        length,
    }
}

#[test]
fn writing_moves_offset_and_grows() {
    let mut f = file(100, 300);
    assert_eq!(f.begin_write(), Ok(None));
    assert!(f.dirty);
    // 412 bytes are left in the block at offset 100; 600 are to be written.
    let s = f.write_step(ClusterId(10), 0, 100, 412, 600);
    assert_eq!((s.to_copy, s.read_first, s.new_offset, s.new_length), (412, true, 512, 512));
    let s = f.write_step(ClusterId(10), 0, 0, 512, 188);
    assert_eq!((s.to_copy, s.read_first), (188, false));
    assert_eq!((f.offset, f.length), (700, 700));
    // Overwriting inside the file keeps its length.
    let mut g = file(0, 300);
    g.write_step(ClusterId(10), 0, 0, 512, 10);
    assert_eq!((g.offset, g.length), (10, 300));
    let mut r = file(0, 0);
    r.read_only = true;
    assert_eq!(r.begin_write(), Err(DeviceError::ReadOnly));
    assert!(!r.dirty);
    let mut e = file(0, 0);
    e.first_cluster = ClusterId(0);
    assert_eq!(e.begin_write(), Ok(Some(AllocRequest { prev: None, zero: false })));
    e.set_first_cluster(ClusterId(33));
    e.cluster = ClusterId(0);
    e.rewind_before_first();
    assert_eq!((e.cluster, e.cluster_start), (ClusterId(33), 0));
    assert_eq!(extend_on(DeviceError::EndOfFile, ClusterId(12)), Ok(AllocRequest { prev: Some(ClusterId(12)), zero: false }));
    assert_eq!(extend_on(DeviceError::BadCluster, ClusterId(12)), Err(DeviceError::BadCluster));
    assert_eq!(grow_failed(DeviceError::NotEnoughSpace), DeviceError::DiskFull);
    assert_eq!(file(u32::MAX - 5, u32::MAX).write_room(100), 5);
}

#[test]
fn reading_stops_at_the_end() {
    let mut f = file(500, 1000);
    assert!(!f.eof());
    assert_eq!(f.left(), 500);
    assert_eq!(f.read_step(ClusterId(10), 0, 12, 4096), 12);
    assert_eq!(f.read_step(ClusterId(10), 0, 512, 4096), 488);
    assert!(f.eof());
    assert_eq!(f.read_byte_step(ClusterId(10), 0, 0, 512), Err(DeviceError::EndOfFile));
    let mut g = file(3, 10);
    assert_eq!(g.read_byte_step(ClusterId(10), 0, 3, 509), Ok(4));
    assert_eq!(g.offset, 4);
}

#[test]
fn placed_entry_is_found_again() {
    let mut block = [0u8; 512];
    block[0] = b'A';
    block[32] = b'B';
    let k = place_entry_in_block(&mut block, &entry(), FatType::Fat32).unwrap();
    assert_eq!(k, 2);
    assert_eq!(find_entry_in_block(&block, b"HELLO   TXT"), Ok(2));
    assert_eq!(find_entry_in_block(&block, b"OTHER   TXT"), Err(DeviceError::NotFound));
}
