use xtrooder::dir::{
    listed_entries, delete_entry_in_block, find_entry_in_block, find_free_entry, DirRegion, DirWalk, WalkStep,
};
use xtrooder::volume::{
    bytes_until_max, clusters_to_skip, find_handle, plan_delete, plan_make_dir, plan_open,
    plan_read_step, plan_write_step, EntryFacts, OpenPlan, WriteStep,
};
use xtrooder::fat::{
    decode_fat16, decode_fat32, fat16_entry, fat32_entry, fill_info_sector, read_partition,
    solve_mode_variant, BlockCache, BlockCount, BpbFields, parse_bpb, read_info_sector, bpb_block_readable, BlockIdx, BlockTrait, ClusterId, DeviceError,
    Fat16Info, Fat32Info, FatSpecificInfo, FatType, FatVolume, Mode, VolumeIdx, VolumeName,
};

fn volume(info: FatSpecificInfo) -> FatVolume {
    FatVolume {
        lba_start: BlockIdx(100),
        num_blocks: BlockCount(100_000),
        name: VolumeName::new(*b"NO NAME    "),
        blocks_per_cluster: 4,
        first_data_block: BlockCount(50),
        fat_start: BlockCount(2),
        free_clusters_count: Some(7),
        next_free_cluster: Some(ClusterId(9)),
        cluster_count: 20_000,
        fat_specific_info: info,
    }
}

fn fat16() -> FatVolume {
    volume(FatSpecificInfo::Fat16(Fat16Info {
        first_root_dir_block: BlockCount(30),
        root_entries_count: 512,
    }))
}

fn fat32() -> FatVolume {
    volume(FatSpecificInfo::Fat32(Fat32Info {
        first_root_dir_cluster: ClusterId(2),
        info_location: BlockIdx(1),
    }))
}

#[test]
fn fat16_entries_round_trip() {
    for c in [2u32, 3, 1000, 0xFFF6] {
        assert_eq!(decode_fat16(fat16_entry(ClusterId(c))), Ok(ClusterId(c)));
    }
    assert_eq!(decode_fat16(fat16_entry(ClusterId(0xFFFF_FFFF))), Err(DeviceError::EndOfFile));
    assert_eq!(decode_fat16(0xFFF7), Err(DeviceError::BadCluster));
    assert_eq!(fat16_entry(ClusterId(0)), 0);
    assert_eq!(fat16_entry(ClusterId(0xFFFF_FFF7)), 0xFFF7);
}

#[test]
fn fat32_entries_keep_reserved_bits() {
    let e = fat32_entry(0xA000_0000, ClusterId(0x0123_4567));
    assert_eq!(e, 0xA123_4567);
    assert_eq!(decode_fat32(e), Ok(ClusterId(0x0123_4567)));
    assert_eq!(decode_fat32(fat32_entry(0xF000_0000, ClusterId(0xFFFF_FFFF))), Err(DeviceError::EndOfFile));
    assert_eq!(decode_fat32(0), Err(DeviceError::UnterminatedFatChain));
    assert_eq!(decode_fat32(0x0FFF_FFF7), Err(DeviceError::BadCluster));
    assert_eq!(decode_fat32(1), Err(DeviceError::EndOfFile));
}

#[test]
fn cluster_geometry() {
    let v = fat16();
    assert_eq!(v.get_fat_type(), FatType::Fat16);
    assert_eq!(v.bytes_per_cluster(), 2048);
    assert_eq!(v.cluster_to_block(ClusterId(2)), BlockIdx(150));
    assert_eq!(v.cluster_to_block(ClusterId(3)), BlockIdx(154));
    assert_eq!(v.cluster_to_block(ClusterId(0xFFFF_FFFC)), BlockIdx(130));
    let w = fat32();
    assert_eq!(w.get_fat_type(), FatType::Fat32);
    assert_eq!(w.cluster_to_block(ClusterId(0xFFFF_FFFC)), BlockIdx(150));
    assert_eq!(w.cluster_to_block(ClusterId(5)), BlockIdx(162));
}

#[test]
fn fat_entry_written_and_read_back() {
    for v in [fat16(), fat32()] {
        let (block, at) = v.fat_entry_location(ClusterId(300));
        let per_block = if v.get_fat_type() == FatType::Fat16 { 256 } else { 128 };
        assert_eq!(block, BlockIdx(100 + 2 + 300 / per_block));
        assert_eq!(at, (300 % per_block) as usize * (512 / per_block) as usize);
        let mut data = [0u8; 512];
        v.set_entry_in_block(&mut data, ClusterId(300), ClusterId(301));
        v.set_entry_in_block(&mut data, ClusterId(301), ClusterId(0xFFFF_FFFF));
        assert_eq!(v.next_cluster_in_block(&data, ClusterId(300)), Ok(ClusterId(301)));
        assert_eq!(v.next_cluster_in_block(&data, ClusterId(301)), Err(DeviceError::EndOfFile));
    }
}

#[test]
fn partitions() {
    let mut mbr = [0u8; 512];
    assert_eq!(read_partition(&mbr, VolumeIdx(0)), Err(DeviceError::InvalidMbrSignature));
    mbr[510] = 0x55;
    mbr[511] = 0xAA;
    assert_eq!(read_partition(&mbr, VolumeIdx(4)), Err(DeviceError::NoSuchVolume));
    assert_eq!(read_partition(&mbr, VolumeIdx(0)), Err(DeviceError::PartitionTypeNotSupported));
    mbr[446] = 0x80;
    mbr[446 + 4] = 0x0C;
    mbr[446 + 8..446 + 12].copy_from_slice(&2048u32.to_le_bytes());
    mbr[446 + 12..446 + 16].copy_from_slice(&1_000_000u32.to_le_bytes());
    let p = read_partition(&mbr, VolumeIdx(0)).unwrap();
    assert_eq!(p.partition_type, 0x0C);
    assert_eq!(p.lba_start, BlockIdx(2048));
    assert_eq!(p.num_blocks, BlockCount(1_000_000));
    mbr[462] = 0x12;
    assert_eq!(read_partition(&mbr, VolumeIdx(1)), Err(DeviceError::InvalidPartitionStatus));
}

#[test]
fn info_sector_counts() {
    let v = fat32();
    let mut block = [0xEEu8; 512];
    fill_info_sector(&v, &mut block);
    assert_eq!(&block[488..492], &7u32.to_le_bytes());
    assert_eq!(&block[492..496], &9u32.to_le_bytes());
    assert_eq!(block[487], 0xEE);
    assert_eq!(block[496], 0xEE);
}

#[test]
fn open_modes() {
    assert_eq!(solve_mode_variant(Mode::ReadWriteCreateOrAppend, true), Mode::ReadWriteAppend);
    assert_eq!(solve_mode_variant(Mode::ReadWriteCreateOrAppend, false), Mode::ReadWriteCreate);
    assert_eq!(solve_mode_variant(Mode::ReadWriteCreateOrTruncate, true), Mode::ReadWriteTruncate);
    assert_eq!(solve_mode_variant(Mode::ReadWriteCreateOrTruncate, false), Mode::ReadWriteCreate);
    assert_eq!(solve_mode_variant(Mode::ReadOnly, false), Mode::ReadOnly);
    for m in [Mode::ReadWriteCreateOrAppend, Mode::ReadWriteCreateOrTruncate, Mode::ReadWriteAppend] {
        for e in [true, false] {
            let once = solve_mode_variant(m, e);
            assert_eq!(solve_mode_variant(once, e), once);
        }
    }
}

#[test]
fn writing_one_entry_keeps_its_neighbours() {
    for v in [fat16(), fat32()] {
        let mut data = [0u8; 512];
        v.set_entry_in_block(&mut data, ClusterId(40), ClusterId(77));
        v.set_entry_in_block(&mut data, ClusterId(41), ClusterId(0xFFFF_FFFF));
        v.set_entry_in_block(&mut data, ClusterId(42), ClusterId(0));
        assert_eq!(v.next_cluster_in_block(&data, ClusterId(40)), Ok(ClusterId(77)));
        assert_eq!(v.next_cluster_in_block(&data, ClusterId(41)), Err(DeviceError::EndOfFile));
    }
}

fn dir_block(names: &[&[u8; 11]]) -> [u8; 512] {
    let mut b = [0u8; 512];
    for (k, n) in names.iter().enumerate() {
        b[k * 32..k * 32 + 11].copy_from_slice(&n[..]);
    }
    b
}

#[test]
fn directory_entries() {
    let mut b = dir_block(&[b"README  TXT", b"BOOT    BIN", b"README  TXT"]);
    assert_eq!(find_entry_in_block(&b, b"BOOT    BIN"), Ok(1));
    assert_eq!(find_entry_in_block(&b, b"OTHER   BIN"), Err(DeviceError::NotFound));
    assert_eq!(find_free_entry(&b), Some(3));
    assert!(delete_entry_in_block(&mut b, b"README  TXT"));
    assert_eq!(b[0], 0xE5);
    assert_eq!(b[64], 0xE5);
    assert_eq!(b[32], b'B');
    assert_eq!(find_entry_in_block(&b, b"README  TXT"), Err(DeviceError::NotFound));
    assert_eq!(find_free_entry(&b), Some(0));
    assert!(!delete_entry_in_block(&mut b, b"README  TXT"));
}

#[test]
fn scan_stops_at_end_of_directory() {
    let mut b = dir_block(&[b"A       TXT"]);
    b[64..75].copy_from_slice(b"B       TXT");
    assert_eq!(find_entry_in_block(&b, b"B       TXT"), Err(DeviceError::NotFound));
    assert!(!delete_entry_in_block(&mut b, b"B       TXT"));
    assert_eq!(b[64], b'B');
}

#[test]
fn full_block_has_no_free_entry() {
    let names: Vec<[u8; 11]> = (0..16u8).map(|i| { let mut n = *b"FILE    TXT"; n[4] = b'A' + i; n }).collect();
    let refs: Vec<&[u8; 11]> = names.iter().collect();
    let b = dir_block(&refs);
    assert_eq!(find_free_entry(&b), None);
}

#[test]
fn directory_regions() {
    let v = fat16();
    assert_eq!(
        v.dir_region(ClusterId(0xFFFF_FFFC)),
        DirRegion { cluster: ClusterId(0xFFFF_FFFC), first_block: BlockIdx(130), blocks: BlockCount(32), chained: false }
    );
    assert_eq!(
        v.dir_region(ClusterId(3)),
        DirRegion { cluster: ClusterId(3), first_block: BlockIdx(154), blocks: BlockCount(4), chained: true }
    );
    let w = fat32();
    assert_eq!(
        w.dir_region(ClusterId(0xFFFF_FFFC)),
        DirRegion { cluster: ClusterId(2), first_block: BlockIdx(150), blocks: BlockCount(4), chained: true }
    );
    assert_eq!(BlockCount::from_bytes(0), BlockCount(0));
    assert_eq!(BlockCount::from_bytes(1), BlockCount(1));
    assert_eq!(BlockCount::from_bytes(512), BlockCount(1));
    assert_eq!(BlockCount::from_bytes(513), BlockCount(2));
}

struct TestBlock([u8; 512]);

impl BlockTrait for TestBlock {
    fn new() -> Self {
        TestBlock([0; 512])
    }

    fn content(&self) -> &[u8] {
        &self.0
    }
}

#[test]
fn block_cache_reads_each_block_once() {
    let mut c: BlockCache<TestBlock> = BlockCache::empty();
    assert!(c.needs_read(BlockIdx(5)));
    c.store(BlockIdx(5), TestBlock([7; 512]));
    assert!(!c.needs_read(BlockIdx(5)));
    assert!(c.needs_read(BlockIdx(6)));
    assert_eq!(c.block().content()[0], 7);
}

#[test]
fn directory_walks() {
    let v = fat16();
    let root = v.dir_region(ClusterId(0xFFFF_FFFC));
    assert!(root.fits());
    let mut w = DirWalk::new(root);
    for k in 0..32 {
        assert_eq!(w.step(), WalkStep::Read(BlockIdx(130 + k)));
    }
    assert_eq!(w.step(), WalkStep::End);

    let sub = v.dir_region(ClusterId(3));
    let mut w = DirWalk::new(sub);
    for k in 0..4 {
        assert_eq!(w.step(), WalkStep::Read(BlockIdx(154 + k)));
    }
    assert_eq!(w.step(), WalkStep::Follow(ClusterId(3)));
    assert!(v.cluster_walkable(ClusterId(7)));
    w.follow(&v, ClusterId(7));
    assert_eq!(w.step(), WalkStep::Read(BlockIdx(170)));
    assert!(!v.cluster_walkable(ClusterId(1)));
    assert!(!v.cluster_walkable(ClusterId(0xFFFF_FFF0)));
}

#[test]
fn free_clusters_in_a_fat_block() {
    let v = fat16();
    let mut data = [0xFFu8; 512];
    data[20] = 0;
    data[21] = 0;
    assert_eq!(v.free_in_block(&data, ClusterId(3)), Ok(ClusterId(10)));
    assert_eq!(v.free_in_block(&data, ClusterId(11)), Err(ClusterId(256)));
    let w = fat32();
    let mut data = [0u8; 512];
    for k in 0..128 {
        data[k * 4..k * 4 + 4].copy_from_slice(&0xF000_0001u32.to_le_bytes());
    }
    data[400..404].copy_from_slice(&0xF000_0000u32.to_le_bytes());
    assert_eq!(w.free_in_block(&data, ClusterId(130)), Ok(ClusterId(228)));
    assert_eq!(w.free_in_block(&data, ClusterId(229)), Err(ClusterId(256)));
}

#[test]
fn allocation_bookkeeping() {
    let mut v = fat32();
    assert_eq!(v.end_cluster(), ClusterId(20_002));
    assert_eq!(v.alloc_start(), ClusterId(9));
    v.next_free_cluster = Some(ClusterId(30_000));
    assert_eq!(v.alloc_start(), ClusterId(2));
    v.remember_free(ClusterId(12));
    assert_eq!(v.next_free_cluster, Some(ClusterId(12)));
    v.remember_free(ClusterId(40));
    assert_eq!(v.next_free_cluster, Some(ClusterId(12)));
    v.count_allocated();
    assert_eq!(v.free_clusters_count, Some(6));
    v.count_freed();
    v.count_freed();
    assert_eq!(v.free_clusters_count, Some(8));
    v.free_clusters_count = None;
    v.count_freed();
    assert_eq!(v.free_clusters_count, None);
}

#[test]
fn file_data_on_the_disk() {
    let v = fat32();
    assert_eq!(clusters_to_skip(2048, 0, 5000), 2);
    assert_eq!(v.data_location(ClusterId(5), 4096, 5000), (BlockIdx(163), 392, 120));
    assert_eq!(find_handle(&[7, 9, 9], 9), Ok(1));
    assert_eq!(find_handle(&[7, 9], 3), Err(DeviceError::BadHandle));
}

#[test]
fn directory_listing() {
    let mut b = dir_block(&[b"A       TXT", b"B       TXT", b"C       TXT", b"D       TXT"]);
    b[32] = 0xE5;
    b[64 + 11] = 0x0F;
    assert_eq!(listed_entries(&b), (vec![0, 3], true));
    let names: Vec<[u8; 11]> = (0..16u8).map(|i| { let mut n = *b"FILE    TXT"; n[4] = b'A' + i; n }).collect();
    let refs: Vec<&[u8; 11]> = names.iter().collect();
    let full = dir_block(&refs);
    let (listed, ended) = listed_entries(&full);
    assert_eq!(listed.len(), 16);
    assert!(!ended);
}

#[test]
fn opening_files() {
    let file = Some(EntryFacts { read_only: false, directory: false });
    let locked = Some(EntryFacts { read_only: true, directory: false });
    let dir = Some(EntryFacts { read_only: false, directory: true });
    assert_eq!(plan_open(Mode::ReadOnly, true, file, false), Err(DeviceError::TooManyOpenFiles));
    assert_eq!(plan_open(Mode::ReadOnly, false, None, false), Err(DeviceError::NotFound));
    assert_eq!(plan_open(Mode::ReadWriteAppend, false, None, false), Err(DeviceError::NotFound));
    assert_eq!(plan_open(Mode::ReadWriteCreate, false, None, false), Ok(OpenPlan::Create));
    assert_eq!(plan_open(Mode::ReadWriteCreateOrAppend, false, None, false), Ok(OpenPlan::Create));
    assert_eq!(plan_open(Mode::ReadWriteCreate, false, file, false), Err(DeviceError::FileAlreadyExists));
    assert_eq!(plan_open(Mode::ReadOnly, false, file, true), Err(DeviceError::FileAlreadyOpen));
    assert_eq!(plan_open(Mode::ReadOnly, false, file, false), Ok(OpenPlan::FromStart));
    assert_eq!(plan_open(Mode::ReadWriteCreateOrAppend, false, file, false), Ok(OpenPlan::AtEnd));
    assert_eq!(plan_open(Mode::ReadWriteCreateOrTruncate, false, file, false), Ok(OpenPlan::Truncate));
    assert_eq!(plan_open(Mode::ReadWriteAppend, false, locked, false), Err(DeviceError::ReadOnly));
    assert_eq!(plan_open(Mode::ReadOnly, false, locked, false), Ok(OpenPlan::FromStart));
    assert_eq!(plan_open(Mode::ReadOnly, false, dir, false), Err(DeviceError::OpenedDirAsFile));
    assert_eq!(plan_delete(true, false), Err(DeviceError::DeleteDirAsFile));
    assert_eq!(plan_delete(false, true), Err(DeviceError::FileAlreadyOpen));
    assert_eq!(plan_delete(false, false), Ok(()));
}

#[test]
fn making_directories() {
    let dir = EntryFacts { read_only: false, directory: true };
    let file = EntryFacts { read_only: false, directory: false };
    assert_eq!(plan_make_dir(true, Err(DeviceError::NotFound)), Err(DeviceError::TooManyOpenDirs));
    assert_eq!(plan_make_dir(false, Ok(dir)), Err(DeviceError::DirAlreadyExists));
    assert_eq!(plan_make_dir(false, Ok(file)), Err(DeviceError::FileAlreadyExists));
    assert_eq!(plan_make_dir(false, Err(DeviceError::NotFound)), Ok(()));
    assert_eq!(plan_make_dir(false, Err(DeviceError::BadCluster)), Err(DeviceError::BadCluster));
    assert_eq!(fat16().parent_link(ClusterId(0xFFFF_FFFC)), ClusterId(0));
    assert_eq!(fat16().parent_link(ClusterId(9)), ClusterId(9));
    assert_eq!(fat32().parent_link(ClusterId(0xFFFF_FFFC)), ClusterId(0xFFFF_FFFC));
}

#[test]
fn read_and_write_steps() {
    assert_eq!(
        plan_write_step(1000, 1200, 488, 24, 100),
        WriteStep { to_copy: 24, read_first: true, new_offset: 1024, new_length: 1200 }
    );
    assert_eq!(
        plan_write_step(1024, 1030, 0, 512, 100),
        WriteStep { to_copy: 100, read_first: false, new_offset: 1124, new_length: 1124 }
    );
    assert_eq!(bytes_until_max(u32::MAX - 10, 100), 10);
    assert_eq!(bytes_until_max(0, 100), 100);
    assert_eq!(plan_read_step(512, 100, 1000), 100);
    assert_eq!(plan_read_step(24, 100, 1000), 24);
    assert_eq!(plan_read_step(512, 100, 7), 7);
}

#[test]
fn linuxdevice_always_passes() {
    assert!(true);
}

/// The MBR of a card whose first partition holds a FAT32 volume.
fn pictures_mbr() -> [u8; 512] {
    let mut mbr = [0u8; 512];
    let entry = [
        0x00, 0x04, 0x01, 0x04, 0x0c, 0xfe, 0xc2, 0xff, 0x01, 0x00, 0x00, 0x00, 0x33, 0x22, 0x11,
        0x00,
    ];
    mbr[446..462].copy_from_slice(&entry);
    mbr[510] = 0x55;
    mbr[511] = 0xAA;
    mbr
}

/// The boot parameters of that volume.
fn pictures_bpb() -> BpbFields {
    BpbFields {
        fat_type: FatType::Fat32,
        bytes_per_block: 512,
        blocks_per_cluster: 8,
        reserved_block_count: 32,
        num_fats: 2,
        fat_size: 0x1d80,
        root_entries_count: 0,
        total_clusters: 965_788,
        fs_info_block: BlockCount(1),
        first_root_dir_cluster: 2,
        volume_label: *b"Pictures   ",
    }
}

#[test]
fn partition0() {
    let p = read_partition(&pictures_mbr(), VolumeIdx(0)).unwrap();
    let v = FatVolume::from_bpb_fields(p.lba_start, p.num_blocks, &pictures_bpb(), None, None);
    assert_eq!(
        v,
        Ok(FatVolume {
            lba_start: BlockIdx(1),
            num_blocks: BlockCount(0x0011_2233),
            blocks_per_cluster: 8,
            first_data_block: BlockCount(15136),
            fat_start: BlockCount(32),
            name: VolumeName::new(*b"Pictures   "),
            free_clusters_count: None,
            next_free_cluster: None,
            cluster_count: 965_788,
            fat_specific_info: FatSpecificInfo::Fat32(Fat32Info {
                first_root_dir_cluster: ClusterId(2),
                info_location: BlockIdx(2),
            })
        })
    );
}

#[test]
fn fat32_volume_keeps_info_sector_counts() {
    let v = FatVolume::from_bpb_fields(
        BlockIdx(2048),
        BlockCount(1_000_000),
        &pictures_bpb(),
        Some(1234),
        Some(ClusterId(77)),
    )
    .unwrap();
    assert_eq!(v.free_clusters_count, Some(1234));
    assert_eq!(v.next_free_cluster, Some(ClusterId(77)));
    assert_eq!(
        v.fat_specific_info,
        FatSpecificInfo::Fat32(Fat32Info { first_root_dir_cluster: ClusterId(2), info_location: BlockIdx(2049) })
    );
}

#[test]
fn fat16_volume_regions() {
    let mut bpb = pictures_bpb();
    bpb.fat_type = FatType::Fat16;
    bpb.blocks_per_cluster = 4;
    bpb.reserved_block_count = 4;
    bpb.num_fats = 2;
    bpb.fat_size = 245;
    bpb.root_entries_count = 512;
    bpb.total_clusters = 62_000;
    let v = FatVolume::from_bpb_fields(BlockIdx(63), BlockCount(250_000), &bpb, Some(5), Some(ClusterId(6)))
        .unwrap();
    // 4 reserved blocks, two FATs of 245 blocks, then 512 * 32 / 512 = 32 root directory blocks.
    assert_eq!(v.fat_start, BlockCount(4));
    assert_eq!(
        v.fat_specific_info,
        FatSpecificInfo::Fat16(Fat16Info { first_root_dir_block: BlockCount(494), root_entries_count: 512 })
    );
    assert_eq!(v.first_data_block, BlockCount(526));
    assert_eq!(v.free_clusters_count, None);
    assert_eq!(v.next_free_cluster, None);
    assert_eq!(v.get_fat_type(), FatType::Fat16);
    // A root directory that does not fill its last block still takes it.
    bpb.root_entries_count = 17;
    let v = FatVolume::from_bpb_fields(BlockIdx(63), BlockCount(250_000), &bpb, None, None).unwrap();
    assert_eq!(v.first_data_block, BlockCount(494 + 2));
}

#[test]
fn fat16_needs_512_byte_blocks() {
    let mut bpb = pictures_bpb();
    bpb.fat_type = FatType::Fat16;
    bpb.bytes_per_block = 1024;
    assert_eq!(
        FatVolume::from_bpb_fields(BlockIdx(0), BlockCount(10), &bpb, None, None),
        Err(DeviceError::BadBlockSize(1024))
    );
    // FAT32 volumes are not asked.
    bpb.fat_type = FatType::Fat32;
    assert!(FatVolume::from_bpb_fields(BlockIdx(0), BlockCount(10), &bpb, None, None).is_ok());
}

/// The boot sector of that volume, as the card holds it.
fn pictures_boot_sector() -> [u8; 512] {
    let mut b = [0u8; 512];
    let head = [0xeb, 0x58, 0x90, 0x6d, 0x6b, 0x66, 0x73, 0x2e, 0x66, 0x61, 0x74, 0x00, 0x02, 0x08, 0x20, 0x00, 0x02, 0x00, 0x00, 0x00, 0x00, 0xf8, 0x00, 0x00, 0x10, 0x00, 0x04, 0x00, 0x00, 0x08, 0x00, 0x00, 0x00, 0x20, 0x76, 0x00, 0x80, 0x1d, 0x00, 0x00, 0x00, 0x00, 0x00, 0x00, 0x02, 0x00, 0x00, 0x00, 0x01, 0x00, 0x06, 0x00, 0x00, 0x00, 0x00, 0x00, 0x00, 0x00, 0x00, 0x00, 0x00, 0x00, 0x00, 0x00, 0x80, 0x01, 0x29, 0x0b, 0xa8, 0x89, 0x27, 0x50, 0x69, 0x63, 0x74, 0x75, 0x72, 0x65, 0x73, 0x20, 0x20, 0x20, 0x46, 0x41, 0x54, 0x33, 0x32, 0x20, 0x20, 0x20];
    b[..head.len()].copy_from_slice(&head);
    b[510] = 0x55;
    b[511] = 0xAA;
    b
}

/// Its info sector, which knows neither count.
fn pictures_info_sector() -> [u8; 512] {
    let mut b = [0u8; 512];
    b[0..4].copy_from_slice(&[0x52, 0x52, 0x61, 0x41]);
    b[484..488].copy_from_slice(&[0x72, 0x72, 0x41, 0x61]);
    b[488..496].copy_from_slice(&[0xFF; 8]);
    b[510] = 0x55;
    b[511] = 0xAA;
    b
}

#[test]
fn partition0_from_disk() {
    let p = read_partition(&pictures_mbr(), VolumeIdx(0)).unwrap();
    let boot = pictures_boot_sector();
    assert!(bpb_block_readable(&boot));
    let bpb = parse_bpb(&boot).unwrap();
    assert_eq!(bpb, pictures_bpb());
    let (count, next) = read_info_sector(&pictures_info_sector()).unwrap();
    assert_eq!((count, next), (None, None));
    let v = FatVolume::from_bpb_fields(p.lba_start, p.num_blocks, &bpb, count, next).unwrap();
    assert_eq!(v.first_data_block, BlockCount(15136));
    assert_eq!(v.fat_start, BlockCount(32));
    assert_eq!(v.cluster_count, 965_788);
    assert_eq!(v.name, VolumeName::new(*b"Pictures   "));
    assert_eq!(
        v.fat_specific_info,
        FatSpecificInfo::Fat32(Fat32Info { first_root_dir_cluster: ClusterId(2), info_location: BlockIdx(2) })
    );
}

#[test]
fn boot_sectors_refused() {
    let mut boot = pictures_boot_sector();
    boot[511] = 0;
    assert_eq!(parse_bpb(&boot), Err(DeviceError::InvalidBpbSignature));
    // A small volume is FAT12.
    let mut boot = pictures_boot_sector();
    boot[32..36].copy_from_slice(&20_000u32.to_le_bytes());
    boot[36..40].copy_from_slice(&16u32.to_le_bytes());
    assert_eq!(parse_bpb(&boot), Err(DeviceError::Fat12Unsupported));
    // Between 4085 and 65525 clusters it is FAT16, its label at byte 43.
    let mut boot = pictures_boot_sector();
    boot[13] = 4;
    boot[14..16].copy_from_slice(&4u16.to_le_bytes());
    boot[17..19].copy_from_slice(&512u16.to_le_bytes());
    boot[19..21].copy_from_slice(&60_000u16.to_le_bytes());
    boot[22..24].copy_from_slice(&60u16.to_le_bytes());
    boot[43..54].copy_from_slice(b"SMALL      ");
    let bpb = parse_bpb(&boot).unwrap();
    assert_eq!(bpb.fat_type, FatType::Fat16);
    // (60000 - (4 + 2 * 60 + 32)) / 4 clusters.
    assert_eq!(bpb.total_clusters, 14_961);
    assert_eq!(&bpb.volume_label, b"SMALL      ");
    assert_eq!(bpb.fs_info_block, BlockCount(0));
    let mut info = pictures_info_sector();
    info[488..492].copy_from_slice(&100u32.to_le_bytes());
    info[492..496].copy_from_slice(&7u32.to_le_bytes());
    assert_eq!(read_info_sector(&info), Ok((Some(100), Some(ClusterId(7)))));
    info[0] = 0;
    assert_eq!(read_info_sector(&info), Err(DeviceError::InvalidInfoSector));
}
