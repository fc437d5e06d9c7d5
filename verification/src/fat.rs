//! FAT16/FAT32 arithmetic: where clusters live on the disk, how File
//! Allocation Table entries are encoded, and how an MBR partition entry
//! reads.
use vstd::prelude::*;
use byteorder::ByteOrder;

verus! {

/// Bytes in a block.
pub const BLOCK_LEN: u32 = 512;

/// Number of entries reserved at the start of a File Allocation Table.
pub const RESERVED_ENTRIES: u32 = 2;

/// MBR partition types of FAT volumes.
pub const PARTITION_ID_FAT32_LBA: u8 = 0x0C;
pub const PARTITION_ID_FAT32_CHS_LBA: u8 = 0x0B;
pub const PARTITION_ID_FAT16_LBA: u8 = 0x0E;
pub const PARTITION_ID_FAT16: u8 = 0x06;

/// The supported types of FAT format.
#[derive(Debug, Copy, Clone, PartialEq, Eq, Structural)]
pub enum FatType {
    Fat16,
    Fat32,
}

/// The index of a block on the disk.
#[derive(Debug, Copy, Clone, PartialEq, Eq, Structural)]
pub struct BlockIdx(pub u32);

/// One block of a disk, as the block device hands it out.
pub trait BlockTrait: Sized {
    fn new() -> Self;

    fn content(&self) -> &[u8];
}

/// Keeps the last block read, so that walking a FAT chain reads each
/// block of the table once.
pub struct BlockCache<B: BlockTrait> {
    block: B,
    idx: Option<BlockIdx>,
}

impl<B: BlockTrait> BlockCache<B> {
    /// The index of the block held, if any.
    pub closed spec fn cached(&self) -> Option<BlockIdx> {
        self.idx
    }

    pub closed spec fn held(&self) -> B {
        self.block
    }

    /// A cache that holds no block yet.
    pub fn empty() -> (c: Self)
        ensures
            c.cached() is None,
    {
        BlockCache { block: B::new(), idx: None }
    }

    /// Whether block `block_idx` must be read from the device: it must
    /// unless it is the one held.
    pub fn needs_read(&self, block_idx: BlockIdx) -> (r: bool)
        ensures
            r == (self.cached() != Some(block_idx)),
    {
        match self.idx {
            Some(i) => i.0 != block_idx.0,
            None => true,
        }
    }

    /// Keeps `block` as the content of block `block_idx`.
    pub fn store(&mut self, block_idx: BlockIdx, block: B)
        ensures
            final(self).cached() == Some(block_idx),
            final(self).held() == block,
    {
        self.idx = Some(block_idx);
        self.block = block;
    }

    /// The block held.
    pub fn block(&self) -> (b: &B)
        ensures
            *b == self.held(),
    {
        &self.block
    }
}

/// A number of blocks.
#[derive(Debug, Copy, Clone, PartialEq, Eq, Structural)]
pub struct BlockCount(pub u32);

/// The number of a cluster.
#[derive(Debug, Copy, Clone, PartialEq, Eq, Structural)]
pub struct ClusterId(pub u32);

/// Special cluster numbers.
pub const CLUSTER_INVALID: u32 = 0xFFFF_FFF6;
pub const CLUSTER_BAD: u32 = 0xFFFF_FFF7;
pub const CLUSTER_EMPTY: u32 = 0x0000_0000;
pub const CLUSTER_ROOT_DIR: u32 = 0xFFFF_FFFC;
pub const CLUSTER_END_OF_FILE: u32 = 0xFFFF_FFFF;

/// Errors of the file system.
#[derive(Debug, Copy, Clone, PartialEq, Eq, Structural)]
pub enum DeviceError {
    /// The FAT marks the cluster as bad.
    BadCluster,
    /// The cluster chain ends here.
    EndOfFile,
    /// The cluster chain runs into free space.
    UnterminatedFatChain,
    /// The disk does not hold what a FAT disk holds.
    InvalidMbrSignature,
    InvalidPartitionStatus,
    PartitionTypeNotSupported,
    /// There is no volume with that index.
    NoSuchVolume,
    /// No directory entry has that name.
    NotFound,
    /// The directory cannot grow.
    NotEnoughSpace,
    /// No open volume, directory or file has that handle.
    BadHandle,
    /// As many files are open as the manager can hold.
    TooManyOpenFiles,
    /// The file is open already.
    FileAlreadyOpen,
    /// A file to be created exists already.
    FileAlreadyExists,
    /// The file is read-only.
    ReadOnly,
    /// The entry is a directory, not a file.
    OpenedDirAsFile,
    /// A directory cannot be deleted as a file.
    DeleteDirAsFile,
    /// The operation is not supported.
    Unsupported,
    /// As many directories are open as the manager can hold.
    TooManyOpenDirs,
    /// A directory to be created exists already.
    DirAlreadyExists,
    /// The volume's blocks are not 512 bytes long.
    BadBlockSize(u16),
    /// A file or directory of the volume is still open.
    VolumeStillInUse,
    /// As many volumes are open as the manager can hold.
    TooManyOpenVolumes,
    /// The partition is open already.
    VolumeAlreadyOpen,
    /// No free cluster is left for a file to grow.
    DiskFull,
    /// The boot sector does not end with the signature `0xAA55`.
    InvalidBpbSignature,
    /// The volume has too few clusters for FAT16: it is FAT12.
    Fat12Unsupported,
    /// The FAT32 info sector lacks one of its signatures.
    InvalidInfoSector,
}

/// The name of a FAT volume.
#[derive(Debug, Clone, PartialEq, Eq)]
pub struct VolumeName {
    pub data: [u8; 11],
}

impl VolumeName {
    pub fn new(data: [u8; 11]) -> (v: VolumeName)
        ensures
            v.data == data,
    {
        VolumeName { data }
    }
}

/// What FAT16 volumes hold beyond the common part.
#[derive(Debug, Copy, Clone, PartialEq, Eq, Structural)]
pub struct Fat16Info {
    /// The block of the root directory, relative to the partition start.
    pub first_root_dir_block: BlockCount,
    /// Entries in the root directory.
    pub root_entries_count: u16,
}

/// What FAT32 volumes hold beyond the common part.
#[derive(Debug, Copy, Clone, PartialEq, Eq, Structural)]
pub struct Fat32Info {
    /// The cluster of the root directory.
    pub first_root_dir_cluster: ClusterId,
    /// The block of the info sector.
    pub info_location: BlockIdx,
}

#[derive(Debug, Copy, Clone, PartialEq, Eq, Structural)]
pub enum FatSpecificInfo {
    Fat16(Fat16Info),
    Fat32(Fat32Info),
}

/// A FAT16 or FAT32 volume on the disk.
#[derive(Debug, PartialEq, Eq)]
pub struct FatVolume {
    /// The first block of the partition; other block numbers count from here.
    pub lba_start: BlockIdx,
    /// Blocks in the volume.
    pub num_blocks: BlockCount,
    pub name: VolumeName,
    /// Blocks in a cluster.
    pub blocks_per_cluster: u8,
    /// The first data block, relative to the partition start.
    pub first_data_block: BlockCount,
    /// The first FAT block, relative to the partition start.
    pub fat_start: BlockCount,
    pub free_clusters_count: Option<u32>,
    pub next_free_cluster: Option<ClusterId>,
    pub cluster_count: u32,
    pub fat_specific_info: FatSpecificInfo,
}

/// The kinds of volume.
#[derive(Debug, PartialEq, Eq)]
pub enum VolumeType {
    Fat(FatVolume),
}

/// The number of a partition on an MBR disk; 0 is the first primary one.
#[derive(Debug, Copy, Clone, PartialEq, Eq, Structural)]
pub struct VolumeIdx(pub usize);

/// A handle of an open volume.
#[derive(Debug, Copy, Clone, PartialEq, Eq, Structural)]
pub struct RawVolume(pub u32);

/// How a file is opened.
#[derive(Debug, Copy, Clone, PartialEq, Eq, Structural)]
pub enum Mode {
    ReadOnly,
    ReadWriteAppend,
    ReadWriteTruncate,
    ReadWriteCreate,
    ReadWriteCreateOrTruncate,
    ReadWriteCreateOrAppend,
}

/// The simple mode a combined mode stands for, given whether the file exists:
/// create-or-append appends to an existing file, create-or-truncate
/// truncates one, and both create a missing one.
pub open spec fn spec_solve_mode(mode: Mode, exists: bool) -> Mode {
    match mode {
        Mode::ReadWriteCreateOrAppend => if exists {
            Mode::ReadWriteAppend
        } else {
            Mode::ReadWriteCreate
        },
        Mode::ReadWriteCreateOrTruncate => if exists {
            Mode::ReadWriteTruncate
        } else {
            Mode::ReadWriteCreate
        },
        _ => mode,
    }
}

pub fn solve_mode_variant(mode: Mode, dir_entry_is_some: bool) -> (r: Mode)
    ensures
        r == spec_solve_mode(mode, dir_entry_is_some),
{
    let mut mode = mode;
    if mode == Mode::ReadWriteCreateOrAppend {
        if dir_entry_is_some {
            mode = Mode::ReadWriteAppend;
        } else {
            mode = Mode::ReadWriteCreate;
        }
    } else if mode == Mode::ReadWriteCreateOrTruncate {
        if dir_entry_is_some {
            mode = Mode::ReadWriteTruncate;
        } else {
            mode = Mode::ReadWriteCreate;
        }
    }
    mode
}

// ---------------------------------------------------------------------------
// Little-endian integers
// ---------------------------------------------------------------------------

pub open spec fn le_u16(b: Seq<u8>, at: int) -> u16 {
    (b[at] as int + 256 * b[at + 1] as int) as u16
}

pub open spec fn le_u32(b: Seq<u8>, at: int) -> u32 {
    (b[at] as int + 256 * b[at + 1] as int + 65536 * b[at + 2] as int + 16777216 * b[at
        + 3] as int) as u32
}

/// `LittleEndian::read_u16` on the two bytes at `at`.
#[verifier::external_body]
pub(crate) fn read_u16_le(buf: &[u8], at: usize) -> (v: u16)
    requires
        at + 2 <= buf@.len(),
    ensures
        v == le_u16(buf@, at as int),
{
    byteorder::LittleEndian::read_u16(&buf[at..at + 2])
}

/// `LittleEndian::read_u32` on the four bytes at `at`.
#[verifier::external_body]
pub(crate) fn read_u32_le(buf: &[u8], at: usize) -> (v: u32)
    requires
        at + 4 <= buf@.len(),
    ensures
        v == le_u32(buf@, at as int),
{
    byteorder::LittleEndian::read_u32(&buf[at..at + 4])
}

/// `LittleEndian::write_u16` into the two bytes at `at`.
#[verifier::external_body]
pub(crate) fn write_u16_le(buf: &mut [u8], at: usize, v: u16)
    requires
        at + 2 <= old(buf)@.len(),
    ensures
        final(buf)@.len() == old(buf)@.len(),
        le_u16(final(buf)@, at as int) == v,
        forall|i: int|
            0 <= i < old(buf)@.len() && !(at <= i < at + 2) ==> #[trigger] final(buf)@[i]
                == old(buf)@[i],
{
    byteorder::LittleEndian::write_u16(&mut buf[at..at + 2], v)
}

/// `LittleEndian::write_u32` into the four bytes at `at`.
#[verifier::external_body]
pub(crate) fn write_u32_le(buf: &mut [u8], at: usize, v: u32)
    requires
        at + 4 <= old(buf)@.len(),
    ensures
        final(buf)@.len() == old(buf)@.len(),
        le_u32(final(buf)@, at as int) == v,
        forall|i: int|
            0 <= i < old(buf)@.len() && !(at <= i < at + 4) ==> #[trigger] final(buf)@[i]
                == old(buf)@[i],
{
    byteorder::LittleEndian::write_u32(&mut buf[at..at + 4], v)
}

// ---------------------------------------------------------------------------
// FAT entries
// ---------------------------------------------------------------------------

/// The FAT16 entry that records `next` as the successor of a cluster.
pub open spec fn spec_fat16_entry(next: ClusterId) -> u16 {
    if next.0 == CLUSTER_INVALID {
        0xFFF6
    } else if next.0 == CLUSTER_BAD {
        0xFFF7
    } else if next.0 == CLUSTER_EMPTY {
        0x0000
    } else if next.0 == CLUSTER_END_OF_FILE {
        0xFFFF
    } else {
        next.0 as u16
    }
}

/// The FAT32 entry that records `next` over the entry `existing`: the top
/// four reserved bits of `existing` stay.
pub open spec fn spec_fat32_entry(existing: u32, next: ClusterId) -> u32 {
    let entry: u32 = if next.0 == CLUSTER_INVALID {
        0x0FFF_FFF6
    } else if next.0 == CLUSTER_BAD {
        0x0FFF_FFF7
    } else if next.0 == CLUSTER_EMPTY {
        0
    } else {
        next.0
    };
    (existing & 0xF000_0000) | (entry & 0x0FFF_FFFF)
}

pub fn fat16_entry(next: ClusterId) -> (e: u16)
    ensures
        e == spec_fat16_entry(next),
{
    if next.0 == CLUSTER_INVALID {
        0xFFF6
    } else if next.0 == CLUSTER_BAD {
        0xFFF7
    } else if next.0 == CLUSTER_EMPTY {
        0x0000
    } else if next.0 == CLUSTER_END_OF_FILE {
        0xFFFF
    } else {
        next.0 as u16
    }
}

pub fn fat32_entry(existing: u32, next: ClusterId) -> (e: u32)
    ensures
        e == spec_fat32_entry(existing, next),
{
    let entry: u32 = if next.0 == CLUSTER_INVALID {
        0x0FFF_FFF6
    } else if next.0 == CLUSTER_BAD {
        0x0FFF_FFF7
    } else if next.0 == CLUSTER_EMPTY {
        0
    } else {
        next.0
    };
    (existing & 0xF000_0000) | (entry & 0x0FFF_FFFF)
}

/// The successor of a cluster that a FAT16 entry records.
pub open spec fn spec_decode_fat16(e: u16) -> Result<ClusterId, DeviceError> {
    if e == 0xFFF7 {
        Err(DeviceError::BadCluster)
    } else if e >= 0xFFF8 {
        Err(DeviceError::EndOfFile)
    } else {
        Ok(ClusterId(e as u32))
    }
}

/// The successor of a cluster that a FAT32 entry records; the top four bits
/// are reserved and do not count.
pub open spec fn spec_decode_fat32(raw: u32) -> Result<ClusterId, DeviceError> {
    let e = raw & 0x0FFF_FFFF;
    if e == 0 {
        Err(DeviceError::UnterminatedFatChain)
    } else if e == 0x0FFF_FFF7 {
        Err(DeviceError::BadCluster)
    } else if e == 1 || e >= 0x0FFF_FFF8 {
        Err(DeviceError::EndOfFile)
    } else {
        Ok(ClusterId(e))
    }
}

pub fn decode_fat16(e: u16) -> (r: Result<ClusterId, DeviceError>)
    ensures
        r == spec_decode_fat16(e),
{
    match e {
        0xFFF7 => Err(DeviceError::BadCluster),
        0xFFF8..=0xFFFF => Err(DeviceError::EndOfFile),
        f => Ok(ClusterId(f as u32)),
    }
}

pub fn decode_fat32(raw: u32) -> (r: Result<ClusterId, DeviceError>)
    ensures
        r == spec_decode_fat32(raw),
{
    let e = raw & 0x0FFF_FFFF;
    assert(e <= 0x0FFF_FFFF) by (bit_vector)
        requires
            e == raw & 0x0FFF_FFFF,
    ;
    match e {
        0x0000_0000 => Err(DeviceError::UnterminatedFatChain),
        0x0FFF_FFF7 => Err(DeviceError::BadCluster),
        0x0000_0001 | 0x0FFF_FFF8..=0x0FFF_FFFF => Err(DeviceError::EndOfFile),
        f => Ok(ClusterId(f)),
    }
}

/// Bytes of a FAT entry.
pub open spec fn entry_size(t: FatType) -> nat {
    match t {
        FatType::Fat16 => 2,
        FatType::Fat32 => 4,
    }
}

impl FatVolume {
    pub open spec fn spec_fat_type(&self) -> FatType {
        match self.fat_specific_info {
            FatSpecificInfo::Fat16(_) => FatType::Fat16,
            FatSpecificInfo::Fat32(_) => FatType::Fat32,
        }
    }

    /// The type of FAT of this volume.
    pub fn get_fat_type(&self) -> (t: FatType)
        ensures
            t == self.spec_fat_type(),
    {
        match &self.fat_specific_info {
            FatSpecificInfo::Fat16(_) => FatType::Fat16,
            FatSpecificInfo::Fat32(_) => FatType::Fat32,
        }
    }

    /// Bytes in a cluster.
    pub fn bytes_per_cluster(&self) -> (n: u32)
        ensures
            n == self.blocks_per_cluster as nat * BLOCK_LEN as nat,
    {
        (self.blocks_per_cluster as u32) * BLOCK_LEN
    }

    /// The absolute block where a cluster starts: `(cluster - 2) *
    /// blocks_per_cluster` data blocks in; the FAT16 root directory has a
    /// block of its own, and the FAT32 one is an ordinary cluster.
    pub open spec fn spec_cluster_to_block(&self, cluster: ClusterId) -> int {
        match self.fat_specific_info {
            FatSpecificInfo::Fat16(info) => self.lba_start.0 + if cluster.0 == CLUSTER_ROOT_DIR {
                info.first_root_dir_block.0 as int
            } else {
                self.first_data_block.0 + (cluster.0 - 2) * self.blocks_per_cluster
            },
            FatSpecificInfo::Fat32(info) => {
                let c = if cluster.0 == CLUSTER_ROOT_DIR {
                    info.first_root_dir_cluster.0
                } else {
                    cluster.0
                };
                self.lba_start.0 + self.first_data_block.0 + (c - 2) * self.blocks_per_cluster
            },
        }
    }

    /// Whether `cluster_to_block` stays within 32 bits for `cluster`: the
    /// cluster (or the FAT32 root cluster it stands for) is a data cluster.
    pub open spec fn cluster_addressable(&self, cluster: ClusterId) -> bool {
        let c = match self.fat_specific_info {
            FatSpecificInfo::Fat16(_) => if cluster.0 == CLUSTER_ROOT_DIR {
                2
            } else {
                cluster.0 as int
            },
            FatSpecificInfo::Fat32(info) => if cluster.0 == CLUSTER_ROOT_DIR {
                info.first_root_dir_cluster.0 as int
            } else {
                cluster.0 as int
            },
        };
        &&& c >= 2
        &&& (c - 2) * self.blocks_per_cluster <= u32::MAX
        &&& 0 <= self.spec_cluster_to_block(cluster) <= u32::MAX
        &&& self.first_data_block.0 + (c - 2) * self.blocks_per_cluster <= u32::MAX
        &&& match self.fat_specific_info {
            FatSpecificInfo::Fat16(info) => self.lba_start.0 + info.first_root_dir_block.0
                <= u32::MAX,
            _ => true,
        }
    }

    /// The absolute block where a cluster starts.
    pub fn cluster_to_block(&self, cluster: ClusterId) -> (b: BlockIdx)
        requires
            self.cluster_addressable(cluster),
        ensures
            b.0 == self.spec_cluster_to_block(cluster),
    {
        match &self.fat_specific_info {
            FatSpecificInfo::Fat16(fat16_info) => {
                let block_num = if cluster.0 == CLUSTER_ROOT_DIR {
                    fat16_info.first_root_dir_block.0
                } else {
                    let first_block_of_cluster = (cluster.0 - 2) * (self.blocks_per_cluster as u32);
                    self.first_data_block.0 + first_block_of_cluster
                };
                BlockIdx(self.lba_start.0 + block_num)
            },
            FatSpecificInfo::Fat32(fat32_info) => {
                let cluster_num = if cluster.0 == CLUSTER_ROOT_DIR {
                    fat32_info.first_root_dir_cluster.0
                } else {
                    cluster.0
                };
                let first_block_of_cluster = (cluster_num - 2) * (self.blocks_per_cluster as u32);
                BlockIdx(self.lba_start.0 + self.first_data_block.0 + first_block_of_cluster)
            },
        }
    }

    /// The absolute block that holds the FAT entry of `cluster`, and the
    /// entry's byte offset in that block.
    pub open spec fn spec_entry_location(&self, cluster: ClusterId) -> (int, int) {
        let offset = cluster.0 * entry_size(self.spec_fat_type());
        (self.lba_start.0 + self.fat_start.0 + offset / (BLOCK_LEN as int), offset % (
        BLOCK_LEN as int))
    }

    pub open spec fn entry_addressable(&self, cluster: ClusterId) -> bool {
        &&& cluster.0 <= u32::MAX / 4
        &&& self.lba_start.0 + self.fat_start.0 + cluster.0 * entry_size(self.spec_fat_type())
            / (BLOCK_LEN as int) <= u32::MAX
    }

    /// Whether the FAT entry of `cluster` can be located with 32-bit numbers.
    pub fn fat_entry_addressable(&self, cluster: ClusterId) -> (b: bool)
        ensures
            b == self.entry_addressable(cluster),
    {
        if cluster.0 > u32::MAX / 4 {
            return false;
        }
        let size: u64 = match &self.fat_specific_info {
            FatSpecificInfo::Fat16(_) => 2,
            FatSpecificInfo::Fat32(_) => 4,
        };
        let block: u64 = self.lba_start.0 as u64 + self.fat_start.0 as u64 + (cluster.0 as u64)
            * size / (BLOCK_LEN as u64);
        block <= u32::MAX as u64
    }

    /// The successor of `cluster` that the FAT block `block` records.
    pub open spec fn spec_entry_read(&self, block: Seq<u8>, cluster: ClusterId) -> Result<
        ClusterId,
        DeviceError,
    > {
        match self.spec_fat_type() {
            FatType::Fat16 => spec_decode_fat16(le_u16(block, self.spec_entry_location(cluster).1)),
            FatType::Fat32 => spec_decode_fat32(le_u32(block, self.spec_entry_location(cluster).1)),
        }
    }

    /// Whether the FAT block went from `before` to `after` by recording
    /// `next` as the successor of `cluster`.
    pub open spec fn entry_written(
        &self,
        before: Seq<u8>,
        after: Seq<u8>,
        cluster: ClusterId,
        next: ClusterId,
    ) -> bool {
        match self.spec_fat_type() {
            FatType::Fat16 => le_u16(after, self.spec_entry_location(cluster).1)
                == spec_fat16_entry(next),
            FatType::Fat32 => le_u32(after, self.spec_entry_location(cluster).1)
                == spec_fat32_entry(le_u32(before, self.spec_entry_location(cluster).1), next),
        }
    }

    /// Where the FAT entry of `cluster` lies.
    pub fn fat_entry_location(&self, cluster: ClusterId) -> (r: (BlockIdx, usize))
        requires
            self.entry_addressable(cluster),
        ensures
            r.0.0 == self.spec_entry_location(cluster).0,
            r.1 == self.spec_entry_location(cluster).1,
            r.1 + entry_size(self.spec_fat_type()) <= BLOCK_LEN,
    {
        let size: u32 = match &self.fat_specific_info {
            FatSpecificInfo::Fat16(_) => 2,
            FatSpecificInfo::Fat32(_) => 4,
        };
        let offset = cluster.0 * size;
        let block = BlockIdx(self.lba_start.0 + self.fat_start.0 + offset / BLOCK_LEN);
        let within = (offset % BLOCK_LEN) as usize;
        proof {
            assert(offset % 512 + size <= 512) by (nonlinear_arith)
                requires
                    size == 2 || size == 4,
                    offset == cluster.0 * size,
            {
                assert(offset % size == 0) by (nonlinear_arith)
                    requires
                        offset == cluster.0 * size,
                        size == 2 || size == 4,
                ;
            }
        }
        (block, within)
    }

    /// The successor of `cluster` that the FAT block `block` records; the
    /// block is the one `fat_entry_location` names.
    pub fn next_cluster_in_block(&self, block: &[u8], cluster: ClusterId) -> (r: Result<
        ClusterId,
        DeviceError,
    >)
        requires
            self.entry_addressable(cluster),
            block@.len() == BLOCK_LEN,
        ensures
            r == self.spec_entry_read(block@, cluster),
    {
        let (_, at) = self.fat_entry_location(cluster);
        match &self.fat_specific_info {
            FatSpecificInfo::Fat16(_) => decode_fat16(read_u16_le(block, at)),
            FatSpecificInfo::Fat32(_) => decode_fat32(read_u32_le(block, at)),
        }
    }

    /// Records `next` as the successor of `cluster` in the FAT block `block`;
    /// the block is the one `fat_entry_location` names. Other bytes stay.
    pub fn set_entry_in_block(&self, block: &mut [u8], cluster: ClusterId, next: ClusterId)
        requires
            self.entry_addressable(cluster),
            old(block)@.len() == BLOCK_LEN,
        ensures
            final(block)@.len() == BLOCK_LEN,
            self.entry_written(old(block)@, final(block)@, cluster, next),
            forall|i: int|
                0 <= i < BLOCK_LEN && !(self.spec_entry_location(cluster).1 <= i
                    < self.spec_entry_location(cluster).1 + entry_size(self.spec_fat_type()))
                    ==> #[trigger] final(block)@[i] == old(block)@[i],
    {
        let (_, at) = self.fat_entry_location(cluster);
        match &self.fat_specific_info {
            FatSpecificInfo::Fat16(_) => {
                write_u16_le(block, at, fat16_entry(next));
            },
            FatSpecificInfo::Fat32(_) => {
                let existing = read_u32_le(block, at);
                write_u32_le(block, at, fat32_entry(existing, next));
            },
        }
    }
}

impl FatVolume {
    /// The first cluster number past the last cluster of the volume.
    pub open spec fn spec_end_cluster(&self) -> int {
        self.cluster_count + RESERVED_ENTRIES
    }

    pub fn end_cluster(&self) -> (c: ClusterId)
        requires
            self.spec_end_cluster() <= u32::MAX,
        ensures
            c.0 == self.spec_end_cluster(),
    {
        ClusterId(self.cluster_count + RESERVED_ENTRIES)
    }

    /// Where the search for a free cluster begins: the remembered next free
    /// cluster when it lies on the volume, else the first data cluster.
    pub open spec fn spec_alloc_start(&self) -> ClusterId {
        match self.next_free_cluster {
            Some(c) if c.0 < self.spec_end_cluster() => c,
            _ => ClusterId(RESERVED_ENTRIES),
        }
    }

    pub fn alloc_start(&self) -> (c: ClusterId)
        requires
            self.spec_end_cluster() <= u32::MAX,
        ensures
            c == self.spec_alloc_start(),
    {
        let end = self.end_cluster();
        match self.next_free_cluster {
            Some(cluster) if cluster.0 < end.0 => cluster,
            _ => ClusterId(RESERVED_ENTRIES),
        }
    }

    /// Whether the FAT entry at byte `at` of a block marks a free cluster.
    pub open spec fn entry_free(&self, block: Seq<u8>, at: int) -> bool {
        match self.spec_fat_type() {
            FatType::Fat16 => le_u16(block, at) == 0,
            FatType::Fat32 => le_u32(block, at) & 0x0FFF_FFFF == 0,
        }
    }

    /// What scanning one FAT block for a free cluster from the entry of
    /// `start` on finds: `Ok` the first free cluster, else `Err` the cluster
    /// whose entry follows the block.
    pub open spec fn spec_free_scan(&self, block: Seq<u8>, start: ClusterId, r: Result<ClusterId, ClusterId>) -> bool {
        match r {
            Ok(c) => {
                &&& start.0 <= c.0
                &&& self.entry_free(block, self.spec_entry_location(start).1 + (c.0 - start.0) * entry_size(self.spec_fat_type()))
                &&& forall|j: int| start.0 <= j < c.0 ==> !#[trigger] self.entry_free(block, self.spec_entry_location(start).1 + (j - start.0) * entry_size(self.spec_fat_type()))
                &&& self.spec_entry_location(start).1 + (c.0 - start.0) * entry_size(self.spec_fat_type()) < BLOCK_LEN
            },
            Err(next) => {
                &&& next.0 == start.0 + (BLOCK_LEN - self.spec_entry_location(start).1) / (entry_size(self.spec_fat_type()) as int)
                &&& forall|j: int| start.0 <= j < next.0 ==> !#[trigger] self.entry_free(block, self.spec_entry_location(start).1 + (j - start.0) * entry_size(self.spec_fat_type()))
            },
        }
    }

    /// Scans one FAT block for a free cluster, from the entry of `start` on.
    pub fn free_in_block(&self, block: &[u8], start: ClusterId) -> (r: Result<ClusterId, ClusterId>)
        requires
            self.entry_addressable(start),
            block@.len() == BLOCK_LEN,
        ensures
            self.spec_free_scan(block@, start, r),
    {
        let (_, first) = self.fat_entry_location(start);
        let size: usize = match &self.fat_specific_info {
            FatSpecificInfo::Fat16(_) => 2,
            FatSpecificInfo::Fat32(_) => 4,
        };
        let ghost sz = entry_size(self.spec_fat_type()) as int;
        let mut at: usize = first;
        let mut current: u32 = start.0;
        proof {
            assert((first as int) % sz == 0) by (nonlinear_arith)
                requires
                    first == (start.0 * sz) % 512,
                    sz == 2 || sz == 4,
            ;
        }
        while at + size <= 512
            invariant
                size as int == sz,
                sz == 2 || sz == 4,
                block@.len() == BLOCK_LEN,
                first == self.spec_entry_location(start).1,
                first <= at <= 512,
                (at as int) % sz == 0,
                (first as int) % sz == 0,
                at == first + (current - start.0) * sz,
                start.0 <= current,
                start.0 <= u32::MAX / 4,
                current - start.0 <= 256,
                self.spec_fat_type() == FatType::Fat16 ==> sz == 2,
                self.spec_fat_type() == FatType::Fat32 ==> sz == 4,
                forall|j: int| start.0 <= j < current ==> !#[trigger] self.entry_free(block@, first + (j - start.0) * sz),
            decreases 512 - at,
        {
            let free = match &self.fat_specific_info {
                FatSpecificInfo::Fat16(_) => read_u16_le(block, at) == 0,
                FatSpecificInfo::Fat32(_) => read_u32_le(block, at) & 0x0FFF_FFFF == 0,
            };
            if free {
                return Ok(ClusterId(current));
            }
            assert(at + sz <= 512);
            at = at + size;
            current = current + 1;
        }
        proof {
            assert(at == 512) by (nonlinear_arith)
                requires
                    (at as int) % sz == 0,
                    at + sz > 512,
                    at <= 512,
                    sz == 2 || sz == 4,
            ;
            assert(current - start.0 == (512 - first) / sz) by (nonlinear_arith)
                requires
                    at == first + (current - start.0) * sz,
                    at == 512,
                    sz == 2 || sz == 4,
            ;
        }
        Err(ClusterId(current))
    }

    /// Keeps the lower of the remembered next free cluster and `freed`.
    pub fn remember_free(&mut self, freed: ClusterId)
        ensures
            final(self).next_free_cluster == match old(self).next_free_cluster {
                Some(c) => if c.0 > freed.0 {
                    Some(freed)
                } else {
                    Some(c)
                },
                None => Some(freed),
            },
            final(self).free_clusters_count == old(self).free_clusters_count,
            final(self).fat_specific_info == old(self).fat_specific_info,
            final(self).cluster_count == old(self).cluster_count,
    {
        match self.next_free_cluster {
            Some(c) => {
                if c.0 > freed.0 {
                    self.next_free_cluster = Some(freed);
                }
            },
            None => {
                self.next_free_cluster = Some(freed);
            },
        }
    }

    /// Counts one more cluster in use, when the free count is known.
    pub fn count_allocated(&mut self)
        requires
            old(self).free_clusters_count matches Some(n) ==> n > 0,
        ensures
            final(self).free_clusters_count == match old(self).free_clusters_count {
                Some(n) => Some((n - 1) as u32),
                None => None,
            },
            final(self).next_free_cluster == old(self).next_free_cluster,
            final(self).fat_specific_info == old(self).fat_specific_info,
            final(self).cluster_count == old(self).cluster_count,
    {
        if let Some(n) = self.free_clusters_count {
            self.free_clusters_count = Some(n - 1);
        }
    }

    /// Counts one more cluster free, when the free count is known.
    pub fn count_freed(&mut self)
        requires
            old(self).free_clusters_count matches Some(n) ==> n < u32::MAX,
        ensures
            final(self).free_clusters_count == match old(self).free_clusters_count {
                Some(n) => Some((n + 1) as u32),
                None => None,
            },
            final(self).next_free_cluster == old(self).next_free_cluster,
            final(self).fat_specific_info == old(self).fat_specific_info,
            final(self).cluster_count == old(self).cluster_count,
    {
        if let Some(n) = self.free_clusters_count {
            self.free_clusters_count = Some(n + 1);
        }
    }
}

/// Whether `next` is a cluster that a FAT of this type can point to: a data
/// cluster below the reserved values.
pub open spec fn is_data_cluster(t: FatType, next: ClusterId) -> bool {
    &&& 2 <= next.0
    &&& match t {
        FatType::Fat16 => next.0 < 0xFFF7,
        FatType::Fat32 => next.0 < 0x0FFF_FFF7,
    }
}

/// A FAT entry reads back what was written into it: the data cluster that
/// was recorded as the successor, or the end of the chain where the end
/// was recorded.
pub proof fn law_fat_entry_read_back(
    v: &FatVolume,
    before: Seq<u8>,
    after: Seq<u8>,
    cluster: ClusterId,
    next: ClusterId,
)
    requires
        v.entry_written(before, after, cluster, next),
        is_data_cluster(v.spec_fat_type(), next) || next.0 == CLUSTER_END_OF_FILE,
    ensures
        is_data_cluster(v.spec_fat_type(), next) ==> v.spec_entry_read(after, cluster) == Ok::<
            ClusterId,
            DeviceError,
        >(next),
        next.0 == CLUSTER_END_OF_FILE ==> v.spec_entry_read(after, cluster) == Err::<
            ClusterId,
            DeviceError,
        >(DeviceError::EndOfFile),
{
    let at = v.spec_entry_location(cluster).1;
    match v.spec_fat_type() {
        FatType::Fat16 => {
            let n = next.0;
            if is_data_cluster(FatType::Fat16, next) {
                assert((n as u16) as u32 == n) by (bit_vector)
                    requires
                        n < 0xFFF7,
                ;
            }
        },
        FatType::Fat32 => {
            let existing = le_u32(before, at);
            let n = next.0;
            let written = spec_fat32_entry(existing, next);
            if is_data_cluster(FatType::Fat32, next) {
                assert(((existing & 0xF000_0000) | (n & 0x0FFF_FFFF)) & 0x0FFF_FFFF == n)
                    by (bit_vector)
                    requires
                        n < 0x0FFF_FFF7,
                ;
            } else {
                assert(((existing & 0xF000_0000) | (n & 0x0FFF_FFFF)) & 0x0FFF_FFFF == 0x0FFF_FFFF)
                    by (bit_vector)
                    requires
                        n == 0xFFFF_FFFF,
                ;
            }
        },
    }
}

/// Writing the entry of one cluster leaves the entry of every other
/// cluster in the same FAT block as it was.
pub proof fn law_fat_other_entries_kept(
    v: &FatVolume,
    before: Seq<u8>,
    after: Seq<u8>,
    cluster: ClusterId,
    other: ClusterId,
)
    requires
        before.len() == BLOCK_LEN,
        after.len() == BLOCK_LEN,
        other != cluster,
        v.spec_entry_location(other).0 == v.spec_entry_location(cluster).0,
        forall|i: int|
            0 <= i < BLOCK_LEN && !(v.spec_entry_location(cluster).1 <= i
                < v.spec_entry_location(cluster).1 + entry_size(v.spec_fat_type()))
                ==> #[trigger] after[i] == before[i],
    ensures
        v.spec_entry_read(after, other) == v.spec_entry_read(before, other),
{
    let size = entry_size(v.spec_fat_type()) as int;
    let oc = cluster.0 * size;
    let oo = other.0 * size;
    let a = v.spec_entry_location(cluster).1;
    let b = v.spec_entry_location(other).1;
    assert(a == oc % 512 && b == oo % 512);
    assert(oc / 512 == oo / 512);
    assert(b + size <= a || a + size <= b) by (nonlinear_arith)
        requires
            size == 2 || size == 4,
            oc == cluster.0 * size,
            oo == other.0 * size,
            cluster.0 != other.0,
            a == oc % 512,
            b == oo % 512,
            oc / 512 == oo / 512,
            cluster.0 >= 0,
            other.0 >= 0,
    ;
    assert(0 <= b && b + size <= 512) by (nonlinear_arith)
        requires
            size == 2 || size == 4,
            oo == other.0 * size,
            b == oo % 512,
            other.0 >= 0,
    ;
    assert forall|i: int| b <= i < b + size implies after[i] == before[i] by {
        assert(!(a <= i < a + size));
    }
}

/// Clusters lie on the disk one after another: each data cluster starts
/// one cluster's worth of blocks after the one before it.
pub proof fn law_clusters_consecutive(v: &FatVolume, c: ClusterId, next: ClusterId)
    requires
        2 <= c.0,
        next.0 == c.0 + 1,
        c.0 != CLUSTER_ROOT_DIR,
        next.0 != CLUSTER_ROOT_DIR,
    ensures
        v.spec_cluster_to_block(next) == v.spec_cluster_to_block(c) + v.blocks_per_cluster,
{
    assert((next.0 - 2) * v.blocks_per_cluster == (c.0 - 2) * v.blocks_per_cluster
        + v.blocks_per_cluster) by (nonlinear_arith)
        requires
            next.0 == c.0 + 1,
    ;
}

/// What a combined opening mode resolves to is a simple mode: resolving it
/// again changes nothing.
pub proof fn law_solve_mode_settles(mode: Mode, exists: bool)
    ensures
        spec_solve_mode(spec_solve_mode(mode, exists), exists) == spec_solve_mode(mode, exists),
        spec_solve_mode(mode, exists) != Mode::ReadWriteCreateOrAppend,
        spec_solve_mode(mode, exists) != Mode::ReadWriteCreateOrTruncate,
{
}

// ---------------------------------------------------------------------------
// Master Boot Record
// ---------------------------------------------------------------------------

/// The fields of a boot parameter block that place a volume's regions on
/// the disk.
#[derive(Debug, Clone, PartialEq, Eq)]
pub struct BpbFields {
    pub fat_type: FatType,
    pub bytes_per_block: u16,
    pub blocks_per_cluster: u8,
    /// Blocks before the first FAT.
    pub reserved_block_count: u16,
    pub num_fats: u8,
    /// Blocks of one FAT.
    pub fat_size: u32,
    /// Entries of the FAT16 root directory.
    pub root_entries_count: u16,
    pub total_clusters: u32,
    /// The FAT32 info sector, relative to the partition start.
    pub fs_info_block: BlockCount,
    /// The FAT32 root directory's first cluster.
    pub first_root_dir_cluster: u32,
    pub volume_label: [u8; 11],
}

/// Blocks of a FAT16 root directory of `root_entries_count` 32-byte entries.
pub open spec fn spec_root_dir_blocks(root_entries_count: u16) -> int {
    (root_entries_count * 32 + (BLOCK_LEN - 1)) / (BLOCK_LEN as int)
}

/// The first block after the reserved blocks and the FATs.
pub open spec fn spec_fats_end(bpb: BpbFields) -> int {
    bpb.reserved_block_count + bpb.num_fats * bpb.fat_size
}

/// Whether every block number that a volume takes from `bpb` fits in 32 bits.
pub open spec fn bpb_addressable(lba_start: BlockIdx, bpb: BpbFields) -> bool {
    match bpb.fat_type {
        FatType::Fat16 => bpb.bytes_per_block != BLOCK_LEN || spec_fats_end(bpb)
            + spec_root_dir_blocks(bpb.root_entries_count) <= u32::MAX,
        FatType::Fat32 => spec_fats_end(bpb) <= u32::MAX && lba_start.0 + bpb.fs_info_block.0
            <= u32::MAX,
    }
}

/// The volume that a partition at `lba_start` of `num_blocks` blocks with
/// boot parameters `bpb` holds. FAT16: the FATs follow the reserved blocks,
/// the root directory follows the FATs and the data region follows the root
/// directory; blocks must be 512 bytes long. FAT32: the data region follows
/// the FATs, and the free-cluster count and next free cluster come from the
/// info sector.
pub open spec fn spec_volume_from_bpb(
    lba_start: BlockIdx,
    num_blocks: BlockCount,
    bpb: BpbFields,
    free_clusters_count: Option<u32>,
    next_free_cluster: Option<ClusterId>,
) -> Result<FatVolume, DeviceError> {
    match bpb.fat_type {
        FatType::Fat16 => if bpb.bytes_per_block != BLOCK_LEN {
            Err(DeviceError::BadBlockSize(bpb.bytes_per_block))
        } else {
            Ok(
                FatVolume {
                    lba_start,
                    num_blocks,
                    name: VolumeName { data: bpb.volume_label },
                    blocks_per_cluster: bpb.blocks_per_cluster,
                    first_data_block: BlockCount(
                        (spec_fats_end(bpb) + spec_root_dir_blocks(bpb.root_entries_count)) as u32,
                    ),
                    fat_start: BlockCount(bpb.reserved_block_count as u32),
                    free_clusters_count: None,
                    next_free_cluster: None,
                    cluster_count: bpb.total_clusters,
                    fat_specific_info: FatSpecificInfo::Fat16(
                        Fat16Info {
                            first_root_dir_block: BlockCount(spec_fats_end(bpb) as u32),
                            root_entries_count: bpb.root_entries_count,
                        },
                    ),
                },
            )
        },
        FatType::Fat32 => Ok(
            FatVolume {
                lba_start,
                num_blocks,
                name: VolumeName { data: bpb.volume_label },
                blocks_per_cluster: bpb.blocks_per_cluster,
                first_data_block: BlockCount(spec_fats_end(bpb) as u32),
                fat_start: BlockCount(bpb.reserved_block_count as u32),
                free_clusters_count,
                next_free_cluster,
                cluster_count: bpb.total_clusters,
                fat_specific_info: FatSpecificInfo::Fat32(
                    Fat32Info {
                        first_root_dir_cluster: ClusterId(bpb.first_root_dir_cluster),
                        info_location: BlockIdx((lba_start.0 + bpb.fs_info_block.0) as u32),
                    },
                ),
            },
        ),
    }
}

impl FatVolume {
    /// The volume of a partition at `lba_start` of `num_blocks` blocks, from
    /// its boot parameters and, for FAT32, what its info sector says of free
    /// clusters.
    pub fn from_bpb_fields(
        lba_start: BlockIdx,
        num_blocks: BlockCount,
        bpb: &BpbFields,
        free_clusters_count: Option<u32>,
        next_free_cluster: Option<ClusterId>,
    ) -> (r: Result<FatVolume, DeviceError>)
        requires
            bpb_addressable(lba_start, *bpb),
        ensures
            r == spec_volume_from_bpb(
                lba_start,
                num_blocks,
                *bpb,
                free_clusters_count,
                next_free_cluster,
            ),
    {
        let fat_start: u32 = bpb.reserved_block_count as u32;
        let num_fats: u32 = bpb.num_fats as u32;
        assert(0 <= num_fats * bpb.fat_size) by (nonlinear_arith);
        match bpb.fat_type {
            FatType::Fat16 => {
                if bpb.bytes_per_block as u32 != BLOCK_LEN {
                    return Err(DeviceError::BadBlockSize(bpb.bytes_per_block));
                }
                let root_dir_blocks: u32 = ((bpb.root_entries_count as u32) * 32 + (BLOCK_LEN
                    - 1)) / BLOCK_LEN;
                let first_root_dir_block: u32 = fat_start + num_fats * bpb.fat_size;
                let first_data_block: u32 = first_root_dir_block + root_dir_blocks;
                Ok(
                    FatVolume {
                        lba_start,
                        num_blocks,
                        name: VolumeName { data: bpb.volume_label },
                        blocks_per_cluster: bpb.blocks_per_cluster,
                        first_data_block: BlockCount(first_data_block),
                        fat_start: BlockCount(fat_start),
                        free_clusters_count: None,
                        next_free_cluster: None,
                        cluster_count: bpb.total_clusters,
                        fat_specific_info: FatSpecificInfo::Fat16(
                            Fat16Info {
                                first_root_dir_block: BlockCount(first_root_dir_block),
                                root_entries_count: bpb.root_entries_count,
                            },
                        ),
                    },
                )
            },
            FatType::Fat32 => {
                let first_data_block: u32 = fat_start + num_fats * bpb.fat_size;
                Ok(
                    FatVolume {
                        lba_start,
                        num_blocks,
                        name: VolumeName { data: bpb.volume_label },
                        blocks_per_cluster: bpb.blocks_per_cluster,
                        first_data_block: BlockCount(first_data_block),
                        fat_start: BlockCount(fat_start),
                        free_clusters_count,
                        next_free_cluster,
                        cluster_count: bpb.total_clusters,
                        fat_specific_info: FatSpecificInfo::Fat32(
                            Fat32Info {
                                first_root_dir_cluster: ClusterId(bpb.first_root_dir_cluster),
                                info_location: BlockIdx(lba_start.0 + bpb.fs_info_block.0),
                            },
                        ),
                    },
                )
            },
        }
    }
}

/// Blocks of the volume, from the 16-bit count or, when that is 0, the
/// 32-bit one.
pub open spec fn bpb_total_blocks(b: Seq<u8>) -> int {
    if le_u16(b, 19) != 0 {
        le_u16(b, 19) as int
    } else {
        le_u32(b, 32) as int
    }
}

/// Blocks of one FAT, from the 16-bit size or, when that is 0, the 32-bit
/// one.
pub open spec fn bpb_fat_size(b: Seq<u8>) -> int {
    if le_u16(b, 22) != 0 {
        le_u16(b, 22) as int
    } else {
        le_u32(b, 36) as int
    }
}

/// Blocks before the data region: reserved blocks, FATs and the FAT16 root
/// directory.
pub open spec fn bpb_used_blocks(b: Seq<u8>) -> int {
    le_u16(b, 14) + b[16] * bpb_fat_size(b) + spec_root_dir_blocks(le_u16(b, 17))
}

/// Clusters of the data region.
pub open spec fn bpb_clusters(b: Seq<u8>) -> int {
    (bpb_total_blocks(b) - bpb_used_blocks(b)) / (b[13] as int)
}

/// Whether a boot sector can be read without dividing by zero or counting
/// below zero: a signed sector has a cluster size and no more blocks in use
/// than in the volume.
pub open spec fn bpb_readable(b: Seq<u8>) -> bool {
    le_u16(b, 510) == FOOTER_VALUE ==> b[13] != 0 && bpb_used_blocks(b) <= bpb_total_blocks(b)
}

/// Why a boot sector does not describe a FAT16 or FAT32 volume, if it does
/// not: the signature is missing, or there are fewer than 4085 clusters.
pub open spec fn spec_bpb_error(b: Seq<u8>) -> Option<DeviceError> {
    if le_u16(b, 510) != FOOTER_VALUE {
        Some(DeviceError::InvalidBpbSignature)
    } else if bpb_clusters(b) < 4085 {
        Some(DeviceError::Fat12Unsupported)
    } else {
        None
    }
}

/// Whether `f` holds what boot sector `b` says: FAT16 below 65525
/// clusters, FAT32 from there on; the fields at their places, little-endian;
/// the label at byte 43 (FAT16) or 71 (FAT32); the info sector and root
/// cluster (bytes 48 and 44) only for FAT32.
pub open spec fn bpb_parsed(b: Seq<u8>, f: BpbFields) -> bool {
    let fat32 = bpb_clusters(b) >= 65525;
    &&& f.fat_type == if fat32 {
        FatType::Fat32
    } else {
        FatType::Fat16
    }
    &&& f.bytes_per_block == le_u16(b, 11)
    &&& f.blocks_per_cluster == b[13]
    &&& f.reserved_block_count == le_u16(b, 14)
    &&& f.num_fats == b[16]
    &&& f.fat_size == bpb_fat_size(b)
    &&& f.root_entries_count == le_u16(b, 17)
    &&& f.total_clusters == bpb_clusters(b)
    &&& f.fs_info_block.0 == if fat32 {
        le_u16(b, 48) as u32
    } else {
        0
    }
    &&& f.first_root_dir_cluster == if fat32 {
        le_u32(b, 44)
    } else {
        0
    }
    &&& f.volume_label@ == b.subrange(
        if fat32 {
            71
        } else {
            43
        },
        if fat32 {
            82
        } else {
            54
        },
    )
}

/// Whether `parse_bpb` can read the block (see `bpb_readable`).
pub fn bpb_block_readable(block: &[u8]) -> (r: bool)
    requires
        block@.len() == BLOCK_LEN,
    ensures
        r == bpb_readable(block@),
{
    if read_u16_le(block, FOOTER_START) != FOOTER_VALUE {
        return true;
    }
    let total16 = read_u16_le(block, 19);
    let total: u64 = if total16 != 0 {
        total16 as u64
    } else {
        read_u32_le(block, 32) as u64
    };
    let size16 = read_u16_le(block, 22);
    let fat_size: u64 = if size16 != 0 {
        size16 as u64
    } else {
        read_u32_le(block, 36) as u64
    };
    let num_fats = block[16];
    assert(0 <= num_fats * fat_size <= 255 * 0xFFFF_FFFF) by (nonlinear_arith)
        requires
            num_fats <= 255,
            fat_size <= 0xFFFF_FFFF,
    ;
    let root_blocks: u64 = ((read_u16_le(block, 17) as u64) * 32 + 511) / 512;
    let used: u64 = read_u16_le(block, 14) as u64 + (num_fats as u64) * fat_size + root_blocks;
    block[13] != 0 && used <= total
}

/// Reads the boot parameters of a volume from its first block.
pub fn parse_bpb(block: &[u8]) -> (r: Result<BpbFields, DeviceError>)
    requires
        block@.len() == BLOCK_LEN,
        bpb_readable(block@),
    ensures
        match r {
            Ok(f) => spec_bpb_error(block@) is None && bpb_parsed(block@, f),
            Err(e) => spec_bpb_error(block@) == Some(e),
        },
{
    let b = block;
    if read_u16_le(b, FOOTER_START) != FOOTER_VALUE {
        return Err(DeviceError::InvalidBpbSignature);
    }
    let total16 = read_u16_le(b, 19);
    let total: u32 = if total16 != 0 {
        total16 as u32
    } else {
        read_u32_le(b, 32)
    };
    let size16 = read_u16_le(b, 22);
    let fat_size: u32 = if size16 != 0 {
        size16 as u32
    } else {
        read_u32_le(b, 36)
    };
    let reserved = read_u16_le(b, 14);
    let num_fats = b[16];
    let root_entries = read_u16_le(b, 17);
    let blocks_per_cluster = b[13];
    let root_blocks: u64 = ((root_entries as u64) * 32 + 511) / 512;
    assert(0 <= num_fats * fat_size <= 255 * 0xFFFF_FFFF) by (nonlinear_arith)
        requires
            num_fats <= 255,
            fat_size <= 0xFFFF_FFFF,
    ;
    let used: u64 = reserved as u64 + (num_fats as u64) * (fat_size as u64) + root_blocks;
    let clusters: u64 = ((total as u64) - used) / (blocks_per_cluster as u64);
    assert(clusters <= total) by (nonlinear_arith)
        requires
            clusters == (total - used) / (blocks_per_cluster as int),
            used <= total,
            blocks_per_cluster >= 1,
    ;
    if clusters < 4085 {
        return Err(DeviceError::Fat12Unsupported);
    }
    let fat32 = clusters >= 65525;
    let at: usize = if fat32 {
        71
    } else {
        43
    };
    let mut label = [0u8; 11];
    let mut i: usize = 0;
    while i < 11
        invariant
            i <= 11,
            at == 71 || at == 43,
            b@.len() == BLOCK_LEN,
            forall|j: int| 0 <= j < i ==> #[trigger] label@[j] == b@[at + j],
        decreases 11 - i,
    {
        label[i] = b[at + i];
        i = i + 1;
    }
    assert(label@ =~= b@.subrange(at as int, at + 11));
    Ok(
        BpbFields {
            fat_type: if fat32 {
                FatType::Fat32
            } else {
                FatType::Fat16
            },
            bytes_per_block: read_u16_le(b, 11),
            blocks_per_cluster,
            reserved_block_count: reserved,
            num_fats,
            fat_size,
            root_entries_count: root_entries,
            total_clusters: clusters as u32,
            fs_info_block: BlockCount(
                if fat32 {
                    read_u16_le(b, 48) as u32
                } else {
                    0
                },
            ),
            first_root_dir_cluster: if fat32 {
                read_u32_le(b, 44)
            } else {
                0
            },
            volume_label: label,
        },
    )
}

/// Whether a volume at `lba_start` with boot parameters `bpb` has 32-bit
/// block numbers (see `bpb_addressable`).
pub fn bpb_fits(lba_start: BlockIdx, bpb: &BpbFields) -> (b: bool)
    ensures
        b == bpb_addressable(lba_start, *bpb),
{
    assert(0 <= bpb.num_fats * bpb.fat_size <= 255 * 0xFFFF_FFFF) by (nonlinear_arith)
        requires
            bpb.num_fats <= 255,
            bpb.fat_size <= 0xFFFF_FFFF,
    ;
    let fats: u64 = (bpb.num_fats as u64) * (bpb.fat_size as u64);
    let end: u64 = bpb.reserved_block_count as u64 + fats;
    match bpb.fat_type {
        FatType::Fat16 => bpb.bytes_per_block as u32 != BLOCK_LEN || end + ((
        bpb.root_entries_count as u64) * 32 + 511) / 512 <= u32::MAX as u64,
        FatType::Fat32 => end <= u32::MAX as u64 && lba_start.0 as u64 + bpb.fs_info_block.0 as u64
            <= u32::MAX as u64,
    }
}

/// What a FAT32 info sector says of free clusters: the free count and the
/// next free cluster, each unknown when it reads `0xFFFFFFFF`. The sector
/// must carry its three signatures (`0x41615252` at byte 0, `0x61417272`
/// at 484, `0xAA550000` at 508).
pub fn read_info_sector(block: &[u8]) -> (r: Result<(Option<u32>, Option<ClusterId>), DeviceError>)
    requires
        block@.len() == BLOCK_LEN,
    ensures
        match r {
            Ok((count, next)) => {
                &&& le_u32(block@, 0) == 0x4161_5252
                &&& le_u32(block@, 484) == 0x6141_7272
                &&& le_u32(block@, 508) == 0xAA55_0000
                &&& count == if le_u32(block@, 488) == 0xFFFF_FFFF {
                    None
                } else {
                    Some(le_u32(block@, 488))
                }
                &&& next == if le_u32(block@, 492) == 0xFFFF_FFFF {
                    None
                } else {
                    Some(ClusterId(le_u32(block@, 492)))
                }
            },
            Err(e) => e == DeviceError::InvalidInfoSector && !(le_u32(block@, 0) == 0x4161_5252
                && le_u32(block@, 484) == 0x6141_7272 && le_u32(block@, 508) == 0xAA55_0000),
        },
{
    if read_u32_le(block, 0) != 0x4161_5252 || read_u32_le(block, 484) != 0x6141_7272
        || read_u32_le(block, 508) != 0xAA55_0000 {
        return Err(DeviceError::InvalidInfoSector);
    }
    let count = read_u32_le(block, 488);
    let next = read_u32_le(block, 492);
    Ok(
        (
            if count == 0xFFFF_FFFF {
                None
            } else {
                Some(count)
            },
            if next == 0xFFFF_FFFF {
                None
            } else {
                Some(ClusterId(next))
            },
        ),
    )
}

/// Where the partition table starts in the MBR.
pub const PARTITION1_START: usize = 446;
/// Bytes of a partition table entry.
pub const PARTITION_INFO_LENGTH: usize = 16;
/// Where the MBR signature lies, and its value.
pub const FOOTER_START: usize = 510;
pub const FOOTER_VALUE: u16 = 0xAA55;

/// A partition as its MBR entry describes it.
#[derive(Debug, Copy, Clone, PartialEq, Eq, Structural)]
pub struct PartitionEntry {
    pub partition_type: u8,
    pub lba_start: BlockIdx,
    pub num_blocks: BlockCount,
}

/// The partition with index `idx` of the MBR `block`: the block must end
/// with the signature `0xAA55`, the index must be below 4, the entry's status
/// must be `0x00` or `0x80`, and its type a FAT16 or FAT32 one.
pub open spec fn spec_partition(block: Seq<u8>, idx: usize) -> Result<PartitionEntry, DeviceError> {
    if le_u16(block, FOOTER_START as int) != FOOTER_VALUE {
        Err(DeviceError::InvalidMbrSignature)
    } else if idx >= 4 {
        Err(DeviceError::NoSuchVolume)
    } else {
        let at = PARTITION1_START + PARTITION_INFO_LENGTH * idx;
        let status = block[at];
        let t = block[at + 4];
        if status != 0x00 && status != 0x80 {
            Err(DeviceError::InvalidPartitionStatus)
        } else if t != PARTITION_ID_FAT32_CHS_LBA && t != PARTITION_ID_FAT32_LBA && t
            != PARTITION_ID_FAT16_LBA && t != PARTITION_ID_FAT16 {
            Err(DeviceError::PartitionTypeNotSupported)
        } else {
            Ok(
                PartitionEntry {
                    partition_type: t,
                    lba_start: BlockIdx(le_u32(block, at + 8)),
                    num_blocks: BlockCount(le_u32(block, at + 12)),
                },
            )
        }
    }
}

/// Reads partition `volume_idx` from the MBR `block`.
pub fn read_partition(block: &[u8], volume_idx: VolumeIdx) -> (r: Result<
    PartitionEntry,
    DeviceError,
>)
    requires
        block@.len() == BLOCK_LEN,
    ensures
        r == spec_partition(block@, volume_idx.0),
{
    if read_u16_le(block, FOOTER_START) != FOOTER_VALUE {
        return Err(DeviceError::InvalidMbrSignature);
    }
    if volume_idx.0 >= 4 {
        return Err(DeviceError::NoSuchVolume);
    }
    let at = PARTITION1_START + PARTITION_INFO_LENGTH * volume_idx.0;
    let status = block[at];
    if (status & 0x7F) != 0x00 {
        assert(status != 0x00 && status != 0x80) by (bit_vector)
            requires
                (status & 0x7F) != 0x00,
        ;
        return Err(DeviceError::InvalidPartitionStatus);
    }
    assert(status == 0x00 || status == 0x80) by (bit_vector)
        requires
            (status & 0x7F) == 0x00,
    ;
    let lba_start = read_u32_le(block, at + 8);
    let num_blocks = read_u32_le(block, at + 12);
    let t = block[at + 4];
    if t == PARTITION_ID_FAT32_CHS_LBA || t == PARTITION_ID_FAT32_LBA || t == PARTITION_ID_FAT16_LBA
        || t == PARTITION_ID_FAT16 {
        Ok(
            PartitionEntry {
                partition_type: t,
                lba_start: BlockIdx(lba_start),
                num_blocks: BlockCount(num_blocks),
            },
        )
    } else {
        Err(DeviceError::PartitionTypeNotSupported)
    }
}

/// The FAT32 info sector with the volume's free-cluster count and next free
/// cluster written in (bytes 488..492 and 492..496, little-endian), when the
/// volume knows them.
pub fn fill_info_sector(volume: &FatVolume, block: &mut [u8])
    requires
        old(block)@.len() == BLOCK_LEN,
    ensures
        final(block)@.len() == BLOCK_LEN,
        volume.free_clusters_count matches Some(c) ==> le_u32(final(block)@, 488) == c,
        volume.next_free_cluster matches Some(n) ==> le_u32(final(block)@, 492) == n.0,
        forall|i: int|
            0 <= i < BLOCK_LEN && !(volume.free_clusters_count is Some && 488 <= i < 492) && !(
            volume.next_free_cluster is Some && 492 <= i < 496) ==> #[trigger] final(block)@[i]
                == old(block)@[i],
{
    if let Some(count) = volume.free_clusters_count {
        write_u32_le(block, 488, count);
    }
    if let Some(next) = volume.next_free_cluster {
        write_u32_le(block, 492, next.0);
    }
}

} // verus!
