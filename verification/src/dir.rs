//! Directory entries inside a block of a FAT directory.
//!
//! A directory is a run of 32-byte entries, sixteen to a block. An entry
//! whose first byte is 0 ends the directory; one whose first byte is 0xE5
//! was deleted; its first eleven bytes are the short name.
use vstd::prelude::*;
use crate::fat::{
    BlockCount, BlockIdx, ClusterId, DeviceError, FatSpecificInfo, FatVolume, BLOCK_LEN,
    CLUSTER_ROOT_DIR,
};

verus! {

/// Bytes in a directory entry.
pub const DIR_ENTRY_LEN: usize = 32;

/// Directory entries in a block.
pub const ENTRIES_PER_BLOCK: usize = 16;

/// The first byte of a deleted entry.
pub const DELETED_ENTRY: u8 = 0xE5;

/// The attribute bits that mark a long-file-name entry.
pub const ATTR_LFN: u8 = 0x0F;

/// Whether entry `k` of a block ends the directory.
pub open spec fn entry_is_end(block: Seq<u8>, k: int) -> bool {
    block[k * 32] == 0
}

/// Whether entry `k` of a block holds a file: it neither ends the
/// directory nor was deleted.
pub open spec fn entry_is_valid(block: Seq<u8>, k: int) -> bool {
    !entry_is_end(block, k) && block[k * 32] != DELETED_ENTRY
}

/// Whether entry `k` of a block carries the short name `name`.
pub open spec fn entry_matches(block: Seq<u8>, k: int, name: Seq<u8>) -> bool {
    block.subrange(k * 32, k * 32 + 11) == name
}

/// Whether entry `k` of a block is a piece of a long file name.
pub open spec fn entry_is_lfn(block: Seq<u8>, k: int) -> bool {
    block[k * 32 + 11] & ATTR_LFN == ATTR_LFN
}

/// Whether no entry before `k` ends the directory.
pub open spec fn open_before(block: Seq<u8>, k: int) -> bool {
    forall|j: int| 0 <= j < k ==> !#[trigger] entry_is_end(block, j)
}

/// The first free entry of a block, to take a new file: one that ends the
/// directory or was deleted.
pub fn find_free_entry(block: &[u8]) -> (r: Option<usize>)
    requires
        block@.len() == 512,
    ensures
        r matches Some(k) ==> k < 16 && !entry_is_valid(block@, k as int) && forall|j: int|
            0 <= j < k ==> #[trigger] entry_is_valid(block@, j),
        r is None ==> forall|j: int| 0 <= j < 16 ==> #[trigger] entry_is_valid(block@, j),
{
    let mut k: usize = 0;
    while k < ENTRIES_PER_BLOCK
        invariant
            k <= 16,
            block@.len() == 512,
            forall|j: int| 0 <= j < k ==> #[trigger] entry_is_valid(block@, j),
        decreases 16 - k,
    {
        let first = block[k * DIR_ENTRY_LEN];
        if first == 0 || first == DELETED_ENTRY {
            return Some(k);
        }
        k = k + 1;
    }
    None
}

fn name_matches(block: &[u8], start: usize, name: &[u8; 11]) -> (r: bool)
    requires
        start + 11 <= block.len(),
    ensures
        r == (block@.subrange(start as int, start + 11) == name@),
{
    let mut i: usize = 0;
    while i < 11
        invariant
            i <= 11,
            start + 11 <= block.len(),
            forall|j: int| 0 <= j < i ==> block@[start + j] == name@[j],
        decreases 11 - i,
    {
        if block[start + i] != name[i] {
            assert(block@.subrange(start as int, start + 11)[i as int] != name@[i as int]);
            return false;
        }
        i = i + 1;
    }
    assert(block@.subrange(start as int, start + 11) =~= name@);
    true
}

/// The entry of a block that carries `name`, looking no further than the
/// end of the directory.
pub fn find_entry_in_block(block: &[u8], name: &[u8; 11]) -> (r: Result<usize, DeviceError>)
    requires
        block@.len() == 512,
    ensures
        r matches Ok(k) ==> {
            &&& k < 16
            &&& open_before(block@, k + 1)
            &&& entry_matches(block@, k as int, name@)
            &&& forall|j: int| 0 <= j < k ==> !#[trigger] entry_matches(block@, j, name@)
        },
        r is Err ==> r == Err::<usize, DeviceError>(DeviceError::NotFound) && forall|j: int|
            0 <= j < 16 && open_before(block@, j + 1) ==> !#[trigger] entry_matches(
                block@,
                j,
                name@,
            ),
{
    let mut k: usize = 0;
    while k < ENTRIES_PER_BLOCK
        invariant
            k <= 16,
            block@.len() == 512,
            open_before(block@, k as int),
            forall|j: int| 0 <= j < k ==> !#[trigger] entry_matches(block@, j, name@),
        decreases 16 - k,
    {
        let start = k * DIR_ENTRY_LEN;
        if block[start] == 0 {
            assert forall|j: int| 0 <= j < 16 && open_before(block@, j + 1) implies !#[trigger] entry_matches(
                block@,
                j,
                name@,
            ) by {
                if j >= k {
                    assert(!entry_is_end(block@, k as int));
                }
            }
            return Err(DeviceError::NotFound);
        }
        if name_matches(block, start, name) {
            return Ok(k);
        }
        k = k + 1;
    }
    Err(DeviceError::NotFound)
}

/// The block after marking deleted every entry that carries `name`,
/// up to the end of the directory.
pub open spec fn spec_deleted(block: Seq<u8>, name: Seq<u8>) -> Seq<u8> {
    Seq::new(
        block.len(),
        |i: int|
            if i % 32 == 0 && i / 32 < 16 && open_before(block, i / 32 + 1) && entry_matches(
                block,
                i / 32,
                name,
            ) {
                DELETED_ENTRY
            } else {
                block[i]
            },
    )
}

/// Marks deleted every entry of a block that carries `name`, up to the end
/// of the directory, and tells whether any was, so that the caller knows
/// whether to write the block back.
pub fn delete_entry_in_block(block: &mut [u8], name: &[u8; 11]) -> (changed: bool)
    requires
        old(block)@.len() == 512,
    ensures
        final(block)@ == spec_deleted(old(block)@, name@),
        changed == exists|j: int|
            0 <= j < 16 && open_before(old(block)@, j + 1) && #[trigger] entry_matches(
                old(block)@,
                j,
                name@,
            ),
{
    let ghost orig = block@;
    let mut changed = false;
    let mut k: usize = 0;
    while k < ENTRIES_PER_BLOCK
        invariant
            k <= 16,
            block@.len() == 512,
            orig.len() == 512,
            orig == old(block)@,
            open_before(orig, k as int),
            forall|i: int|
                0 <= i < 512 ==> #[trigger] block@[i] == if i / 32 < k {
                    spec_deleted(orig, name@)[i]
                } else {
                    orig[i]
                },
            changed == exists|j: int|
                0 <= j < k && open_before(orig, j + 1) && #[trigger] entry_matches(orig, j, name@),
        decreases 16 - k,
    {
        let start = k * DIR_ENTRY_LEN;
        if block[start] == 0 {
            assert(entry_is_end(orig, k as int));
            assert forall|i: int| 0 <= i < 512 implies block@[i] == #[trigger] spec_deleted(
                orig,
                name@,
            )[i] by {
                if i / 32 >= k {
                    assert(!open_before(orig, i / 32 + 1));
                }
            }
            assert(block@ =~= spec_deleted(orig, name@));
            assert forall|j: int|
                0 <= j < 16 && open_before(orig, j + 1) && #[trigger] entry_matches(
                    orig,
                    j,
                    name@,
                ) implies j < k by {
                if j >= k {
                    assert(!entry_is_end(orig, k as int));
                }
            }
            return changed;
        }
        assert(block@[start as int] == orig[start as int]);
        assert(!entry_is_end(orig, k as int));
        assert(open_before(orig, k + 1));
        assert(block@.subrange(start as int, start + 11) =~= orig.subrange(start as int, start + 11));
        if name_matches(block, start, name) {
            block[start] = DELETED_ENTRY;
            changed = true;
            assert(entry_matches(orig, k as int, name@));
        } else {
            assert(!entry_matches(orig, k as int, name@));
            assert forall|j: int|
                0 <= j < k + 1 && open_before(orig, j + 1) && #[trigger] entry_matches(
                    orig,
                    j,
                    name@,
                ) implies j < k by {}
        }
        k = k + 1;
    }
    assert(block@ =~= spec_deleted(orig, name@));
    changed
}

proof fn lemma_entry_byte(j: int, t: int)
    requires
        0 <= t < 32,
    ensures
        (j * 32 + t) / 32 == j,
        (j * 32 + t) % 32 == t,
{
    assert((j * 32 + t) / 32 == j && (j * 32 + t) % 32 == t) by (nonlinear_arith)
        requires
            0 <= t < 32,
    ;
}

/// Once the entries that carry a name are deleted, no entry of the block
/// carries it any more, for a name that does not begin with the deletion
/// mark.
pub proof fn law_deleted_entry_not_found(block: Seq<u8>, name: Seq<u8>)
    requires
        block.len() == 512,
        name.len() == 11,
        name[0] != DELETED_ENTRY,
    ensures
        forall|j: int|
            0 <= j < 16 && open_before(spec_deleted(block, name), j + 1) ==> !#[trigger] entry_matches(
                spec_deleted(block, name),
                j,
                name,
            ),
{
    let d = spec_deleted(block, name);
    assert forall|j: int|
        0 <= j < 16 && open_before(d, j + 1) implies !#[trigger] entry_matches(d, j, name) by {
        assert forall|k: int| 0 <= k < j + 1 implies !#[trigger] entry_is_end(block, k) by {
            lemma_entry_byte(k, 0);
            assert(!entry_is_end(d, k));
        }
        lemma_entry_byte(j, 0);
        if entry_matches(block, j, name) {
            assert(d[j * 32] == DELETED_ENTRY);
            assert(d.subrange(j * 32, j * 32 + 11)[0] == DELETED_ENTRY);
        } else {
            assert forall|t: int| 0 <= t < 11 implies #[trigger] d[j * 32 + t] == block[j * 32 + t] by {
                lemma_entry_byte(j, t);
            }
            assert(d.subrange(j * 32, j * 32 + 11) =~= block.subrange(j * 32, j * 32 + 11));
        }
    }
}

/// Whether a directory listing shows entry `k` of a block: it comes before
/// the end of the directory, holds a file and is no piece of a long name.
pub open spec fn entry_listed(block: Seq<u8>, k: int) -> bool {
    open_before(block, k + 1) && entry_is_valid(block, k) && !entry_is_lfn(block, k)
}

/// The entries of a block that a directory listing shows, in order, and
/// whether the block ends the directory.
pub fn listed_entries(block: &[u8]) -> (r: (Vec<usize>, bool))
    requires
        block@.len() == 512,
    ensures
        forall|i: int| 0 <= i < r.0@.len() ==> r.0@[i] < 16 && entry_listed(block@, r.0@[i] as int),
        forall|i: int, j: int| 0 <= i < j < r.0@.len() ==> r.0@[i] < r.0@[j],
        forall|k: int| 0 <= k < 16 && #[trigger] entry_listed(block@, k) ==> r.0@.contains(k as usize),
        r.1 == !open_before(block@, 16),
{
    let mut listed: Vec<usize> = Vec::new();
    let mut k: usize = 0;
    while k < ENTRIES_PER_BLOCK
        invariant
            k <= 16,
            block@.len() == 512,
            open_before(block@, k as int),
            forall|i: int| 0 <= i < listed@.len() ==> listed@[i] < k && entry_listed(block@, listed@[i] as int),
            forall|i: int, j: int| 0 <= i < j < listed@.len() ==> listed@[i] < listed@[j],
            forall|m: int| 0 <= m < k && #[trigger] entry_listed(block@, m) ==> listed@.contains(m as usize),
        decreases 16 - k,
    {
        let start = k * DIR_ENTRY_LEN;
        let first = block[start];
        if first == 0 {
            assert forall|m: int| 0 <= m < 16 && #[trigger] entry_listed(block@, m) implies listed@.contains(m as usize) by {
                if m >= k {
                    assert(!open_before(block@, m + 1)) by {
                        assert(entry_is_end(block@, k as int));
                    }
                }
            }
            assert(entry_is_end(block@, k as int));
            assert(!open_before(block@, 16));
            return (listed, true);
        }
        assert(open_before(block@, k + 1));
        if first != DELETED_ENTRY && block[start + 11] & ATTR_LFN != ATTR_LFN {
            let ghost before = listed@;
            listed.push(k);
            assert(listed@[listed@.len() - 1] == k);
            assert forall|m: int| 0 <= m < k + 1 && #[trigger] entry_listed(block@, m) implies listed@.contains(m as usize) by {
                if m < k {
                    assert(before.contains(m as usize));
                    let w = choose|w: int| 0 <= w < before.len() && before[w] == m as usize;
                    assert(listed@[w] == m as usize);
                } else {
                    assert(listed@[listed@.len() - 1] == m as usize);
                }
            }
        }
        k = k + 1;
    }
    (listed, false)
}

/// The part of a directory that can be walked without looking up the next
/// cluster.
#[derive(Debug, Copy, Clone, PartialEq, Eq, Structural)]
pub struct DirRegion {
    /// The cluster whose successor follows the region.
    pub cluster: ClusterId,
    pub first_block: BlockIdx,
    pub blocks: BlockCount,
    /// Whether the directory goes on in the cluster chain; the FAT16 root
    /// directory does not.
    pub chained: bool,
}

/// Blocks that `bytes` bytes fill, the last one maybe in part.
pub open spec fn blocks_for(bytes: int) -> int {
    (bytes + 511) / 512
}

impl BlockCount {
    /// The blocks that `byte_count` bytes fill, the last one maybe in part.
    pub fn from_bytes(byte_count: u32) -> (c: BlockCount)
        ensures
            c.0 == blocks_for(byte_count as int),
    {
        let mut count = byte_count / BLOCK_LEN;
        if count * BLOCK_LEN != byte_count {
            count = count + 1;
        }
        BlockCount(count)
    }
}

impl FatVolume {
    /// Where the walk of directory `dir_cluster` begins. On FAT16 the root
    /// directory is a fixed run of blocks that holds all its entries; any
    /// other directory, and the FAT32 root, is a chain of clusters.
    pub open spec fn spec_dir_region(&self, dir_cluster: ClusterId) -> DirRegion {
        match self.fat_specific_info {
            FatSpecificInfo::Fat16(info) => DirRegion {
                cluster: dir_cluster,
                first_block: BlockIdx(self.spec_cluster_to_block(dir_cluster) as u32),
                blocks: if dir_cluster.0 == CLUSTER_ROOT_DIR {
                    BlockCount(blocks_for(info.root_entries_count * 32) as u32)
                } else {
                    BlockCount(self.blocks_per_cluster as u32)
                },
                chained: dir_cluster.0 != CLUSTER_ROOT_DIR,
            },
            FatSpecificInfo::Fat32(info) => DirRegion {
                cluster: if dir_cluster.0 == CLUSTER_ROOT_DIR {
                    info.first_root_dir_cluster
                } else {
                    dir_cluster
                },
                first_block: BlockIdx(self.spec_cluster_to_block(dir_cluster) as u32),
                blocks: BlockCount(self.blocks_per_cluster as u32),
                chained: true,
            },
        }
    }

    pub fn dir_region(&self, dir_cluster: ClusterId) -> (r: DirRegion)
        requires
            self.cluster_addressable(dir_cluster),
        ensures
            r == self.spec_dir_region(dir_cluster),
    {
        let first_block = self.cluster_to_block(dir_cluster);
        match &self.fat_specific_info {
            FatSpecificInfo::Fat16(info) => {
                if dir_cluster.0 == CLUSTER_ROOT_DIR {
                    let len_bytes = (info.root_entries_count as u32) * 32;
                    DirRegion {
                        cluster: dir_cluster,
                        first_block,
                        blocks: BlockCount::from_bytes(len_bytes),
                        chained: false,
                    }
                } else {
                    DirRegion {
                        cluster: dir_cluster,
                        first_block,
                        blocks: BlockCount(self.blocks_per_cluster as u32),
                        chained: true,
                    }
                }
            },
            FatSpecificInfo::Fat32(info) => {
                let cluster = if dir_cluster.0 == CLUSTER_ROOT_DIR {
                    info.first_root_dir_cluster
                } else {
                    dir_cluster
                };
                DirRegion {
                    cluster,
                    first_block,
                    blocks: BlockCount(self.blocks_per_cluster as u32),
                    chained: true,
                }
            },
        }
    }
}

/// Whether every block of a region has a 32-bit block number.
pub open spec fn region_fits(r: DirRegion) -> bool {
    r.first_block.0 + r.blocks.0 <= u32::MAX
}

impl DirRegion {
    pub fn fits(&self) -> (b: bool)
        ensures
            b == region_fits(*self),
    {
        self.first_block.0 as u64 + self.blocks.0 as u64 <= u32::MAX as u64
    }
}

/// The region of an ordinary directory cluster.
pub open spec fn spec_cluster_region(v: &FatVolume, c: ClusterId) -> DirRegion {
    DirRegion {
        cluster: c,
        first_block: BlockIdx(v.spec_cluster_to_block(c) as u32),
        blocks: BlockCount(v.blocks_per_cluster as u32),
        chained: true,
    }
}

impl FatVolume {
    /// Whether the blocks of cluster `c` can be walked with 32-bit block
    /// numbers.
    pub open spec fn walkable(&self, c: ClusterId) -> bool {
        self.cluster_addressable(c) && region_fits(spec_cluster_region(self, c))
    }

    pub fn cluster_walkable(&self, c: ClusterId) -> (b: bool)
        ensures
            b == self.walkable(c),
    {
        let n: u64 = match &self.fat_specific_info {
            FatSpecificInfo::Fat16(_) => if c.0 == CLUSTER_ROOT_DIR {
                2
            } else {
                c.0 as u64
            },
            FatSpecificInfo::Fat32(info) => if c.0 == CLUSTER_ROOT_DIR {
                info.first_root_dir_cluster.0 as u64
            } else {
                c.0 as u64
            },
        };
        if n < 2 {
            return false;
        }
        let bpc = self.blocks_per_cluster as u64;
        assert((n - 2) * bpc <= 0xFFFF_FFFF * 255) by (nonlinear_arith)
            requires
                2 <= n <= 0xFFFF_FFFF,
                bpc <= 255,
        ;
        let offset: u64 = (n - 2) * bpc;
        if offset > u32::MAX as u64 {
            return false;
        }
        let data: u64 = self.first_data_block.0 as u64 + offset;
        if data > u32::MAX as u64 {
            return false;
        }
        let block: u64 = match &self.fat_specific_info {
            FatSpecificInfo::Fat16(info) => {
                if self.lba_start.0 as u64 + info.first_root_dir_block.0 as u64 > u32::MAX as u64 {
                    return false;
                }
                if c.0 == CLUSTER_ROOT_DIR {
                    self.lba_start.0 as u64 + info.first_root_dir_block.0 as u64
                } else {
                    self.lba_start.0 as u64 + data
                }
            },
            FatSpecificInfo::Fat32(_) => self.lba_start.0 as u64 + data,
        };
        block + bpc <= u32::MAX as u64
    }
}

/// What a directory walk asks for next.
#[derive(Debug, Copy, Clone, PartialEq, Eq, Structural)]
pub enum WalkStep {
    /// Read this block and look at its entries.
    Read(BlockIdx),
    /// Look up the cluster that follows this one in the FAT.
    Follow(ClusterId),
    /// The directory has no more blocks.
    End,
}

/// A walk through the blocks of a directory: the blocks of its region in
/// order, then, when the directory is a chain, those of each following
/// cluster.
pub struct DirWalk {
    region: DirRegion,
    next: u32,
}

impl DirWalk {
    #[verifier::type_invariant]
    spec fn walk_fits(&self) -> bool {
        region_fits(self.region) && self.next <= self.region.blocks.0
    }

    pub closed spec fn spec_region(&self) -> DirRegion {
        self.region
    }

    /// How many blocks of the current region were handed out.
    pub closed spec fn spec_next(&self) -> u32 {
        self.next
    }

    pub fn new(region: DirRegion) -> (w: DirWalk)
        requires
            region_fits(region),
        ensures
            w.spec_region() == region,
            w.spec_next() == 0,
    {
        DirWalk { region, next: 0 }
    }

    /// The next block of the region, else the cluster to follow when the
    /// directory goes on, else the end.
    pub fn step(&mut self) -> (r: WalkStep)
        ensures
            final(self).spec_region() == old(self).spec_region(),
            old(self).spec_next() < old(self).spec_region().blocks.0 ==> {
                &&& r == WalkStep::Read(
                    BlockIdx((old(self).spec_region().first_block.0 + old(self).spec_next()) as u32),
                )
                &&& final(self).spec_next() == old(self).spec_next() + 1
            },
            old(self).spec_next() >= old(self).spec_region().blocks.0 ==> {
                &&& r == if old(self).spec_region().chained {
                    WalkStep::Follow(old(self).spec_region().cluster)
                } else {
                    WalkStep::End
                }
                &&& final(self).spec_next() == old(self).spec_next()
            },
    {
        proof {
            use_type_invariant(&*self);
        }
        if self.next < self.region.blocks.0 {
            let b = BlockIdx(self.region.first_block.0 + self.next);
            self.next = self.next + 1;
            WalkStep::Read(b)
        } else if self.region.chained {
            WalkStep::Follow(self.region.cluster)
        } else {
            WalkStep::End
        }
    }

    /// Goes on with the cluster `next` that the FAT gives after the current
    /// one.
    pub fn follow(&mut self, v: &FatVolume, next: ClusterId)
        requires
            v.walkable(next),
        ensures
            final(self).spec_region() == spec_cluster_region(v, next),
            final(self).spec_next() == 0,
    {
        let first_block = v.cluster_to_block(next);
        *self = DirWalk {
            region: DirRegion {
                cluster: next,
                first_block,
                blocks: BlockCount(v.blocks_per_cluster as u32),
                chained: true,
            },
            next: 0,
        };
    }
}

} // verus!
