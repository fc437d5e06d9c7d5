//! Writing directory entries: the 32-byte on-disk form of an entry, taking
//! the first free slot of a directory block for a new one, the `.` and `..`
//! entries of a new directory, and what to do when a directory has no free
//! slot left.
use vstd::prelude::*;
use crate::dir::{
    entry_is_end, entry_is_valid, entry_matches, find_free_entry, open_before, DIR_ENTRY_LEN,
};
use crate::fat::{
    le_u16, le_u32, write_u16_le, write_u32_le, ClusterId, DeviceError, FatSpecificInfo,
    FatType, FatVolume, BLOCK_LEN, CLUSTER_EMPTY, CLUSTER_ROOT_DIR,
};

verus! {

/// The attribute bit of a directory.
pub const ATTR_DIRECTORY: u8 = 0x10;

/// What a directory entry records.
#[derive(Debug, Copy, Clone, PartialEq, Eq)]
pub struct EntryFields {
    /// The short name, eight characters and a three-character extension,
    /// padded with spaces.
    pub name: [u8; 11],
    pub attributes: u8,
    /// The first cluster of the file or directory.
    pub cluster: ClusterId,
    /// Bytes in the file.
    pub size: u32,
    /// Creation time and date as FAT packs them: the time in the low 16
    /// bits, the date in the high ones.
    pub ctime: u32,
    /// Modification time and date, packed the same way.
    pub mtime: u32,
}

/// The high half of a cluster number as an entry records it: FAT16
/// entries have none.
pub open spec fn cluster_high(t: FatType, c: ClusterId) -> u16 {
    match t {
        FatType::Fat16 => 0,
        FatType::Fat32 => (c.0 / 0x10000) as u16,
    }
}

/// Whether the 32 bytes at `at` of `b` are entry `e` in a FAT of type `t`:
/// name (0..11), attributes (11), two zero bytes, creation time and date
/// (14..18), last access date = creation date (18..20), high half of the
/// cluster (20..22), modification time and date (22..26), low half of the
/// cluster (26..28) and size (28..32), little-endian.
pub open spec fn entry_encoded(b: Seq<u8>, at: int, e: EntryFields, t: FatType) -> bool {
    &&& b.subrange(at, at + 11) == e.name@
    &&& b[at + 11] == e.attributes
    &&& b[at + 12] == 0
    &&& b[at + 13] == 0
    &&& le_u32(b, at + 14) == e.ctime
    &&& le_u16(b, at + 18) == (e.ctime / 0x10000) as u16
    &&& le_u16(b, at + 20) == cluster_high(t, e.cluster)
    &&& le_u32(b, at + 22) == e.mtime
    &&& le_u16(b, at + 26) == (e.cluster.0 % 0x10000) as u16
    &&& le_u32(b, at + 28) == e.size
}

/// Writes entry `e` into the 32 bytes at `at` of `block`; the other bytes
/// stay.
pub fn write_entry(block: &mut [u8], at: usize, e: &EntryFields, t: FatType)
    requires
        at + 32 <= old(block)@.len(),
    ensures
        final(block)@.len() == old(block)@.len(),
        entry_encoded(final(block)@, at as int, *e, t),
        forall|i: int|
            0 <= i < old(block)@.len() && !(at <= i < at + 32) ==> #[trigger] final(block)@[i]
                == old(block)@[i],
{
    let ghost orig = block@;
    let n = block.len();
    let mut i: usize = 0;
    while i < 11
        invariant
            i <= 11,
            at + 32 <= orig.len(),
            n == orig.len(),
            block@.len() == orig.len(),
            forall|j: int| 0 <= j < i ==> #[trigger] block@[at + j] == e.name@[j],
            forall|k: int|
                0 <= k < orig.len() && !(at <= k < at + 32) ==> #[trigger] block@[k] == orig[k],
        decreases 11 - i,
    {
        block[at + i] = e.name[i];
        i = i + 1;
    }
    block[at + 11] = e.attributes;
    block[at + 12] = 0;
    block[at + 13] = 0;
    let ghost names = block@;
    assert forall|j: int| 0 <= j < 11 implies names.subrange(at as int, at + 11)[j] == e.name@[j] by {
        assert(names[at + j] == e.name@[j]);
    }
    assert(names.subrange(at as int, at + 11) =~= e.name@);
    let hi: u16 = match t {
        FatType::Fat16 => 0,
        FatType::Fat32 => (e.cluster.0 / 0x10000) as u16,
    };
    write_u32_le(block, at + 14, e.ctime);
    write_u16_le(block, at + 18, (e.ctime / 0x10000) as u16);
    write_u16_le(block, at + 20, hi);
    write_u32_le(block, at + 22, e.mtime);
    write_u16_le(block, at + 26, (e.cluster.0 % 0x10000) as u16);
    write_u32_le(block, at + 28, e.size);
    let ghost fin = block@;
    assert forall|j: int| at <= j < at + 14 implies #[trigger] fin[j] == names[j] by {}
    assert(fin.subrange(at as int, at + 11) =~= names.subrange(at as int, at + 11));
    assert(le_u32(fin, at + 14) == e.ctime) by {
        assert(fin[at + 14] == block@[at + 14]);
    }
}

/// Takes the first free entry of a directory block for entry `e` and tells
/// which it was; without one the block stays as it is.
pub fn place_entry_in_block(block: &mut [u8], e: &EntryFields, t: FatType) -> (slot: Option<
    usize,
>)
    requires
        old(block)@.len() == BLOCK_LEN,
    ensures
        final(block)@.len() == BLOCK_LEN,
        match slot {
            Some(k) => {
                &&& k < 16
                &&& !entry_is_valid(old(block)@, k as int)
                &&& forall|j: int| 0 <= j < k ==> #[trigger] entry_is_valid(old(block)@, j)
                &&& entry_encoded(final(block)@, k * 32, *e, t)
                &&& forall|i: int|
                    0 <= i < BLOCK_LEN && !(k * 32 <= i < k * 32 + 32) ==> #[trigger] final(block)@[i] == old(block)@[i]
            },
            None => {
                &&& final(block)@ == old(block)@
                &&& forall|j: int| 0 <= j < 16 ==> #[trigger] entry_is_valid(old(block)@, j)
            },
        },
{
    match find_free_entry(block) {
        Some(k) => {
            write_entry(block, k * DIR_ENTRY_LEN, e, t);
            Some(k)
        },
        None => None,
    }
}

/// An entry placed in the first free slot `k` of a block, under a name that
/// no entry before it carries and that does not begin with 0, is what
/// looking the name up in the block finds: no entry before it ends the
/// directory, it carries the name, and none before it does.
pub proof fn law_placed_entry_found(before: Seq<u8>, after: Seq<u8>, k: int, e: EntryFields, t: FatType)
    requires
        before.len() == BLOCK_LEN,
        after.len() == BLOCK_LEN,
        0 <= k < 16,
        forall|j: int| 0 <= j < k ==> #[trigger] entry_is_valid(before, j),
        forall|j: int| 0 <= j < k ==> !#[trigger] entry_matches(before, j, e.name@),
        e.name[0] != 0,
        entry_encoded(after, k * 32, e, t),
        forall|i: int|
            0 <= i < BLOCK_LEN && !(k * 32 <= i < k * 32 + 32) ==> #[trigger] after[i] == before[i],
    ensures
        open_before(after, k + 1),
        entry_matches(after, k, e.name@),
        forall|j: int| 0 <= j < k ==> !#[trigger] entry_matches(after, j, e.name@),
{
    assert forall|j: int| 0 <= j < k + 1 implies !#[trigger] entry_is_end(after, j) by {
        if j < k {
            assert(after[j * 32] == before[j * 32]);
            assert(entry_is_valid(before, j));
        } else {
            assert(after.subrange(k * 32, k * 32 + 11)[0] == e.name@[0]);
        }
    }
    assert forall|j: int| 0 <= j < k implies !#[trigger] entry_matches(after, j, e.name@) by {
        assert forall|i: int| 0 <= i < 11 implies #[trigger] after.subrange(j * 32, j * 32 + 11)[i]
            == before.subrange(j * 32, j * 32 + 11)[i] by {
            assert(j * 32 + i < k * 32);
            assert(after[j * 32 + i] == before[j * 32 + i]);
        }
        assert(after.subrange(j * 32, j * 32 + 11) =~= before.subrange(j * 32, j * 32 + 11));
        assert(!entry_matches(before, j, e.name@));
    }
}

/// The name of the `.` entry.
pub open spec fn dot_name() -> Seq<u8> {
    seq![0x2Eu8, 0x20, 0x20, 0x20, 0x20, 0x20, 0x20, 0x20, 0x20, 0x20, 0x20]
}

/// The name of the `..` entry.
pub open spec fn dot_dot_name() -> Seq<u8> {
    seq![0x2Eu8, 0x2E, 0x20, 0x20, 0x20, 0x20, 0x20, 0x20, 0x20, 0x20, 0x20]
}

/// Whether `e` is a directory entry named `name`, of no size, created and
/// changed at `stamp`, starting at cluster `c`.
pub open spec fn is_dir_entry(e: EntryFields, name: Seq<u8>, c: ClusterId, stamp: u32) -> bool {
    &&& e.name@ == name
    &&& e.attributes == ATTR_DIRECTORY
    &&& e.cluster == c
    &&& e.size == 0
    &&& e.ctime == stamp
    &&& e.mtime == stamp
}

/// The cluster that the `..` entry of a new directory records for its
/// parent: on FAT16 the root directory is recorded as cluster 0.
pub open spec fn spec_parent_link(v: &FatVolume, parent: ClusterId) -> ClusterId {
    if v.spec_fat_type() == FatType::Fat16 && parent.0 == CLUSTER_ROOT_DIR {
        ClusterId(CLUSTER_EMPTY)
    } else {
        parent
    }
}

/// The first block of a new directory at cluster `own` under `parent`,
/// made at `stamp`: the `.` entry naming the directory itself, the `..`
/// entry naming its parent, and zeros after them.
pub fn fill_dot_entries(v: &FatVolume, block: &mut [u8], own: ClusterId, parent: ClusterId, stamp: u32)
    requires
        old(block)@.len() == BLOCK_LEN,
    ensures
        final(block)@.len() == BLOCK_LEN,
        exists|e: EntryFields|
            #[trigger] is_dir_entry(e, dot_name(), own, stamp) && entry_encoded(
                final(block)@,
                0,
                e,
                v.spec_fat_type(),
            ),
        exists|e: EntryFields|
            #[trigger] is_dir_entry(e, dot_dot_name(), spec_parent_link(v, parent), stamp)
                && entry_encoded(final(block)@, 32, e, v.spec_fat_type()),
        forall|i: int| 64 <= i < BLOCK_LEN ==> #[trigger] final(block)@[i] == 0,
{
    let mut i: usize = 0;
    while i < 512
        invariant
            i <= 512,
            block@.len() == BLOCK_LEN,
            forall|j: int| 0 <= j < i ==> #[trigger] block@[j] == 0,
        decreases 512 - i,
    {
        block[i] = 0;
        i = i + 1;
    }
    let t = v.get_fat_type();
    let dot = EntryFields {
        name: [0x2E, 0x20, 0x20, 0x20, 0x20, 0x20, 0x20, 0x20, 0x20, 0x20, 0x20],
        attributes: ATTR_DIRECTORY,
        cluster: own,
        size: 0,
        ctime: stamp,
        mtime: stamp,
    };
    let link = v.parent_link(parent);
    let dot_dot = EntryFields {
        name: [0x2E, 0x2E, 0x20, 0x20, 0x20, 0x20, 0x20, 0x20, 0x20, 0x20, 0x20],
        attributes: ATTR_DIRECTORY,
        cluster: link,
        size: 0,
        ctime: stamp,
        mtime: stamp,
    };
    assert(dot.name@ =~= dot_name());
    assert(dot_dot.name@ =~= dot_dot_name());
    write_entry(block, 0, &dot, t);
    let ghost after_dot = block@;
    write_entry(block, DIR_ENTRY_LEN, &dot_dot, t);
    assert(block@.subrange(0, 11) =~= after_dot.subrange(0, 11));
    assert(entry_encoded(block@, 0, dot, t));
    assert(is_dir_entry(dot, dot_name(), own, stamp));
    assert(is_dir_entry(dot_dot, dot_dot_name(), spec_parent_link(v, parent), stamp));
}

/// The allocation of a cluster that a caller asks for: linked after `prev`
/// when there is one, and zeroed when `zero` is set.
#[derive(Debug, Copy, Clone, PartialEq, Eq, Structural)]
pub struct AllocRequest {
    pub prev: Option<ClusterId>,
    pub zero: bool,
}

/// What a directory with no free slot left in its cluster `last` needs: the
/// FAT16 root directory has a fixed size and is full; any other directory
/// grows by a zeroed cluster linked after `last`.
pub fn directory_full(v: &FatVolume, dir: ClusterId, last: ClusterId) -> (r: Result<
    AllocRequest,
    DeviceError,
>)
    ensures
        r == if v.spec_fat_type() == FatType::Fat16 && dir.0 == CLUSTER_ROOT_DIR {
            Err::<AllocRequest, DeviceError>(DeviceError::NotEnoughSpace)
        } else {
            Ok(AllocRequest { prev: Some(last), zero: true })
        },
{
    match &v.fat_specific_info {
        FatSpecificInfo::Fat16(_) => if dir.0 == CLUSTER_ROOT_DIR {
            return Err(DeviceError::NotEnoughSpace);
        },
        FatSpecificInfo::Fat32(_) => {},
    }
    Ok(AllocRequest { prev: Some(last), zero: true })
}

/// How the search for a free slot goes on after cluster `last` of a
/// directory, given what the FAT says follows it.
#[derive(Debug, Copy, Clone, PartialEq, Eq, Structural)]
pub enum DirGrowth {
    /// Search the next cluster of the directory.
    Next(ClusterId),
    /// Allocate a cluster for the directory, as asked, and search it.
    Allocate(AllocRequest),
}

/// The next cluster to search: the one the FAT names; past the end of the
/// chain a new one (see `directory_full`); any other answer of the FAT
/// leaves no room.
pub fn grow_directory(
    v: &FatVolume,
    dir: ClusterId,
    last: ClusterId,
    next: Result<ClusterId, DeviceError>,
) -> (r: Result<DirGrowth, DeviceError>)
    ensures
        r == match next {
            Ok(n) => Ok(DirGrowth::Next(n)),
            Err(DeviceError::EndOfFile) => if v.spec_fat_type() == FatType::Fat16 && dir.0
                == CLUSTER_ROOT_DIR {
                Err(DeviceError::NotEnoughSpace)
            } else {
                Ok(DirGrowth::Allocate(AllocRequest { prev: Some(last), zero: true }))
            },
            Err(_) => Err::<DirGrowth, DeviceError>(DeviceError::NotEnoughSpace),
        },
{
    match next {
        Ok(n) => Ok(DirGrowth::Next(n)),
        Err(DeviceError::EndOfFile) => match directory_full(v, dir, last) {
            Ok(req) => Ok(DirGrowth::Allocate(req)),
            Err(e) => Err(e),
        },
        Err(_) => Err(DeviceError::NotEnoughSpace),
    }
}

} // verus!
