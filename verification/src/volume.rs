//! The bookkeeping of a volume manager: finding open handles and the place
//! on the disk of a byte of a file.
use vstd::prelude::*;
use crate::fat::{
    solve_mode_variant, spec_solve_mode, BlockIdx, ClusterId, DeviceError, FatType, FatVolume,
    Mode, BLOCK_LEN, CLUSTER_EMPTY, CLUSTER_ROOT_DIR,
};

verus! {

/// The index of the first open handle equal to `id`, or `BadHandle`.
pub fn find_handle(handles: &[u32], id: u32) -> (r: Result<usize, DeviceError>)
    ensures
        match r {
            Ok(i) => i < handles@.len() && handles@[i as int] == id && forall|j: int|
                0 <= j < i ==> handles@[j] != id,
            Err(e) => e == DeviceError::BadHandle && forall|j: int|
                0 <= j < handles@.len() ==> handles@[j] != id,
        },
{
    let mut i: usize = 0;
    while i < handles.len()
        invariant
            i <= handles@.len(),
            forall|j: int| 0 <= j < i ==> handles@[j] != id,
        decreases handles@.len() - i,
    {
        if handles[i] == id {
            return Ok(i);
        }
        i = i + 1;
    }
    Err(DeviceError::BadHandle)
}

/// How many clusters past the cluster that starts at byte `cluster_start`
/// of a file the byte `offset` lies.
pub fn clusters_to_skip(bytes_per_cluster: u32, cluster_start: u32, offset: u32) -> (n: u32)
    requires
        bytes_per_cluster > 0,
        cluster_start <= offset,
    ensures
        n == (offset - cluster_start) / (bytes_per_cluster as int),
{
    (offset - cluster_start) / bytes_per_cluster
}

/// Where byte `offset` of a file lies on the disk, `cluster` being the
/// cluster that starts at byte `cluster_start` and holds it: the block, the
/// byte within the block, and the bytes left in the block.
pub open spec fn spec_data_location(
    v: &FatVolume,
    cluster: ClusterId,
    cluster_start: u32,
    offset: u32,
) -> (int, int, int) {
    (
        v.spec_cluster_to_block(cluster) + (offset - cluster_start) / (BLOCK_LEN as int),
        (offset % BLOCK_LEN) as int,
        BLOCK_LEN - (offset % BLOCK_LEN) as int,
    )
}

impl FatVolume {
    pub fn data_location(&self, cluster: ClusterId, cluster_start: u32, offset: u32) -> (r: (
        BlockIdx,
        usize,
        usize,
    ))
        requires
            self.cluster_addressable(cluster),
            cluster_start <= offset,
            offset - cluster_start < self.blocks_per_cluster * BLOCK_LEN,
            self.spec_cluster_to_block(cluster) + (offset - cluster_start) / (BLOCK_LEN as int)
                <= u32::MAX,
        ensures
            r.0.0 == spec_data_location(self, cluster, cluster_start, offset).0,
            r.1 == spec_data_location(self, cluster, cluster_start, offset).1,
            r.2 == spec_data_location(self, cluster, cluster_start, offset).2,
    {
        let within = offset - cluster_start;
        let first = self.cluster_to_block(cluster);
        let block = BlockIdx(first.0 + within / BLOCK_LEN);
        let block_offset = (offset % BLOCK_LEN) as usize;
        (block, block_offset, (BLOCK_LEN as usize) - block_offset)
    }
}

/// One step of a write into a file: how many bytes go into the current
/// block, whether the block must be read first (the write starts inside
/// it), and the file offset and length after the step.
#[derive(Debug, Copy, Clone, PartialEq, Eq, Structural)]
pub struct WriteStep {
    pub to_copy: usize,
    pub read_first: bool,
    pub new_offset: u32,
    pub new_length: u32,
}

/// The bytes a write may still add at `offset`: files end at `u32::MAX`.
pub fn bytes_until_max(offset: u32, wanted: usize) -> (n: usize)
    ensures
        n == if wanted < u32::MAX - offset {
            wanted as int
        } else {
            u32::MAX - offset
        },
{
    let room: u32 = u32::MAX - offset;
    if (wanted as u64) < (room as u64) {
        wanted
    } else {
        room as usize
    }
}

/// Plans one step of a write of `remaining` more bytes at `offset` into a
/// file of `length` bytes, the current block holding `block_avail` bytes
/// from `block_offset` on.
pub fn plan_write_step(
    offset: u32,
    length: u32,
    block_offset: usize,
    block_avail: usize,
    remaining: usize,
) -> (s: WriteStep)
    requires
        offset + if block_avail < remaining {
            block_avail as int
        } else {
            remaining as int
        } <= u32::MAX,
    ensures
        s.to_copy == if block_avail < remaining {
            block_avail
        } else {
            remaining
        },
        s.read_first == (block_offset != 0),
        s.new_offset == offset + s.to_copy,
        s.new_length == if s.new_offset > length {
            s.new_offset
        } else {
            length
        },
{
    let to_copy = if block_avail < remaining {
        block_avail
    } else {
        remaining
    };
    let new_offset = offset + to_copy as u32;
    WriteStep {
        to_copy,
        read_first: block_offset != 0,
        new_offset,
        new_length: if new_offset > length {
            new_offset
        } else {
            length
        },
    }
}

/// The bytes one step of a read copies: what the block holds from the
/// offset on, at most the room left in the buffer and the bytes left in the
/// file.
pub fn plan_read_step(block_avail: usize, space: usize, left: u32) -> (n: usize)
    requires
        block_avail > 0,
        space > 0,
        left > 0,
    ensures
        n > 0,
        n <= block_avail,
        n <= space,
        n <= left,
        n == block_avail || n == space || n == left,
{
    let mut n = if block_avail < space {
        block_avail
    } else {
        space
    };
    if (left as u64) < (n as u64) {
        n = left as usize;
    }
    n
}

/// What the directory entry of a file says of it.
#[derive(Debug, Copy, Clone, PartialEq, Eq, Structural)]
pub struct EntryFacts {
    pub read_only: bool,
    pub directory: bool,
}

/// How a file is opened.
#[derive(Debug, Copy, Clone, PartialEq, Eq, Structural)]
pub enum OpenPlan {
    /// Make a new directory entry and open it at its start.
    Create,
    /// Open the existing file at its start.
    FromStart,
    /// Open the existing file at its end.
    AtEnd,
    /// Empty the existing file and open it.
    Truncate,
}

/// Whether a mode may create a missing file.
pub open spec fn creates(mode: Mode) -> bool {
    mode == Mode::ReadWriteCreate || mode == Mode::ReadWriteCreateOrTruncate || mode
        == Mode::ReadWriteCreateOrAppend
}

/// How to open a file in `mode`, given whether the table of open files is
/// full, what the entry of the file says (`None` when there is none) and
/// whether the file is open already; or why it cannot be opened. The checks
/// come in this order: room for one more file, existence, not open twice,
/// no creation over an existing file, write access, not a directory.
pub open spec fn spec_plan_open(
    mode: Mode,
    table_full: bool,
    entry: Option<EntryFacts>,
    already_open: bool,
) -> Result<OpenPlan, DeviceError> {
    let m = spec_solve_mode(mode, entry is Some);
    if table_full {
        Err(DeviceError::TooManyOpenFiles)
    } else if entry is None && !creates(mode) {
        Err(DeviceError::NotFound)
    } else if entry is Some && already_open {
        Err(DeviceError::FileAlreadyOpen)
    } else if m == Mode::ReadWriteCreate {
        if entry is Some {
            Err(DeviceError::FileAlreadyExists)
        } else {
            Ok(OpenPlan::Create)
        }
    } else if entry.unwrap().read_only && m != Mode::ReadOnly {
        Err(DeviceError::ReadOnly)
    } else if entry.unwrap().directory {
        Err(DeviceError::OpenedDirAsFile)
    } else if m == Mode::ReadOnly {
        Ok(OpenPlan::FromStart)
    } else if m == Mode::ReadWriteAppend {
        Ok(OpenPlan::AtEnd)
    } else if m == Mode::ReadWriteTruncate {
        Ok(OpenPlan::Truncate)
    } else {
        Err(DeviceError::Unsupported)
    }
}

/// Decides how to open a file (see `spec_plan_open`).
pub fn plan_open(mode: Mode, table_full: bool, entry: Option<EntryFacts>, already_open: bool) -> (r:
    Result<OpenPlan, DeviceError>)
    ensures
        r == spec_plan_open(mode, table_full, entry, already_open),
{
    if table_full {
        return Err(DeviceError::TooManyOpenFiles);
    }
    let creating = mode == Mode::ReadWriteCreate || mode == Mode::ReadWriteCreateOrTruncate || mode
        == Mode::ReadWriteCreateOrAppend;
    let facts = match entry {
        Some(f) => {
            if already_open {
                return Err(DeviceError::FileAlreadyOpen);
            }
            f
        },
        None => {
            if !creating {
                return Err(DeviceError::NotFound);
            }
            let m = solve_mode_variant(mode, false);
            if m == Mode::ReadWriteCreate {
                return Ok(OpenPlan::Create);
            }
            return Err(DeviceError::Unsupported);
        },
    };
    let m = solve_mode_variant(mode, true);
    if m == Mode::ReadWriteCreate {
        return Err(DeviceError::FileAlreadyExists);
    }
    if facts.read_only && m != Mode::ReadOnly {
        return Err(DeviceError::ReadOnly);
    }
    if facts.directory {
        return Err(DeviceError::OpenedDirAsFile);
    }
    match m {
        Mode::ReadOnly => Ok(OpenPlan::FromStart),
        Mode::ReadWriteAppend => Ok(OpenPlan::AtEnd),
        Mode::ReadWriteTruncate => Ok(OpenPlan::Truncate),
        _ => Err(DeviceError::Unsupported),
    }
}

/// Whether a file may be deleted: not a directory, and not open.
pub fn plan_delete(directory: bool, open: bool) -> (r: Result<(), DeviceError>)
    ensures
        r == if directory {
            Err(DeviceError::DeleteDirAsFile)
        } else if open {
            Err(DeviceError::FileAlreadyOpen)
        } else {
            Ok(())
        },
{
    if directory {
        return Err(DeviceError::DeleteDirAsFile);
    }
    if open {
        return Err(DeviceError::FileAlreadyOpen);
    }
    Ok(())
}

/// Whether a directory can be made, given whether the table of open
/// directories is full and what looking its name up gave: the name must
/// be free, and any error but `NotFound` from the lookup is passed on.
pub fn plan_make_dir(table_full: bool, lookup: Result<EntryFacts, DeviceError>) -> (r: Result<
    (),
    DeviceError,
>)
    ensures
        r == if table_full {
            Err(DeviceError::TooManyOpenDirs)
        } else {
            match lookup {
                Ok(f) => if f.directory {
                    Err(DeviceError::DirAlreadyExists)
                } else {
                    Err(DeviceError::FileAlreadyExists)
                },
                Err(DeviceError::NotFound) => Ok(()),
                Err(e) => Err(e),
            }
        },
{
    if table_full {
        return Err(DeviceError::TooManyOpenDirs);
    }
    match lookup {
        Ok(f) => {
            if f.directory {
                Err(DeviceError::DirAlreadyExists)
            } else {
                Err(DeviceError::FileAlreadyExists)
            }
        },
        Err(DeviceError::NotFound) => Ok(()),
        Err(e) => Err(e),
    }
}

impl FatVolume {
    /// The cluster that the `..` entry of a new directory records for its
    /// parent: on FAT16 the root directory is recorded as cluster 0.
    pub fn parent_link(&self, parent: ClusterId) -> (c: ClusterId)
        ensures
            c == if self.spec_fat_type() == FatType::Fat16 && parent.0 == CLUSTER_ROOT_DIR {
                ClusterId(CLUSTER_EMPTY)
            } else {
                parent
            },
    {
        match self.get_fat_type() {
            FatType::Fat16 => {
                if parent.0 == CLUSTER_ROOT_DIR {
                    ClusterId(CLUSTER_EMPTY)
                } else {
                    parent
                }
            },
            FatType::Fat32 => parent,
        }
    }
}

/// A file that is missing is created exactly when the mode allows it, and
/// an existing file is never opened twice.
pub proof fn law_open_creates_only_when_allowed(
    mode: Mode,
    table_full: bool,
    entry: Option<EntryFacts>,
    already_open: bool,
)
    ensures
        spec_plan_open(mode, table_full, entry, already_open) == Ok::<OpenPlan, DeviceError>(
            OpenPlan::Create,
        ) <==> (!table_full && entry is None && creates(mode)),
        entry is Some && already_open ==> spec_plan_open(mode, table_full, entry, already_open) is Err,
{
}

} // verus!
