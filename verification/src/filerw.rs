//! Reading and writing an open file, as the steps that a volume manager
//! takes between its block reads and writes: where the file stands, how far
//! one block moves it, and when it must grow by a cluster.
use vstd::prelude::*;
use crate::dirwrite::AllocRequest;
use crate::fat::{ClusterId, DeviceError, RESERVED_ENTRIES};
use crate::volume::{bytes_until_max, plan_read_step, plan_write_step, WriteStep};

verus! {

/// Where an open file stands.
#[derive(Debug, Copy, Clone, PartialEq, Eq, Structural)]
pub struct FileState {
    /// Opened read-only.
    pub read_only: bool,
    /// Written since it was opened, so that its entry must be updated.
    pub dirty: bool,
    /// The first cluster of the file; below 2 when it has none.
    pub first_cluster: ClusterId,
    /// The cluster the last access reached, and the file offset at which
    /// that cluster starts.
    pub cluster_start: u32,
    pub cluster: ClusterId,
    /// The offset of the next byte read or written.
    pub offset: u32,
    /// Bytes in the file.
    pub length: u32,
}

impl FileState {
    /// The offset lies within the file or at its end.
    pub open spec fn wf(&self) -> bool {
        self.offset <= self.length
    }

    /// Whether the offset is at the end of the file.
    pub fn eof(&self) -> (b: bool)
        ensures
            b == (self.offset == self.length),
    {
        self.offset == self.length
    }

    /// Bytes from the offset to the end of the file.
    pub fn left(&self) -> (n: u32)
        requires
            self.wf(),
        ensures
            n == self.length - self.offset,
    {
        self.length - self.offset
    }

    /// One step of a read of up to `space` more bytes, the block at the
    /// offset (in cluster `cluster`, which starts at file offset
    /// `cluster_start`) holding `block_avail` bytes from it on: the bytes
    /// it copies (see `plan_read_step`), by which the offset moves.
    pub fn read_step(&mut self, cluster: ClusterId, cluster_start: u32, block_avail: usize, space: usize) -> (n: usize)
        requires
            old(self).wf(),
            old(self).offset < old(self).length,
            block_avail > 0,
            space > 0,
        ensures
            final(self).wf(),
            n > 0,
            n <= block_avail && n <= space && n <= old(self).length - old(self).offset,
            n == block_avail || n == space || n == old(self).length - old(self).offset,
            *final(self) == (FileState {
                cluster,
                cluster_start,
                offset: (old(self).offset + n) as u32,
                ..*old(self)
            }),
    {
        let n = plan_read_step(block_avail, space, self.length - self.offset);
        self.cluster = cluster;
        self.cluster_start = cluster_start;
        self.offset = self.offset + n as u32;
        n
    }

    /// Reading one byte, the block at the offset holding `block_avail`
    /// bytes from its position `block_offset` on: at the end of the file or
    /// of the block there is none (`EndOfFile`); else the position in the
    /// block that is read, the one after `block_offset`, and the offset
    /// moves by one. The cluster reached is kept either way.
    pub fn read_byte_step(
        &mut self,
        cluster: ClusterId,
        cluster_start: u32,
        block_offset: usize,
        block_avail: usize,
    ) -> (r: Result<usize, DeviceError>)
        requires
            old(self).wf(),
            block_offset < 512,
        ensures
            final(self).wf(),
            final(self).cluster == cluster,
            final(self).cluster_start == cluster_start,
            final(self).length == old(self).length,
            if block_avail == 0 || old(self).offset == old(self).length {
                r == Err::<usize, DeviceError>(DeviceError::EndOfFile) && final(self).offset == old(
                    self,
                ).offset
            } else {
                r == Ok::<usize, DeviceError>((block_offset + 1) as usize) && final(self).offset
                    == old(self).offset + 1
            },
    {
        self.cluster = cluster;
        self.cluster_start = cluster_start;
        if block_avail == 0 || self.offset == self.length {
            return Err(DeviceError::EndOfFile);
        }
        self.offset = self.offset + 1;
        Ok(block_offset + 1)
    }

    /// The start of a write: a file opened read-only refuses it; else the
    /// file is marked written, and a file without a cluster asks for its
    /// first one (not zeroed, linked after none).
    pub fn begin_write(&mut self) -> (r: Result<Option<AllocRequest>, DeviceError>)
        ensures
            if old(self).read_only {
                r == Err::<Option<AllocRequest>, DeviceError>(DeviceError::ReadOnly) && *final(self)
                    == *old(self)
            } else {
                &&& *final(self) == (FileState { dirty: true, ..*old(self) })
                &&& r == Ok::<Option<AllocRequest>, DeviceError>(
                    if old(self).first_cluster.0 < RESERVED_ENTRIES {
                        Some(AllocRequest { prev: None, zero: false })
                    } else {
                        None
                    },
                )
            },
    {
        if self.read_only {
            return Err(DeviceError::ReadOnly);
        }
        self.dirty = true;
        if self.first_cluster.0 < RESERVED_ENTRIES {
            Ok(Some(AllocRequest { prev: None, zero: false }))
        } else {
            Ok(None)
        }
    }

    /// Records the first cluster allocated for the file.
    pub fn set_first_cluster(&mut self, c: ClusterId)
        ensures
            *final(self) == (FileState { first_cluster: c, ..*old(self) }),
    {
        self.first_cluster = c;
    }

    /// Before a write: a cluster reached that lies before the file's first
    /// one is forgotten, and the walk starts again at the first cluster.
    pub fn rewind_before_first(&mut self)
        ensures
            *final(self) == if old(self).cluster.0 < old(self).first_cluster.0 {
                FileState { cluster: old(self).first_cluster, cluster_start: 0, ..*old(self) }
            } else {
                *old(self)
            },
    {
        if self.cluster.0 < self.first_cluster.0 {
            self.cluster = self.first_cluster;
            self.cluster_start = 0;
        }
    }

    /// The bytes a write of `wanted` bytes writes: files end at `u32::MAX`.
    pub fn write_room(&self, wanted: usize) -> (n: usize)
        ensures
            n == if wanted < u32::MAX - self.offset {
                wanted as int
            } else {
                u32::MAX - self.offset
            },
    {
        bytes_until_max(self.offset, wanted)
    }

    /// One step of a write of `remaining` more bytes, the block at the
    /// offset (in cluster `cluster`, which starts at file offset
    /// `cluster_start`) holding `block_avail` bytes from its position
    /// `block_offset` on (see `plan_write_step`): the offset moves by the
    /// bytes copied, and the file grows when the write passes its end.
    pub fn write_step(
        &mut self,
        cluster: ClusterId,
        cluster_start: u32,
        block_offset: usize,
        block_avail: usize,
        remaining: usize,
    ) -> (s: WriteStep)
        requires
            old(self).wf(),
            old(self).offset + (if block_avail < remaining {
                block_avail as int
            } else {
                remaining as int
            }) <= u32::MAX,
        ensures
            final(self).wf(),
            s.to_copy == (if block_avail < remaining {
                block_avail
            } else {
                remaining
            }),
            s.read_first == (block_offset != 0),
            s.new_offset == old(self).offset + s.to_copy,
            s.new_length == spec_grown(old(self).length as int, s.new_offset as int),
            *final(self) == (FileState {
                cluster,
                cluster_start,
                offset: s.new_offset,
                length: s.new_length,
                ..*old(self)
            }),
    {
        let s = plan_write_step(self.offset, self.length, block_offset, block_avail, remaining);
        self.cluster = cluster;
        self.cluster_start = cluster_start;
        self.offset = s.new_offset;
        self.length = s.new_length;
        s
    }
}

/// The length of a file of `length` bytes after a write that ends at
/// `end`.
pub open spec fn spec_grown(length: int, end: int) -> int {
    if end > length {
        end
    } else {
        length
    }
}

/// What a write does when looking for the block at its offset failed with
/// `e` after reaching cluster `last`: past the end of the chain the file
/// grows by a cluster linked after `last`; any other failure ends the
/// write.
pub fn extend_on(e: DeviceError, last: ClusterId) -> (r: Result<AllocRequest, DeviceError>)
    ensures
        r == if e == DeviceError::EndOfFile {
            Ok::<AllocRequest, DeviceError>(AllocRequest { prev: Some(last), zero: false })
        } else {
            Err(e)
        },
{
    match e {
        DeviceError::EndOfFile => Ok(AllocRequest { prev: Some(last), zero: false }),
        _ => Err(e),
    }
}

/// A file that cannot grow by a cluster is full: whatever the allocation
/// failed with, the write fails with `DiskFull`.
pub fn grow_failed(e: DeviceError) -> (r: DeviceError)
    ensures
        r == DeviceError::DiskFull,
{
    DeviceError::DiskFull
}

/// Offset and length of a file at `offset` of `length` bytes after write
/// steps of the given sizes.
pub open spec fn spec_after_writes(offset: int, length: int, sizes: Seq<nat>) -> (int, int)
    decreases sizes.len(),
{
    if sizes.len() == 0 {
        (offset, length)
    } else {
        let end = offset + sizes[0];
        spec_after_writes(end, spec_grown(length, end), sizes.skip(1))
    }
}

/// The sum of the sizes.
pub open spec fn total(sizes: Seq<nat>) -> int
    decreases sizes.len(),
{
    if sizes.len() == 0 {
        0
    } else {
        sizes[0] + total(sizes.skip(1))
    }
}

proof fn lemma_total_nonneg(sizes: Seq<nat>)
    ensures
        total(sizes) >= 0,
    decreases sizes.len(),
{
    if sizes.len() > 0 {
        lemma_total_nonneg(sizes.skip(1));
    }
}

/// Writing `n` bytes, in steps of any sizes, leaves the offset `n` bytes
/// further on, and the file as long as it was or reaching that offset,
/// whichever is longer.
pub proof fn law_write_moves_offset(offset: int, length: int, sizes: Seq<nat>)
    requires
        offset <= length,
    ensures
        spec_after_writes(offset, length, sizes) == (
            offset + total(sizes),
            spec_grown(length, offset + total(sizes)),
        ),
    decreases sizes.len(),
{
    if sizes.len() > 0 {
        let end = offset + sizes[0];
        law_write_moves_offset(end, spec_grown(length, end), sizes.skip(1));
        lemma_total_nonneg(sizes.skip(1));
        let rest = total(sizes.skip(1));
        assert(total(sizes) == sizes[0] + rest);
        assert(spec_after_writes(offset, length, sizes) == spec_after_writes(
            end,
            spec_grown(length, end),
            sizes.skip(1),
        ));
        assert(spec_grown(spec_grown(length, end), end + rest) == spec_grown(length, end + rest));
    }
}

} // verus!
