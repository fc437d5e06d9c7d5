//! Making a directory, as a sequence of steps: the name is looked up in the
//! parent, an entry is created for it, a cluster is allocated and recorded
//! in the entry, the first block of the cluster gets the `.` and `..`
//! entries, and the other blocks of the cluster are zeroed.
use vstd::prelude::*;
use crate::dirwrite::AllocRequest;
use crate::fat::{ClusterId, DeviceError, FatVolume, CLUSTER_EMPTY};
use crate::volume::{plan_make_dir, EntryFacts};

verus! {

/// Where making a directory stands.
#[derive(Debug, Copy, Clone, PartialEq, Eq)]
pub enum MkdirState {
    /// Nothing done yet.
    Start,
    /// The entry in the parent is being created.
    Creating,
    /// A cluster for the directory is being allocated.
    Allocating,
    /// The entry is being updated with the directory's cluster.
    Recording(ClusterId),
    /// The first block of the cluster is being written.
    WritingDots(ClusterId),
    /// Block `k` of the cluster is being zeroed.
    Zeroing(ClusterId, u8),
    /// Over, with this outcome.
    Done(Result<(), DeviceError>),
}

/// What happened since the last step.
#[derive(Debug, Copy, Clone, PartialEq, Eq)]
pub enum MkdirEvent {
    /// Whether the table of open directories is full, and what looking the
    /// name up in the parent gave.
    Looked(bool, Result<EntryFacts, DeviceError>),
    /// The entry was created, recording this cluster, or not.
    Created(Result<ClusterId, DeviceError>),
    /// The cluster allocated, or why none was.
    Allocated(Result<ClusterId, DeviceError>),
    /// Whether the write asked for went through.
    Written(Result<(), DeviceError>),
}

/// What making a directory asks for next.
#[derive(Debug, Copy, Clone, PartialEq, Eq)]
pub enum MkdirAction {
    /// Create a directory entry for the name in the parent.
    CreateEntry,
    /// Allocate a cluster as asked.
    Allocate(AllocRequest),
    /// Record this cluster in the new entry on the disk.
    RecordCluster(ClusterId),
    /// Write the `.` and `..` entries into the first block of this cluster
    /// (see `fill_dot_entries`).
    WriteDots(ClusterId),
    /// Zero block `k` of this cluster.
    ZeroBlock(ClusterId, u8),
    /// Making the directory is over.
    Finish(Result<(), DeviceError>),
}

/// Whether `ev` is what making a directory in state `st` waits for.
pub open spec fn mkdir_event_fits(st: MkdirState, ev: MkdirEvent) -> bool {
    match st {
        MkdirState::Start => ev is Looked,
        MkdirState::Creating => ev is Created,
        MkdirState::Allocating => ev is Allocated,
        MkdirState::Recording(_) | MkdirState::WritingDots(_) | MkdirState::Zeroing(_, _) => ev is Written,
        MkdirState::Done(_) => false,
    }
}

/// After block `k` of a cluster of `blocks` blocks was written: zero the
/// next one, or finish.
pub open spec fn after_block(c: ClusterId, k: int, blocks: u8) -> (MkdirState, MkdirAction) {
    if k + 1 < blocks {
        (MkdirState::Zeroing(c, (k + 1) as u8), MkdirAction::ZeroBlock(c, (k + 1) as u8))
    } else {
        (MkdirState::Done(Ok(())), MkdirAction::Finish(Ok(())))
    }
}

/// One step of making a directory in a volume of `blocks` blocks per
/// cluster. The name must be free (see `plan_make_dir`); an entry created
/// without a cluster gets a fresh one, not zeroed, which is then recorded;
/// the first block gets the dot entries, and blocks 1 to `blocks - 1` are
/// zeroed; the first failure ends it with that failure.
pub open spec fn spec_make_dir_step(blocks: u8, st: MkdirState, ev: MkdirEvent) -> (
    MkdirState,
    MkdirAction,
) {
    let stop = |r: Result<(), DeviceError>| (MkdirState::Done(r), MkdirAction::Finish(r));
    match (st, ev) {
        (MkdirState::Start, MkdirEvent::Looked(full, lookup)) => {
            let plan = if full {
                Err(DeviceError::TooManyOpenDirs)
            } else {
                match lookup {
                    Ok(f) => if f.directory {
                        Err(DeviceError::DirAlreadyExists)
                    } else {
                        Err(DeviceError::FileAlreadyExists)
                    },
                    Err(DeviceError::NotFound) => Ok(()),
                    Err(e) => Err(e),
                }
            };
            match plan {
                Ok(()) => (MkdirState::Creating, MkdirAction::CreateEntry),
                Err(e) => stop(Err(e)),
            }
        },
        (MkdirState::Creating, MkdirEvent::Created(r)) => match r {
            Ok(c) => if c.0 == CLUSTER_EMPTY {
                (
                    MkdirState::Allocating,
                    MkdirAction::Allocate(AllocRequest { prev: None, zero: false }),
                )
            } else {
                (MkdirState::WritingDots(c), MkdirAction::WriteDots(c))
            },
            Err(e) => stop(Err(e)),
        },
        (MkdirState::Allocating, MkdirEvent::Allocated(r)) => match r {
            Ok(c) => (MkdirState::Recording(c), MkdirAction::RecordCluster(c)),
            Err(e) => stop(Err(e)),
        },
        (MkdirState::Recording(c), MkdirEvent::Written(w)) => match w {
            Ok(()) => (MkdirState::WritingDots(c), MkdirAction::WriteDots(c)),
            Err(e) => stop(Err(e)),
        },
        (MkdirState::WritingDots(c), MkdirEvent::Written(w)) => match w {
            Ok(()) => after_block(c, 0, blocks),
            Err(e) => stop(Err(e)),
        },
        (MkdirState::Zeroing(c, k), MkdirEvent::Written(w)) => match w {
            Ok(()) => after_block(c, k as int, blocks),
            Err(e) => stop(Err(e)),
        },
        // Not reached: a step takes only an event that fits its state (`mkdir_event_fits`).
        _ => (st, MkdirAction::Finish(Err(DeviceError::Unsupported))),
    }
}

/// Takes one step of making a directory on volume `v`.
pub fn make_dir_step(v: &FatVolume, st: MkdirState, ev: MkdirEvent) -> (r: (
    MkdirState,
    MkdirAction,
))
    requires
        mkdir_event_fits(st, ev),
    ensures
        r == spec_make_dir_step(v.blocks_per_cluster, st, ev),
{
    let blocks = v.blocks_per_cluster;
    match (st, ev) {
        (MkdirState::Start, MkdirEvent::Looked(full, lookup)) => match plan_make_dir(full, lookup) {
            Ok(()) => (MkdirState::Creating, MkdirAction::CreateEntry),
            Err(e) => (MkdirState::Done(Err(e)), MkdirAction::Finish(Err(e))),
        },
        (MkdirState::Creating, MkdirEvent::Created(r)) => match r {
            Ok(c) => if c.0 == CLUSTER_EMPTY {
                (
                    MkdirState::Allocating,
                    MkdirAction::Allocate(AllocRequest { prev: None, zero: false }),
                )
            } else {
                (MkdirState::WritingDots(c), MkdirAction::WriteDots(c))
            },
            Err(e) => (MkdirState::Done(Err(e)), MkdirAction::Finish(Err(e))),
        },
        (MkdirState::Allocating, MkdirEvent::Allocated(r)) => match r {
            Ok(c) => (MkdirState::Recording(c), MkdirAction::RecordCluster(c)),
            Err(e) => (MkdirState::Done(Err(e)), MkdirAction::Finish(Err(e))),
        },
        (MkdirState::Recording(c), MkdirEvent::Written(w)) => match w {
            Ok(()) => (MkdirState::WritingDots(c), MkdirAction::WriteDots(c)),
            Err(e) => (MkdirState::Done(Err(e)), MkdirAction::Finish(Err(e))),
        },
        (MkdirState::WritingDots(c), MkdirEvent::Written(w)) => match w {
            Ok(()) => next_block(c, 0, blocks),
            Err(e) => (MkdirState::Done(Err(e)), MkdirAction::Finish(Err(e))),
        },
        (MkdirState::Zeroing(c, k), MkdirEvent::Written(w)) => match w {
            Ok(()) => next_block(c, k, blocks),
            Err(e) => (MkdirState::Done(Err(e)), MkdirAction::Finish(Err(e))),
        },
        _ => (st, MkdirAction::Finish(Err(DeviceError::Unsupported))),
    }
}

fn next_block(c: ClusterId, k: u8, blocks: u8) -> (r: (MkdirState, MkdirAction))
    ensures
        r == after_block(c, k as int, blocks),
{
    if (k as u16) + 1 < blocks as u16 {
        (MkdirState::Zeroing(c, k + 1), MkdirAction::ZeroBlock(c, k + 1))
    } else {
        (MkdirState::Done(Ok(())), MkdirAction::Finish(Ok(())))
    }
}

/// Once the name was found free, the first failure of a later step ends
/// making the directory, with that failure and nothing more asked.
pub proof fn law_mkdir_failure_ends(blocks: u8, st: MkdirState, ev: MkdirEvent, e: DeviceError)
    requires
        mkdir_event_fits(st, ev),
        !(st is Start),
        match ev {
            MkdirEvent::Created(r) => r == Err::<ClusterId, DeviceError>(e),
            MkdirEvent::Allocated(r) => r == Err::<ClusterId, DeviceError>(e),
            MkdirEvent::Written(r) => r == Err::<(), DeviceError>(e),
            MkdirEvent::Looked(_, _) => false,
        },
    ensures
        spec_make_dir_step(blocks, st, ev) == (
            MkdirState::Done(Err(e)),
            MkdirAction::Finish(Err(e)),
        ),
{
}

/// With every step going through, making a directory asks, in this order,
/// to create the entry, allocate a cluster `d` for it, record `d` in the
/// entry, write the dot entries, and zero blocks 1 to `blocks - 1` of `d`
/// one after the other; then it is over.
pub proof fn law_mkdir_order(blocks: u8, d: ClusterId)
    ensures
        spec_make_dir_step(blocks, MkdirState::Start, MkdirEvent::Looked(false, Err(DeviceError::NotFound)))
            == (MkdirState::Creating, MkdirAction::CreateEntry),
        spec_make_dir_step(blocks, MkdirState::Creating, MkdirEvent::Created(Ok(ClusterId(CLUSTER_EMPTY))))
            == (MkdirState::Allocating, MkdirAction::Allocate(AllocRequest { prev: None, zero: false })),
        spec_make_dir_step(blocks, MkdirState::Allocating, MkdirEvent::Allocated(Ok(d))) == (
            MkdirState::Recording(d),
            MkdirAction::RecordCluster(d),
        ),
        spec_make_dir_step(blocks, MkdirState::Recording(d), MkdirEvent::Written(Ok(()))) == (
            MkdirState::WritingDots(d),
            MkdirAction::WriteDots(d),
        ),
        spec_make_dir_step(blocks, MkdirState::WritingDots(d), MkdirEvent::Written(Ok(()))) == if 1
            < blocks {
            (MkdirState::Zeroing(d, 1), MkdirAction::ZeroBlock(d, 1))
        } else {
            (MkdirState::Done(Ok(())), MkdirAction::Finish(Ok(())))
        },
        forall|k: u8|
            1 <= k < blocks ==> #[trigger] spec_make_dir_step(
                blocks,
                MkdirState::Zeroing(d, k),
                MkdirEvent::Written(Ok(())),
            ) == if k + 1 < blocks {
                (MkdirState::Zeroing(d, (k + 1) as u8), MkdirAction::ZeroBlock(d, (k + 1) as u8))
            } else {
                (MkdirState::Done(Ok(())), MkdirAction::Finish(Ok(())))
            },
{
}

} // verus!
