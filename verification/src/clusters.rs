//! Allocating and freeing clusters: the search of the FAT for a free
//! cluster, the FAT entries an allocation writes and what it changes in the
//! volume's counts, and the walk that truncates a cluster chain.
use vstd::prelude::*;
use crate::fat::{
    is_data_cluster, law_fat_entry_read_back, BlockIdx, ClusterId, DeviceError, FatVolume,
    BLOCK_LEN, CLUSTER_EMPTY, CLUSTER_END_OF_FILE, RESERVED_ENTRIES,
};

verus! {

/// A search of the FAT for a free cluster, block by block, from a cluster
/// on until a given end.
pub struct FreeSearch {
    current: ClusterId,
    end: ClusterId,
}

impl FreeSearch {
    /// The cluster whose entry the search looks at next.
    pub closed spec fn current(&self) -> ClusterId {
        self.current
    }

    /// The cluster at which the search gives up.
    pub closed spec fn end(&self) -> ClusterId {
        self.end
    }

    pub fn new(start: ClusterId, end: ClusterId) -> (s: Self)
        ensures
            s.current() == start,
            s.end() == end,
    {
        FreeSearch { current: start, end }
    }

    /// Whether the search has passed its end without finding a free
    /// cluster: the volume has no room (`NotEnoughSpace`).
    pub fn exhausted(&self) -> (b: bool)
        ensures
            b == (self.current().0 >= self.end().0),
    {
        self.current.0 >= self.end.0
    }

    /// The cluster the search looks at next.
    pub fn current_cluster(&self) -> (c: ClusterId)
        ensures
            c == self.current(),
    {
        self.current
    }

    /// The FAT block to read for the search to go on.
    pub fn block(&self, v: &FatVolume) -> (b: BlockIdx)
        requires
            v.entry_addressable(self.current()),
        ensures
            b.0 == v.spec_entry_location(self.current()).0,
    {
        v.fat_entry_location(self.current).0
    }

    /// Looks through the FAT block that `block` names for a free cluster,
    /// from the current one to the end of the block: the first free one, or
    /// nothing, the search then going on with the cluster whose entry
    /// follows the block.
    pub fn scan(&mut self, v: &FatVolume, block: &[u8]) -> (r: Option<ClusterId>)
        requires
            v.entry_addressable(old(self).current()),
            block@.len() == BLOCK_LEN,
        ensures
            final(self).end() == old(self).end(),
            match r {
                Some(c) => v.spec_free_scan(block@, old(self).current(), Ok(c))
                    && final(self).current() == old(self).current(),
                None => v.spec_free_scan(block@, old(self).current(), Err(final(self).current())),
            },
    {
        match v.free_in_block(block, self.current) {
            Ok(c) => Some(c),
            Err(next) => {
                self.current = next;
                None
            },
        }
    }
}

/// Where the search for a free cluster starts again when the first one,
/// begun at `start`, found nothing: from the first data cluster, unless it
/// began there already.
pub fn retry_start(start: ClusterId) -> (r: Option<ClusterId>)
    ensures
        r == if start.0 > RESERVED_ENTRIES {
            Some(ClusterId(RESERVED_ENTRIES))
        } else {
            None
        },
{
    if start.0 > RESERVED_ENTRIES {
        Some(ClusterId(RESERVED_ENTRIES))
    } else {
        None
    }
}

/// What allocating cluster `new_cluster` writes and changes: its FAT entry
/// marks the end of a chain; when it follows `prev`, the entry of `prev`
/// names it; one cluster fewer is free.
#[derive(Debug, Copy, Clone, PartialEq, Eq)]
pub struct AllocPlan {
    pub new_cluster: ClusterId,
    /// The FAT entry that marks the new cluster as the end of its chain.
    pub mark_end: (ClusterId, ClusterId),
    /// The FAT entry that links the previous cluster to the new one.
    pub link: Option<(ClusterId, ClusterId)>,
    /// The free-cluster count afterwards.
    pub free_clusters_count: Option<u32>,
}

pub open spec fn spec_plan_alloc(v: &FatVolume, free: ClusterId, prev: Option<ClusterId>) -> AllocPlan {
    AllocPlan {
        new_cluster: free,
        mark_end: (free, ClusterId(CLUSTER_END_OF_FILE)),
        link: match prev {
            Some(p) => Some((p, free)),
            None => None,
        },
        free_clusters_count: match v.free_clusters_count {
            Some(n) => Some((n - 1) as u32),
            None => None,
        },
    }
}

/// Plans the allocation of the free cluster `free`, linked after `prev`.
pub fn plan_alloc(v: &FatVolume, free: ClusterId, prev: Option<ClusterId>) -> (p: AllocPlan)
    requires
        v.free_clusters_count matches Some(n) ==> n > 0,
    ensures
        p == spec_plan_alloc(v, free, prev),
{
    AllocPlan {
        new_cluster: free,
        mark_end: (free, ClusterId(CLUSTER_END_OF_FILE)),
        link: match prev {
            Some(p) => Some((p, free)),
            None => None,
        },
        free_clusters_count: match v.free_clusters_count {
            Some(n) => Some(n - 1),
            None => None,
        },
    }
}

/// Once the FAT entries that an allocation plans are written (`b0` to `b1`
/// for the end mark, `c0` to `c1` for the link), the new cluster reads as
/// the end of its chain, and the previous cluster as leading to it.
pub proof fn law_alloc_links(
    v: &FatVolume,
    free: ClusterId,
    prev: Option<ClusterId>,
    b0: Seq<u8>,
    b1: Seq<u8>,
    c0: Seq<u8>,
    c1: Seq<u8>,
)
    requires
        is_data_cluster(v.spec_fat_type(), free),
        v.entry_written(
            b0,
            b1,
            spec_plan_alloc(v, free, prev).mark_end.0,
            spec_plan_alloc(v, free, prev).mark_end.1,
        ),
        spec_plan_alloc(v, free, prev).link matches Some((p, n)) ==> v.entry_written(c0, c1, p, n),
    ensures
        v.spec_entry_read(b1, free) == Err::<ClusterId, DeviceError>(DeviceError::EndOfFile),
        prev matches Some(p) ==> v.spec_entry_read(c1, p) == Ok::<ClusterId, DeviceError>(free),
{
    law_fat_entry_read_back(v, b0, b1, free, ClusterId(CLUSTER_END_OF_FILE));
    if let Some(p) = prev {
        law_fat_entry_read_back(v, c0, c1, p, free);
    }
}

impl FatVolume {
    /// Records a finished allocation: the next free cluster the search
    /// after it found, and the free count of the plan.
    pub fn finish_alloc(&mut self, plan: &AllocPlan, next_free: ClusterId)
        ensures
            final(self).next_free_cluster == Some(next_free),
            final(self).free_clusters_count == plan.free_clusters_count,
            final(self).fat_specific_info == old(self).fat_specific_info,
            final(self).cluster_count == old(self).cluster_count,
            final(self).blocks_per_cluster == old(self).blocks_per_cluster,
            final(self).lba_start == old(self).lba_start,
            final(self).fat_start == old(self).fat_start,
            final(self).first_data_block == old(self).first_data_block,
    {
        self.next_free_cluster = Some(next_free);
        self.free_clusters_count = plan.free_clusters_count;
    }
}

/// Where a truncation of a cluster chain stands.
#[derive(Debug, Copy, Clone, PartialEq, Eq)]
pub enum TruncState {
    /// To truncate the chain after this cluster.
    Start(ClusterId),
    /// Waiting for what follows the cluster that stays.
    Head(ClusterId),
    /// The cluster that stays is being marked as the end; this one
    /// followed it.
    HeadMarked(ClusterId),
    /// Waiting for what follows this cluster, which is to be freed.
    Walking(ClusterId),
    /// This cluster is being freed; the chain goes on with `then`.
    Freeing(ClusterId, Option<ClusterId>),
    /// Over, with this outcome.
    Done(Result<(), DeviceError>),
}

/// What happened since the last step.
#[derive(Debug, Copy, Clone, PartialEq, Eq)]
pub enum TruncEvent {
    /// The truncation begins.
    Go,
    /// What the FAT says follows the cluster asked about.
    Next(Result<ClusterId, DeviceError>),
    /// Whether the FAT entry asked for was written.
    Written(Result<(), DeviceError>),
}

/// What a truncation asks for next.
#[derive(Debug, Copy, Clone, PartialEq, Eq)]
pub enum TruncAction {
    /// Look up what follows this cluster in the FAT.
    ReadNext(ClusterId),
    /// Record the second cluster as what follows the first in the FAT.
    Write(ClusterId, ClusterId),
    /// The truncation is over.
    Finish(Result<(), DeviceError>),
}

/// Whether `ev` is what a truncation in state `st` waits for.
pub open spec fn trunc_event_fits(st: TruncState, ev: TruncEvent) -> bool {
    match st {
        TruncState::Start(_) => ev is Go,
        TruncState::Head(_) | TruncState::Walking(_) => ev is Next,
        TruncState::HeadMarked(_) | TruncState::Freeing(_, _) => ev is Written,
        TruncState::Done(_) => false,
    }
}

/// One step of a truncation: the cluster that stays is marked as the end of
/// the chain, then each cluster after it is freed in turn, each freed
/// cluster but the last counting as one more free; a chain that ends at the
/// cluster that stays, or a cluster that holds no chain (below 2), leaves
/// the FAT as it is; the first failure ends the truncation with it.
pub open spec fn spec_truncate_step(st: TruncState, ev: TruncEvent) -> (TruncState, TruncAction) {
    let stop = |r: Result<(), DeviceError>| (TruncState::Done(r), TruncAction::Finish(r));
    match (st, ev) {
        (TruncState::Start(c), TruncEvent::Go) => if c.0 < RESERVED_ENTRIES {
            stop(Ok(()))
        } else {
            (TruncState::Head(c), TruncAction::ReadNext(c))
        },
        (TruncState::Head(c), TruncEvent::Next(r)) => match r {
            Ok(n) => (TruncState::HeadMarked(n), TruncAction::Write(c, ClusterId(CLUSTER_END_OF_FILE))),
            Err(DeviceError::EndOfFile) => stop(Ok(())),
            Err(e) => stop(Err(e)),
        },
        (TruncState::HeadMarked(n), TruncEvent::Written(w)) => match w {
            Ok(()) => (TruncState::Walking(n), TruncAction::ReadNext(n)),
            Err(e) => stop(Err(e)),
        },
        (TruncState::Walking(x), TruncEvent::Next(r)) => match r {
            Ok(m) => (TruncState::Freeing(x, Some(m)), TruncAction::Write(x, ClusterId(CLUSTER_EMPTY))),
            Err(DeviceError::EndOfFile) => (
                TruncState::Freeing(x, None),
                TruncAction::Write(x, ClusterId(CLUSTER_EMPTY)),
            ),
            Err(e) => stop(Err(e)),
        },
        (TruncState::Freeing(_, then), TruncEvent::Written(w)) => match w {
            Ok(()) => match then {
                Some(m) => (TruncState::Walking(m), TruncAction::ReadNext(m)),
                None => stop(Ok(())),
            },
            Err(e) => stop(Err(e)),
        },
        // Not reached: a step takes only an event that fits its state (`trunc_event_fits`).
        _ => (st, TruncAction::Finish(Err(DeviceError::Unsupported))),
    }
}

/// Takes one step of a truncation. Learning the first cluster to free
/// lowers the remembered next free cluster to it; freeing a cluster that
/// the chain goes on after counts one more free cluster.
pub fn truncate_step(v: &mut FatVolume, st: TruncState, ev: TruncEvent) -> (r: (
    TruncState,
    TruncAction,
))
    requires
        trunc_event_fits(st, ev),
        match (st, ev) {
            (TruncState::Freeing(_, Some(_)), TruncEvent::Written(Ok(()))) => old(
                v,
            ).free_clusters_count matches Some(n) ==> n < u32::MAX,
            _ => true,
        },
    ensures
        r == spec_truncate_step(st, ev),
        final(v).fat_specific_info == old(v).fat_specific_info,
        final(v).cluster_count == old(v).cluster_count,
        final(v).next_free_cluster == match (st, ev) {
            (TruncState::Head(_), TruncEvent::Next(Ok(n))) => match old(v).next_free_cluster {
                Some(c) => if c.0 > n.0 {
                    Some(n)
                } else {
                    Some(c)
                },
                None => Some(n),
            },
            _ => old(v).next_free_cluster,
        },
        final(v).free_clusters_count == match (st, ev) {
            (TruncState::Freeing(_, Some(_)), TruncEvent::Written(Ok(()))) => match old(
                v,
            ).free_clusters_count {
                Some(n) => Some((n + 1) as u32),
                None => None,
            },
            _ => old(v).free_clusters_count,
        },
{
    match (st, ev) {
        (TruncState::Start(c), TruncEvent::Go) => {
            if c.0 < RESERVED_ENTRIES {
                (TruncState::Done(Ok(())), TruncAction::Finish(Ok(())))
            } else {
                (TruncState::Head(c), TruncAction::ReadNext(c))
            }
        },
        (TruncState::Head(c), TruncEvent::Next(r)) => match r {
            Ok(n) => {
                v.remember_free(n);
                (TruncState::HeadMarked(n), TruncAction::Write(c, ClusterId(CLUSTER_END_OF_FILE)))
            },
            Err(DeviceError::EndOfFile) => (TruncState::Done(Ok(())), TruncAction::Finish(Ok(()))),
            Err(e) => (TruncState::Done(Err(e)), TruncAction::Finish(Err(e))),
        },
        (TruncState::HeadMarked(n), TruncEvent::Written(w)) => match w {
            Ok(()) => (TruncState::Walking(n), TruncAction::ReadNext(n)),
            Err(e) => (TruncState::Done(Err(e)), TruncAction::Finish(Err(e))),
        },
        (TruncState::Walking(x), TruncEvent::Next(r)) => match r {
            Ok(m) => (TruncState::Freeing(x, Some(m)), TruncAction::Write(x, ClusterId(CLUSTER_EMPTY))),
            Err(DeviceError::EndOfFile) => (
                TruncState::Freeing(x, None),
                TruncAction::Write(x, ClusterId(CLUSTER_EMPTY)),
            ),
            Err(e) => (TruncState::Done(Err(e)), TruncAction::Finish(Err(e))),
        },
        (TruncState::Freeing(_, then), TruncEvent::Written(w)) => match w {
            Ok(()) => match then {
                Some(m) => {
                    v.count_freed();
                    (TruncState::Walking(m), TruncAction::ReadNext(m))
                },
                None => (TruncState::Done(Ok(())), TruncAction::Finish(Ok(()))),
            },
            Err(e) => (TruncState::Done(Err(e)), TruncAction::Finish(Err(e))),
        },
        _ => (st, TruncAction::Finish(Err(DeviceError::Unsupported))),
    }
}

} // verus!
