//! The tables of open volumes, directories and files that a volume manager
//! keeps: a partition and a file can be open only once, a table holds at
//! most four handles, and a volume with open files or directories cannot be
//! closed.
use vstd::prelude::*;
use crate::fat::DeviceError;

verus! {

/// An open volume, directory or file: its handle, its volume's handle, and
/// where it lies (a volume: its partition index and 0; a directory: its
/// first cluster and 0; a file: the block and offset of its directory
/// entry).
pub type Handle = (u32, u32, u32, u32);

/// A table of open handles, as many as the volume manager holds by default.
pub type HandleTable = heapless::Vec<Handle, 4>;

/// Handles a table can hold: the directories and files a volume manager
/// keeps open at most.
pub const MAX_OPEN: usize = 4;

/// Volumes a volume manager keeps open at most.
pub const MAX_VOLUMES: usize = 1;

/// The handles held by a table, in order.
pub uninterp spec fn table_items(t: HandleTable) -> Seq<Handle>;

/// `Vec::new`: an empty table.
#[verifier::external_body]
fn table_new() -> (t: HandleTable)
    ensures
        table_items(t) == Seq::<Handle>::empty(),
{
    heapless::Vec::new()
}

/// `Vec::push`: appends while fewer than four handles are held, else
/// changes nothing and fails.
#[verifier::external_body]
fn table_push(t: &mut HandleTable, h: Handle) -> (ok: bool)
    ensures
        ok == (table_items(*old(t)).len() < MAX_OPEN),
        ok ==> table_items(*final(t)) == table_items(*old(t)).push(h),
        !ok ==> table_items(*final(t)) == table_items(*old(t)),
{
    t.push(h).is_ok()
}

/// `Vec::len`: the number of handles held.
#[verifier::external_body]
fn table_len(t: &HandleTable) -> (n: usize)
    ensures
        n == table_items(*t).len(),
{
    t.len()
}

/// Indexing a table.
#[verifier::external_body]
fn table_get(t: &HandleTable, i: usize) -> (h: Handle)
    requires
        i < table_items(*t).len(),
    ensures
        h == table_items(*t)[i as int],
{
    t[i]
}

/// `Vec::swap_remove`: the last handle takes the place of the one removed.
#[verifier::external_body]
fn table_swap_remove(t: &mut HandleTable, i: usize) -> (h: Handle)
    requires
        i < table_items(*old(t)).len(),
    ensures
        h == table_items(*old(t))[i as int],
        table_items(*final(t)) == table_items(*old(t)).update(
            i as int,
            table_items(*old(t)).last(),
        ).drop_last(),
{
    t.swap_remove(i)
}

/// Whether some handle in `s` is `id`.
pub open spec fn holds_id(s: Seq<Handle>, id: u32) -> bool {
    exists|i: int| 0 <= i < s.len() && #[trigger] s[i].0 == id
}

/// Whether some handle in `s` lies on `volume` at place `(a, b)`.
pub open spec fn holds_place(s: Seq<Handle>, volume: u32, a: u32, b: u32) -> bool {
    exists|i: int| 0 <= i < s.len() && #[trigger] s[i].1 == volume && s[i].2 == a && s[i].3 == b
}

/// Whether some handle in `s` lies on `volume`.
pub open spec fn holds_volume(s: Seq<Handle>, volume: u32) -> bool {
    exists|i: int| 0 <= i < s.len() && #[trigger] s[i].1 == volume
}

/// `i` is the first position of handle `id` in `s`.
pub open spec fn first_of(s: Seq<Handle>, id: u32, i: int) -> bool {
    &&& 0 <= i < s.len()
    &&& s[i].0 == id
    &&& forall|j: int| 0 <= j < i ==> #[trigger] s[j].0 != id
}

/// No two handles of a table are the same.
pub open spec fn ids_distinct(s: Seq<Handle>) -> bool {
    forall|i: int, j: int| 0 <= i < j < s.len() ==> #[trigger] s[i].0 != #[trigger] s[j].0
}

/// No two open files share a place.
pub open spec fn files_distinct(s: Seq<Handle>) -> bool {
    forall|i: int, j: int|
        0 <= i < j < s.len() ==> !(#[trigger] s[i].1 == #[trigger] s[j].1 && s[i].2 == s[j].2
            && s[i].3 == s[j].3)
}

/// Opening file `h`: refused when four files are open, or when the file at
/// its place is open already.
pub open spec fn spec_open_file(s: Seq<Handle>, h: Handle) -> Result<Seq<Handle>, DeviceError> {
    if s.len() >= MAX_OPEN {
        Err(DeviceError::TooManyOpenFiles)
    } else if holds_place(s, h.1, h.2, h.3) {
        Err(DeviceError::FileAlreadyOpen)
    } else {
        Ok(s.push(h))
    }
}

/// Whether some handle in `s` is of partition `idx`.
pub open spec fn holds_partition(s: Seq<Handle>, idx: u32) -> bool {
    exists|i: int| 0 <= i < s.len() && #[trigger] s[i].2 == idx
}

/// Opening volume `volume` on partition `idx`: refused when a volume is
/// open already (the manager holds one), or when the partition is.
pub open spec fn spec_open_volume(s: Seq<Handle>, volume: u32, idx: u32) -> Result<
    Seq<Handle>,
    DeviceError,
> {
    if s.len() >= MAX_VOLUMES {
        Err(DeviceError::TooManyOpenVolumes)
    } else if holds_partition(s, idx) {
        Err(DeviceError::VolumeAlreadyOpen)
    } else {
        Ok(s.push((volume, volume, idx, 0)))
    }
}

/// Opening directory `h`: refused when four directories are open; a
/// directory may be open more than once.
pub open spec fn spec_open_dir(s: Seq<Handle>, h: Handle) -> Result<Seq<Handle>, DeviceError> {
    if s.len() >= MAX_OPEN {
        Err(DeviceError::TooManyOpenDirs)
    } else {
        Ok(s.push(h))
    }
}

/// Closing handle `id`: its first entry is replaced by the last one;
/// `BadHandle` when no entry has it.
pub open spec fn spec_close(s: Seq<Handle>, id: u32) -> Result<Seq<Handle>, DeviceError> {
    if holds_id(s, id) {
        let i = choose|i: int| first_of(s, id, i);
        Ok(s.update(i, s.last()).drop_last())
    } else {
        Err(DeviceError::BadHandle)
    }
}

/// The first position of handle `id` in `t`, or `BadHandle`.
fn position_of(t: &HandleTable, id: u32) -> (r: Result<usize, DeviceError>)
    ensures
        match r {
            Ok(i) => first_of(table_items(*t), id, i as int),
            Err(e) => e == DeviceError::BadHandle && !holds_id(table_items(*t), id),
        },
{
    let n = table_len(t);
    let mut i: usize = 0;
    while i < n
        invariant
            n == table_items(*t).len(),
            i <= n,
            forall|j: int| 0 <= j < i ==> #[trigger] table_items(*t)[j].0 != id,
        decreases n - i,
    {
        if table_get(t, i).0 == id {
            return Ok(i);
        }
        i = i + 1;
    }
    Err(DeviceError::BadHandle)
}

/// Removes handle `id` from `t` (see `spec_close`).
fn close_in(t: &mut HandleTable, id: u32) -> (r: Result<(), DeviceError>)
    ensures
        match spec_close(table_items(*old(t)), id) {
            Ok(s) => r is Ok && table_items(*final(t)) == s,
            Err(e) => r == Err::<(), DeviceError>(e) && table_items(*final(t)) == table_items(
                *old(t),
            ),
        },
{
    match position_of(t, id) {
        Ok(i) => {
            let ghost s = table_items(*t);
            proof {
                let k = choose|k: int| first_of(s, id, k);
                assert(first_of(s, id, k));
                if k < i {
                    assert(s[k].0 != id);
                } else if i < k {
                    assert(s[i as int].0 != id);
                }
            }
            table_swap_remove(t, i);
            Ok(())
        },
        Err(e) => Err(e),
    }
}

/// Whether some handle of `t` lies on `volume` at place `(a, b)`.
fn place_in(t: &HandleTable, volume: u32, a: u32, b: u32) -> (r: bool)
    ensures
        r == holds_place(table_items(*t), volume, a, b),
{
    let n = table_len(t);
    let mut i: usize = 0;
    while i < n
        invariant
            n == table_items(*t).len(),
            i <= n,
            forall|j: int|
                0 <= j < i ==> !(#[trigger] table_items(*t)[j].1 == volume && table_items(*t)[j].2
                    == a && table_items(*t)[j].3 == b),
        decreases n - i,
    {
        let h = table_get(t, i);
        if h.1 == volume && h.2 == a && h.3 == b {
            return true;
        }
        i = i + 1;
    }
    false
}

/// Whether some handle of `t` is of partition `idx`.
fn partition_in(t: &HandleTable, idx: u32) -> (r: bool)
    ensures
        r == holds_partition(table_items(*t), idx),
{
    let n = table_len(t);
    let mut i: usize = 0;
    while i < n
        invariant
            n == table_items(*t).len(),
            i <= n,
            forall|j: int| 0 <= j < i ==> #[trigger] table_items(*t)[j].2 != idx,
        decreases n - i,
    {
        if table_get(t, i).2 == idx {
            return true;
        }
        i = i + 1;
    }
    false
}

/// Whether some handle of `t` lies on `volume`.
fn volume_in(t: &HandleTable, volume: u32) -> (r: bool)
    ensures
        r == holds_volume(table_items(*t), volume),
{
    let n = table_len(t);
    let mut i: usize = 0;
    while i < n
        invariant
            n == table_items(*t).len(),
            i <= n,
            forall|j: int| 0 <= j < i ==> #[trigger] table_items(*t)[j].1 != volume,
        decreases n - i,
    {
        if table_get(t, i).1 == volume {
            return true;
        }
        i = i + 1;
    }
    false
}

/// The open volumes, directories and files of a volume manager.
pub struct OpenHandles {
    volumes: HandleTable,
    dirs: HandleTable,
    files: HandleTable,
}

impl OpenHandles {
    /// The open volumes.
    pub closed spec fn volumes(&self) -> Seq<Handle> {
        table_items(self.volumes)
    }

    /// The open files.
    pub closed spec fn files(&self) -> Seq<Handle> {
        table_items(self.files)
    }

    /// The open directories.
    pub closed spec fn dirs(&self) -> Seq<Handle> {
        table_items(self.dirs)
    }

    /// Well-formed: no file is open twice, and no handle is held twice.
    pub open spec fn wf(&self) -> bool {
        &&& files_distinct(self.files())
        &&& ids_distinct(self.volumes())
        &&& ids_distinct(self.dirs())
        &&& ids_distinct(self.files())
    }

    /// Nothing open.
    pub fn new() -> (h: Self)
        ensures
            h.volumes() == Seq::<Handle>::empty(),
            h.files() == Seq::<Handle>::empty(),
            h.dirs() == Seq::<Handle>::empty(),
            h.wf(),
    {
        OpenHandles { volumes: table_new(), dirs: table_new(), files: table_new() }
    }

    /// Opens volume `volume` on partition `idx` (see `spec_open_volume`).
    pub fn open_volume(&mut self, volume: u32, idx: u32) -> (r: Result<(), DeviceError>)
        requires
            old(self).wf(),
            !holds_id(old(self).volumes(), volume),
        ensures
            final(self).wf(),
            final(self).dirs() == old(self).dirs(),
            final(self).files() == old(self).files(),
            match spec_open_volume(old(self).volumes(), volume, idx) {
                Ok(s) => r is Ok && final(self).volumes() == s,
                Err(e) => r == Err::<(), DeviceError>(e) && final(self).volumes() == old(
                    self,
                ).volumes(),
            },
    {
        if table_len(&self.volumes) >= MAX_VOLUMES {
            return Err(DeviceError::TooManyOpenVolumes);
        }
        if partition_in(&self.volumes, idx) {
            return Err(DeviceError::VolumeAlreadyOpen);
        }
        let ghost s = self.volumes();
        table_push(&mut self.volumes, (volume, volume, idx, 0));
        proof {
            lemma_push_fresh(s, (volume, volume, idx, 0));
        }
        Ok(())
    }

    /// The position of the open volume `volume`, or `BadHandle`.
    pub fn volume_position(&self, volume: u32) -> (r: Result<usize, DeviceError>)
        ensures
            match r {
                Ok(i) => first_of(self.volumes(), volume, i as int),
                Err(e) => e == DeviceError::BadHandle && !holds_id(self.volumes(), volume),
            },
    {
        position_of(&self.volumes, volume)
    }

    /// Whether the file whose directory entry lies at `(block, offset)` on
    /// `volume` is open.
    pub fn file_is_open(&self, volume: u32, block: u32, offset: u32) -> (r: bool)
        ensures
            r == holds_place(self.files(), volume, block, offset),
    {
        place_in(&self.files, volume, block, offset)
    }

    /// Whether any file or directory on `volume` is open.
    pub fn volume_in_use(&self, volume: u32) -> (r: bool)
        ensures
            r == (holds_volume(self.files(), volume) || holds_volume(self.dirs(), volume)),
    {
        volume_in(&self.files, volume) || volume_in(&self.dirs, volume)
    }

    /// The position of the open file `file`, or `BadHandle`.
    pub fn file_position(&self, file: u32) -> (r: Result<usize, DeviceError>)
        ensures
            match r {
                Ok(i) => first_of(self.files(), file, i as int),
                Err(e) => e == DeviceError::BadHandle && !holds_id(self.files(), file),
            },
    {
        position_of(&self.files, file)
    }

    /// The position of the open directory `dir`, or `BadHandle`.
    pub fn dir_position(&self, dir: u32) -> (r: Result<usize, DeviceError>)
        ensures
            match r {
                Ok(i) => first_of(self.dirs(), dir, i as int),
                Err(e) => e == DeviceError::BadHandle && !holds_id(self.dirs(), dir),
            },
    {
        position_of(&self.dirs, dir)
    }

    /// Opens file `file` of `volume`, whose directory entry lies at
    /// `(block, offset)` (see `spec_open_file`).
    pub fn open_file(&mut self, file: u32, volume: u32, block: u32, offset: u32) -> (r: Result<
        (),
        DeviceError,
    >)
        requires
            old(self).wf(),
            !holds_id(old(self).files(), file),
        ensures
            final(self).wf(),
            final(self).volumes() == old(self).volumes(),
            final(self).dirs() == old(self).dirs(),
            match spec_open_file(old(self).files(), (file, volume, block, offset)) {
                Ok(s) => r is Ok && final(self).files() == s,
                Err(e) => r == Err::<(), DeviceError>(e) && final(self).files() == old(
                    self,
                ).files(),
            },
    {
        if table_len(&self.files) >= MAX_OPEN {
            return Err(DeviceError::TooManyOpenFiles);
        }
        if place_in(&self.files, volume, block, offset) {
            return Err(DeviceError::FileAlreadyOpen);
        }
        let ghost s = self.files();
        table_push(&mut self.files, (file, volume, block, offset));
        proof {
            lemma_push_fresh(s, (file, volume, block, offset));
            let s2 = self.files();
            assert forall|i: int, j: int| 0 <= i < j < s2.len() implies !(#[trigger] s2[i].1
                == #[trigger] s2[j].1 && s2[i].2 == s2[j].2 && s2[i].3 == s2[j].3) by {
                if j == s.len() {
                    assert(s2[i] == s[i]);
                    if s[i].1 == volume && s[i].2 == block && s[i].3 == offset {
                        assert(holds_place(s, volume, block, offset));
                    }
                } else {
                    assert(s2[i] == s[i] && s2[j] == s[j]);
                }
            }
        }
        Ok(())
    }

    /// Closes file `file` (see `spec_close`).
    pub fn close_file(&mut self, file: u32) -> (r: Result<(), DeviceError>)
        requires
            old(self).wf(),
        ensures
            final(self).wf(),
            final(self).volumes() == old(self).volumes(),
            final(self).dirs() == old(self).dirs(),
            r is Ok ==> !holds_id(final(self).files(), file),
            match spec_close(old(self).files(), file) {
                Ok(s) => r is Ok && final(self).files() == s,
                Err(e) => r == Err::<(), DeviceError>(e) && final(self).files() == old(
                    self,
                ).files(),
            },
    {
        let ghost s = self.files();
        let r = close_in(&mut self.files, file);
        proof {
            if r is Ok {
                lemma_first_exists(s, file);
                let i = choose|i: int| first_of(s, file, i);
                lemma_swap_remove_distinct(s, i);
                lemma_swap_remove_ids(s, i);
            }
        }
        r
    }

    /// Opens directory `dir` of `volume` at cluster `cluster` (see
    /// `spec_open_dir`).
    pub fn open_dir(&mut self, dir: u32, volume: u32, cluster: u32) -> (r: Result<
        (),
        DeviceError,
    >)
        requires
            old(self).wf(),
            !holds_id(old(self).dirs(), dir),
        ensures
            final(self).wf(),
            final(self).volumes() == old(self).volumes(),
            final(self).files() == old(self).files(),
            match spec_open_dir(old(self).dirs(), (dir, volume, cluster, 0)) {
                Ok(s) => r is Ok && final(self).dirs() == s,
                Err(e) => r == Err::<(), DeviceError>(e) && final(self).dirs() == old(
                    self,
                ).dirs(),
            },
    {
        let ghost s = self.dirs();
        if table_push(&mut self.dirs, (dir, volume, cluster, 0)) {
            proof {
                lemma_push_fresh(s, (dir, volume, cluster, 0));
            }
            Ok(())
        } else {
            Err(DeviceError::TooManyOpenDirs)
        }
    }

    /// Closes directory `dir` (see `spec_close`).
    pub fn close_dir(&mut self, dir: u32) -> (r: Result<(), DeviceError>)
        requires
            old(self).wf(),
        ensures
            final(self).wf(),
            final(self).volumes() == old(self).volumes(),
            final(self).files() == old(self).files(),
            r is Ok ==> !holds_id(final(self).dirs(), dir),
            match spec_close(old(self).dirs(), dir) {
                Ok(s) => r is Ok && final(self).dirs() == s,
                Err(e) => r == Err::<(), DeviceError>(e) && final(self).dirs() == old(
                    self,
                ).dirs(),
            },
    {
        let ghost s = self.dirs();
        let r = close_in(&mut self.dirs, dir);
        proof {
            if r is Ok {
                lemma_first_exists(s, dir);
                let i = choose|i: int| first_of(s, dir, i);
                lemma_swap_remove_ids(s, i);
            }
        }
        r
    }

    /// Closes volume `volume`: `VolumeStillInUse` while a file or directory
    /// on it is open, else as `spec_close`.
    pub fn close_volume(&mut self, volume: u32) -> (r: Result<(), DeviceError>)
        requires
            old(self).wf(),
        ensures
            final(self).wf(),
            final(self).dirs() == old(self).dirs(),
            final(self).files() == old(self).files(),
            r is Ok ==> !holds_id(final(self).volumes(), volume),
            if holds_volume(old(self).files(), volume) || holds_volume(old(self).dirs(), volume) {
                r == Err::<(), DeviceError>(DeviceError::VolumeStillInUse) && final(self).volumes()
                    == old(self).volumes()
            } else {
                match spec_close(old(self).volumes(), volume) {
                    Ok(s) => r is Ok && final(self).volumes() == s,
                    Err(e) => r == Err::<(), DeviceError>(e) && final(self).volumes() == old(
                        self,
                    ).volumes(),
                }
            },
    {
        if self.volume_in_use(volume) {
            return Err(DeviceError::VolumeStillInUse);
        }
        let ghost s = self.volumes();
        let r = close_in(&mut self.volumes, volume);
        proof {
            if r is Ok {
                lemma_first_exists(s, volume);
                let i = choose|i: int| first_of(s, volume, i);
                lemma_swap_remove_ids(s, i);
            }
        }
        r
    }

    /// Whether any directory or file is open.
    pub fn has_open_handles(&self) -> (r: bool)
        ensures
            r == (self.dirs().len() > 0 || self.files().len() > 0),
    {
        table_len(&self.dirs) > 0 || table_len(&self.files) > 0
    }
}

/// A handle that a table holds has a first position in it.
proof fn lemma_first_exists(s: Seq<Handle>, id: u32)
    requires
        holds_id(s, id),
    ensures
        exists|i: int| first_of(s, id, i),
    decreases s.len(),
{
    if s[0].0 == id {
        assert(first_of(s, id, 0));
    } else {
        let t = s.drop_first();
        let w = choose|i: int| 0 <= i < s.len() && #[trigger] s[i].0 == id;
        assert(t[w - 1].0 == id);
        lemma_first_exists(t, id);
        let k = choose|k: int| first_of(t, id, k);
        assert forall|j: int| 0 <= j < k + 1 implies #[trigger] s[j].0 != id by {
            if j > 0 {
                assert(s[j] == t[j - 1]);
            }
        }
        assert(first_of(s, id, k + 1));
    }
}

/// Appending a handle not held yet keeps the handles distinct.
proof fn lemma_push_fresh(s: Seq<Handle>, h: Handle)
    requires
        ids_distinct(s),
        !holds_id(s, h.0),
    ensures
        ids_distinct(s.push(h)),
{
    let s2 = s.push(h);
    assert forall|i: int, j: int| 0 <= i < j < s2.len() implies #[trigger] s2[i].0 != #[trigger] s2[j].0 by {
        assert(s2[i] == s[i]);
        if j < s.len() {
            assert(s2[j] == s[j]);
        }
    }
}

/// Removing entry `k` the swap way keeps the handles distinct, and its
/// handle is held no more.
proof fn lemma_swap_remove_ids(s: Seq<Handle>, k: int)
    requires
        ids_distinct(s),
        0 <= k < s.len(),
    ensures
        ids_distinct(s.update(k, s.last()).drop_last()),
        !holds_id(s.update(k, s.last()).drop_last(), s[k].0),
{
    let s2 = s.update(k, s.last()).drop_last();
    let last = s.len() - 1;
    assert forall|i: int, j: int| 0 <= i < j < s2.len() implies #[trigger] s2[i].0 != #[trigger] s2[j].0 by {
        let oi = if i == k { last } else { i };
        let oj = if j == k { last } else { j };
        assert(s2[i] == s[oi] && s2[j] == s[oj]);
        if oi < oj {
            assert(s[oi].0 != s[oj].0);
        } else {
            assert(s[oj].0 != s[oi].0);
        }
    }
    assert forall|i: int| 0 <= i < s2.len() implies #[trigger] s2[i].0 != s[k].0 by {
        let oi = if i == k { last } else { i };
        assert(s2[i] == s[oi]);
        assert(oi != k);
        if oi < k {
            assert(s[oi].0 != s[k].0);
        } else {
            assert(s[k].0 != s[oi].0);
        }
    }
}

/// Removing one entry the swap way keeps the places of the others distinct.
proof fn lemma_swap_remove_distinct(s: Seq<Handle>, k: int)
    requires
        files_distinct(s),
        0 <= k < s.len(),
    ensures
        files_distinct(s.update(k, s.last()).drop_last()),
{
    let s2 = s.update(k, s.last()).drop_last();
    let last = s.len() - 1;
    assert forall|i: int, j: int| 0 <= i < j < s2.len() implies !(#[trigger] s2[i].1
        == #[trigger] s2[j].1 && s2[i].2 == s2[j].2 && s2[i].3 == s2[j].3) by {
        let oi = if i == k {
            last
        } else {
            i
        };
        let oj = if j == k {
            last
        } else {
            j
        };
        assert(s2[i] == s[oi] && s2[j] == s[oj]);
        assert(oi != oj);
        if oi < oj {
            assert(!(s[oi].1 == s[oj].1 && s[oi].2 == s[oj].2 && s[oi].3 == s[oj].3));
        } else {
            assert(!(s[oj].1 == s[oi].1 && s[oj].2 == s[oi].2 && s[oj].3 == s[oi].3));
        }
    }
}

/// A file can be open only once: once opening it went through, opening the
/// file at the same place again is refused, whatever handle it would get.
pub proof fn law_file_opened_once(s: Seq<Handle>, h: Handle, again: u32)
    requires
        spec_open_file(s, h) is Ok,
    ensures
        spec_open_file(spec_open_file(s, h)->Ok_0, (again, h.1, h.2, h.3)) is Err,
{
    let s2 = s.push(h);
    assert(s2[s.len() as int] == h);
    if s2.len() < MAX_OPEN {
        assert(holds_place(s2, h.1, h.2, h.3));
    }
}

/// Closing a file just opened under a fresh handle gives back the table as
/// it was before.
pub proof fn law_close_undoes_open(s: Seq<Handle>, h: Handle)
    requires
        !holds_id(s, h.0),
        spec_open_file(s, h) is Ok,
    ensures
        spec_close(spec_open_file(s, h)->Ok_0, h.0) == Ok::<Seq<Handle>, DeviceError>(s),
{
    let s2 = s.push(h);
    let n = s.len() as int;
    assert(first_of(s2, h.0, n)) by {
        assert forall|j: int| 0 <= j < n implies #[trigger] s2[j].0 != h.0 by {
            assert(s2[j] == s[j]);
        }
    }
    let k = choose|k: int| first_of(s2, h.0, k);
    assert(k == n) by {
        if k < n {
            assert(s2[k] == s[k]);
        }
    }
    assert(s2.update(n, s2.last()).drop_last() =~= s);
}

/// A partition can be open only once.
pub proof fn law_partition_opened_once(s: Seq<Handle>, volume: u32, idx: u32, again: u32)
    requires
        spec_open_volume(s, volume, idx) is Ok,
    ensures
        spec_open_volume(spec_open_volume(s, volume, idx)->Ok_0, again, idx) is Err,
{
    let s2 = s.push((volume, volume, idx, 0));
    assert(s2[s.len() as int].2 == idx);
}

/// A volume holding an open file cannot be closed until the file is.
pub proof fn law_open_file_keeps_volume(s: Seq<Handle>, h: Handle)
    requires
        spec_open_file(s, h) is Ok,
    ensures
        holds_volume(spec_open_file(s, h)->Ok_0, h.1),
{
    let s2 = s.push(h);
    assert(s2[s.len() as int].1 == h.1);
}

} // verus!
