//! The snapshot history and the selection state, as one state object.
use crate::errors::{DCtx, DError, DResult};
use crate::grub2::{GrubFile, GrubLine, line_ok, parsed_file, render};
use crate::menu::GrubBootEntries;
use crate::snapshot::{
    default_saved, has_title, prepare_system, snapshot_diff, unified_diff_of, Grub2Snapshot,
    SelectedSnapshot, SystemUpdate,
};
use crate::text::trim;
use crate::text::split_lines;
use vstd::prelude::*;

verus! {

/// Snapshots in order of creation, with strictly growing ids, never empty; and the
/// selection, which names a stored snapshot if any.
pub struct SnapshotStore {
    snapshots: Vec<Grub2Snapshot>,
    selected: SelectedSnapshot,
}

pub open spec fn ids_increasing(s: Seq<Grub2Snapshot>) -> bool {
    forall|i: int, j: int| 0 <= i < j < s.len() ==> (#[trigger] s[i]).id < (#[trigger] s[j]).id
}

pub open spec fn holds_id(s: Seq<Grub2Snapshot>, id: i64) -> bool {
    exists|i: int| 0 <= i < s.len() && (#[trigger] s[i]).id == id
}

/// The rows make a store: some snapshot, ids growing, and the selection stored.
pub open spec fn store_wf(s: Seq<Grub2Snapshot>, selected: Option<i64>) -> bool {
    &&& s.len() > 0
    &&& ids_increasing(s)
    &&& match selected {
        Some(id) => holds_id(s, id),
        None => true,
    }
}

/// The snapshot in effect: the selected one, else the latest.
pub open spec fn effective_id(s: Seq<Grub2Snapshot>, selected: Option<i64>) -> i64 {
    match selected {
        Some(id) => id,
        None => s.last().id,
    }
}

impl View for SnapshotStore {
    type V = (Seq<Grub2Snapshot>, Option<i64>);

    closed spec fn view(&self) -> (Seq<Grub2Snapshot>, Option<i64>) {
        (self.snapshots@, self.selected.grub2_snapshot_id)
    }
}

impl SnapshotStore {
    pub open spec fn wf(&self) -> bool {
        store_wf(self@.0, self@.1)
    }

    /// A store seeded with one snapshot of the live configuration, nothing selected.
    pub fn initialize(grub_config: String, selected_kernel: Option<String>, created: i64) -> (r: Self)
        ensures
            r.wf(),
            r@.0.len() == 1,
            r@.0[0] == (Grub2Snapshot { id: 1, grub_config, selected_kernel, created }),
            r@.1 is None,
    {
        let mut snapshots: Vec<Grub2Snapshot> = Vec::new();
        snapshots.push(Grub2Snapshot { id: 1, grub_config, selected_kernel, created });
        SnapshotStore { snapshots, selected: SelectedSnapshot { grub2_snapshot_id: None } }
    }

    /// A store of the given rows, if they make one.
    pub fn from_rows(snapshots: Vec<Grub2Snapshot>, selected: SelectedSnapshot) -> (r: Option<Self>)
        ensures
            r is Some <==> store_wf(snapshots@, selected.grub2_snapshot_id),
            r is Some ==> r->0.wf() && r->0@ == (snapshots@, selected.grub2_snapshot_id),
    {
        if snapshots.len() == 0 {
            return None;
        }
        let mut i: usize = 1;
        while i < snapshots.len()
            invariant
                1 <= i <= snapshots@.len(),
                ids_increasing(snapshots@.subrange(0, i as int)),
            decreases snapshots@.len() - i,
        {
            if snapshots[i - 1].id >= snapshots[i].id {
                assert(!ids_increasing(snapshots@));
                return None;
            }
            assert(ids_increasing(snapshots@.subrange(0, i + 1))) by {
                assert forall|a: int, b: int| 0 <= a < b < i + 1 implies (#[trigger] snapshots@.subrange(0, i + 1)[a]).id
                    < (#[trigger] snapshots@.subrange(0, i + 1)[b]).id by {
                    if b == i && a < i - 1 {
                        assert(snapshots@.subrange(0, i as int)[a].id < snapshots@.subrange(0, i as int)[i - 1].id);
                    } else if b < i {
                        assert(snapshots@.subrange(0, i as int)[a].id < snapshots@.subrange(0, i as int)[b].id);
                    }
                }
            }
            i = i + 1;
        }
        assert(snapshots@.subrange(0, snapshots@.len() as int) == snapshots@);
        let store = SnapshotStore { snapshots, selected };
        match selected.grub2_snapshot_id {
            Some(id) => {
                if store.find(id).is_none() {
                    return None;
                }
            },
            None => {},
        }
        Some(store)
    }

    /// Position of the snapshot with id `id`, if one is stored.
    fn find(&self, id: i64) -> (r: Option<usize>)
        ensures
            match r {
                Some(i) => i < self@.0.len() && self@.0[i as int].id == id,
                None => !holds_id(self@.0, id),
            },
    {
        let mut i: usize = 0;
        while i < self.snapshots.len()
            invariant
                i <= self.snapshots@.len(),
                forall|j: int| 0 <= j < i ==> (#[trigger] self.snapshots@[j]).id != id,
            decreases self.snapshots@.len() - i,
        {
            if self.snapshots[i].id == id {
                return Some(i);
            }
            i = i + 1;
        }
        None
    }

    pub fn latest_grub2(&self) -> (r: &Grub2Snapshot)
        requires
            self.wf(),
        ensures
            *r == self@.0.last(),
    {
        &self.snapshots[self.snapshots.len() - 1]
    }

    /// All snapshots, newest first.
    pub fn grub2_snapshots(&self) -> (r: Vec<Grub2Snapshot>)
        ensures
            r@.len() == self@.0.len(),
            forall|i: int| 0 <= i < r@.len() ==> r@[i] == self@.0[self@.0.len() - 1 - i],
    {
        let n = self.snapshots.len();
        let mut r: Vec<Grub2Snapshot> = Vec::new();
        let mut i: usize = 0;
        while i < n
            invariant
                n == self.snapshots@.len(),
                i <= n,
                r@.len() == i,
                forall|j: int| 0 <= j < i ==> r@[j] == self@.0[n - 1 - j],
            decreases n - i,
        {
            r.push(self.snapshots[n - 1 - i].clone());
            i = i + 1;
        }
        r
    }

    pub fn selected_snapshot(&self) -> (r: SelectedSnapshot)
        ensures
            r.grub2_snapshot_id == self@.1,
    {
        self.selected
    }

    /// The snapshot with id `id`, if one is stored.
    pub fn grub2_snapshot(&self, id: i64) -> (r: Option<&Grub2Snapshot>)
        ensures
            r is Some <==> holds_id(self@.0, id),
            r is Some ==> r->0.id == id && exists|i: int| 0 <= i < self@.0.len() && self@.0[i] == *r->0,
    {
        match self.find(id) {
            Some(i) => Some(&self.snapshots[i]),
            None => None,
        }
    }

    /// The id of the snapshot in effect: the selected one, else the latest.
    pub fn selected_id(&self) -> (r: i64)
        requires
            self.wf(),
        ensures
            r == effective_id(self@.0, self@.1),
    {
        match self.selected.grub2_snapshot_id {
            Some(id) => id,
            None => self.snapshots[self.snapshots.len() - 1].id,
        }
    }

    /// Appends a snapshot with the next id; the selection stays.
    pub fn save_grub2(&mut self, grub_config: String, selected_kernel: Option<String>, created: i64) -> (id: i64)
        requires
            old(self).wf(),
            old(self)@.0.last().id < i64::MAX,
        ensures
            final(self).wf(),
            id == old(self)@.0.last().id + 1,
            final(self)@.0 == old(self)@.0.push(Grub2Snapshot { id, grub_config, selected_kernel, created }),
            final(self)@.1 == old(self)@.1,
    {
        let id = self.snapshots[self.snapshots.len() - 1].id + 1;
        let ghost before = self.snapshots@;
        self.snapshots.push(Grub2Snapshot { id, grub_config, selected_kernel, created });
        proof {
            if let Some(sid) = self.selected.grub2_snapshot_id {
                let k = choose|k: int| 0 <= k < before.len() && (#[trigger] before[k]).id == sid;
                assert(self.snapshots@[k] == before[k]);
            }
        }
        id
    }

    /// Records a saved configuration: a new snapshot, and the latest one in effect.
    pub fn commit_save(&mut self, grub_config: String, selected_kernel: Option<String>, created: i64) -> (id: i64)
        requires
            old(self).wf(),
            old(self)@.0.last().id < i64::MAX,
        ensures
            final(self).wf(),
            id == old(self)@.0.last().id + 1,
            final(self)@.0 == old(self)@.0.push(Grub2Snapshot { id, grub_config, selected_kernel, created }),
            final(self)@.1 is None,
            effective_id(final(self)@.0, final(self)@.1) == id,
    {
        let id = self.save_grub2(grub_config, selected_kernel, created);
        self.selected = SelectedSnapshot { grub2_snapshot_id: None };
        id
    }

    /// Removes the snapshot with id `id`, unless it is the one in effect.
    pub fn remove_snapshot(&mut self, id: i64) -> (r: DResult<()>)
        requires
            old(self).wf(),
        ensures
            final(self).wf(),
            final(self)@.1 == old(self)@.1,
            r is Err <==> id == effective_id(old(self)@.0, old(self)@.1),
            r is Err ==> final(self)@ == old(self)@ && r->Err_0.kind() is Error
                && r->Err_0.kind()->Error_0@ == "Cannot remove currently selected snapshot"@,
            r is Ok ==> final(self)@.0 == old(self)@.0.filter(|s: Grub2Snapshot| s.id != id),
    {
        if id == self.selected_id() {
            return Err(DError::generic(
                DCtx::new(String::from_str("remove_snapshot")),
                String::from_str("Cannot remove currently selected snapshot"),
            ));
        }
        let ghost before = self.snapshots@;
        match self.find(id) {
            Some(i) => {
                let _ = self.snapshots.remove(i);
                proof {
                    lemma_filter_unique(before, i as int, id);
                    if let Some(sid) = self.selected.grub2_snapshot_id {
                        let k = choose|k: int| 0 <= k < before.len() && (#[trigger] before[k]).id == sid;
                        if k < i {
                            assert(self.snapshots@[k] == before[k]);
                        } else {
                            assert(self.snapshots@[k - 1] == before[k]);
                        }
                    }
                    assert(before.last() != before[i as int] ==> self.snapshots@.last() == before.last());
                }
            },
            None => {
                proof {
                    lemma_filter_absent(before, id);
                }
            },
        }
        Ok(())
    }

    /// Checks that `id` can be selected and makes its snapshot ready to write: the
    /// snapshot's text is read back and its kernel checked as `prepare_system` does.
    pub fn prepare_select(&self, id: i64, entries: &GrubBootEntries) -> (r: DResult<SystemUpdate>)
        requires
            self.wf(),
        ensures
            id == effective_id(self@.0, self@.1) ==> r is Err && r->Err_0.kind() is Error
                && r->Err_0.kind()->Error_0@ == "Cannot reselect currently selected snapshot"@,
            id != effective_id(self@.0, self@.1) && !holds_id(self@.0, id) ==> r is Err
                && r->Err_0.kind() is Error && r->Err_0.kind()->Error_0@ == "Cannot find snapshot"@,
            r is Ok ==> id != effective_id(self@.0, self@.1) && exists|i: int|
                0 <= i < self@.0.len() && (#[trigger] self@.0[i]).id == id && selectable(
                    self@.0[i],
                    *entries,
                    r->Ok_0,
                ),
            forall|i: int|
                0 <= i < self@.0.len() && (#[trigger] self@.0[i]).id == id && id != effective_id(
                    self@.0,
                    self@.1,
                ) && config_reads(self@.0[i]) && kernel_known(self@.0[i], *entries) ==> r is Ok,
    {
        if id == self.selected_id() {
            return Err(DError::generic(
                DCtx::new(String::from_str("select_snapshot")),
                String::from_str("Cannot reselect currently selected snapshot"),
            ));
        }
        let i = match self.find(id) {
            Some(i) => i,
            None => {
                return Err(DError::generic(
                    DCtx::new(String::from_str("select_snapshot")),
                    String::from_str("Cannot find snapshot"),
                ));
            },
        };
        let snapshot = &self.snapshots[i];
        proof {
            assert forall|j: int| 0 <= j < self@.0.len() && (#[trigger] self@.0[j]).id == id implies j == i by {
                if j < i {
                    assert(self@.0[j].id < self@.0[i as int].id);
                } else if j > i {
                    assert(self@.0[i as int].id < self@.0[j].id);
                }
            }
        }
        let mut grub_file = GrubFile::new(snapshot.grub_config.as_str())?;
        let ghost parsed = grub_file@;
        let r = prepare_system(&mut grub_file, &snapshot.selected_kernel, entries);
        proof {
            if r is Ok {
                if snapshot.selected_kernel is Some {
                    assert(parsed_file(snapshot.grub_config@, parsed) && default_saved(parsed, grub_file@));
                }
            }
        }
        r
    }

    /// Records that snapshot `id` is selected.
    pub fn commit_select(&mut self, id: i64)
        requires
            old(self).wf(),
            holds_id(old(self)@.0, id),
        ensures
            final(self).wf(),
            final(self)@.0 == old(self)@.0,
            final(self)@.1 == Some(id),
            effective_id(final(self)@.0, final(self)@.1) == id,
    {
        self.selected = SelectedSnapshot { grub2_snapshot_id: Some(id) };
    }
}

/// The snapshot's text reads as a configuration.
pub open spec fn config_reads(s: Grub2Snapshot) -> bool {
    forall|i: int| 0 <= i < split_lines(s.grub_config@).len() ==> line_ok(#[trigger] split_lines(s.grub_config@)[i])
}

/// The snapshot names no kernel, or one the boot menu has.
pub open spec fn kernel_known(s: Grub2Snapshot, entries: GrubBootEntries) -> bool {
    match s.selected_kernel {
        Some(k) => has_title(entries, k@),
        None => true,
    }
}

/// `u` is what selecting snapshot `s` writes: its text read back (with `GRUB_DEFAULT=saved`
/// set where it names a kernel), and its kernel as the default.
pub open spec fn selectable(s: Grub2Snapshot, entries: GrubBootEntries, u: SystemUpdate) -> bool {
    &&& config_reads(s)
    &&& kernel_known(s, entries)
    &&& match s.selected_kernel {
        None => u.set_default is None && u.config@ == s.grub_config@,
        Some(k) => {
            &&& u.set_default is Some
            &&& u.set_default->0@ == k@
            &&& exists|p: Seq<GrubLine>, g: Seq<GrubLine>|
                parsed_file(s.grub_config@, p) && default_saved(p, g) && u.config@ == render(g)
        },
    }
}

proof fn lemma_filter_absent(s: Seq<Grub2Snapshot>, id: i64)
    requires
        !holds_id(s, id),
    ensures
        s.filter(|x: Grub2Snapshot| x.id != id) == s,
    decreases s.len(),
{
    reveal(Seq::filter);
    if s.len() > 0 {
        assert(!holds_id(s.drop_last(), id)) by {
            if holds_id(s.drop_last(), id) {
                let k = choose|k: int| 0 <= k < s.drop_last().len() && (#[trigger] s.drop_last()[k]).id == id;
                assert(s[k].id == id);
            }
        }
        lemma_filter_absent(s.drop_last(), id);
        assert(s.last().id != id);
        assert(s.drop_last().push(s.last()) == s);
    }
}

proof fn lemma_filter_unique(s: Seq<Grub2Snapshot>, i: int, id: i64)
    requires
        ids_increasing(s),
        0 <= i < s.len(),
        s[i].id == id,
    ensures
        s.filter(|x: Grub2Snapshot| x.id != id) == s.remove(i),
    decreases s.len(),
{
    reveal(Seq::filter);
    if i == s.len() - 1 {
        assert(!holds_id(s.drop_last(), id)) by {
            if holds_id(s.drop_last(), id) {
                let k = choose|k: int| 0 <= k < s.drop_last().len() && (#[trigger] s.drop_last()[k]).id == id;
                assert(s[k].id < s[i].id);
            }
        }
        lemma_filter_absent(s.drop_last(), id);
        assert(s.remove(i) == s.drop_last());
    } else {
        let t = s.drop_last();
        assert(ids_increasing(t));
        lemma_filter_unique(t, i, id);
        assert(s.last().id != id) by {
            assert(s[i].id < s[s.len() - 1].id);
        }
        assert(s.remove(i) == t.remove(i).push(s.last()));
    }
}

/// A snapshot and the diff from the current configuration to it, if not blank.
#[derive(Debug)]
pub struct Grub2SnapshotData {
    /// snapshot in the database
    pub snapshot: Grub2Snapshot,
    /// diff against the current config
    pub diff: Option<String>,
}

/// Every snapshot, newest first, each with its diff, and the selection.
#[derive(Debug)]
pub struct SnapshotData {
    pub snapshots: Vec<Grub2SnapshotData>,
    pub selected: SelectedSnapshot,
}

/// The diff that listing shows for a snapshot of text `snapshot` against `current`.
pub open spec fn listed_diff(current: Seq<char>, snapshot: Seq<char>, d: Option<String>) -> bool {
    if trim(unified_diff_of(current, snapshot)).len() == 0 {
        d is None
    } else {
        d is Some && d->0@ == unified_diff_of(current, snapshot)
    }
}

impl SnapshotStore {
    /// Every snapshot, newest first, with its diff against the current text `current`.
    pub fn list_snapshots(&self, current: &str) -> (r: SnapshotData)
        ensures
            r.selected.grub2_snapshot_id == self@.1,
            r.snapshots@.len() == self@.0.len(),
            forall|i: int|
                0 <= i < r.snapshots@.len() ==> {
                    &&& (#[trigger] r.snapshots@[i]).snapshot == self@.0[self@.0.len() - 1 - i]
                    &&& listed_diff(current@, r.snapshots@[i].snapshot.grub_config@, r.snapshots@[i].diff)
                },
    {
        let n = self.snapshots.len();
        let mut out: Vec<Grub2SnapshotData> = Vec::new();
        let mut i: usize = 0;
        while i < n
            invariant
                n == self.snapshots@.len(),
                i <= n,
                out@.len() == i,
                forall|j: int|
                    0 <= j < i ==> {
                        &&& (#[trigger] out@[j]).snapshot == self@.0[n - 1 - j]
                        &&& listed_diff(current@, out@[j].snapshot.grub_config@, out@[j].diff)
                    },
            decreases n - i,
        {
            let snapshot = self.snapshots[n - 1 - i].clone();
            let diff = snapshot_diff(current, snapshot.grub_config.as_str());
            out.push(Grub2SnapshotData { snapshot, diff });
            i = i + 1;
        }
        SnapshotData { snapshots: out, selected: self.selected }
    }
}

} // verus!
