//! Snapshots of the configuration and which of them is selected, with the decisions
//! that saving, selecting and removing take.
use crate::errors::{DCtx, DError, DResult};
use crate::grub2::{
    is_current_entry, key_absent, key_listed, last_with_key, render, updated, GrubFile, GrubLine,
    KeyValue,
};
use crate::menu::GrubBootEntries;
use crate::text::{trim, trim_bounds, chars_of};
use vstd::prelude::*;

verus! {

/// The unified line diff that `similar` writes from `old` to `new`.
pub uninterp spec fn unified_diff_of(old: Seq<char>, new: Seq<char>) -> Seq<char>;

/// Relies on `similar::TextDiff::from_lines(old, new).unified_diff().to_string()`:
/// the unified diff of the lines of the two texts, which depends on the texts alone.
#[verifier::external_body]
fn unified_diff(old: &str, new: &str) -> (r: String)
    ensures
        r@ == unified_diff_of(old@, new@),
{
    similar::TextDiff::from_lines(old, new).unified_diff().to_string()
}

/// A stored copy of the configuration text and the kernel selected with it.
#[derive(Debug)]
pub struct Grub2Snapshot {
    /// Auto incrementing snapshot id
    pub id: i64,
    /// The configuration text
    pub grub_config: String,
    /// selected kernel that's booted to, if it's actually specified
    pub selected_kernel: Option<String>,
    /// when snapshot was created, in seconds since the Unix epoch
    pub created: i64,
}

impl Clone for Grub2Snapshot {
    fn clone(&self) -> (r: Self)
        ensures
            r == *self,
    {
        Grub2Snapshot {
            id: self.id,
            grub_config: self.grub_config.clone(),
            selected_kernel: match &self.selected_kernel {
                Some(k) => Some(k.clone()),
                None => None,
            },
            created: self.created,
        }
    }
}

/// Which snapshot is selected.
#[derive(Debug, Clone, Copy, PartialEq, Eq)]
pub struct SelectedSnapshot {
    /// Id of selected grub2 snapshot, null if none is selected.
    /// If none is selected, it implies that latest snapshot is being used.
    pub grub2_snapshot_id: Option<i64>,
}

/// What the system is to be brought to: the configuration text to write, and the entry
/// to make the default, if any.
#[derive(Debug)]
pub struct SystemUpdate {
    pub config: String,
    pub set_default: Option<String>,
}

/// The error of a kernel name that no boot entry has.
pub open spec fn unknown_kernel_message(kernel: Seq<char>) -> Seq<char> {
    "Kernel entry '"@ + kernel + "' is not found from grub configs"@
}

pub open spec fn has_title(entries: GrubBootEntries, name: Seq<char>) -> bool {
    exists|i: int| 0 <= i < entries@.0.len() && (#[trigger] entries@.0[i]).0 == name
}

/// The lines after `GRUB_DEFAULT` is set to `saved`.
pub open spec fn default_saved(old: Seq<GrubLine>, new: Seq<GrubLine>) -> bool {
    &&& forall|p: int|
        last_with_key(old, "GRUB_DEFAULT"@, p) ==> {
            &&& new.len() == old.len()
            &&& forall|q: int| 0 <= q < old.len() && q != p ==> new[q] == old[q]
            &&& new[p] is KeyValue
            &&& updated(old[p]->KeyValue_0, new[p]->KeyValue_0, "saved"@)
        }
    &&& key_absent(old, "GRUB_DEFAULT"@) ==> {
        &&& new.len() == old.len() + 1
        &&& new.subrange(0, old.len() as int) == old
        &&& new.last() is KeyValue
        &&& new.last()->KeyValue_0.line == old.len()
        &&& new.last()->KeyValue_0.original@ == Seq::<char>::empty()
        &&& new.last()->KeyValue_0.changed
        &&& new.last()->KeyValue_0.key@ == "GRUB_DEFAULT"@
        &&& new.last()->KeyValue_0.value@ == "saved"@
    }
}

/// Checks the kernel to select against the boot entries, sets `GRUB_DEFAULT=saved` when
/// a kernel is given, and returns what to write and which entry to make the default.
pub fn prepare_system(grub_file: &mut GrubFile, selected_kernel: &Option<String>, entries: &GrubBootEntries) -> (r: DResult<SystemUpdate>)
    ensures
        match selected_kernel {
            None => {
                &&& final(grub_file)@ == old(grub_file)@
                &&& r is Ok
                &&& r->Ok_0.config@ == render(old(grub_file)@)
                &&& r->Ok_0.set_default is None
            },
            Some(k) => if has_title(*entries, k@) {
                &&& default_saved(old(grub_file)@, final(grub_file)@)
                &&& r is Ok
                &&& r->Ok_0.config@ == render(final(grub_file)@)
                &&& r->Ok_0.set_default is Some
                &&& r->Ok_0.set_default->0@ == k@
            } else {
                &&& final(grub_file)@ == old(grub_file)@
                &&& r is Err
                &&& r->Err_0.kind() is Error
                &&& r->Err_0.kind()->Error_0@ == unknown_kernel_message(k@)
            },
        },
{
    let set_default = match selected_kernel {
        Some(kernel) => {
            if !entries.has_entry(kernel.as_str()) {
                let mut message = String::from_str("Kernel entry '");
                message.append(kernel.as_str());
                message.append("' is not found from grub configs");
                return Err(DError::generic(DCtx::new(String::from_str("set_grub_system")), message));
            }
            // GRUB_DEFAULT must be `saved` for the default entry to take effect
            grub_file.set_key_value("GRUB_DEFAULT", "saved");
            Some(kernel.clone())
        },
        None => None,
    };
    Ok(SystemUpdate { config: grub_file.as_string(), set_default })
}

/// The lines a client sent, checked and made ready to write: see `prepare_system`.
pub fn prepare_save(lines: &[GrubLine], selected_kernel: &Option<String>, entries: &GrubBootEntries) -> (r: DResult<SystemUpdate>)
    ensures
        match selected_kernel {
            None => r is Ok && r->Ok_0.config@ == render(lines@) && r->Ok_0.set_default is None,
            Some(k) => if has_title(*entries, k@) {
                r is Ok && r->Ok_0.set_default is Some && r->Ok_0.set_default->0@ == k@
                    && exists|g: Seq<GrubLine>| default_saved(lines@, g) && r->Ok_0.config@ == render(g)
            } else {
                r is Err && r->Err_0.kind() is Error && r->Err_0.kind()->Error_0@
                    == unknown_kernel_message(k@)
            },
        },
{
    let mut grub_file = GrubFile::from_lines(lines);
    let r = prepare_system(&mut grub_file, selected_kernel, entries);
    proof {
        if let Some(k) = selected_kernel {
            if has_title(*entries, k@) {
                assert(default_saved(lines@, grub_file@));
            }
        }
    }
    r
}

/// The diff, or nothing when it is empty.
pub fn diff_if_nonempty(diff: String) -> (r: Option<String>)
    ensures
        diff@.len() == 0 ==> r is None,
        diff@.len() > 0 ==> r is Some && r->0@ == diff@,
{
    if diff.as_str().unicode_len() == 0 {
        None
    } else {
        Some(diff)
    }
}

/// The diff, or nothing when it holds only whitespace.
pub fn diff_if_not_blank(diff: String) -> (r: Option<String>)
    ensures
        trim(diff@).len() == 0 ==> r is None,
        trim(diff@).len() > 0 ==> r is Some && r->0@ == diff@,
{
    let chars = chars_of(diff.as_str());
    let (lo, hi) = trim_bounds(&chars);
    if lo == hi {
        None
    } else {
        Some(diff)
    }
}

/// The diff from the stored text `old` to the current text `new`, when there is one.
pub fn config_diff(old: &str, new: &str) -> (r: Option<String>)
    ensures
        unified_diff_of(old@, new@).len() == 0 ==> r is None,
        unified_diff_of(old@, new@).len() > 0 ==> r is Some && r->0@ == unified_diff_of(old@, new@),
{
    diff_if_nonempty(unified_diff(old, new))
}

/// The diff from the current text `current` to a snapshot's text, unless it is blank.
pub fn snapshot_diff(current: &str, snapshot: &str) -> (r: Option<String>)
    ensures
        trim(unified_diff_of(current@, snapshot@)).len() == 0 ==> r is None,
        trim(unified_diff_of(current@, snapshot@)).len() > 0 ==> r is Some && r->0@
            == unified_diff_of(current@, snapshot@),
{
    diff_if_not_blank(unified_diff(current, snapshot))
}

/// What a client is shown of the configuration.
#[derive(Debug)]
pub struct ConfigData {
    /// one entry per key, from the last line that holds it
    pub value_map: Vec<KeyValue>,
    /// every line, in order
    pub value_list: Vec<GrubLine>,
    /// the diff from the latest snapshot to the current text, if any
    pub config_diff: Option<String>,
    /// the title of the selected boot entry
    pub selected_kernel: Option<String>,
}

/// The configuration `grub` as a client is shown it, against the latest snapshot and
/// with the selected entry of `entries`.
pub fn config_data(grub: &GrubFile, entries: &GrubBootEntries, latest: &Grub2Snapshot) -> (r: ConfigData)
    ensures
        r.value_list@ == grub@,
        forall|i: int, j: int|
            0 <= i < j < r.value_map@.len() ==> r.value_map@[i].key@ != r.value_map@[j].key@,
        forall|i: int| 0 <= i < r.value_map@.len() ==> is_current_entry(grub@, #[trigger] r.value_map@[i]),
        forall|q: int|
            0 <= q < grub@.len() && (#[trigger] grub@[q]) is KeyValue ==> key_listed(
                r.value_map@,
                grub@[q]->KeyValue_0.key@,
            ),
        unified_diff_of(latest.grub_config@, render(grub@)).len() == 0 ==> r.config_diff is None,
        unified_diff_of(latest.grub_config@, render(grub@)).len() > 0 ==> r.config_diff is Some
            && r.config_diff->0@ == unified_diff_of(latest.grub_config@, render(grub@)),
        match entries@.1 {
            Some(e) => r.selected_kernel is Some && r.selected_kernel->0@ == e.0,
            None => r.selected_kernel is None,
        },
{
    let current = grub.as_string();
    let config_diff = config_diff(latest.grub_config.as_str(), current.as_str());
    let lines = grub.lines();
    let mut value_list: Vec<GrubLine> = Vec::new();
    let mut i: usize = 0;
    while i < lines.len()
        invariant
            i <= lines@.len(),
            lines@ == grub@,
            value_list@ == lines@.subrange(0, i as int),
        decreases lines@.len() - i,
    {
        value_list.push(lines[i].clone());
        i = i + 1;
    }
    assert(lines@.subrange(0, lines@.len() as int) == lines@);
    let selected_kernel = match entries.selected() {
        Some(name) => Some(String::from_str(name)),
        None => None,
    };
    ConfigData { value_map: grub.keyvalues(), value_list, config_diff, selected_kernel }
}

} // verus!
