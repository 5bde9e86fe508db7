use bootkit::errors::DErrorType;
use bootkit::grub2::{GrubFile, GrubLine, KeyValue};
use bootkit::menu::GrubBootEntries;
use bootkit::snapshot::{config_data, config_diff, diff_if_nonempty, diff_if_not_blank, prepare_save, snapshot_diff, Grub2Snapshot, SelectedSnapshot};
use bootkit::store::SnapshotStore;
use bootkit::watch::{batch_changed, FileEvent};

const MENU: &str = "menuentry 'Linux' {\n}\nmenuentry 'Old' {\n}\n";

fn message(kind: &DErrorType) -> String {
    match kind {
        DErrorType::Error(msg) => msg.clone(),
        other => panic!("unexpected error {:?}", other),
    }
}

fn timeout_line(value: &str) -> GrubLine {
    GrubLine::KeyValue(KeyValue {
        line: 0,
        original: "GRUB_TIMEOUT=5".to_string(),
        changed: true,
        key: "GRUB_TIMEOUT".to_string(),
        value: value.to_string(),
    })
}

#[test]
fn save_config_end_to_end() {
    let on_disk = "GRUB_TIMEOUT=5\n";
    let mut store = SnapshotStore::initialize(on_disk.to_string(), None, 100);
    let entries = GrubBootEntries::new(MENU, "").unwrap();
    let update = prepare_save(&[timeout_line("10")], &None, &entries).unwrap();
    assert_eq!(update.config, "GRUB_TIMEOUT=\"10\"");
    assert_eq!(update.set_default, None);
    let id = store.commit_save(update.config.clone(), None, 200);
    assert_eq!(id, 2);
    let snapshots = store.grub2_snapshots();
    assert_eq!(snapshots.len(), 2);
    assert_eq!(snapshots[0].id, 2);
    assert_eq!(snapshots[0].grub_config, "GRUB_TIMEOUT=\"10\"");
    assert_eq!(snapshots[1].id, 1);
    assert_eq!(snapshots[1].grub_config, "GRUB_TIMEOUT=5\n");
    assert_eq!(store.selected_snapshot().grub2_snapshot_id, None);
    assert_eq!(store.selected_id(), 2);
    assert_eq!(store.latest_grub2().id, 2);
}

#[test]
fn save_with_unknown_kernel_fails() {
    let entries = GrubBootEntries::new(MENU, "").unwrap();
    let err = prepare_save(&[timeout_line("10")], &Some("Nope".to_string()), &entries).err().unwrap();
    assert_eq!(message(err.error()), "Kernel entry 'Nope' is not found from grub configs");
    assert_eq!(
        err.error().as_string(),
        "Error: Kernel entry 'Nope' is not found from grub configs"
    );
}

#[test]
fn save_with_known_kernel_sets_default() {
    let entries = GrubBootEntries::new(MENU, "").unwrap();
    let update = prepare_save(&[timeout_line("10")], &Some("Old".to_string()), &entries).unwrap();
    assert_eq!(update.config, "GRUB_TIMEOUT=\"10\"\nGRUB_DEFAULT=\"saved\"");
    assert_eq!(update.set_default, Some("Old".to_string()));
}

fn three_snapshots() -> SnapshotStore {
    let mut store = SnapshotStore::initialize("A=1".to_string(), None, 1);
    store.commit_save("A=2".to_string(), None, 2);
    store.commit_save("A=3".to_string(), Some("Old".to_string()), 3);
    store
}

#[test]
fn remove_selected_snapshot_fails() {
    let mut store = three_snapshots();
    let err = store.remove_snapshot(3).err().unwrap();
    assert_eq!(message(err.error()), "Cannot remove currently selected snapshot");
    assert_eq!(store.grub2_snapshots().len(), 3);
}

#[test]
fn remove_other_snapshot_keeps_selection() {
    let mut store = three_snapshots();
    store.remove_snapshot(1).unwrap();
    let ids: Vec<i64> = store.grub2_snapshots().iter().map(|s| s.id).collect();
    assert_eq!(ids, vec![3, 2]);
    assert_eq!(store.selected_snapshot().grub2_snapshot_id, None);
    store.remove_snapshot(42).unwrap();
    assert_eq!(store.grub2_snapshots().len(), 2);
}

#[test]
fn select_snapshot_pins_it() {
    let mut store = three_snapshots();
    let entries = GrubBootEntries::new(MENU, "").unwrap();
    let err = store.prepare_select(3, &entries).err().unwrap();
    assert_eq!(message(err.error()), "Cannot reselect currently selected snapshot");
    let update = store.prepare_select(1, &entries).unwrap();
    assert_eq!(update.config, "A=1");
    assert_eq!(update.set_default, None);
    store.commit_select(1);
    assert_eq!(store.selected_snapshot().grub2_snapshot_id, Some(1));
    assert_eq!(store.selected_id(), 1);
    let err = store.remove_snapshot(1).err().unwrap();
    assert_eq!(message(err.error()), "Cannot remove currently selected snapshot");
    store.remove_snapshot(3).unwrap();
    let err = store.prepare_select(1, &entries).err().unwrap();
    assert_eq!(message(err.error()), "Cannot reselect currently selected snapshot");
    let err = store.prepare_select(9, &entries).err().unwrap();
    assert_eq!(message(err.error()), "Cannot find snapshot");
}

#[test]
fn select_snapshot_with_kernel() {
    let store = three_snapshots();
    let mut store = store;
    store.commit_select(1);
    let entries = GrubBootEntries::new(MENU, "").unwrap();
    let update = store.prepare_select(3, &entries).unwrap();
    assert_eq!(update.config, "A=3\nGRUB_DEFAULT=\"saved\"");
    assert_eq!(update.set_default, Some("Old".to_string()));
    let other = GrubBootEntries::new("menuentry 'Linux' {\n}\n", "").unwrap();
    let err = store.prepare_select(3, &other).err().unwrap();
    assert_eq!(message(err.error()), "Kernel entry 'Old' is not found from grub configs");
}

#[test]
fn from_rows_checks_rows() {
    let row = |id: i64| Grub2Snapshot { id, grub_config: "A=1".to_string(), selected_kernel: None, created: 0 };
    assert!(SnapshotStore::from_rows(vec![], SelectedSnapshot { grub2_snapshot_id: None }).is_none());
    assert!(SnapshotStore::from_rows(vec![row(2), row(1)], SelectedSnapshot { grub2_snapshot_id: None }).is_none());
    assert!(SnapshotStore::from_rows(vec![row(1), row(4)], SelectedSnapshot { grub2_snapshot_id: Some(3) }).is_none());
    let store = SnapshotStore::from_rows(vec![row(1), row(4)], SelectedSnapshot { grub2_snapshot_id: Some(1) }).unwrap();
    assert_eq!(store.selected_id(), 1);
}

#[test]
fn diffs_of_texts() {
    assert_eq!(config_diff("A=1\n", "A=1\n"), None);
    let d = config_diff("A=1\n", "A=2\n").unwrap();
    assert!(d.contains("-A=1"));
    assert!(d.contains("+A=2"));
    assert_eq!(snapshot_diff("A=1\n", "A=1\n"), None);
    let d = snapshot_diff("A=1\n", "A=2\n").unwrap();
    assert!(d.contains("+A=2"));
    assert_eq!(diff_if_nonempty(String::new()), None);
    assert_eq!(diff_if_nonempty(" ".to_string()), Some(" ".to_string()));
    assert_eq!(diff_if_not_blank(" \n".to_string()), None);
}

#[test]
fn listing_is_newest_first() {
    let store = three_snapshots();
    let data = store.list_snapshots("A=3");
    assert_eq!(data.snapshots.len(), 3);
    assert_eq!(data.snapshots[0].snapshot.id, 3);
    assert_eq!(data.snapshots[0].diff, None);
    assert_eq!(data.snapshots[2].snapshot.id, 1);
    assert!(data.snapshots[2].diff.as_ref().unwrap().contains("+A=1"));
    assert_eq!(data.selected.grub2_snapshot_id, None);
}

#[test]
fn config_data_shows_file() {
    let grub = GrubFile::new("A=1\n# c\nA=2").unwrap();
    let entries = GrubBootEntries::new(MENU, "saved_entry=0").unwrap();
    let latest = Grub2Snapshot { id: 1, grub_config: "A=1\n# c\nA=2".to_string(), selected_kernel: None, created: 0 };
    let data = config_data(&grub, &entries, &latest);
    assert_eq!(data.value_list.len(), 3);
    assert_eq!(data.value_map.len(), 1);
    assert_eq!(data.value_map[0].value, "2");
    assert_eq!(data.config_diff, None);
    assert_eq!(data.selected_kernel, Some("Linux".to_string()));
    let older = Grub2Snapshot { id: 1, grub_config: "A=1".to_string(), selected_kernel: None, created: 0 };
    assert!(config_data(&grub, &entries, &older).config_diff.is_some());
}

#[test]
fn one_signal_per_batch() {
    let ev = |modify: bool, name: Option<&str>| FileEvent { modify, name: name.map(|n| n.to_string()) };
    assert!(batch_changed(&[ev(true, Some("grub")), ev(true, Some("grub"))], "grub"));
    assert!(!batch_changed(&[ev(true, Some("other")), ev(false, Some("grub")), ev(true, None)], "grub"));
    assert!(!batch_changed(&[], "grub"));
}
