use bootkit::errors::DErrorType;
use bootkit::menu::{GrubBootEntries, GrubBootEntry};

const MENU: &str = "submenu 'A' {\n    menuentry 'B' {\n        linux /vmlinuz\n    }\n}\nmenuentry 'C' {\n}\n";

#[test]
fn nested_entries_get_submenu_path() {
    let entries = GrubBootEntry::parse_entries(MENU);
    assert_eq!(entries.len(), 2);
    assert_eq!(entries[0].entry(), "B");
    assert_eq!(entries[0].submenus(), &["A".to_string()][..]);
    assert_eq!(entries[1].entry(), "C");
    assert!(entries[1].submenus().is_empty());
    assert_eq!(entries[0].full_path(), "A>B");
    assert_eq!(entries[1].full_path(), "C");
}

#[test]
fn deeper_nesting_and_malformed_lines() {
    let menu = "submenu 'X' --class os {\n submenu 'Y' {\n  menuentry 'Z' {\n  }\n  menuentry broken {\n  }\n }\n}\nsubmenu noquote {\nmenuentry 'W' {\n}\n";
    let entries = GrubBootEntry::parse_entries(menu);
    assert_eq!(entries.len(), 2);
    assert_eq!(entries[0].full_path(), "X>Y>Z");
    assert_eq!(entries[1].entry(), "W");
    assert_eq!(entries[1].full_path(), "W");
}

#[test]
fn saved_entry_index_selects() {
    let menu = GrubBootEntries::new(MENU, "# GRUB Environment Block\nsaved_entry=1\n").unwrap();
    assert_eq!(menu.selected(), Some("C"));
    assert_eq!(menu.entry_names(), vec!["B", "C"]);
}

#[test]
fn saved_entry_name_selects() {
    let menu = GrubBootEntries::new(MENU, "saved_entry=C\n").unwrap();
    assert_eq!(menu.selected(), Some("C"));
    let menu = GrubBootEntries::new(MENU, "saved_entry= B \n").unwrap();
    assert_eq!(menu.selected(), Some("B"));
}

#[test]
fn saved_entry_out_of_range_or_unknown() {
    let menu = GrubBootEntries::new(MENU, "saved_entry=7\n").unwrap();
    assert_eq!(menu.selected(), None);
    let menu = GrubBootEntries::new(MENU, "saved_entry=A>B\n").unwrap();
    assert_eq!(menu.selected(), None);
    let menu = GrubBootEntries::new(MENU, "saved_entry=+0\n").unwrap();
    assert_eq!(menu.selected(), Some("B"));
    let menu = GrubBootEntries::new(MENU, "saved_entry=99999999999999999999999\n").unwrap();
    assert_eq!(menu.selected(), None);
}

#[test]
fn saved_entry_empty_value_fails() {
    let err = GrubBootEntries::new(MENU, "saved_entry=  \n").err().unwrap();
    match err.error() {
        DErrorType::GrubParse(msg) => {
            assert_eq!(msg, "Malformed grubenv. Expected value after saved_entry")
        }
        other => panic!("unexpected error {:?}", other),
    }
}

#[test]
fn saved_entry_without_equals_fails() {
    let err = GrubBootEntries::new(MENU, "saved_entry\n").err().unwrap();
    match err.error() {
        DErrorType::GrubParse(msg) => {
            assert_eq!(msg, "Malformed grubenv. Expected '=' after saved_entry")
        }
        other => panic!("unexpected error {:?}", other),
    }
}

#[test]
fn missing_saved_entry_selects_nothing() {
    let menu = GrubBootEntries::new(MENU, "# GRUB Environment Block\nnext_entry=1\n").unwrap();
    assert_eq!(menu.selected(), None);
    assert_eq!(menu.entries().len(), 2);
    assert!(menu.has_entry("B"));
    assert!(!menu.has_entry("A"));
}
