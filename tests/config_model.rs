use bootkit::errors::DErrorType;
use bootkit::grub2::{GrubFile, GrubLine, KeyValue};

fn kv_of(line: &GrubLine) -> &KeyValue {
    match line {
        GrubLine::KeyValue(kv) => kv,
        GrubLine::String { .. } => panic!("expected a key-value line"),
    }
}

#[test]
fn round_trip_keeps_text() {
    let text = "# comment\n\nGRUB_TIMEOUT=5\nGRUB_CMDLINE_LINUX='quiet splash'\n  # indented\nGRUB_DEFAULT=\"0\"\n";
    let file = GrubFile::new(text).unwrap();
    assert_eq!(file.as_string(), text);
    assert_eq!(file.lines().len(), 7);
}

#[test]
fn round_trip_empty_text() {
    let file = GrubFile::new("").unwrap();
    assert_eq!(file.lines().len(), 1);
    assert_eq!(file.as_string(), "");
}

#[test]
fn parse_strips_quotes_and_keeps_original() {
    let file = GrubFile::new("A='x\"y'\nB = 2").unwrap();
    let a = kv_of(&file.lines()[0]);
    assert_eq!(a.key, "A");
    assert_eq!(a.value, "xy");
    assert_eq!(a.original, "A='x\"y'");
    assert!(!a.changed);
    assert_eq!(a.line, 0);
    let b = kv_of(&file.lines()[1]);
    assert_eq!(b.key, "B ");
    assert_eq!(b.value, " 2");
    assert_eq!(b.line, 1);
}

#[test]
fn parse_splits_at_first_equals() {
    let file = GrubFile::new("K=a=b").unwrap();
    let k = kv_of(&file.lines()[0]);
    assert_eq!(k.key, "K");
    assert_eq!(k.value, "a=b");
}

#[test]
fn parse_error_names_line() {
    let err = GrubFile::new("# ok\nA=1\nbroken line\n").unwrap_err();
    match err.error() {
        DErrorType::GrubParse(msg) => assert_eq!(msg, "Expected '=' on line: 3"),
        other => panic!("unexpected error {:?}", other),
    }
    assert_eq!(
        err.error().as_string(),
        "Internal Parse: Failed to parse grub config: Expected '=' on line: 3"
    );
}

#[test]
fn set_same_value_changes_nothing() {
    let text = "GRUB_TIMEOUT='5'\nGRUB_DEFAULT=0";
    let mut file = GrubFile::new(text).unwrap();
    file.set_key_value("GRUB_TIMEOUT", "5");
    assert_eq!(file.as_string(), text);
    assert!(!kv_of(&file.lines()[0]).changed);
}

#[test]
fn set_new_value_marks_changed() {
    let mut file = GrubFile::new("GRUB_TIMEOUT='5'\nGRUB_DEFAULT=0").unwrap();
    file.set_key_value("GRUB_TIMEOUT", "10");
    let kv = kv_of(&file.lines()[0]);
    assert!(kv.changed);
    assert_eq!(kv.value, "10");
    assert_eq!(kv.original, "GRUB_TIMEOUT='5'");
    assert_eq!(file.as_string(), "GRUB_TIMEOUT=\"10\"\nGRUB_DEFAULT=0");
}

#[test]
fn set_absent_key_appends_line() {
    let mut file = GrubFile::new("A=1\n# end").unwrap();
    file.set_key_value("FOO", "bar");
    assert_eq!(file.as_string(), "A=1\n# end\nFOO=\"bar\"");
    let kv = kv_of(&file.lines()[2]);
    assert!(kv.changed);
    assert_eq!(kv.line, 2);
    assert_eq!(kv.original, "");
}

#[test]
fn set_updates_last_duplicate() {
    let mut file = GrubFile::new("A=1\nA=2").unwrap();
    file.set_key_value("A", "3");
    assert_eq!(file.as_string(), "A=1\nA=\"3\"");
}

#[test]
fn keyvalues_last_occurrence_wins() {
    let file = GrubFile::new("A=1\nB=2\nA=3\n# c").unwrap();
    let kvs = file.keyvalues();
    assert_eq!(kvs.len(), 2);
    let a = kvs.iter().find(|kv| kv.key == "A").unwrap();
    assert_eq!(a.value, "3");
    assert_eq!(a.line, 2);
    let b = kvs.iter().find(|kv| kv.key == "B").unwrap();
    assert_eq!(b.value, "2");
}

#[test]
fn from_lines_replays_lines() {
    let lines = vec![
        GrubLine::String { raw_line: "# header".to_string() },
        GrubLine::KeyValue(KeyValue {
            line: 1,
            original: "GRUB_TIMEOUT=5".to_string(),
            changed: true,
            key: "GRUB_TIMEOUT".to_string(),
            value: "10".to_string(),
        }),
    ];
    let file = GrubFile::from_lines(&lines);
    assert_eq!(file.lines().len(), 2);
    assert_eq!(file.as_string(), "# header\nGRUB_TIMEOUT=\"10\"");
}

#[test]
fn key_value_helpers() {
    let mut kv = KeyValue::from_key_val(4, "K".to_string(), "v".to_string());
    assert!(kv.changed);
    assert_eq!(kv.line, 4);
    assert_eq!(kv.original, "");
    assert_eq!(kv.to_line(), "K=\"v\"");
    let mut plain = KeyValue {
        line: 0,
        original: "K='v'".to_string(),
        changed: false,
        key: "K".to_string(),
        value: "v".to_string(),
    };
    plain.update("v".to_string());
    assert!(!plain.changed);
    assert_eq!(plain.to_line(), "K='v'");
    plain.update("w".to_string());
    assert!(plain.changed);
    assert_eq!(plain.to_line(), "K=\"w\"");
    kv.update("x".to_string());
    assert_eq!(kv.value, "x");
}
