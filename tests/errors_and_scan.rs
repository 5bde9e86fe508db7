use bootkit::errors::{DCtx, DError, DErrorType};
use bootkit::menu::EntryScanner;

#[test]
fn error_texts() {
    let io = DErrorType::Io("Cannot read".to_string(), "denied".to_string());
    assert_eq!(io.as_string(), "Internal IO error: Cannot read (denied)");
    let db = DErrorType::Sqlx("query".to_string(), "gone".to_string());
    assert_eq!(db.as_string(), "Interal database error: query (gone)");
    let bus = DErrorType::Zbus("bus".to_string(), "down".to_string());
    assert_eq!(bus.as_string(), "Internal zbus error: bus (down)");
    let json = DErrorType::Serde("data".to_string(), "bad".to_string());
    assert_eq!(json.as_string(), "Json handling error: data (bad)");
}

#[test]
fn error_keeps_origin_and_trace() {
    let err = DError::generic(DCtx::new("here".to_string()), "oops".to_string());
    assert_eq!(err.context().as_str(), "here");
    let err = err.with_trace(DCtx::new("there".to_string()), "passing".to_string());
    assert_eq!(err.context().as_str(), "here");
    assert_eq!(err.error().as_string(), "Error: oops");
}

#[test]
fn scanner_steps() {
    let mut scanner = EntryScanner::new();
    scanner.feed("submenu 'A' {", Some("A".to_string()));
    scanner.feed("menuentry 'B' {", Some("B".to_string()));
    scanner.feed("}", None);
    scanner.feed("menuentry broken {", None);
    scanner.feed("}", None);
    scanner.feed("}", None);
    scanner.feed("}", None);
    scanner.feed("menuentry 'C' {", Some("C".to_string()));
    let entries = scanner.entries();
    assert_eq!(entries.len(), 2);
    assert_eq!(entries[0].full_path(), "A>B");
    assert_eq!(entries[1].full_path(), "C");
}
