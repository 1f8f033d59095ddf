use crtime::{Entry, FsItem, FsItemError, Metadata, Timestamp};
use std::io::{Error, ErrorKind};

fn at(secs: i64) -> Timestamp {
    Timestamp::new(secs, 0).unwrap()
}

fn boom(text: &str) -> Error {
    Error::new(ErrorKind::Other, text.to_string())
}

fn file(name: &str, parent: &str, secs: i64) -> Entry {
    Entry {
        name: Some(name.to_string()),
        parent: Some(parent.to_string()),
        metadata: Ok(Metadata { created: Ok(at(secs)), is_dir: false }),
    }
}

#[test]
fn a_file_becomes_an_item() {
    let item = FsItem::new(Ok(file("report.txt", "docs", 1_688_429_345))).unwrap();
    assert_eq!(item.created.secs(), 1_688_429_345);
    assert_eq!(item.created.nanos(), 0);
    assert_eq!(item.name, "report.txt");
    assert_eq!(item.new_name, "202307040905 report.txt");
    assert_eq!(item.path.parent, "docs");
    assert_eq!(item.path.name, "report.txt");
    assert_eq!(item.new_path.parent, "docs");
    assert_eq!(item.new_path.name, "202307040905 report.txt");
}

#[test]
fn an_item_stays_in_its_directory() {
    let item = FsItem::new(Ok(file("a", "/deep/down/here", 0))).unwrap();
    assert_eq!(item.new_path.parent, item.path.parent);
    assert_eq!(item.new_path.name, item.new_name);
    assert_eq!(item.path.name, item.name);
}

#[test]
fn an_unreadable_entry_is_an_io_error() {
    match FsItem::new(Err(boom("entry"))) {
        Err(FsItemError::Io(error)) => assert_eq!(error.to_string(), "entry"),
        other => panic!("unexpected: {:?}", other),
    }
}

#[test]
fn unreadable_metadata_is_an_io_error() {
    let entry = Entry {
        name: Some("a".to_string()),
        parent: Some("d".to_string()),
        metadata: Err(boom("metadata")),
    };
    match FsItem::new(Ok(entry)) {
        Err(FsItemError::Io(error)) => assert_eq!(error.to_string(), "metadata"),
        other => panic!("unexpected: {:?}", other),
    }
}

#[test]
fn an_unknown_creation_time_is_an_io_error() {
    let entry = Entry {
        name: Some("a".to_string()),
        parent: Some("d".to_string()),
        metadata: Ok(Metadata { created: Err(boom("created")), is_dir: false }),
    };
    match FsItem::new(Ok(entry)) {
        Err(FsItemError::Io(error)) => assert_eq!(error.to_string(), "created"),
        other => panic!("unexpected: {:?}", other),
    }
}

#[test]
fn a_directory_is_turned_down() {
    let mut entry = file("sub", "d", 0);
    entry.metadata = Ok(Metadata { created: Ok(at(0)), is_dir: true });
    assert!(matches!(FsItem::new(Ok(entry)), Err(FsItemError::ItemIsDir)));
}

#[test]
fn a_directory_without_creation_time_is_an_io_error() {
    let mut entry = file("sub", "d", 0);
    entry.metadata = Ok(Metadata { created: Err(boom("created")), is_dir: true });
    assert!(matches!(FsItem::new(Ok(entry)), Err(FsItemError::Io(_))));
}

#[test]
fn a_directory_without_name_or_parent_is_still_a_directory() {
    let entry = Entry {
        name: None,
        parent: None,
        metadata: Ok(Metadata { created: Ok(at(0)), is_dir: true }),
    };
    assert!(matches!(FsItem::new(Ok(entry)), Err(FsItemError::ItemIsDir)));
}

#[test]
fn a_path_without_name_is_turned_down() {
    let mut entry = file("a", "d", 0);
    entry.name = None;
    assert!(matches!(FsItem::new(Ok(entry)), Err(FsItemError::NameFailed)));
}

#[test]
fn a_missing_name_comes_before_a_missing_parent() {
    let mut entry = file("a", "d", 0);
    entry.name = None;
    entry.parent = None;
    assert!(matches!(FsItem::new(Ok(entry)), Err(FsItemError::NameFailed)));
}

#[test]
fn a_path_without_parent_is_turned_down() {
    let mut entry = file("a", "d", 0);
    entry.parent = None;
    assert!(matches!(FsItem::new(Ok(entry)), Err(FsItemError::ParentFailed)));
}

#[test]
fn an_io_error_converts_into_the_io_variant() {
    match FsItemError::from(boom("x")) {
        FsItemError::Io(error) => assert_eq!(error.to_string(), "x"),
        other => panic!("unexpected: {:?}", other),
    }
}

#[test]
fn a_rename_that_worked_gives_the_item() {
    let item = FsItem::new(Ok(file("a", "d", 0))).unwrap();
    let renamed = item.rename(Ok(())).unwrap();
    assert!(std::ptr::eq(renamed, &item));
}

#[test]
fn a_rename_that_failed_gives_the_item_and_the_reason() {
    let item = FsItem::new(Ok(file("a", "d", 0))).unwrap();
    let error = item.rename(Err(boom("denied"))).unwrap_err();
    assert!(std::ptr::eq(error.item, &item));
    assert_eq!(error.reason.to_string(), "denied");
}

#[test]
fn a_path_can_be_duplicated() {
    let item = FsItem::new(Ok(file("a", "d", 0))).unwrap();
    let copy = item.new_path.duplicate();
    assert_eq!(copy.parent, "d");
    assert_eq!(copy.name, "197001010000 a");
}
