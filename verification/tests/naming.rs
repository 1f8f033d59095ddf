use crtime::naming::{new_name, prefixed};
use crtime::Timestamp;

#[test]
fn prefixed_puts_one_space_between_stamp_and_name() {
    assert_eq!(prefixed("202307040905", "report.txt"), "202307040905 report.txt");
}

#[test]
fn prefixed_keeps_an_empty_name() {
    assert_eq!(prefixed("202307040905", ""), "202307040905 ");
}

#[test]
fn prefixed_keeps_an_empty_stamp() {
    assert_eq!(prefixed("", "a"), " a");
}

#[test]
fn prefixed_keeps_spaces_and_other_scripts() {
    assert_eq!(prefixed("1", " a b "), "1  a b ");
    assert_eq!(prefixed("1", "żółw.txt"), "1 żółw.txt");
}

#[test]
fn new_name_of_the_report() {
    let created = Timestamp::new(1_688_429_345, 0).unwrap();
    assert_eq!(new_name(&created, "report.txt"), "202307040905 report.txt");
}

#[test]
fn new_name_is_never_empty() {
    let created = Timestamp::new(0, 0).unwrap();
    assert_eq!(new_name(&created, ""), "197001010000 ");
}

#[test]
fn new_names_of_one_instant_differ_with_the_old_names() {
    let created = Timestamp::new(1_688_429_345, 0).unwrap();
    assert_ne!(new_name(&created, "a.txt"), new_name(&created, "b.txt"));
    assert_eq!(new_name(&created, "a.txt"), new_name(&created, "a.txt"));
}

#[test]
fn new_name_depends_on_the_instant() {
    let one = Timestamp::new(1_688_429_345, 0).unwrap();
    let other = Timestamp::new(1_688_429_346, 0).unwrap();
    assert_eq!(new_name(&one, "a"), "202307040905 a");
    assert_eq!(new_name(&other, "a"), "202307040906 a");
}
