use rocstr::rocerr::DEFAULT_MESSAGE;
use rocstr::InsufficientCapacity;
use rocstr::RocStr;

#[test]
fn default_rocerr_should_be_the_defined_default_value() {
    let expected = InsufficientCapacity::from(RocStr::<57>::from(DEFAULT_MESSAGE));
    let sample = InsufficientCapacity::default();

    assert_eq!(expected, sample);
}

#[test]
fn rocerr_from_str_should_contains_str_message() {
    let expected = InsufficientCapacity::from(RocStr::<25>::from("This is a capacity error."));
    let sample = InsufficientCapacity::from("This is a capacity error.");

    assert_eq!(expected, sample);
}

#[test]
fn rocerr_from_rocstr_should_contains_rocstr_message() {
    let expected = InsufficientCapacity::from(RocStr::<25>::from("This is a capacity error."));
    let sample = InsufficientCapacity::from(RocStr::<25>::from("This is a capacity error."));

    assert_eq!(expected, sample);
}

#[test]
fn rocerr_should_display_as_a_str_message() {
    let expected = "This is a capacity error.".to_string();
    let sample = InsufficientCapacity::<25>::from("This is a capacity error.").to_string();

    assert_eq!(expected, sample);
}

#[test]
fn default_message_fills_its_capacity_exactly() {
    assert_eq!(DEFAULT_MESSAGE.len(), 57);
    let error = InsufficientCapacity::default();
    assert_eq!(error.message().len(), 57);
    assert_eq!(error.to_string(), DEFAULT_MESSAGE);
}

#[test]
fn message_longer_than_capacity_is_cut_at_a_boundary() {
    let error = InsufficientCapacity::<8>::from("Löwe 老虎 Léopard");
    assert_eq!(error.message(), "Löwe ");
    assert_eq!(error.to_string(), "Löwe ");
}

#[test]
fn errors_compare_by_message() {
    let left = InsufficientCapacity::<16>::from("full");
    let right = InsufficientCapacity::<16>::from(RocStr::<16>::from("full"));
    let other = InsufficientCapacity::<16>::from("empty");
    assert_eq!(left, right);
    assert_ne!(left, other);
}
