use ceceio::SmallString;
use std::ops::Not;

#[test]
fn creates_inlined_small_strings_correctly() {
    let hey = SmallString::new("hey");
    assert_eq!(hey.as_str(), "hey");
    assert!(hey.is_in_heap().not());

    let length_22 = SmallString::new("abcdefghijkabcdefghijk");
    assert_eq!(length_22.as_str(), "abcdefghijkabcdefghijk");
    assert!(length_22.is_in_heap().not());

    let length_23 = SmallString::new("abcdefghijkabcdefghijkz");
    assert_eq!(length_23.as_str(), "abcdefghijkabcdefghijkz");
    assert!(length_23.is_in_heap());
}
