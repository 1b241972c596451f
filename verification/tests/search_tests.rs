use sigresolve::search::find;

#[test]
fn find_locates_unique_occurrence() {
    let haystack = [0x10u8, 0x20, 0x30, 0xaa, 0xbb, 0xcc, 0x40];
    let needle = [0xaau8, 0xbb, 0xcc];
    assert_eq!(find(&haystack, &needle), Some(3));
}

#[test]
fn find_returns_first_of_multiple_occurrences() {
    let haystack = [1u8, 2, 1, 2];
    let needle = [1u8, 2];
    assert_eq!(find(&haystack, &needle), Some(0));
}

#[test]
fn find_returns_first_even_when_later_match_is_longer_lived() {
    let haystack = [9u8, 7, 7, 9, 7, 7, 9];
    let needle = [7u8, 7];
    assert_eq!(find(&haystack, &needle), Some(1));
}

#[test]
fn find_reports_missing_needle() {
    let haystack = [1u8, 2, 3, 4, 5];
    let needle = [3u8, 2];
    assert_eq!(find(&haystack, &needle), None);
}

#[test]
fn find_reports_needle_longer_than_haystack() {
    let haystack = [1u8, 2];
    let needle = [1u8, 2, 3];
    assert_eq!(find(&haystack, &needle), None);
}

#[test]
fn find_reports_missing_needle_in_empty_haystack() {
    let haystack: [u8; 0] = [];
    let needle = [1u8];
    assert_eq!(find(&haystack, &needle), None);
}

#[test]
fn find_accepts_needle_equal_to_haystack() {
    let haystack = [5u8, 6, 7];
    let needle = [5u8, 6, 7];
    assert_eq!(find(&haystack, &needle), Some(0));
}

#[test]
fn find_locates_needle_at_the_very_end() {
    let haystack = [0u8, 0, 0, 1, 2];
    let needle = [1u8, 2];
    assert_eq!(find(&haystack, &needle), Some(3));
}

#[test]
fn find_locates_single_byte_needle() {
    let haystack = [4u8, 5, 6, 5];
    let needle = [5u8];
    assert_eq!(find(&haystack, &needle), Some(1));
}

#[test]
fn find_rejects_partial_overlap_at_the_end() {
    // The prefix of the needle appears at the tail, but never the whole needle.
    let haystack = [1u8, 2, 3, 1, 2];
    let needle = [1u8, 2, 3, 4];
    assert_eq!(find(&haystack, &needle), None);
}
