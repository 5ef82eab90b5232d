use xkcdwat::search::{find_first, find_from, is_first_at, matches_at, push_range, replace_first};

#[test]
fn finds_the_first_of_several_occurrences() {
    assert_eq!(find_first(b"abcabc", b"bc"), Some(1));
    assert_eq!(find_first(b"abcabc", b"abc"), Some(0));
    assert_eq!(find_first(b"abcabc", b"cb"), None);
    assert_eq!(find_first(b"ab", b"abc"), None);
    assert_eq!(find_first(b"", b"a"), None);
}

#[test]
fn an_empty_needle_occurs_at_the_start() {
    assert_eq!(find_first(b"abc", b""), Some(0));
    assert_eq!(find_first(b"", b""), Some(0));
    assert_eq!(find_from(b"abc", b"", 3), Some(3));
    assert_eq!(find_from(b"abc", b"", 4), None);
}

#[test]
fn finds_from_an_offset_on() {
    assert_eq!(find_from(b"abcabc", b"bc", 0), Some(1));
    assert_eq!(find_from(b"abcabc", b"bc", 1), Some(1));
    assert_eq!(find_from(b"abcabc", b"bc", 2), Some(4));
    assert_eq!(find_from(b"abcabc", b"bc", 5), None);
    assert_eq!(find_from(b"abcabc", b"bc", 100), None);
}

#[test]
fn tells_an_occurrence_from_none() {
    assert!(matches_at(b"abcabc", b"ca", 2));
    assert!(!matches_at(b"abcabc", b"ca", 3));
    assert!(!matches_at(b"abcabc", b"bc", 5));
    assert!(!matches_at(b"abcabc", b"bc", 7));
    assert!(matches_at(b"abc", b"", 3));
    assert!(is_first_at(b"abcabc", b"bc", 2, 4));
    assert!(!is_first_at(b"abcabc", b"bc", 1, 4));
    assert!(!is_first_at(b"abcabc", b"bc", 2, 3));
}

#[test]
fn replaces_the_first_occurrence_only() {
    assert_eq!(replace_first(b"one two one", b"one", b"1"), b"1 two one".to_vec());
    assert_eq!(replace_first(b"a-b-c", b"-", b"++"), b"a++b-c".to_vec());
    assert_eq!(replace_first(b"abc", b"c", b""), b"ab".to_vec());
    assert_eq!(replace_first(b"abc", b"x", b"y"), b"abc".to_vec());
    assert_eq!(replace_first(b"abc", b"", b"-"), b"-abc".to_vec());
    assert_eq!(replace_first(b"", b"", b"-"), b"-".to_vec());
}

#[test]
fn appends_a_range_of_bytes() {
    let mut out = b"ab".to_vec();
    push_range(&mut out, b"0123456", 2, 5);
    assert_eq!(out, b"ab234".to_vec());
    push_range(&mut out, b"0123456", 7, 7);
    assert_eq!(out, b"ab234".to_vec());
}

#[test]
fn replacing_agrees_with_the_standard_library_on_generated_text() {
    let pieces = ["ab", "a", "b", "ba", "é", "", "c", "aab"];
    let mut state: u64 = 0x9e37_79b9_7f4a_7c15;
    let mut next = move || {
        state = state.wrapping_mul(6364136223846793005).wrapping_add(1442695040888963407);
        (state >> 33) as usize
    };
    for _ in 0..3000 {
        let mut hay = String::new();
        for _ in 0..next() % 8 {
            hay.push_str(pieces[next() % pieces.len()]);
        }
        let needle = pieces[next() % pieces.len()];
        let with = pieces[next() % pieces.len()];
        assert_eq!(
            replace_first(hay.as_bytes(), needle.as_bytes(), with.as_bytes()),
            hay.replacen(needle, with, 1).into_bytes(),
            "on {:?} {:?} {:?}",
            hay,
            needle,
            with
        );
        assert_eq!(find_first(hay.as_bytes(), needle.as_bytes()), hay.find(needle));
    }
}
