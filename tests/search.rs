use drills::search::find_contains;

#[test]
fn find_contains_test() {
    let v = vec!["apple", "banana", "cherry", "coconut", "grape"];
    assert_eq!(find_contains(&v, "ap"), vec![0, 4])
}

#[test]
fn empty_needle_matches_every_index() {
    let v = vec!["apple", "", "cherry", "x"];
    assert_eq!(find_contains(&v, ""), vec![0, 1, 2, 3]);
}

#[test]
fn empty_haystack_finds_nothing() {
    let v: Vec<&str> = Vec::new();
    assert_eq!(find_contains(&v, "ap"), Vec::<usize>::new());
    assert_eq!(find_contains(&v, ""), Vec::<usize>::new());
}

#[test]
fn match_is_case_sensitive() {
    let v = vec!["Apple", "apple", "APPLE"];
    assert_eq!(find_contains(&v, "app"), vec![1]);
}

#[test]
fn needle_longer_than_element() {
    let v = vec!["ab", "abc", "xabcx"];
    assert_eq!(find_contains(&v, "abc"), vec![1, 2]);
}

#[test]
fn match_at_end_and_whole_string() {
    let v = vec!["grape", "ape", "ep", "pe"];
    assert_eq!(find_contains(&v, "pe"), vec![0, 1, 3]);
}

#[test]
fn non_ascii_characters_match() {
    let v = vec!["caf\u{e9}", "cafe", "\u{e9}t\u{e9}"];
    assert_eq!(find_contains(&v, "\u{e9}"), vec![0, 2]);
}
