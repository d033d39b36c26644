use markdown_viewer::SearchState;

#[test]
fn test_find_single_match() {
    let text = "Hello world";
    let state = SearchState::new("world".to_string(), text);

    assert_eq!(state.match_count(), 1);
    assert_eq!(state.current_match_number(), Some(1));

    let m = state.current_match().unwrap();
    assert_eq!(m.start, 6);
    assert_eq!(m.end, 11);
}

#[test]
fn test_find_multiple_matches() {
    let text = "foo bar foo baz foo";
    let state = SearchState::new("foo".to_string(), text);

    assert_eq!(state.match_count(), 3);
    assert_eq!(state.matches()[0].start, 0);
    assert_eq!(state.matches()[1].start, 8);
    assert_eq!(state.matches()[2].start, 16);
}

#[test]
fn test_case_insensitive() {
    let text = "Markdown MARKDOWN markdown";
    let state = SearchState::new("markdown".to_string(), text);

    assert_eq!(state.match_count(), 3);
}

#[test]
fn test_no_matches() {
    let text = "Hello world";
    let state = SearchState::new("xyz".to_string(), text);

    assert_eq!(state.match_count(), 0);
    assert_eq!(state.current_match_number(), None);
}

#[test]
fn test_empty_query() {
    let text = "Hello world";
    let state = SearchState::new("".to_string(), text);

    assert_eq!(state.match_count(), 0);
}

#[test]
fn test_navigation_forward() {
    let text = "a b a b a";
    let mut state = SearchState::new("a".to_string(), text);

    assert_eq!(state.current_match_number(), Some(1));

    state.next_match();
    assert_eq!(state.current_match_number(), Some(2));

    state.next_match();
    assert_eq!(state.current_match_number(), Some(3));

    // Wrap around
    state.next_match();
    assert_eq!(state.current_match_number(), Some(1));
}

#[test]
fn test_navigation_backward() {
    let text = "a b a b a";
    let mut state = SearchState::new("a".to_string(), text);

    // Start at first, go back wraps to last
    state.prev_match();
    assert_eq!(state.current_match_number(), Some(3));

    state.prev_match();
    assert_eq!(state.current_match_number(), Some(2));

    state.prev_match();
    assert_eq!(state.current_match_number(), Some(1));
}

#[test]
fn test_is_match_at() {
    let text = "Hello world";
    let state = SearchState::new("world".to_string(), text);

    assert!(!state.is_match_at(0));
    assert!(!state.is_match_at(5));
    assert!(state.is_match_at(6));
    assert!(state.is_match_at(10));
    assert!(!state.is_match_at(11));
}

#[test]
fn test_is_current_match_at() {
    let text = "foo bar foo";
    let mut state = SearchState::new("foo".to_string(), text);

    // First match is current
    assert!(state.is_current_match_at(0));
    assert!(!state.is_current_match_at(8));

    // Move to second match
    state.next_match();
    assert!(!state.is_current_match_at(0));
    assert!(state.is_current_match_at(8));
}

#[test]
fn search_matches_never_overlap() {
    let state = SearchState::new("aa".to_string(), "aaaa");
    assert_eq!(state.match_count(), 2);
    assert_eq!(state.matches()[0].start, 0);
    assert_eq!(state.matches()[1].start, 2);
}

#[test]
fn search_query_is_kept() {
    let state = SearchState::new("Needle".to_string(), "haystack with needle");
    assert_eq!(state.query(), "Needle");
    assert_eq!(state.match_count(), 1);
    assert_eq!(state.matches()[0].start, 14);
}
