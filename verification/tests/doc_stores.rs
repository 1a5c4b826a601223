use langchain_core::doc_stores::matches_search;

#[test]
fn search_ignores_case_on_both_sides() {
    assert!(matches_search("Hello World", "hello"));
    assert!(matches_search("hello world", "WORLD"));
    assert!(matches_search("ÄPFEL und Birnen", "äpfel"));
}

#[test]
fn search_needs_the_whole_text() {
    assert!(!matches_search("Hello World", "worlds"));
    assert!(!matches_search("", "a"));
    assert!(matches_search("anything", ""));
}
