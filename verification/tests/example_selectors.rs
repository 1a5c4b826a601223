use langchain_core::example_selectors::{get_example_text_length, joined_texts, NGramExampleSelector};
use langchain_core::json::{parse_json, JsonNode};

fn value(json: &str) -> JsonNode {
    parse_json(json).unwrap()
}

fn make_example(text: &str) -> String {
    joined_texts(&vec![value(&format!("\"{}\"", text))])
}

#[test]
fn test_ngram_selector_empty_examples() {
    let selector = NGramExampleSelector::new(vec![], 3, 2);
    let input = make_example("test");
    let selected = selector.select_positions(&input);
    assert!(selected.is_empty());
}

#[test]
fn test_ngram_selector_selects_most_similar() {
    let examples = vec![
        make_example("the quick brown fox"),
        make_example("jumps over the lazy dog"),
        make_example("completely unrelated topic here"),
    ];
    let selector = NGramExampleSelector::new(examples, 1, 2);
    let input = make_example("quick brown fox");
    let selected = selector.select_positions(&input);
    assert_eq!(selected.len(), 1);
    assert_eq!(selected, vec![0]);
}

#[test]
fn test_ngram_jaccard_similarity() {
    let selector = NGramExampleSelector::new(vec![], 1, 2);
    let (inter, union) = selector.overlap("hello", "hello");
    let sim = inter as f32 / union as f32;
    assert!((sim - 1.0).abs() < 1e-6);
}

#[test]
fn test_ngram_jaccard_similarity_no_match() {
    let selector = NGramExampleSelector::new(vec![], 1, 3);
    let (inter, union) = selector.overlap("abc", "xyz");
    let sim = inter as f32 / union as f32;
    assert!((sim - 0.0).abs() < 1e-6);
}

#[test]
fn test_ngram_get_ngrams() {
    let selector = NGramExampleSelector::new(vec![], 1, 2);
    let ngrams = selector.get_ngrams("abc");
    assert_eq!(ngrams, vec!["ab", "bc"]);
}

#[test]
fn test_ngram_get_ngrams_shorter_than_n() {
    let selector = NGramExampleSelector::new(vec![], 1, 5);
    let ngrams = selector.get_ngrams("hi");
    assert_eq!(ngrams, vec!["hi"]);
}

#[test]
fn test_ngram_add_example() {
    let mut selector = NGramExampleSelector::new(vec![], 3, 2);
    selector.add_example(make_example("new example"));
    assert_eq!(selector.examples.len(), 1);
}

#[test]
fn test_get_example_text_length_string() {
    let example = vec![value("\"hello\"")];
    assert_eq!(get_example_text_length(&example), 5);
}

#[test]
fn test_get_example_text_length_number() {
    let example = vec![value("42")];
    assert!(get_example_text_length(&example) > 0);
}

#[test]
fn overlap_counts_distinct_ngrams() {
    let selector = NGramExampleSelector::new(vec![], 1, 2);
    // "aaa" has the single 2-gram "aa"; "aab" has "aa" and "ab".
    assert_eq!(selector.overlap("aaa", "aab"), (1, 2));
    assert_eq!(selector.overlap("aab", "aaa"), (1, 2));
    assert_eq!(selector.overlap("", ""), (1, 1));
}

#[test]
fn ngram_ranking_orders_by_similarity_then_position() {
    let examples = vec!["xyz".to_string(), "abd".to_string(), "abc".to_string(), "abc".to_string()];
    let selector = NGramExampleSelector::new(examples, 3, 2);
    assert_eq!(selector.select_positions("abc"), vec![2, 3, 1]);
    let all = selector.clone().with_k(10).select_positions("abc");
    assert_eq!(all, vec![2, 3, 1, 0]);
    assert!(selector.with_k(0).select_positions("abc").is_empty());
}

#[test]
fn example_length_counts_string_content_and_json_text() {
    let example = vec![value("\"hé\""), value("[1, 2]"), value("null")];
    assert_eq!(get_example_text_length(&example), 3 + 5 + 4);
    assert_eq!(joined_texts(&example), "\"hé\" [1,2] null");
}
