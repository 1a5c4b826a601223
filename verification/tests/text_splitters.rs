use langchain_core::text_splitters::{
    CharacterTextSplitter, CodeTextSplitter, ExperimentalMarkdownSyntaxSplitter, JsxTextSplitter,
    LatexTextSplitter, MarkdownTextSplitter, PythonCodeTextSplitter, RecursiveCharacterTextSplitter,
    XslTextSplitter, HtmlTextSplitter, JsonTextSplitter, NltkTextSplitter, SpacyTextSplitter,
    HtmlSectionSplitter, RecursiveJsonSplitter, KonlpySplitter, MarkdownHeaderTextSplitter,
    SentenceTransformersTextSplitter, TokenTextSplitter,
};
use langchain_core::chunk_merge::merge_with_overlap;

#[test]
fn test_jsx_text_splitter() {
    let splitter = JsxTextSplitter::new(4000, 0);
    let jsx = "import React from 'react';\n\nfunction App() {\n  return <div>Hello</div>;\n}\n\nexport default App;";
    let chunks = splitter.split_text(jsx).unwrap();
    assert!(!chunks.is_empty());
}

#[test]
fn test_xsl_text_splitter() {
    let splitter = XslTextSplitter::new(4000, 0);
    let xsl = "<xsl:stylesheet version=\"1.0\">\n<xsl:template match=\"/\">\n<html/>\n</xsl:template>\n<xsl:if test=\"true\">\n<output/>\n</xsl:if>\n</xsl:stylesheet>";
    let chunks = splitter.split_text(xsl).unwrap();
    assert!(!chunks.is_empty());
}

#[test]
fn test_experimental_markdown_syntax_splitter() {
    let splitter = ExperimentalMarkdownSyntaxSplitter::new(4000, 0);
    let md = "# Title\n\nThis is a paragraph.\n\n## Subtitle\n\nAnother paragraph.";
    let chunks = splitter.split_text(md).unwrap();
    assert!(!chunks.is_empty());
}



#[test]
fn test_recursive_character_splitter() {
    let splitter = RecursiveCharacterTextSplitter::new(
        vec!["\n\n".into(), "\n".into(), " ".into(), "".into()],
        50, 0,
    );
    let text = "Lorem ipsum dolor sit amet, consectetur adipiscing elit. Sed do eiusmod tempor incididunt ut labore et dolore magna aliqua.";
    let chunks = splitter.split_text(text).unwrap();
    assert!(chunks.len() >= 2);
}

#[test]
fn test_recursive_character_splitter_single_chunk() {
    let splitter = RecursiveCharacterTextSplitter::default();
    let chunks = splitter.split_text("short text").unwrap();
    assert_eq!(chunks.len(), 1);
}

#[test]
fn test_code_splitter() {
    let splitter = CodeTextSplitter::new("rust", 4000, 0);
    let code = "fn main() {\n    println!(\"hello\");\n}";
    let chunks = splitter.split_text(code).unwrap();
    assert!(!chunks.is_empty());
}

#[test]
fn test_python_code_splitter() {
    let splitter = PythonCodeTextSplitter::new(4000, 0);
    let code = "def foo():\n    pass\n\nclass Bar:\n    pass";
    let chunks = splitter.split_text(code).unwrap();
    assert!(!chunks.is_empty());
}

#[test]
fn test_markdown_text_splitter() {
    let splitter = MarkdownTextSplitter::new(4000, 0);
    let md = "# H1\ncontent\n## H2\nmore content";
    let chunks = splitter.split_text(md).unwrap();
    assert!(!chunks.is_empty());
}

#[test]
fn test_latex_splitter() {
    let splitter = LatexTextSplitter::new(4000, 0);
    let latex = "\\chapter{Intro}\nContent\n\\section{Details}\nMore content";
    let chunks = splitter.split_text(latex).unwrap();
    assert!(!chunks.is_empty());
}


#[test]
fn character_splitter_merges_within_chunk_size() {
    let splitter = CharacterTextSplitter::new("\n", 11, 0);
    let chunks = splitter.split_text("hello\nworld\nfoo").unwrap();
    assert_eq!(chunks, vec!["hello\nworld".to_string(), "foo".to_string()]);
}

#[test]
fn character_splitter_exact_chunks() {
    let splitter = CharacterTextSplitter::new(" ", 5, 0);
    let chunks = splitter.split_text("a b c d e").unwrap();
    assert_eq!(chunks, vec!["a b c".to_string(), "d e".to_string()]);
}

#[test]
fn character_splitter_empty_separator_splits_chars() {
    let splitter = CharacterTextSplitter::new("", 2, 0);
    let chunks = splitter.split_text("abc").unwrap();
    assert_eq!(chunks, vec!["ab".to_string(), "c".to_string()]);
}

#[test]
fn recursive_splitter_exact_chunks() {
    let splitter = RecursiveCharacterTextSplitter::new(vec![" ".into(), "".into()], 5, 0);
    let chunks = splitter.split_text("aa bb cccccccc").unwrap();
    assert_eq!(chunks, vec!["aa bb".to_string(), "ccccc".to_string(), "ccc".to_string()]);
}

#[test]
fn recursive_splitter_no_separators_keeps_text() {
    let splitter = RecursiveCharacterTextSplitter::new(vec![], 3, 0);
    let chunks = splitter.split_text("abcdef").unwrap();
    assert_eq!(chunks, vec!["abcdef".to_string()]);
}

#[test]
fn recursive_splitter_counts_bytes() {
    // each "é" takes two bytes
    let splitter = RecursiveCharacterTextSplitter::new(vec!["".into()], 4, 0);
    let chunks = splitter.split_text("ééé").unwrap();
    assert_eq!(chunks, vec!["éé".to_string(), "é".to_string()]);
}

#[test]
fn test_html_text_splitter() {
    let splitter = HtmlTextSplitter::new(4000, 0);
    let html = "<h1>Title</h1><p>Content under h1</p><h2>Subtitle</h2><p>Content under h2</p>";
    let chunks = splitter.split_text(html).unwrap();
    assert!(!chunks.is_empty());
    let combined = chunks.join("\n");
    assert!(combined.contains("<h1>"));
    assert!(combined.contains("<h2>"));
}

#[test]
fn test_json_text_splitter() {
    let splitter = JsonTextSplitter::new(4000, 0, 5);
    let json = r#"{"name": "Alice", "age": 30, "city": "NYC"}"#;
    let chunks = splitter.split_text(json).unwrap();
    assert!(!chunks.is_empty());
}

#[test]
fn test_json_text_splitter_invalid_fallback() {
    let splitter = JsonTextSplitter::new(4000, 0, 5);
    let text = "not json\nline two\nline three";
    let chunks = splitter.split_text(text).unwrap();
    assert!(!chunks.is_empty());
}

#[test]
fn test_nltk_text_splitter() {
    let splitter = NltkTextSplitter::new(4000, 0);
    let text = "Hello world. This is a test. How are you doing today?";
    let chunks = splitter.split_text(text).unwrap();
    assert!(!chunks.is_empty());
}

#[test]
fn test_spacy_text_splitter() {
    let splitter = SpacyTextSplitter::new(4000, 0);
    let text = "The quick brown fox jumps. Over the lazy dog. It was a sunny day.";
    let chunks = splitter.split_text(text).unwrap();
    assert!(!chunks.is_empty());
}

#[test]
fn test_html_section_splitter() {
    let splitter = HtmlSectionSplitter::new(4000, 0);
    let html = "<h1>Title</h1><p>Content</p><h2>Subtitle</h2><p>More content</p>";
    let chunks = splitter.split_text(html).unwrap();
    assert!(!chunks.is_empty());
}

#[test]
fn test_recursive_json_splitter() {
    let splitter = RecursiveJsonSplitter::new(4000, 0, 5);
    let json = r#"{"name": "Alice", "age": 30, "city": "NYC"}"#;
    let chunks = splitter.split_text(json).unwrap();
    assert!(!chunks.is_empty());
}

#[test]
fn test_konlpy_splitter() {
    let splitter = KonlpySplitter::new(4000, 0);
    let text = "안녕하세요. 저는 한국어를 공부하고 있습니다. 오늘은 날씨가 좋습니다.";
    let chunks = splitter.split_text(text).unwrap();
    assert!(!chunks.is_empty());
}

#[test]
fn test_markdown_header_splitter() {
    let splitter = MarkdownHeaderTextSplitter::new(4000, 0);
    let chunks = splitter.split_text("# Title\ncontent\n## Subtitle\nmore").unwrap();
    assert_eq!(chunks.len(), 1);
}

#[test]
fn test_sentence_transformers_splitter() {
    let splitter = SentenceTransformersTextSplitter::new(4000, 0);
    let text = "First sentence. Second sentence. Third sentence!";
    let chunks = splitter.split_text(text).unwrap();
    assert!(!chunks.is_empty());
}

#[test]
fn test_html_section_splitter_without_headers() {
    let splitter = HtmlSectionSplitter::new(4000, 0).with_include_headers(false);
    let html = "<h1>Title</h1><p>Content</p>";
    let chunks = splitter.split_text(html).unwrap();
    assert!(!chunks.is_empty());
}

#[test]
fn html_sections_carry_header_and_trimmed_content() {
    let splitter = HtmlTextSplitter::new(4000, 0);
    let chunks = splitter.split_text("<h1>A</h1> x <h2>B</h2> y ").unwrap();
    assert_eq!(chunks, vec!["<h1>\n<h1>A</h1> x\n<h2>\n<h2>B</h2> y".to_string()]);
}

#[test]
fn html_without_headers_is_one_section() {
    let splitter = HtmlTextSplitter::new(4000, 0);
    let chunks = splitter.split_text("<p>plain</p>").unwrap();
    assert_eq!(chunks, vec!["<p>plain</p>".to_string()]);
}

#[test]
fn html_sections_split_when_too_long() {
    let splitter = HtmlTextSplitter::new(12, 0);
    let chunks = splitter.split_text("<h1>A</h1>x<h2>B</h2>y").unwrap();
    assert_eq!(chunks, vec!["<h1>\n<h1>A</h1>x".to_string(), "<h2>\n<h2>B</h2>y".to_string()]);
}

#[test]
fn html_section_splitter_skips_closing_tags_and_headers() {
    let splitter = HtmlSectionSplitter::new(4000, 0).with_include_headers(false);
    let chunks = splitter.split_text("<h1>Title</h1><p>Content</p>").unwrap();
    assert_eq!(chunks, vec!["<h1>Title</h1><p>Content</p>".to_string()]);
}

#[test]
fn markdown_header_section_repeats_hashes_per_header_byte() {
    let splitter = MarkdownHeaderTextSplitter::new(4000, 0);
    let chunks = splitter.split_text("# Ab\nbody").unwrap();
    assert_eq!(chunks, vec!["## Ab\n# Ab\nbody".to_string()]);
}

#[test]
fn sentence_splitter_merges_with_spaces() {
    let splitter = SentenceTransformersTextSplitter::new(4000, 0);
    let chunks = splitter.split_text("One. Two! Three?").unwrap();
    assert_eq!(chunks, vec!["One. Two! Three?".to_string()]);
}

#[test]
fn sentence_splitter_without_sentences_returns_text() {
    let splitter = NltkTextSplitter::new(4000, 0);
    let chunks = splitter.split_text("no terminator here").unwrap();
    assert_eq!(chunks, vec!["no terminator here".to_string()]);
}

#[test]
fn sentence_splitter_overlap_keeps_tail_bytes() {
    let splitter = SentenceTransformersTextSplitter::new(10, 3);
    let chunks = splitter.split_text("Alpha one. Beta two.").unwrap();
    assert_eq!(chunks, vec!["Alpha one.".to_string(), "ne. Beta two.".to_string()]);
}

#[test]
fn overlap_cut_inside_character_is_refused() {
    let parts = vec!["ab\u{e9}".chars().collect::<Vec<char>>(), "cd".chars().collect::<Vec<char>>()];
    assert!(merge_with_overlap(&parts, ' ', 3, 1).is_none());
    let whole = merge_with_overlap(&parts, ' ', 3, 2).unwrap();
    let texts: Vec<String> = whole.iter().map(|c| c.iter().collect()).collect();
    assert_eq!(texts, vec!["ab\u{e9}".to_string(), "\u{e9} cd".to_string()]);
}

#[test]
fn json_splitter_flattens_object_keys() {
    let splitter = JsonTextSplitter::new(4000, 0, 5);
    let chunks = splitter.split_text(r#"{"b": [1, 2], "a": {"c": "x"}}"#).unwrap();
    assert_eq!(chunks, vec!["a: c: \"x\"\nb: 1\nb: 2".to_string()]);
}

#[test]
fn json_splitter_depth_limit_keeps_compact_text() {
    let splitter = JsonTextSplitter::new(4000, 0, 1);
    let chunks = splitter.split_text(r#"{"a": {"c": 1}}"#).unwrap();
    assert_eq!(chunks, vec!["a: {\"c\":1}".to_string()]);
}

#[test]
fn recursive_json_splitter_indexes_items() {
    let splitter = RecursiveJsonSplitter::new(4000, 0, 5);
    let chunks = splitter.split_text(r#"{"k": ["p", "q"]}"#).unwrap();
    assert_eq!(chunks, vec!["k: [0] \"p\"\nk: [1] \"q\"".to_string()]);
}

#[test]
fn json_splitter_fallback_splits_lines_by_size() {
    let splitter = JsonTextSplitter::new(5, 0, 5);
    let chunks = splitter.split_text("abc\ndef\ngh").unwrap();
    assert_eq!(chunks, vec!["abc".to_string(), "def".to_string(), "gh".to_string()]);
}

#[test]
fn konlpy_without_particles_uses_words() {
    let splitter = KonlpySplitter::new(4000, 0);
    let chunks = splitter.split_text("hello  world").unwrap();
    assert_eq!(chunks, vec!["hello\nworld".to_string()]);
}

#[test]
fn token_splitter_blocks_of_chunk_size() {
    let splitter = TokenTextSplitter::new(3, 0);
    let chunks = splitter.split_text("abcdefgh").unwrap();
    assert_eq!(chunks, vec!["abc".to_string(), "def".to_string(), "gh".to_string()]);
}
