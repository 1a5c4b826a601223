use langchain_core::html_splitter::HtmlSemanticPreservingSplitter;

#[test]
fn test_html_semantic_preserving_splitter() {
    let splitter = HtmlSemanticPreservingSplitter::new(4000, 0);
    let html = "<div><p>Hello <b>world</b></p></div>";
    let chunks = splitter.split_text(html).unwrap();
    assert!(!chunks.is_empty());
}

#[test]
fn html_single_chunk_is_closed_with_recorded_tags() {
    let splitter = HtmlSemanticPreservingSplitter::new(4000, 0);
    let chunks = splitter.split_text("<div><p>Hello <b>world</b></p></div>").unwrap();
    assert_eq!(chunks, vec!["<div><p>Hello <b>world</b></p></div></b></p></div>"]);
}

#[test]
fn html_small_chunks_reopen_elements() {
    let splitter = HtmlSemanticPreservingSplitter::new(10, 0);
    let chunks = splitter.split_text("<div><p>Hello <b>world</b></p></div>").unwrap();
    assert_eq!(
        chunks,
        vec![
            "<div><p></p></div>",
            "<div><p>Hello <b></b></p></div>",
            "<div><p><b>world</b></p></div></b></p></div>",
        ]
    );
}

#[test]
fn html_attributes_and_self_closing_tags() {
    let splitter = HtmlSemanticPreservingSplitter::new(5, 0);
    let chunks = splitter.split_text("<p class=\"x\">one</p><br/>two").unwrap();
    assert_eq!(chunks, vec!["<p class=\"x\"></p>", "<p>one</p><br/></p>", "<p>two</p>"]);
}

#[test]
fn html_empty_text_gives_no_chunk() {
    let splitter = HtmlSemanticPreservingSplitter::default();
    assert!(splitter.split_text("").unwrap().is_empty());
    assert_eq!(splitter.chunk_size, 4000);
    assert_eq!(splitter.chunk_overlap, 200);
}
