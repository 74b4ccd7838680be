use rag_embeddings::chunker::{chunk_lines, chunk_text, Chunker, Section};

fn texts(sections: &[Section]) -> Vec<String> {
    sections.iter().map(|s| s.text.clone()).collect()
}

#[test]
fn two_paragraphs_give_two_sections() {
    let sections = chunk_text("a\nb\n\nc\nd\n");
    assert_eq!(texts(&sections), vec!["a\nb\n", "c\nd\n"]);
    assert!(!sections[0].in_code_block);
    assert!(!sections[1].in_code_block);
}

#[test]
fn blank_line_inside_a_fence_does_not_split() {
    let sections = chunk_text("intro\n```\n\n```\nafter\n\nnext\n");
    assert_eq!(texts(&sections), vec!["intro\n```\n\n```\nafter\n", "next\n"]);
}

#[test]
fn fence_alone_with_a_blank_line_is_one_section() {
    let sections = chunk_text("```\n\n```");
    assert_eq!(texts(&sections), vec!["```\n\n```\n"]);
    assert!(!sections[0].in_code_block);
}

#[test]
fn fences_toggle_in_pairs() {
    let mut chunker = Chunker::new();
    assert!(!chunker.in_code_block());
    assert!(chunker.feed("```rust").is_none());
    assert!(chunker.in_code_block());
    assert!(chunker.feed("").is_none());
    assert!(chunker.in_code_block());
    assert!(chunker.feed("  ```").is_none());
    assert!(!chunker.in_code_block());
    assert!(chunker.feed("```").is_none());
    assert!(chunker.in_code_block());
    assert!(chunker.feed("```").is_none());
    assert!(!chunker.in_code_block());
    let section = chunker.feed("").unwrap();
    assert_eq!(section.text, "```rust\n\n  ```\n```\n```\n");
    assert!(!section.in_code_block);
}

#[test]
fn trailing_section_is_flushed_once() {
    let mut chunker = Chunker::new();
    assert!(chunker.feed("a").is_none());
    assert!(chunker.feed("").is_some());
    assert!(chunker.feed("tail").is_none());
    let last = chunker.flush().unwrap();
    assert_eq!(last.text, "tail\n");
    assert!(!last.in_code_block);
    assert!(chunker.flush().is_none());
    assert!(!chunker.has_content());
}

#[test]
fn trailing_section_counts_in_a_whole_text() {
    let sections = chunk_text("a\n\nb");
    assert_eq!(texts(&sections), vec!["a\n", "b\n"]);
    let sections = chunk_text("a\n\nb\n");
    assert_eq!(texts(&sections), vec!["a\n", "b\n"]);
    let sections = chunk_text("a\n\nb\n\n");
    assert_eq!(texts(&sections), vec!["a\n", "b\n"]);
}

#[test]
fn flush_inside_an_open_code_block_carries_the_flag() {
    let mut chunker = Chunker::new();
    assert!(chunker.feed("```").is_none());
    assert!(chunker.feed("let x = 1;").is_none());
    assert!(chunker.feed("").is_none());
    let section = chunker.flush().unwrap();
    assert_eq!(section.text, "```\nlet x = 1;\n\n");
    assert!(section.in_code_block);
    assert!(!chunker.in_code_block());
}

#[test]
fn blank_lines_before_any_content_are_kept_in_the_buffer() {
    let sections = chunk_text("\n\na\n\n");
    assert_eq!(texts(&sections), vec!["\n\na\n"]);
}

#[test]
fn several_blank_lines_separate_once() {
    let sections = chunk_text("a\n\n\n\nb\n");
    assert_eq!(texts(&sections), vec!["a\n", "\n\nb\n"]);
}

#[test]
fn a_line_of_spaces_is_blank() {
    let sections = chunk_text("a\n   \t\nb\n");
    assert_eq!(texts(&sections), vec!["a\n", "b\n"]);
}

#[test]
fn a_line_of_spaces_inside_a_code_block_is_content() {
    let sections = chunk_text("```\n  \n```\n");
    assert_eq!(texts(&sections), vec!["```\n  \n```\n"]);
}

#[test]
fn empty_and_blank_documents_have_no_sections() {
    assert!(chunk_text("").is_empty());
    assert!(chunk_text("\n\n  \n").is_empty());
    assert!(chunk_lines(&Vec::new()).is_empty());
}

#[test]
fn chunk_lines_agrees_with_chunk_text() {
    let lines: Vec<String> = ["a", "b", "", "c", "d"].iter().map(|l| l.to_string()).collect();
    let sections = chunk_lines(&lines);
    assert_eq!(texts(&sections), vec!["a\nb\n", "c\nd\n"]);
}

#[test]
fn windows_line_ends_are_read_as_line_ends() {
    let sections = chunk_text("a\r\nb\r\n\r\nc\r\n");
    assert_eq!(texts(&sections), vec!["a\nb\n", "c\n"]);
}

#[test]
fn sections_hold_every_kept_line_once() {
    let text = "one\ntwo\n\n```\ncode\n\nmore\n```\n\nlast";
    let sections = chunk_text(text);
    let joined: String = texts(&sections).concat();
    assert_eq!(joined, "one\ntwo\n```\ncode\n\nmore\n```\nlast\n");
    assert_eq!(sections.len(), 3);
}

#[test]
fn has_content_follows_the_buffer() {
    let mut chunker = Chunker::new();
    assert!(!chunker.has_content());
    assert!(chunker.feed("  ").is_none());
    assert!(!chunker.has_content());
    assert!(chunker.feed("x").is_none());
    assert!(chunker.has_content());
    assert!(chunker.feed("").is_some());
    assert!(!chunker.has_content());
}
