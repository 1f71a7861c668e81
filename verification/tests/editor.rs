use live_markdown_native::editor::{
    accept_bind_address, accept_millis, accept_port, is_markdown_buffer, is_markdown_extension,
    is_markdown_filetype, join_lines,
};

#[test]
fn markdown_buffers_by_filetype_or_extension() {
    for name in ["markdown", "mdx", "rmd", "quarto", "pandoc", "Markdown"] {
        assert!(is_markdown_filetype(name), "{name}");
    }
    assert!(!is_markdown_filetype("rust"));
    for ext in ["md", "markdown", "mdown", "mkd", "mdx", "qmd", "MD"] {
        assert!(is_markdown_extension(ext), "{ext}");
    }
    assert!(!is_markdown_extension("txt"));
    assert!(is_markdown_buffer(Some("markdown"), None));
    assert!(is_markdown_buffer(Some("text"), Some("md")));
    assert!(is_markdown_buffer(None, Some("qmd")));
    assert!(!is_markdown_buffer(Some("text"), Some("txt")));
    assert!(!is_markdown_buffer(None, None));
}

#[test]
fn lines_are_joined_by_line_feeds() {
    assert_eq!(join_lines(&[]), "");
    assert_eq!(join_lines(&[String::from("a")]), "a");
    assert_eq!(join_lines(&[String::from("a"), String::new(), String::from("c")]), "a\n\nc");
    assert_eq!(join_lines(&[String::new(), String::new()]), "\n");
}

#[test]
fn settings_are_taken_within_their_ranges() {
    assert_eq!(accept_port(6520), Some(6520));
    assert_eq!(accept_port(1), Some(1));
    assert_eq!(accept_port(65535), Some(65535));
    assert_eq!(accept_port(0), None);
    assert_eq!(accept_port(65536), None);
    assert_eq!(accept_port(-1), None);
    assert_eq!(accept_millis(140), Some(140));
    assert_eq!(accept_millis(0), Some(0));
    assert_eq!(accept_millis(-1), None);
    assert!(accept_bind_address("127.0.0.1"));
    assert!(accept_bind_address("localhost"));
    assert!(!accept_bind_address("0.0.0.0"));
    assert!(!accept_bind_address("Localhost"));
}
