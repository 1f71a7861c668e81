use live_markdown_native::heading::collect_heading_ids;
use live_markdown_native::markdown::{parse_markdown, ALL_EXTENSIONS};
use live_markdown_native::render::{render_events, MarkdownRenderer};

#[test]
fn renders_common_markdown_blocks() {
    let renderer = MarkdownRenderer::default();
    let markdown = "# Heading\n\n- one\n- two\n\n`code`";
    let html = renderer.render(markdown);

    assert!(html.contains("<h1 data-line=\"1\" id=\"heading\">Heading</h1>"));
    assert!(html.contains("<li data-line=\"3\">one</li>"));
    assert!(html.contains("<code>code</code>"));
}

#[test]
fn renders_gfm_alert_block_quotes_with_titles_and_icons() {
    let renderer = MarkdownRenderer::default();
    let markdown = "> [!NOTE]\n> note body\n\n> [!TIP]\n> tip body\n\n> [!IMPORTANT]\n> important body\n\n> [!WARNING]\n> warning body\n\n> [!CAUTION]\n> caution body";
    let html = renderer.render(markdown);

    assert!(html.contains("class=\"markdown-alert markdown-alert-note\""));
    assert!(html.contains("class=\"markdown-alert markdown-alert-tip\""));
    assert!(html.contains("class=\"markdown-alert markdown-alert-important\""));
    assert!(html.contains("class=\"markdown-alert markdown-alert-warning\""));
    assert!(html.contains("class=\"markdown-alert markdown-alert-caution\""));

    assert!(html.contains(
        "<p class=\"markdown-alert-title\"><svg class=\"octicon markdown-alert-icon\""
    ));
    assert!(html.contains("</svg>Note</p>"));
    assert!(html.contains("</svg>Tip</p>"));
    assert!(html.contains("</svg>Important</p>"));
    assert!(html.contains("</svg>Warning</p>"));
    assert!(html.contains("</svg>Caution</p>"));
}

#[test]
fn keeps_regular_block_quotes_without_alert_chrome() {
    let renderer = MarkdownRenderer::default();
    let markdown = "> plain quote";
    let html = renderer.render(markdown);

    assert!(html.contains(
        "<blockquote data-line=\"1\"><p data-line=\"1\">plain quote</p></blockquote>"
    ));
    assert!(!html.contains("markdown-alert-title"));
}

#[test]
fn strips_dangerous_links() {
    let renderer = MarkdownRenderer::default();
    let markdown = "[x](javascript:alert(1))";
    let html = renderer.render(markdown);
    assert!(html.contains("href=\"#\""));
}

#[test]
fn sanitizes_image_urls_for_browser_rendering() {
    let renderer = MarkdownRenderer::default();
    let markdown = "![ok](images/diagram.png) ![data](data:image/png;base64,AAAA) ![bad](javascript:alert(1))";
    let html = renderer.render(markdown);

    assert!(html.contains("src=\"images/diagram.png\""));
    assert!(html.contains("src=\"data:image/png;base64,AAAA\""));
    assert!(html.contains("src=\"#\""));
}

#[test]
fn keeps_data_line_markers_monotonic() {
    let renderer = MarkdownRenderer::default();
    let markdown = "line 1\n\nline 3\n\nline 5";
    let html = renderer.render(markdown);

    let mut last = 0usize;
    for part in html.split("data-line=\"").skip(1) {
        let current: usize = part
            .split('"')
            .next()
            .expect("line marker")
            .parse()
            .expect("valid marker");
        assert!(current >= last);
        last = current;
    }
}

#[test]
fn adds_heading_ids_for_internal_links() {
    let renderer = MarkdownRenderer::default();
    let markdown = "# Overview\n## Inline HTML";
    let html = renderer.render(markdown);

    assert!(html.contains("<h1 data-line=\"1\" id=\"overview\">Overview</h1>"));
    assert!(html.contains("<h2 data-line=\"2\" id=\"inline-html\">Inline HTML</h2>"));
}

#[test]
fn keeps_explicit_heading_ids() {
    let renderer = MarkdownRenderer::default();
    let markdown =
        "## Inline HTML {#html}\n## Automatic Escaping for Special Characters {#autoescape}";
    let html = renderer.render(markdown);

    assert!(html.contains("<h2 data-line=\"1\" id=\"html\">Inline HTML</h2>"));
    assert!(html.contains(
        "<h2 data-line=\"2\" id=\"autoescape\">Automatic Escaping for Special Characters</h2>"
    ));
}

#[test]
fn deduplicates_heading_ids() {
    let renderer = MarkdownRenderer::default();
    let markdown = "## Section\n## Section\n## Section-1\n## Section";
    let html = renderer.render(markdown);

    assert!(html.contains("<h2 data-line=\"1\" id=\"section\">Section</h2>"));
    assert!(html.contains("<h2 data-line=\"2\" id=\"section-1\">Section</h2>"));
    assert!(html.contains("<h2 data-line=\"3\" id=\"section-1-1\">Section-1</h2>"));
    assert!(html.contains("<h2 data-line=\"4\" id=\"section-2\">Section</h2>"));
}

#[test]
fn infers_heading_ids_from_internal_toc_links() {
    let renderer = MarkdownRenderer::default();
    let markdown = "- [Inline HTML](#html)\n- [Automatic Escaping for Special Characters](#autoescape)\n\n## Inline HTML\n## Automatic Escaping for Special Characters";
    let html = renderer.render(markdown);

    assert!(html.contains("<h2 data-line=\"4\" id=\"html\">Inline HTML</h2>"));
    assert!(html.contains(
        "<h2 data-line=\"5\" id=\"autoescape\">Automatic Escaping for Special Characters</h2>"
    ));
}

#[test]
fn rendering_twice_gives_the_same_html() {
    let renderer = MarkdownRenderer::default();
    let markdown = "# A\n\n[a](#a) ![i](x.png \"t\")\n\n| a |\n|---|\n| 1 |\n\n> [!TIP]\n> b\n";
    assert_eq!(renderer.render(markdown), renderer.render(markdown));
    assert_eq!(MarkdownRenderer::default().render(markdown), renderer.render(markdown));
}

#[test]
fn output_is_wrapped_in_one_root_container() {
    let renderer = MarkdownRenderer::default();
    assert_eq!(renderer.render(""), "<article id=\"md-root\"></article>");
    let html = renderer.render("text");
    assert_eq!(html, "<article id=\"md-root\"><p data-line=\"1\">text</p></article>");
}

#[test]
fn raw_html_and_text_are_escaped() {
    let renderer = MarkdownRenderer::default();
    let html = renderer.render("a <b>x</b> & 'q' \"d\"\n\n<script>alert(1)</script>\n");
    assert!(!html.contains("<script>"));
    assert!(!html.contains("<b>"));
    assert!(html.contains("&lt;b&gt;x&lt;/b&gt;"));
    assert!(html.contains("&amp;"));
    assert!(html.contains("&lt;script&gt;alert(1)&lt;/script&gt;"));
    assert!(html.contains("<pre data-line=\"3\" class=\"html-block\">"));
}

#[test]
fn renders_whole_documents_exactly() {
    let renderer = MarkdownRenderer::default();
    assert_eq!(
        renderer.render("## T\n\n1. a\n2. b\n\n***\n\n`c` **s**"),
        "<article id=\"md-root\"><h2 data-line=\"1\" id=\"t\">T</h2><ol start=\"1\"><li data-line=\"3\">a</li><li data-line=\"4\">b</li></ol><hr /><p data-line=\"8\"><code>c</code> <strong>s</strong></p></article>"
    );
    assert_eq!(
        renderer.render("- [x] a\n- [ ] b"),
        "<article id=\"md-root\"><ul><li data-line=\"1\"><input type=\"checkbox\" checked disabled /> a</li><li data-line=\"2\"><input type=\"checkbox\" disabled /> b</li></ul></article>"
    );
    assert_eq!(
        renderer.render("```rust\nlet a = 1 < 2;\n```"),
        "<article id=\"md-root\"><pre data-line=\"1\"><code class=\"language-rust\">let a = 1 &lt; 2;\n</code></pre></article>"
    );
    assert_eq!(
        renderer.render("a\nb  \nc"),
        "<article id=\"md-root\"><p data-line=\"1\">a\nb<br />\nc</p></article>"
    );
}

#[test]
fn renders_links_and_images_with_titles() {
    let renderer = MarkdownRenderer::default();
    assert_eq!(
        renderer.render("[a](http://x.test \"T<\")"),
        "<article id=\"md-root\"><p data-line=\"1\"><a href=\"http://x.test\" title=\"T&lt;\">a</a></p></article>"
    );
    assert_eq!(
        renderer.render("![a *b*\nc](i.png \"T\")"),
        "<article id=\"md-root\"><p data-line=\"1\"><img src=\"i.png\" alt=\"a b c\" title=\"T\" /></p></article>"
    );
    assert_eq!(
        renderer.render("![a](i.png)"),
        "<article id=\"md-root\"><p data-line=\"1\"><img src=\"i.png\" alt=\"a\" /></p></article>"
    );
    assert_eq!(
        renderer.render("[x](data:text/html,1)"),
        "<article id=\"md-root\"><p data-line=\"1\"><a href=\"#\">x</a></p></article>"
    );
}

#[test]
fn renders_tables_with_head_cells() {
    let renderer = MarkdownRenderer::default();
    assert_eq!(
        renderer.render("| a | b |\n|---|---|\n| 1 | 2 |"),
        "<article id=\"md-root\"><table data-line=\"1\"><thead><th>a</th><th>b</th></thead><tr><td>1</td><td>2</td></tr></table></article>"
    );
}

#[test]
fn renders_alerts_with_attribute_class_and_title() {
    let renderer = MarkdownRenderer::default();
    let html = renderer.render("> [!NOTE]\n> body");
    assert!(html.starts_with(
        "<article id=\"md-root\"><blockquote data-line=\"1\" data-alert=\"note\" class=\"markdown-alert markdown-alert-note\"><p class=\"markdown-alert-title\"><svg class=\"octicon markdown-alert-icon\" viewBox=\"0 0 16 16\" width=\"16\" height=\"16\" aria-hidden=\"true\"><path d=\"M0 8a8"
    ));
    assert!(html.ends_with("\"></path></svg>Note</p><p data-line=\"2\">body</p></blockquote></article>"));
}

#[test]
fn renders_footnotes_math_and_metadata() {
    let renderer = MarkdownRenderer::default();
    assert_eq!(
        renderer.render("---\nk: v\n---\n\n$a<b$ x[^1]\n\n[^1]: n"),
        "<article id=\"md-root\"><pre data-line=\"1\" class=\"metadata-block metadata-yaml\">k: v\n</pre><p data-line=\"5\"><span class=\"math-inline\">a&lt;b</span> x<sup>1</sup></p><section data-line=\"7\" class=\"footnote\" data-footnote=\"1\"><p data-line=\"7\">n</p></section></article>"
    );
    assert_eq!(
        renderer.render("$$x$$"),
        "<article id=\"md-root\"><p data-line=\"1\"><div class=\"math-display\">x</div></p></article>"
    );
}

#[test]
fn default_renderer_switches_every_extension_on() {
    let renderer = MarkdownRenderer::default();
    assert_eq!(renderer.option_bits(), 0xfffe);
    assert_eq!(renderer.option_bits(), ALL_EXTENSIONS);
    let markdown = "# T\n\n~~a~~ [b](#t)\n\n| c |\n|---|\n| d |";
    let events = parse_markdown(markdown, ALL_EXTENSIONS);
    let ids = collect_heading_ids(markdown, ALL_EXTENSIONS);
    assert_eq!(renderer.render(markdown), render_events(markdown, &events, &ids));
    assert!(renderer.render(markdown).contains("<del>a</del>"));
}
