use live_markdown_native::markdown::{EventKind, MdEvent, TagKind};
use live_markdown_native::render::{
    block_quote_kind_icon_path, block_quote_kind_name, block_quote_kind_title, metadata_block_kind_name,
    open_block_tag, render_alert_title, render_end_tag, render_events, render_image_alt_event,
    render_start_tag,
};
use live_markdown_native::markdown::{AlertKind, MetadataKind};

fn event(kind: EventKind, tag: Option<TagKind>) -> MdEvent {
    MdEvent {
        kind,
        tag,
        text: String::new(),
        label: None,
        title: String::new(),
        level: 0,
        first_number: None,
        flag: false,
        alert: None,
        metadata: None,
    }
}

fn text(content: &str) -> MdEvent {
    MdEvent { text: String::from(content), ..event(EventKind::Text, None) }
}

#[test]
fn line_markers_are_clamped_when_offsets_go_back() {
    let markdown = "a\nb\nc\nd";
    let events = vec![
        (event(EventKind::Start, Some(TagKind::Paragraph)), 4),
        (text("x"), 4),
        (event(EventKind::End, Some(TagKind::Paragraph)), 4),
        (event(EventKind::Start, Some(TagKind::Paragraph)), 0),
        (event(EventKind::End, Some(TagKind::Paragraph)), 0),
        (event(EventKind::Start, Some(TagKind::Item)), 6),
        (event(EventKind::End, Some(TagKind::Item)), 6),
    ];
    let html = render_events(markdown, &events, &[]);
    assert_eq!(
        html,
        "<article id=\"md-root\"><p data-line=\"3\">x</p><p data-line=\"3\"></p><li data-line=\"4\"></li></article>"
    );
}

#[test]
fn headings_take_their_ids_in_order() {
    let start = MdEvent { level: 2, ..event(EventKind::Start, Some(TagKind::Heading)) };
    let end = MdEvent { level: 2, ..event(EventKind::End, Some(TagKind::Heading)) };
    let events = vec![
        (start.clone(), 0),
        (end.clone(), 0),
        (start.clone(), 0),
        (end.clone(), 0),
        (start, 0),
        (end, 0),
    ];
    let ids = vec![String::from("one"), String::from("t\"wo")];
    let html = render_events("", &events, &ids);
    assert_eq!(
        html,
        "<article id=\"md-root\"><h2 data-line=\"1\" id=\"one\"></h2><h2 data-line=\"1\" id=\"t&quot;wo\"></h2><h2 data-line=\"1\"></h2></article>"
    );
}

#[test]
fn start_tags_update_their_state() {
    let mut out = String::new();
    let mut heading_index = 0usize;
    let mut titles: Vec<Option<String>> = Vec::new();
    let mut in_head = false;
    let ids = vec![String::from("a")];

    let heading = MdEvent { level: 1, ..event(EventKind::Start, Some(TagKind::Heading)) };
    render_start_tag(&mut out, &heading, 7, &ids, &mut heading_index, &mut titles, &mut in_head);
    assert_eq!(out, "<h1 data-line=\"7\" id=\"a\">");
    assert_eq!(heading_index, 1);

    out.clear();
    let image = MdEvent {
        label: Some(String::from(" javascript:x ")),
        title: String::from("t"),
        ..event(EventKind::Start, Some(TagKind::Image))
    };
    render_start_tag(&mut out, &image, 7, &ids, &mut heading_index, &mut titles, &mut in_head);
    assert_eq!(out, "<img src=\"#\" alt=\"");
    assert_eq!(titles, vec![Some(String::from("t"))]);

    out.clear();
    let head = event(EventKind::Start, Some(TagKind::TableHead));
    render_start_tag(&mut out, &head, 7, &ids, &mut heading_index, &mut titles, &mut in_head);
    let cell = event(EventKind::Start, Some(TagKind::TableCell));
    render_start_tag(&mut out, &cell, 7, &ids, &mut heading_index, &mut titles, &mut in_head);
    assert_eq!(out, "<thead><th>");
    assert!(in_head);
    assert_eq!(heading_index, 1);

    out.clear();
    let end_cell = event(EventKind::End, Some(TagKind::TableCell));
    render_end_tag(&mut out, &end_cell, &mut in_head);
    let end_head = event(EventKind::End, Some(TagKind::TableHead));
    render_end_tag(&mut out, &end_head, &mut in_head);
    render_end_tag(&mut out, &end_cell, &mut in_head);
    assert_eq!(out, "</th></thead></td>");
    assert!(!in_head);
}

#[test]
fn end_tags_close_their_elements() {
    let mut out = String::new();
    let mut in_head = false;
    let ordered = MdEvent { flag: true, ..event(EventKind::End, Some(TagKind::List)) };
    render_end_tag(&mut out, &ordered, &mut in_head);
    render_end_tag(&mut out, &event(EventKind::End, Some(TagKind::List)), &mut in_head);
    let heading = MdEvent { level: 6, ..event(EventKind::End, Some(TagKind::Heading)) };
    render_end_tag(&mut out, &heading, &mut in_head);
    render_end_tag(&mut out, &event(EventKind::End, Some(TagKind::Image)), &mut in_head);
    render_end_tag(&mut out, &event(EventKind::End, Some(TagKind::CodeBlock)), &mut in_head);
    render_end_tag(&mut out, &event(EventKind::End, None), &mut in_head);
    assert_eq!(out, "</ol></ul></h6></code></pre>");
}

#[test]
fn alternative_text_takes_text_and_closes_with_the_title() {
    let mut out = String::new();
    let mut titles = vec![Some(String::from("T&"))];
    render_image_alt_event(&mut out, &mut titles, &text("a<"));
    render_image_alt_event(&mut out, &mut titles, &event(EventKind::SoftBreak, None));
    render_image_alt_event(&mut out, &mut titles, &event(EventKind::Start, Some(TagKind::Emphasis)));
    render_image_alt_event(&mut out, &mut titles, &event(EventKind::Rule, None));
    assert_eq!(titles.len(), 1);
    render_image_alt_event(&mut out, &mut titles, &event(EventKind::End, Some(TagKind::Image)));
    assert_eq!(out, "a&lt; \" title=\"T&amp;\" />");
    assert!(titles.is_empty());

    let mut plain = String::new();
    let mut untitled: Vec<Option<String>> = vec![None];
    render_image_alt_event(&mut plain, &mut untitled, &event(EventKind::End, Some(TagKind::Image)));
    assert_eq!(plain, "\" />");
    assert!(untitled.is_empty());
}

#[test]
fn block_helpers_write_their_parts() {
    let mut out = String::new();
    open_block_tag(&mut out, "dd", 12);
    assert_eq!(out, "<dd data-line=\"12\">");
    assert_eq!(block_quote_kind_name(AlertKind::Caution), "caution");
    assert_eq!(block_quote_kind_title(AlertKind::Important), "Important");
    assert!(block_quote_kind_icon_path(AlertKind::Tip).starts_with("M8 1.5c-2.363"));
    assert_eq!(metadata_block_kind_name(MetadataKind::Yaml), "yaml");
    assert_eq!(metadata_block_kind_name(MetadataKind::Pluses), "pluses");
    let mut title = String::new();
    render_alert_title(&mut title, AlertKind::Warning);
    assert!(title.starts_with("<p class=\"markdown-alert-title\"><svg "));
    assert!(title.ends_with("</svg>Warning</p>"));
}
