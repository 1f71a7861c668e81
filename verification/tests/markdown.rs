use live_markdown_native::markdown::{
    parse_markdown, AlertKind, EventKind, MdEvent, MetadataKind, TagKind,
};

const ALL: u32 = u32::MAX;

fn kinds(events: &[(MdEvent, usize)]) -> Vec<(EventKind, Option<TagKind>)> {
    events.iter().map(|(event, _)| (event.kind, event.tag)).collect()
}

fn find(events: &[(MdEvent, usize)], kind: EventKind, tag: Option<TagKind>) -> MdEvent {
    events
        .iter()
        .find(|(event, _)| event.kind == kind && event.tag == tag)
        .map(|(event, _)| event.clone())
        .expect("event of that kind")
}

#[test]
fn paragraph_events_with_offsets() {
    let events = parse_markdown("one\n\ntwo *em*", ALL);
    assert_eq!(
        kinds(&events),
        vec![
            (EventKind::Start, Some(TagKind::Paragraph)),
            (EventKind::Text, None),
            (EventKind::End, Some(TagKind::Paragraph)),
            (EventKind::Start, Some(TagKind::Paragraph)),
            (EventKind::Text, None),
            (EventKind::Start, Some(TagKind::Emphasis)),
            (EventKind::Text, None),
            (EventKind::End, Some(TagKind::Emphasis)),
            (EventKind::End, Some(TagKind::Paragraph)),
        ]
    );
    let offsets: Vec<usize> = events.iter().map(|(_, offset)| *offset).collect();
    assert_eq!(offsets, vec![0, 0, 0, 5, 5, 9, 10, 9, 5]);
    assert_eq!(events[1].0.text, "one");
    assert_eq!(events[4].0.text, "two ");
    assert_eq!(events[6].0.text, "em");
}

#[test]
fn heading_events_carry_level_and_id() {
    let events = parse_markdown("### Title {#custom}\n\n# Plain", ALL);
    let start = &events[0].0;
    assert_eq!((start.kind, start.tag), (EventKind::Start, Some(TagKind::Heading)));
    assert_eq!(start.level, 3);
    assert_eq!(start.label, Some(String::from("custom")));
    let end = &events[2].0;
    assert_eq!((end.kind, end.tag), (EventKind::End, Some(TagKind::Heading)));
    assert_eq!(end.level, 3);
    let plain = &events[3].0;
    assert_eq!(plain.level, 1);
    assert_eq!(plain.label, None);
}

#[test]
fn text_like_events_carry_their_payload() {
    let events = parse_markdown("`code` $x$ $$y$$ <b> text[^n]\n\n[^n]: note\n\n<div>\nraw\n</div>", ALL);
    assert_eq!(find(&events, EventKind::Code, None).text, "code");
    assert_eq!(find(&events, EventKind::InlineMath, None).text, "x");
    assert_eq!(find(&events, EventKind::DisplayMath, None).text, "y");
    assert_eq!(find(&events, EventKind::InlineHtml, None).text, "<b>");
    assert_eq!(find(&events, EventKind::FootnoteReference, None).text, "n");
    assert_eq!(find(&events, EventKind::Html, None).text, "<div>\n");
    assert_eq!(
        find(&events, EventKind::Start, Some(TagKind::FootnoteDefinition)).label,
        Some(String::from("n"))
    );
    assert_eq!(find(&events, EventKind::Start, Some(TagKind::HtmlBlock)).tag, Some(TagKind::HtmlBlock));
    assert_eq!(find(&events, EventKind::End, Some(TagKind::HtmlBlock)).kind, EventKind::End);
    assert_eq!(find(&events, EventKind::End, Some(TagKind::FootnoteDefinition)).kind, EventKind::End);
}

#[test]
fn list_events_carry_numbers_and_marks() {
    let events = parse_markdown("3. [x] done\n4. [ ] open\n\n- plain", ALL);
    let ordered = find(&events, EventKind::Start, Some(TagKind::List));
    assert_eq!(ordered.first_number, Some(3));
    let marks: Vec<bool> = events
        .iter()
        .filter(|(event, _)| event.kind == EventKind::TaskListMarker)
        .map(|(event, _)| event.flag)
        .collect();
    assert_eq!(marks, vec![true, false]);
    let ends: Vec<bool> = events
        .iter()
        .filter(|(event, _)| event.kind == EventKind::End && event.tag == Some(TagKind::List))
        .map(|(event, _)| event.flag)
        .collect();
    assert_eq!(ends, vec![true, false]);
    let lists: Vec<Option<u64>> = events
        .iter()
        .filter(|(event, _)| event.kind == EventKind::Start && event.tag == Some(TagKind::List))
        .map(|(event, _)| event.first_number)
        .collect();
    assert_eq!(lists, vec![Some(3), None]);
    assert_eq!(find(&events, EventKind::Start, Some(TagKind::Item)).kind, EventKind::Start);
    assert_eq!(find(&events, EventKind::End, Some(TagKind::Item)).kind, EventKind::End);
}

#[test]
fn links_and_images_carry_destination_and_title() {
    let events = parse_markdown("[a](http://x.test \"T\") ![alt](img.png 'I')", ALL);
    let link = find(&events, EventKind::Start, Some(TagKind::Link));
    assert_eq!(link.label, Some(String::from("http://x.test")));
    assert_eq!(link.title, "T");
    let image = find(&events, EventKind::Start, Some(TagKind::Image));
    assert_eq!(image.label, Some(String::from("img.png")));
    assert_eq!(image.title, "I");
    assert_eq!(find(&events, EventKind::End, Some(TagKind::Link)).title, "");
    assert_eq!(find(&events, EventKind::End, Some(TagKind::Image)).label, None);
}

#[test]
fn block_quotes_carry_their_alert() {
    let events = parse_markdown("> [!WARNING]\n> w\n\n> [!NOTE]\n> n\n\n> [!TIP]\n> t\n\n> [!IMPORTANT]\n> i\n\n> [!CAUTION]\n> c\n\n> q", ALL);
    let alerts: Vec<Option<AlertKind>> = events
        .iter()
        .filter(|(event, _)| event.kind == EventKind::Start && event.tag == Some(TagKind::BlockQuote))
        .map(|(event, _)| event.alert)
        .collect();
    assert_eq!(
        alerts,
        vec![
            Some(AlertKind::Warning),
            Some(AlertKind::Note),
            Some(AlertKind::Tip),
            Some(AlertKind::Important),
            Some(AlertKind::Caution),
            None,
        ]
    );
    assert_eq!(find(&events, EventKind::End, Some(TagKind::BlockQuote)).alert, None);
}

#[test]
fn code_blocks_carry_their_info_string() {
    let events = parse_markdown("```rust\nfn x() {}\n```\n\n    indented\n", ALL);
    let info: Vec<Option<String>> = events
        .iter()
        .filter(|(event, _)| event.kind == EventKind::Start && event.tag == Some(TagKind::CodeBlock))
        .map(|(event, _)| event.label.clone())
        .collect();
    assert_eq!(info, vec![Some(String::from("rust")), None]);
    assert_eq!(find(&events, EventKind::End, Some(TagKind::CodeBlock)).kind, EventKind::End);
}

#[test]
fn metadata_blocks_carry_their_style() {
    let yaml = parse_markdown("---\ntitle: x\n---\n\ntext", ALL);
    assert_eq!(
        find(&yaml, EventKind::Start, Some(TagKind::MetadataBlock)).metadata,
        Some(MetadataKind::Yaml)
    );
    assert_eq!(find(&yaml, EventKind::End, Some(TagKind::MetadataBlock)).metadata, None);
    let pluses = parse_markdown("+++\ntitle = 1\n+++\n\ntext", ALL);
    assert_eq!(
        find(&pluses, EventKind::Start, Some(TagKind::MetadataBlock)).metadata,
        Some(MetadataKind::Pluses)
    );
}

#[test]
fn tables_spans_and_breaks_are_told_apart() {
    let events = parse_markdown(
        "| a | b |\n|---|---|\n| 1 | 2 |\n\n**s** ~~d~~ ^u^ ~l~ x  \ny\nz\n\n---\n\nterm\n: def\n",
        ALL,
    );
    let seen = kinds(&events);
    for tag in [
        TagKind::Table,
        TagKind::TableHead,
        TagKind::TableRow,
        TagKind::TableCell,
        TagKind::Strong,
        TagKind::Strikethrough,
        TagKind::Superscript,
        TagKind::Subscript,
        TagKind::DefinitionList,
        TagKind::DefinitionListTitle,
        TagKind::DefinitionListDefinition,
    ] {
        assert!(seen.contains(&(EventKind::Start, Some(tag))), "start of {tag:?}");
        assert!(seen.contains(&(EventKind::End, Some(tag))), "end of {tag:?}");
    }
    assert!(seen.contains(&(EventKind::HardBreak, None)));
    assert!(seen.contains(&(EventKind::SoftBreak, None)));
    assert!(seen.contains(&(EventKind::Rule, None)));
}

#[test]
fn options_switch_extensions_off() {
    let with = parse_markdown("~~d~~", ALL);
    assert!(kinds(&with).contains(&(EventKind::Start, Some(TagKind::Strikethrough))));
    let without = parse_markdown("~~d~~", 0);
    assert!(!kinds(&without).contains(&(EventKind::Start, Some(TagKind::Strikethrough))));
}

#[test]
fn parsing_twice_gives_the_same_events() {
    let text = "# A\n\n- [x](#a)\n\n> [!NOTE]\n> b";
    let first = parse_markdown(text, ALL);
    let second = parse_markdown(text, ALL);
    assert_eq!(kinds(&first), kinds(&second));
    assert_eq!(first.len(), second.len());
    for (a, b) in first.iter().zip(second.iter()) {
        assert_eq!(a.1, b.1);
        assert_eq!(a.0.text, b.0.text);
        assert_eq!(a.0.label, b.0.label);
    }
}
