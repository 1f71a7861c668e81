//! The markdown event stream: plain-value events read off the `pulldown_cmark` parser.

use pulldown_cmark::{BlockQuoteKind, CodeBlockKind, Event, MetadataBlockKind, Options, Parser, Tag, TagEnd};
use vstd::prelude::*;

verus! {

/// What an event is.
#[derive(Debug, Clone, Copy, PartialEq, Eq, Structural)]
pub enum EventKind {
    Start,
    End,
    Text,
    Code,
    InlineMath,
    DisplayMath,
    Html,
    InlineHtml,
    FootnoteReference,
    SoftBreak,
    HardBreak,
    Rule,
    TaskListMarker,
}

/// The element a `Start` or `End` event opens or closes.
#[derive(Debug, Clone, Copy, PartialEq, Eq, Structural)]
pub enum TagKind {
    Paragraph,
    Heading,
    BlockQuote,
    CodeBlock,
    HtmlBlock,
    List,
    Item,
    FootnoteDefinition,
    DefinitionList,
    DefinitionListTitle,
    DefinitionListDefinition,
    Table,
    TableHead,
    TableRow,
    TableCell,
    Emphasis,
    Strong,
    Strikethrough,
    Superscript,
    Subscript,
    Link,
    Image,
    MetadataBlock,
}

/// The flavour of an alert block quote.
#[derive(Debug, Clone, Copy, PartialEq, Eq, Structural)]
pub enum AlertKind {
    Note,
    Tip,
    Important,
    Warning,
    Caution,
}

/// The delimiter style of a metadata block.
#[derive(Debug, Clone, Copy, PartialEq, Eq, Structural)]
pub enum MetadataKind {
    Yaml,
    Pluses,
}

/// One parser event as plain values.
///
/// Fields that do not apply to the event's kind hold their empty value
/// (`None`, the empty string, `0`, `false`).
#[derive(Debug, Clone)]
pub struct MdEvent {
    pub kind: EventKind,
    /// The element of a `Start` or `End` event.
    pub tag: Option<TagKind>,
    /// The payload of a text-carrying event.
    pub text: String,
    /// Start of a heading: its explicit id. Start of a fenced code block: its
    /// info string. Start of a footnote definition: its label. Start of a link
    /// or image: its destination.
    pub label: Option<String>,
    /// Start of a link or image: its title.
    pub title: String,
    /// Heading level, 1 to 6, on the start and end of a heading.
    pub level: u8,
    /// Start of an ordered list: its first number.
    pub first_number: Option<u64>,
    /// Task list marker: checked. End of a list: ordered.
    pub flag: bool,
    /// Start of an alert block quote: its flavour.
    pub alert: Option<AlertKind>,
    /// Start of a metadata block: its style.
    pub metadata: Option<MetadataKind>,
}

/// The values of an event, strings as sequences of characters.
pub struct EventView {
    pub kind: EventKind,
    pub tag: Option<TagKind>,
    pub text: Seq<char>,
    pub label: Option<Seq<char>>,
    pub title: Seq<char>,
    pub level: u8,
    pub first_number: Option<u64>,
    pub flag: bool,
    pub alert: Option<AlertKind>,
    pub metadata: Option<MetadataKind>,
}

impl View for MdEvent {
    type V = EventView;

    open spec fn view(&self) -> EventView {
        EventView {
            kind: self.kind,
            tag: self.tag,
            text: self.text@,
            label: match self.label {
                Some(s) => Some(s@),
                None => None,
            },
            title: self.title@,
            level: self.level,
            first_number: self.first_number,
            flag: self.flag,
            alert: self.alert,
            metadata: self.metadata,
        }
    }
}

impl DeepView for MdEvent {
    type V = EventView;

    open spec fn deep_view(&self) -> EventView {
        self@
    }
}

/// The elements in three groups: 0 for the containers of flowing content,
/// 1 for definition lists, tables and metadata blocks, 2 for spans.
pub open spec fn tag_group(tag: TagKind) -> int {
    match tag {
        TagKind::Paragraph
        | TagKind::Heading
        | TagKind::BlockQuote
        | TagKind::CodeBlock
        | TagKind::HtmlBlock
        | TagKind::List
        | TagKind::Item
        | TagKind::FootnoteDefinition => 0,
        TagKind::DefinitionList
        | TagKind::DefinitionListTitle
        | TagKind::DefinitionListDefinition
        | TagKind::Table
        | TagKind::TableHead
        | TagKind::TableRow
        | TagKind::TableCell
        | TagKind::MetadataBlock => 1,
        TagKind::Emphasis
        | TagKind::Strong
        | TagKind::Strikethrough
        | TagKind::Superscript
        | TagKind::Subscript
        | TagKind::Link
        | TagKind::Image => 2,
    }
}

/// The element of an event if the event is of the given kind and the element
/// is of the given group.
pub open spec fn tag_where(event: EventView, kind: EventKind, group: int) -> Option<TagKind> {
    if event.kind == kind && event.tag is Some && tag_group(event.tag->0) == group {
        event.tag
    } else {
        None
    }
}

/// `pulldown_cmark::Event`, carried as an opaque value.
#[verifier::external_type_specification]
#[verifier::external_body]
pub struct ExEvent<'a>(Event<'a>);

/// The plain values that a parser event holds.
pub uninterp spec fn event_model(event: Event<'static>) -> EventView;

/// The events that the parser reads from a text under the given option
/// bits, each with the byte offset at which its source range starts.
pub uninterp spec fn markdown_events(text: Seq<char>, options: u32) -> Seq<(EventView, usize)>;

/// The option bits of every extension of the parser: bits 1 to 15.
pub const ALL_EXTENSIONS: u32 = 0xfffe;

/// `Options::all().bits()`: the union of the flags that the parser
/// defines, which are the bits 1 to 15.
#[verifier::external_body]
pub(crate) fn all_option_bits() -> (bits: u32)
    ensures
        bits == ALL_EXTENSIONS,
{
    Options::all().bits()
}

/// `Parser::new_ext(text, options).into_offset_iter()`, collected: the events
/// in document order, each with the start of its source range. Unknown
/// option bits are dropped by `Options::from_bits_truncate`.
#[verifier::external_body]
pub(crate) fn parse_offset_events(text: &str, options: u32) -> (events: Vec<(Event<'static>, usize)>)
    ensures
        events@.len() == markdown_events(text@, options).len(),
        forall|i: int|
            0 <= i < events@.len() ==> {
                &&& event_model(#[trigger] events@[i].0) == markdown_events(text@, options)[i].0
                &&& events@[i].1 == markdown_events(text@, options)[i].1
            },
{
    Parser::new_ext(text, Options::from_bits_truncate(options))
        .into_offset_iter()
        .map(|(event, range)| (event.into_static(), range.start))
        .collect()
}

/// The variant of an `Event`. Only `Start` and `End` carry an element.
#[verifier::external_body]
pub(crate) fn event_kind(event: &Event<'static>) -> (kind: EventKind)
    ensures
        kind == event_model(*event).kind,
        event_model(*event).tag is Some <==> (kind == EventKind::Start || kind == EventKind::End),
{
    match event {
        Event::Start(_) => EventKind::Start,
        Event::End(_) => EventKind::End,
        Event::Text(_) => EventKind::Text,
        Event::Code(_) => EventKind::Code,
        Event::InlineMath(_) => EventKind::InlineMath,
        Event::DisplayMath(_) => EventKind::DisplayMath,
        Event::Html(_) => EventKind::Html,
        Event::InlineHtml(_) => EventKind::InlineHtml,
        Event::FootnoteReference(_) => EventKind::FootnoteReference,
        Event::SoftBreak => EventKind::SoftBreak,
        Event::HardBreak => EventKind::HardBreak,
        Event::Rule => EventKind::Rule,
        Event::TaskListMarker(_) => EventKind::TaskListMarker,
    }
}

/// The string payload of a text-carrying `Event`; empty for the others.
#[verifier::external_body]
pub(crate) fn event_text(event: &Event<'static>) -> (text: String)
    ensures
        text@ == event_model(*event).text,
{
    match event {
        Event::Text(s) | Event::Code(s) | Event::InlineMath(s) | Event::DisplayMath(s) => s.to_string(),
        Event::Html(s) | Event::InlineHtml(s) | Event::FootnoteReference(s) => s.to_string(),
        _ => String::new(),
    }
}

/// The `Tag` variant of an `Event::Start` where it is a container of flowing content.
#[verifier::external_body]
pub(crate) fn start_container_tag(event: &Event<'static>) -> (tag: Option<TagKind>)
    ensures
        tag == tag_where(event_model(*event), EventKind::Start, 0),
{
    match event {
        Event::Start(Tag::Paragraph) => Some(TagKind::Paragraph),
        Event::Start(Tag::Heading { .. }) => Some(TagKind::Heading),
        Event::Start(Tag::BlockQuote(_)) => Some(TagKind::BlockQuote),
        Event::Start(Tag::CodeBlock(_)) => Some(TagKind::CodeBlock),
        Event::Start(Tag::HtmlBlock) => Some(TagKind::HtmlBlock),
        Event::Start(Tag::List(_)) => Some(TagKind::List),
        Event::Start(Tag::Item) => Some(TagKind::Item),
        Event::Start(Tag::FootnoteDefinition(_)) => Some(TagKind::FootnoteDefinition),
        _ => None,
    }
}

/// The `Tag` variant of an `Event::Start` where it is a definition list, a table or one of their parts, or a metadata block.
#[verifier::external_body]
pub(crate) fn start_table_tag(event: &Event<'static>) -> (tag: Option<TagKind>)
    ensures
        tag == tag_where(event_model(*event), EventKind::Start, 1),
{
    match event {
        Event::Start(Tag::DefinitionList) => Some(TagKind::DefinitionList),
        Event::Start(Tag::DefinitionListTitle) => Some(TagKind::DefinitionListTitle),
        Event::Start(Tag::DefinitionListDefinition) => Some(TagKind::DefinitionListDefinition),
        Event::Start(Tag::Table(_)) => Some(TagKind::Table),
        Event::Start(Tag::TableHead) => Some(TagKind::TableHead),
        Event::Start(Tag::TableRow) => Some(TagKind::TableRow),
        Event::Start(Tag::TableCell) => Some(TagKind::TableCell),
        Event::Start(Tag::MetadataBlock(_)) => Some(TagKind::MetadataBlock),
        _ => None,
    }
}

/// The `Tag` variant of an `Event::Start` where it is a span, a link or an image.
#[verifier::external_body]
pub(crate) fn start_span_tag(event: &Event<'static>) -> (tag: Option<TagKind>)
    ensures
        tag == tag_where(event_model(*event), EventKind::Start, 2),
{
    match event {
        Event::Start(Tag::Emphasis) => Some(TagKind::Emphasis),
        Event::Start(Tag::Strong) => Some(TagKind::Strong),
        Event::Start(Tag::Strikethrough) => Some(TagKind::Strikethrough),
        Event::Start(Tag::Superscript) => Some(TagKind::Superscript),
        Event::Start(Tag::Subscript) => Some(TagKind::Subscript),
        Event::Start(Tag::Link { .. }) => Some(TagKind::Link),
        Event::Start(Tag::Image { .. }) => Some(TagKind::Image),
        _ => None,
    }
}

/// The `TagEnd` variant of an `Event::End` where it is a container of flowing content.
#[verifier::external_body]
pub(crate) fn end_container_tag(event: &Event<'static>) -> (tag: Option<TagKind>)
    ensures
        tag == tag_where(event_model(*event), EventKind::End, 0),
{
    match event {
        Event::End(TagEnd::Paragraph) => Some(TagKind::Paragraph),
        Event::End(TagEnd::Heading(_)) => Some(TagKind::Heading),
        Event::End(TagEnd::BlockQuote(_)) => Some(TagKind::BlockQuote),
        Event::End(TagEnd::CodeBlock) => Some(TagKind::CodeBlock),
        Event::End(TagEnd::HtmlBlock) => Some(TagKind::HtmlBlock),
        Event::End(TagEnd::List(_)) => Some(TagKind::List),
        Event::End(TagEnd::Item) => Some(TagKind::Item),
        Event::End(TagEnd::FootnoteDefinition) => Some(TagKind::FootnoteDefinition),
        _ => None,
    }
}

/// The `TagEnd` variant of an `Event::End` where it is a definition list, a table or one of their parts, or a metadata block.
#[verifier::external_body]
pub(crate) fn end_table_tag(event: &Event<'static>) -> (tag: Option<TagKind>)
    ensures
        tag == tag_where(event_model(*event), EventKind::End, 1),
{
    match event {
        Event::End(TagEnd::DefinitionList) => Some(TagKind::DefinitionList),
        Event::End(TagEnd::DefinitionListTitle) => Some(TagKind::DefinitionListTitle),
        Event::End(TagEnd::DefinitionListDefinition) => Some(TagKind::DefinitionListDefinition),
        Event::End(TagEnd::Table) => Some(TagKind::Table),
        Event::End(TagEnd::TableHead) => Some(TagKind::TableHead),
        Event::End(TagEnd::TableRow) => Some(TagKind::TableRow),
        Event::End(TagEnd::TableCell) => Some(TagKind::TableCell),
        Event::End(TagEnd::MetadataBlock(_)) => Some(TagKind::MetadataBlock),
        _ => None,
    }
}

/// The `TagEnd` variant of an `Event::End` where it is a span, a link or an image.
#[verifier::external_body]
pub(crate) fn end_span_tag(event: &Event<'static>) -> (tag: Option<TagKind>)
    ensures
        tag == tag_where(event_model(*event), EventKind::End, 2),
{
    match event {
        Event::End(TagEnd::Emphasis) => Some(TagKind::Emphasis),
        Event::End(TagEnd::Strong) => Some(TagKind::Strong),
        Event::End(TagEnd::Strikethrough) => Some(TagKind::Strikethrough),
        Event::End(TagEnd::Superscript) => Some(TagKind::Superscript),
        Event::End(TagEnd::Subscript) => Some(TagKind::Subscript),
        Event::End(TagEnd::Link) => Some(TagKind::Link),
        Event::End(TagEnd::Image) => Some(TagKind::Image),
        _ => None,
    }
}

/// The string that the start of an element carries: a heading's explicit
/// id, a fenced code block's info string, a footnote definition's label, the
/// destination of a link or image.
#[verifier::external_body]
pub(crate) fn start_label(event: &Event<'static>) -> (label: Option<String>)
    ensures
        match label {
            Some(s) => event_model(*event).label == Some(s@),
            None => event_model(*event).label is None,
        },
{
    match event {
        Event::Start(Tag::Heading { id: Some(s), .. }) => Some(s.to_string()),
        Event::Start(Tag::CodeBlock(CodeBlockKind::Fenced(s))) => Some(s.to_string()),
        Event::Start(Tag::FootnoteDefinition(s)) => Some(s.to_string()),
        Event::Start(Tag::Link { dest_url, .. }) => Some(dest_url.to_string()),
        Event::Start(Tag::Image { dest_url, .. }) => Some(dest_url.to_string()),
        _ => None,
    }
}

/// The title of a link or image at its start; empty for the others.
#[verifier::external_body]
pub(crate) fn start_title(event: &Event<'static>) -> (title: String)
    ensures
        title@ == event_model(*event).title,
{
    match event {
        Event::Start(Tag::Link { title, .. }) => title.to_string(),
        Event::Start(Tag::Image { title, .. }) => title.to_string(),
        _ => String::new(),
    }
}

/// The `HeadingLevel` at the start or end of a heading as its number, `H1`
/// being 1; 0 for the others.
#[verifier::external_body]
pub(crate) fn heading_level(event: &Event<'static>) -> (level: u8)
    ensures
        level == event_model(*event).level,
{
    match event {
        Event::Start(Tag::Heading { level, .. }) => *level as u8,
        Event::End(TagEnd::Heading(level)) => *level as u8,
        _ => 0,
    }
}

/// The first number of an ordered list at its start.
#[verifier::external_body]
pub(crate) fn list_first_number(event: &Event<'static>) -> (number: Option<u64>)
    ensures
        number == event_model(*event).first_number,
{
    match event {
        Event::Start(Tag::List(number)) => *number,
        _ => None,
    }
}

/// The boolean of a task list marker (checked) or of the end of a list
/// (ordered); `false` for the others.
#[verifier::external_body]
pub(crate) fn event_flag(event: &Event<'static>) -> (flag: bool)
    ensures
        flag == event_model(*event).flag,
{
    match event {
        Event::TaskListMarker(checked) => *checked,
        Event::End(TagEnd::List(ordered)) => *ordered,
        _ => false,
    }
}

/// The `BlockQuoteKind` at the start of a block quote.
#[verifier::external_body]
pub(crate) fn block_quote_alert(event: &Event<'static>) -> (alert: Option<AlertKind>)
    ensures
        alert == event_model(*event).alert,
{
    match event {
        Event::Start(Tag::BlockQuote(Some(BlockQuoteKind::Note))) => Some(AlertKind::Note),
        Event::Start(Tag::BlockQuote(Some(BlockQuoteKind::Tip))) => Some(AlertKind::Tip),
        Event::Start(Tag::BlockQuote(Some(BlockQuoteKind::Important))) => Some(AlertKind::Important),
        Event::Start(Tag::BlockQuote(Some(BlockQuoteKind::Warning))) => Some(AlertKind::Warning),
        Event::Start(Tag::BlockQuote(Some(BlockQuoteKind::Caution))) => Some(AlertKind::Caution),
        _ => None,
    }
}

/// The `MetadataBlockKind` at the start of a metadata block.
#[verifier::external_body]
pub(crate) fn metadata_style(event: &Event<'static>) -> (style: Option<MetadataKind>)
    ensures
        style == event_model(*event).metadata,
{
    match event {
        Event::Start(Tag::MetadataBlock(MetadataBlockKind::YamlStyle)) => Some(MetadataKind::Yaml),
        Event::Start(Tag::MetadataBlock(MetadataBlockKind::PlusesStyle)) => Some(MetadataKind::Pluses),
        _ => None,
    }
}

/// Reads every plain value off a parser event.
pub(crate) fn read_event(event: &Event<'static>) -> (out: MdEvent)
    ensures
        out@ == event_model(*event),
{
    let kind = event_kind(event);
    let tag = match kind {
        EventKind::Start => {
            let container = start_container_tag(event);
            let table = start_table_tag(event);
            if container.is_some() {
                container
            } else if table.is_some() {
                table
            } else {
                start_span_tag(event)
            }
        },
        EventKind::End => {
            let container = end_container_tag(event);
            let table = end_table_tag(event);
            if container.is_some() {
                container
            } else if table.is_some() {
                table
            } else {
                end_span_tag(event)
            }
        },
        _ => None,
    };
    MdEvent {
        kind,
        tag,
        text: event_text(event),
        label: start_label(event),
        title: start_title(event),
        level: heading_level(event),
        first_number: list_first_number(event),
        flag: event_flag(event),
        alert: block_quote_alert(event),
        metadata: metadata_style(event),
    }
}

/// Parses a text into plain-value events, each with the byte offset at which
/// its source starts.
pub fn parse_markdown(text: &str, options: u32) -> (events: Vec<(MdEvent, usize)>)
    ensures
        events.deep_view() == markdown_events(text@, options),
{
    let raw = parse_offset_events(text, options);
    let mut events: Vec<(MdEvent, usize)> = Vec::new();
    let mut i: usize = 0;
    while i < raw.len()
        invariant
            i <= raw.len(),
            events@.len() == i,
            raw@.len() == markdown_events(text@, options).len(),
            forall|j: int|
                0 <= j < raw@.len() ==> {
                    &&& event_model(#[trigger] raw@[j].0) == markdown_events(text@, options)[j].0
                    &&& raw@[j].1 == markdown_events(text@, options)[j].1
                },
            forall|j: int|
                0 <= j < i ==> (#[trigger] events@[j]).0@ == markdown_events(text@, options)[j].0
                    && events@[j].1 == markdown_events(text@, options)[j].1,
        decreases raw.len() - i,
    {
        let event = read_event(&raw[i].0);
        let offset = raw[i].1;
        events.push((event, offset));
        i += 1;
    }
    proof {
        assert(events.deep_view() =~= markdown_events(text@, options));
    }
    events
}

} // verus!
