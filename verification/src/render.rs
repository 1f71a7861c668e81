//! Rendering a markdown document to sanitized HTML whose blocks carry their source line.

use crate::heading::{carries_text, collect_heading_ids, heading_ids, is_break, is_tag, label_or_empty};
use crate::lines::{
    is_ascending, lemma_entries_bounded, line_for_offset, line_of, line_start_indices, line_starts,
};
use crate::markdown::{
    all_option_bits, markdown_events, parse_markdown, AlertKind, ALL_EXTENSIONS, EventKind, EventView, MdEvent, MetadataKind,
    TagKind,
};
use crate::text::{
    decimal, escaped, push_decimal, push_escaped_attr, push_escaped_html, sanitize_image_url, sanitize_url,
    sanitized_image_url, sanitized_url, text_of, trimmed,
};
use vstd::prelude::*;
use vstd::utf8::encode_utf8;

verus! {

/// The name of an alert flavour, as it stands in attributes and classes.
pub open spec fn alert_name(kind: AlertKind) -> Seq<char> {
    match kind {
        AlertKind::Note => "note"@,
        AlertKind::Tip => "tip"@,
        AlertKind::Important => "important"@,
        AlertKind::Warning => "warning"@,
        AlertKind::Caution => "caution"@,
    }
}

/// The title shown at the head of an alert.
pub open spec fn alert_title(kind: AlertKind) -> Seq<char> {
    match kind {
        AlertKind::Note => "Note"@,
        AlertKind::Tip => "Tip"@,
        AlertKind::Important => "Important"@,
        AlertKind::Warning => "Warning"@,
        AlertKind::Caution => "Caution"@,
    }
}

/// The outline of the icon shown beside the title of an alert.
pub open spec fn alert_icon_path(kind: AlertKind) -> Seq<char> {
    match kind {
        AlertKind::Note => "M0 8a8 8 0 1 1 16 0A8 8 0 0 1 0 8Zm8-6.5a6.5 6.5 0 1 0 0 13 6.5 6.5 0 0 0 0-13ZM6.5 7.75A.75.75 0 0 1 7.25 7h1a.75.75 0 0 1 .75.75v2.75h.25a.75.75 0 0 1 0 1.5h-2a.75.75 0 0 1 0-1.5h.25v-2h-.25a.75.75 0 0 1-.75-.75ZM8 6a1 1 0 1 1 0-2 1 1 0 0 1 0 2Z"@,
        AlertKind::Tip => "M8 1.5c-2.363 0-4 1.69-4 3.75 0 .984.424 1.625.984 2.304l.214.253c.223.264.47.556.673.848.284.411.537.896.621 1.49a.75.75 0 0 1-1.484.211c-.04-.282-.163-.547-.37-.847a8.456 8.456 0 0 0-.542-.68c-.084-.1-.173-.205-.268-.32C3.201 7.75 2.5 6.766 2.5 5.25 2.5 2.31 4.863 0 8 0s5.5 2.31 5.5 5.25c0 1.516-.701 2.5-1.328 3.259-.095.115-.184.22-.268.319-.207.245-.383.453-.541.681-.208.3-.33.565-.37.847a.751.751 0 0 1-1.485-.212c.084-.593.337-1.078.621-1.489.203-.292.45-.584.673-.848.075-.088.147-.173.213-.253.561-.679.985-1.32.985-2.304 0-2.06-1.637-3.75-4-3.75ZM5.75 12h4.5a.75.75 0 0 1 0 1.5h-4.5a.75.75 0 0 1 0-1.5ZM6 15.25a.75.75 0 0 1 .75-.75h2.5a.75.75 0 0 1 0 1.5h-2.5a.75.75 0 0 1-.75-.75Z"@,
        AlertKind::Important => "M0 1.75C0 .784.784 0 1.75 0h12.5C15.216 0 16 .784 16 1.75v9.5A1.75 1.75 0 0 1 14.25 13H8.06l-2.573 2.573A1.458 1.458 0 0 1 3 14.543V13H1.75A1.75 1.75 0 0 1 0 11.25Zm1.75-.25a.25.25 0 0 0-.25.25v9.5c0 .138.112.25.25.25h2a.75.75 0 0 1 .75.75v2.19l2.72-2.72a.749.749 0 0 1 .53-.22h6.5a.25.25 0 0 0 .25-.25v-9.5a.25.25 0 0 0-.25-.25Zm7 2.25v2.5a.75.75 0 0 1-1.5 0v-2.5a.75.75 0 0 1 1.5 0ZM9 9a1 1 0 1 1-2 0 1 1 0 0 1 2 0Z"@,
        AlertKind::Warning => "M6.457 1.047c.659-1.234 2.427-1.234 3.086 0l6.082 11.378A1.75 1.75 0 0 1 14.082 15H1.918a1.75 1.75 0 0 1-1.543-2.575Zm1.763.707a.25.25 0 0 0-.44 0L1.698 13.132a.25.25 0 0 0 .22.368h12.164a.25.25 0 0 0 .22-.368Zm.53 3.996v2.5a.75.75 0 0 1-1.5 0v-2.5a.75.75 0 0 1 1.5 0ZM9 11a1 1 0 1 1-2 0 1 1 0 0 1 2 0Z"@,
        AlertKind::Caution => "M4.47.22A.749.749 0 0 1 5 0h6c.199 0 .389.079.53.22l4.25 4.25c.141.14.22.331.22.53v6a.749.749 0 0 1-.22.53l-4.25 4.25A.749.749 0 0 1 11 16H5a.749.749 0 0 1-.53-.22L.22 11.53A.749.749 0 0 1 0 11V5c0-.199.079-.389.22-.53Zm.84 1.28L1.5 5.31v5.38l3.81 3.81h5.38l3.81-3.81V5.31L10.69 1.5ZM8 4a.75.75 0 0 1 .75.75v3.5a.75.75 0 0 1-1.5 0v-3.5A.75.75 0 0 1 8 4Zm0 8a1 1 0 1 1 0-2 1 1 0 0 1 0 2Z"@,
    }
}

/// The name of a metadata style, as it stands in classes.
pub open spec fn metadata_name(kind: MetadataKind) -> Seq<char> {
    match kind {
        MetadataKind::Yaml => "yaml"@,
        MetadataKind::Pluses => "pluses"@,
    }
}

/// The name of an alert flavour.
pub fn block_quote_kind_name(kind: AlertKind) -> (name: &'static str)
    ensures
        name@ == alert_name(kind),
{
    match kind {
        AlertKind::Note => "note",
        AlertKind::Tip => "tip",
        AlertKind::Important => "important",
        AlertKind::Warning => "warning",
        AlertKind::Caution => "caution",
    }
}

/// The title of an alert flavour.
pub fn block_quote_kind_title(kind: AlertKind) -> (title: &'static str)
    ensures
        title@ == alert_title(kind),
{
    match kind {
        AlertKind::Note => "Note",
        AlertKind::Tip => "Tip",
        AlertKind::Important => "Important",
        AlertKind::Warning => "Warning",
        AlertKind::Caution => "Caution",
    }
}

/// The icon outline of an alert flavour.
pub fn block_quote_kind_icon_path(kind: AlertKind) -> (path: &'static str)
    ensures
        path@ == alert_icon_path(kind),
{
    match kind {
        AlertKind::Note => {
            "M0 8a8 8 0 1 1 16 0A8 8 0 0 1 0 8Zm8-6.5a6.5 6.5 0 1 0 0 13 6.5 6.5 0 0 0 0-13ZM6.5 7.75A.75.75 0 0 1 7.25 7h1a.75.75 0 0 1 .75.75v2.75h.25a.75.75 0 0 1 0 1.5h-2a.75.75 0 0 1 0-1.5h.25v-2h-.25a.75.75 0 0 1-.75-.75ZM8 6a1 1 0 1 1 0-2 1 1 0 0 1 0 2Z"
        },
        AlertKind::Tip => {
            "M8 1.5c-2.363 0-4 1.69-4 3.75 0 .984.424 1.625.984 2.304l.214.253c.223.264.47.556.673.848.284.411.537.896.621 1.49a.75.75 0 0 1-1.484.211c-.04-.282-.163-.547-.37-.847a8.456 8.456 0 0 0-.542-.68c-.084-.1-.173-.205-.268-.32C3.201 7.75 2.5 6.766 2.5 5.25 2.5 2.31 4.863 0 8 0s5.5 2.31 5.5 5.25c0 1.516-.701 2.5-1.328 3.259-.095.115-.184.22-.268.319-.207.245-.383.453-.541.681-.208.3-.33.565-.37.847a.751.751 0 0 1-1.485-.212c.084-.593.337-1.078.621-1.489.203-.292.45-.584.673-.848.075-.088.147-.173.213-.253.561-.679.985-1.32.985-2.304 0-2.06-1.637-3.75-4-3.75ZM5.75 12h4.5a.75.75 0 0 1 0 1.5h-4.5a.75.75 0 0 1 0-1.5ZM6 15.25a.75.75 0 0 1 .75-.75h2.5a.75.75 0 0 1 0 1.5h-2.5a.75.75 0 0 1-.75-.75Z"
        },
        AlertKind::Important => {
            "M0 1.75C0 .784.784 0 1.75 0h12.5C15.216 0 16 .784 16 1.75v9.5A1.75 1.75 0 0 1 14.25 13H8.06l-2.573 2.573A1.458 1.458 0 0 1 3 14.543V13H1.75A1.75 1.75 0 0 1 0 11.25Zm1.75-.25a.25.25 0 0 0-.25.25v9.5c0 .138.112.25.25.25h2a.75.75 0 0 1 .75.75v2.19l2.72-2.72a.749.749 0 0 1 .53-.22h6.5a.25.25 0 0 0 .25-.25v-9.5a.25.25 0 0 0-.25-.25Zm7 2.25v2.5a.75.75 0 0 1-1.5 0v-2.5a.75.75 0 0 1 1.5 0ZM9 9a1 1 0 1 1-2 0 1 1 0 0 1 2 0Z"
        },
        AlertKind::Warning => {
            "M6.457 1.047c.659-1.234 2.427-1.234 3.086 0l6.082 11.378A1.75 1.75 0 0 1 14.082 15H1.918a1.75 1.75 0 0 1-1.543-2.575Zm1.763.707a.25.25 0 0 0-.44 0L1.698 13.132a.25.25 0 0 0 .22.368h12.164a.25.25 0 0 0 .22-.368Zm.53 3.996v2.5a.75.75 0 0 1-1.5 0v-2.5a.75.75 0 0 1 1.5 0ZM9 11a1 1 0 1 1-2 0 1 1 0 0 1 2 0Z"
        },
        AlertKind::Caution => {
            "M4.47.22A.749.749 0 0 1 5 0h6c.199 0 .389.079.53.22l4.25 4.25c.141.14.22.331.22.53v6a.749.749 0 0 1-.22.53l-4.25 4.25A.749.749 0 0 1 11 16H5a.749.749 0 0 1-.53-.22L.22 11.53A.749.749 0 0 1 0 11V5c0-.199.079-.389.22-.53Zm.84 1.28L1.5 5.31v5.38l3.81 3.81h5.38l3.81-3.81V5.31L10.69 1.5ZM8 4a.75.75 0 0 1 .75.75v3.5a.75.75 0 0 1-1.5 0v-3.5A.75.75 0 0 1 8 4Zm0 8a1 1 0 1 1 0-2 1 1 0 0 1 0 2Z"
        },
    }
}

/// The name of a metadata style.
pub fn metadata_block_kind_name(kind: MetadataKind) -> (name: &'static str)
    ensures
        name@ == metadata_name(kind),
{
    match kind {
        MetadataKind::Yaml => "yaml",
        MetadataKind::Pluses => "pluses",
    }
}

/// The title line of an alert: its icon and its title in a paragraph.
pub open spec fn alert_title_html(kind: AlertKind) -> Seq<char> {
    "<p class=\"markdown-alert-title\"><svg class=\"octicon markdown-alert-icon\" viewBox=\"0 0 16 16\" width=\"16\" height=\"16\" aria-hidden=\"true\"><path d=\""@
        + alert_icon_path(kind) + "\"></path></svg>"@ + alert_title(kind) + "</p>"@
}

/// Appends the title line of an alert.
pub fn render_alert_title(out: &mut String, kind: AlertKind)
    ensures
        final(out)@ == old(out)@ + alert_title_html(kind),
{
    let ghost before = out@;
    out.push_str("<p class=\"markdown-alert-title\"><svg class=\"octicon markdown-alert-icon\" viewBox=\"0 0 16 16\" width=\"16\" height=\"16\" aria-hidden=\"true\"><path d=\"");
    out.push_str(block_quote_kind_icon_path(kind));
    out.push_str("\"></path></svg>");
    out.push_str(block_quote_kind_title(kind));
    out.push_str("</p>");
    assert(out@ =~= before + alert_title_html(kind));
}

/// The opening of a block element that carries its source line.
pub open spec fn block_open_html(tag: Seq<char>, line: usize) -> Seq<char> {
    seq!['<'] + tag + " data-line=\""@ + decimal(line as nat) + "\">"@
}

/// Appends the opening of a block element with its source line.
pub fn open_block_tag(out: &mut String, tag: &str, line: usize)
    ensures
        final(out)@ == old(out)@ + block_open_html(tag@, line),
{
    let ghost before = out@;
    out.push('<');
    out.push_str(tag);
    out.push_str(" data-line=\"");
    push_decimal(out, line as u64);
    out.push_str("\">");
    assert(out@ =~= before + block_open_html(tag@, line));
}

/// The heading id that stands at `index`, if there is one.
pub open spec fn id_at(ids: Seq<Seq<char>>, index: usize) -> Option<Seq<char>> {
    if index < ids.len() {
        Some(ids[index as int])
    } else {
        None
    }
}

/// An attribute with an escaped value, led by a space.
pub open spec fn attribute(name: Seq<char>, value: Seq<char>) -> Seq<char> {
    seq![' '] + name + "=\""@ + escaped(value) + seq!['"']
}

/// The opening of a heading: its level, its source line and, where it has
/// one, its id.
pub open spec fn heading_open_html(level: u8, line: usize, id: Option<Seq<char>>) -> Seq<char> {
    "<h"@ + decimal(level as nat) + " data-line=\""@ + decimal(line as nat) + seq!['"'] + match id {
        Some(id) => attribute("id"@, id),
        None => Seq::empty(),
    } + seq!['>']
}

/// The opening of a block quote; an alert also gets its flavour as an
/// attribute and a class, and its title line.
pub open spec fn block_quote_open_html(alert: Option<AlertKind>, line: usize) -> Seq<char> {
    "<blockquote data-line=\""@ + decimal(line as nat) + seq!['"'] + match alert {
        Some(kind) => " data-alert=\""@ + alert_name(kind) + "\" class=\"markdown-alert markdown-alert-"@
            + alert_name(kind) + "\">"@ + alert_title_html(kind),
        None => seq!['>'],
    }
}

/// The opening of a code block; a fenced one whose trimmed info string is
/// not empty gets it as its language class.
pub open spec fn code_block_open_html(info: Option<Seq<char>>, line: usize) -> Seq<char> {
    "<pre data-line=\""@ + decimal(line as nat) + "\"><code"@ + match info {
        Some(info) => if trimmed(info).len() > 0 {
            " class=\"language-"@ + escaped(trimmed(info)) + seq!['"']
        } else {
            Seq::empty()
        },
        None => Seq::empty(),
    } + seq!['>']
}

/// The opening of a list: ordered from its first number, or unordered.
pub open spec fn list_open_html(first_number: Option<u64>) -> Seq<char> {
    match first_number {
        Some(number) => "<ol start=\""@ + decimal(number as nat) + "\">"@,
        None => "<ul>"@,
    }
}

/// The opening of a link: its sanitized destination and, where it is not
/// empty, its title.
pub open spec fn link_open_html(dest: Seq<char>, title: Seq<char>) -> Seq<char> {
    "<a href=\""@ + escaped(sanitized_url(dest)) + seq!['"'] + if title.len() > 0 {
        attribute("title"@, title)
    } else {
        Seq::empty()
    } + seq!['>']
}

/// The opening of an image up to the start of its alternative text.
pub open spec fn image_open_html(dest: Seq<char>) -> Seq<char> {
    "<img src=\""@ + escaped(sanitized_image_url(dest)) + "\" alt=\""@
}

/// The opening of a block of raw HTML.
pub open spec fn html_block_open_html(line: usize) -> Seq<char> {
    "<pre data-line=\""@ + decimal(line as nat) + "\" class=\"html-block\">"@
}

/// The opening of a footnote definition.
pub open spec fn footnote_open_html(label: Seq<char>, line: usize) -> Seq<char> {
    "<section data-line=\""@ + decimal(line as nat) + "\" class=\"footnote\" data-footnote=\""@ + escaped(
        label,
    ) + "\">"@
}

/// The opening of a metadata block.
pub open spec fn metadata_open_html(style: Option<MetadataKind>, line: usize) -> Seq<char> {
    "<pre data-line=\""@ + decimal(line as nat) + "\" class=\"metadata-block metadata-"@ + match style {
        Some(kind) => metadata_name(kind),
        None => Seq::empty(),
    } + "\">"@
}

/// What the start of an element adds to the document.
pub open spec fn start_tag_html(
    event: EventView,
    line: usize,
    id: Option<Seq<char>>,
    in_table_head: bool,
) -> Seq<char> {
    match event.tag {
        Some(TagKind::Paragraph) => block_open_html("p"@, line),
        Some(TagKind::Heading) => heading_open_html(event.level, line, id),
        Some(TagKind::BlockQuote) => block_quote_open_html(event.alert, line),
        Some(TagKind::CodeBlock) => code_block_open_html(event.label, line),
        Some(TagKind::List) => list_open_html(event.first_number),
        Some(TagKind::DefinitionList) => "<dl>"@,
        Some(TagKind::DefinitionListTitle) => block_open_html("dt"@, line),
        Some(TagKind::DefinitionListDefinition) => block_open_html("dd"@, line),
        Some(TagKind::Item) => block_open_html("li"@, line),
        Some(TagKind::Emphasis) => "<em>"@,
        Some(TagKind::Superscript) => "<sup>"@,
        Some(TagKind::Subscript) => "<sub>"@,
        Some(TagKind::Strong) => "<strong>"@,
        Some(TagKind::Strikethrough) => "<del>"@,
        Some(TagKind::Link) => link_open_html(label_or_empty(event), event.title),
        Some(TagKind::Image) => image_open_html(label_or_empty(event)),
        Some(TagKind::HtmlBlock) => html_block_open_html(line),
        Some(TagKind::FootnoteDefinition) => footnote_open_html(label_or_empty(event), line),
        Some(TagKind::MetadataBlock) => metadata_open_html(event.metadata, line),
        Some(TagKind::Table) => block_open_html("table"@, line),
        Some(TagKind::TableHead) => "<thead>"@,
        Some(TagKind::TableRow) => "<tr>"@,
        Some(TagKind::TableCell) => if in_table_head {
            "<th>"@
        } else {
            "<td>"@
        },
        None => Seq::empty(),
    }
}

/// The heading index after the start of an element: one more after a
/// heading, as far as the machine counts.
pub open spec fn index_after_start(event: EventView, index: usize) -> usize {
    if event.tag == Some(TagKind::Heading) && index < usize::MAX {
        (index + 1) as usize
    } else {
        index
    }
}

/// The titles of the images that are open after the start of an element:
/// an image adds its title, or `None` for an empty one.
pub open spec fn titles_after_start(event: EventView, titles: Seq<Option<Seq<char>>>) -> Seq<
    Option<Seq<char>>,
> {
    if event.tag == Some(TagKind::Image) {
        titles.push(
            if event.title.len() == 0 {
                None
            } else {
                Some(event.title)
            },
        )
    } else {
        titles
    }
}

/// The titles of a stack of open images.
pub open spec fn titles_of(titles: Seq<Option<String>>) -> Seq<Option<Seq<char>>> {
    titles.map_values(|title: Option<String>| text_of(title))
}

fn push_attribute(out: &mut String, name: &str, value: &str)
    ensures
        final(out)@ == old(out)@ + attribute(name@, value@),
{
    let ghost before = out@;
    out.push(' ');
    out.push_str(name);
    out.push_str("=\"");
    push_escaped_attr(out, value);
    out.push('"');
    assert(out@ =~= before + attribute(name@, value@));
}

fn push_heading_open(out: &mut String, level: u8, line: usize, id: Option<&String>)
    ensures
        final(out)@ == old(out)@ + heading_open_html(
            level,
            line,
            match id {
                Some(id) => Some(id@),
                None => None,
            },
        ),
{
    let ghost before = out@;
    out.push_str("<h");
    push_decimal(out, level as u64);
    out.push_str(" data-line=\"");
    push_decimal(out, line as u64);
    out.push('"');
    if let Some(id) = id {
        push_attribute(out, "id", id.as_str());
    }
    out.push('>');
    assert(out@ =~= before + heading_open_html(
        level,
        line,
        match id {
            Some(id) => Some(id@),
            None => None,
        },
    ));
}

fn push_block_quote_open(out: &mut String, alert: Option<AlertKind>, line: usize)
    ensures
        final(out)@ == old(out)@ + block_quote_open_html(alert, line),
{
    let ghost before = out@;
    out.push_str("<blockquote data-line=\"");
    push_decimal(out, line as u64);
    out.push('"');
    if let Some(kind) = alert {
        let kind_name = block_quote_kind_name(kind);
        out.push_str(" data-alert=\"");
        out.push_str(kind_name);
        out.push_str("\" class=\"markdown-alert markdown-alert-");
        out.push_str(kind_name);
        out.push_str("\">");
        render_alert_title(out, kind);
    } else {
        out.push('>');
    }
    assert(out@ =~= before + block_quote_open_html(alert, line));
}

fn push_code_block_open(out: &mut String, info: &Option<String>, line: usize)
    ensures
        final(out)@ == old(out)@ + code_block_open_html(text_of(*info), line),
{
    let ghost before = out@;
    out.push_str("<pre data-line=\"");
    push_decimal(out, line as u64);
    out.push_str("\"><code");
    if let Some(lang) = info {
        let trimmed = lang.as_str().trim();
        if !trimmed.is_empty() {
            out.push_str(" class=\"language-");
            push_escaped_attr(out, trimmed);
            out.push('"');
        }
    }
    out.push('>');
    assert(out@ =~= before + code_block_open_html(text_of(*info), line));
}

fn push_list_open(out: &mut String, first_number: Option<u64>)
    ensures
        final(out)@ == old(out)@ + list_open_html(first_number),
{
    let ghost before = out@;
    if let Some(start) = first_number {
        out.push_str("<ol start=\"");
        push_decimal(out, start);
        out.push_str("\">");
    } else {
        out.push_str("<ul>");
    }
    assert(out@ =~= before + list_open_html(first_number));
}

/// The string behind an optional label, empty where there is none.
fn label_str(label: &Option<String>) -> (text: &str)
    ensures
        text@ == match text_of(*label) {
            Some(label) => label,
            None => Seq::empty(),
        },
{
    match label {
        Some(label) => label.as_str(),
        None => {
            proof {
                reveal_strlit("");
                assert(""@ =~= Seq::<char>::empty());
            }
            ""
        },
    }
}

fn push_link_open(out: &mut String, dest: &str, title: &str)
    ensures
        final(out)@ == old(out)@ + link_open_html(dest@, title@),
{
    let ghost before = out@;
    out.push_str("<a href=\"");
    let safe = sanitize_url(dest);
    push_escaped_attr(out, safe.as_str());
    out.push('"');
    if !title.is_empty() {
        push_attribute(out, "title", title);
    }
    out.push('>');
    assert(out@ =~= before + link_open_html(dest@, title@));
}

fn push_image_open(out: &mut String, dest: &str)
    ensures
        final(out)@ == old(out)@ + image_open_html(dest@),
{
    let ghost before = out@;
    out.push_str("<img src=\"");
    let safe = sanitize_image_url(dest);
    push_escaped_attr(out, safe.as_str());
    out.push_str("\" alt=\"");
    assert(out@ =~= before + image_open_html(dest@));
}

fn push_html_block_open(out: &mut String, line: usize)
    ensures
        final(out)@ == old(out)@ + html_block_open_html(line),
{
    let ghost before = out@;
    out.push_str("<pre data-line=\"");
    push_decimal(out, line as u64);
    out.push_str("\" class=\"html-block\">");
    assert(out@ =~= before + html_block_open_html(line));
}

fn push_footnote_open(out: &mut String, label: &str, line: usize)
    ensures
        final(out)@ == old(out)@ + footnote_open_html(label@, line),
{
    let ghost before = out@;
    out.push_str("<section data-line=\"");
    push_decimal(out, line as u64);
    out.push_str("\" class=\"footnote\" data-footnote=\"");
    push_escaped_attr(out, label);
    out.push_str("\">");
    assert(out@ =~= before + footnote_open_html(label@, line));
}

fn push_metadata_open(out: &mut String, style: Option<MetadataKind>, line: usize)
    ensures
        final(out)@ == old(out)@ + metadata_open_html(style, line),
{
    let ghost before = out@;
    out.push_str("<pre data-line=\"");
    push_decimal(out, line as u64);
    out.push_str("\" class=\"metadata-block metadata-");
    if let Some(kind) = style {
        out.push_str(metadata_block_kind_name(kind));
    }
    out.push_str("\">");
    assert(out@ =~= before + metadata_open_html(style, line));
}

/// Renders the start of an element. `event` is a `Start` event, `line` its
/// source line; a heading takes the id at `heading_index`.
pub fn render_start_tag(
    out: &mut String,
    event: &MdEvent,
    line: usize,
    heading_ids: &[String],
    heading_index: &mut usize,
    image_titles: &mut Vec<Option<String>>,
    in_table_head: &mut bool,
)
    ensures
        final(out)@ == old(out)@ + start_tag_html(
            event@,
            line,
            id_at(heading_ids.deep_view(), *old(heading_index)),
            *old(in_table_head),
        ),
        *final(heading_index) == index_after_start(event@, *old(heading_index)),
        titles_of(final(image_titles)@) == titles_after_start(event@, titles_of(old(image_titles)@)),
        *final(in_table_head) == (*old(in_table_head) || event@.tag == Some(TagKind::TableHead)),
{
    let ghost before = out@;
    let ghost titles_before = titles_of(image_titles@);
    match event.tag {
        Some(TagKind::Paragraph) => open_block_tag(out, "p", line),
        Some(TagKind::Heading) => {
            if *heading_index < heading_ids.len() {
                push_heading_open(out, event.level, line, Some(&heading_ids[*heading_index]));
            } else {
                push_heading_open(out, event.level, line, None);
            }
            if *heading_index < usize::MAX {
                *heading_index = *heading_index + 1;
            }
        },
        Some(TagKind::BlockQuote) => push_block_quote_open(out, event.alert, line),
        Some(TagKind::CodeBlock) => push_code_block_open(out, &event.label, line),
        Some(TagKind::List) => push_list_open(out, event.first_number),
        Some(TagKind::DefinitionList) => out.push_str("<dl>"),
        Some(TagKind::DefinitionListTitle) => open_block_tag(out, "dt", line),
        Some(TagKind::DefinitionListDefinition) => open_block_tag(out, "dd", line),
        Some(TagKind::Item) => open_block_tag(out, "li", line),
        Some(TagKind::Emphasis) => out.push_str("<em>"),
        Some(TagKind::Superscript) => out.push_str("<sup>"),
        Some(TagKind::Subscript) => out.push_str("<sub>"),
        Some(TagKind::Strong) => out.push_str("<strong>"),
        Some(TagKind::Strikethrough) => out.push_str("<del>"),
        Some(TagKind::Link) => push_link_open(out, label_str(&event.label), event.title.as_str()),
        Some(TagKind::Image) => {
            push_image_open(out, label_str(&event.label));
            if event.title.as_str().is_empty() {
                image_titles.push(None);
            } else {
                image_titles.push(Some(event.title.clone()));
            }
            proof {
                assert(titles_of(image_titles@) =~= titles_after_start(event@, titles_before));
            }
        },
        Some(TagKind::HtmlBlock) => push_html_block_open(out, line),
        Some(TagKind::FootnoteDefinition) => push_footnote_open(out, label_str(&event.label), line),
        Some(TagKind::MetadataBlock) => push_metadata_open(out, event.metadata, line),
        Some(TagKind::Table) => open_block_tag(out, "table", line),
        Some(TagKind::TableHead) => {
            *in_table_head = true;
            out.push_str("<thead>");
        },
        Some(TagKind::TableRow) => out.push_str("<tr>"),
        Some(TagKind::TableCell) => {
            if *in_table_head {
                out.push_str("<th>");
            } else {
                out.push_str("<td>");
            }
        },
        None => {
            assert(out@ =~= before + Seq::<char>::empty());
        },
    }
}

/// What the end of an element adds to the document.
pub open spec fn end_tag_html(event: EventView, in_table_head: bool) -> Seq<char> {
    match event.tag {
        Some(TagKind::Paragraph) => "</p>"@,
        Some(TagKind::Heading) => "</h"@ + decimal(event.level as nat) + seq!['>'],
        Some(TagKind::BlockQuote) => "</blockquote>"@,
        Some(TagKind::CodeBlock) => "</code></pre>"@,
        Some(TagKind::HtmlBlock) => "</pre>"@,
        Some(TagKind::List) => if event.flag {
            "</ol>"@
        } else {
            "</ul>"@
        },
        Some(TagKind::Item) => "</li>"@,
        Some(TagKind::FootnoteDefinition) => "</section>"@,
        Some(TagKind::DefinitionList) => "</dl>"@,
        Some(TagKind::DefinitionListTitle) => "</dt>"@,
        Some(TagKind::DefinitionListDefinition) => "</dd>"@,
        Some(TagKind::Table) => "</table>"@,
        Some(TagKind::TableHead) => "</thead>"@,
        Some(TagKind::TableRow) => "</tr>"@,
        Some(TagKind::TableCell) => if in_table_head {
            "</th>"@
        } else {
            "</td>"@
        },
        Some(TagKind::Emphasis) => "</em>"@,
        Some(TagKind::Strong) => "</strong>"@,
        Some(TagKind::Strikethrough) => "</del>"@,
        Some(TagKind::Superscript) => "</sup>"@,
        Some(TagKind::Subscript) => "</sub>"@,
        Some(TagKind::Link) => "</a>"@,
        Some(TagKind::Image) => Seq::empty(),
        Some(TagKind::MetadataBlock) => "</pre>"@,
        None => Seq::empty(),
    }
}

/// Renders the end of an element. `event` is an `End` event.
pub fn render_end_tag(out: &mut String, event: &MdEvent, in_table_head: &mut bool)
    ensures
        final(out)@ == old(out)@ + end_tag_html(event@, *old(in_table_head)),
        *final(in_table_head) == (*old(in_table_head) && event@.tag != Some(TagKind::TableHead)),
{
    let ghost before = out@;
    let ghost html = end_tag_html(event@, *in_table_head);
    match event.tag {
        Some(TagKind::Paragraph) => out.push_str("</p>"),
        Some(TagKind::Heading) => {
            out.push_str("</h");
            push_decimal(out, event.level as u64);
            out.push('>');
            assert(out@ =~= before + html);
        },
        Some(TagKind::BlockQuote) => out.push_str("</blockquote>"),
        Some(TagKind::CodeBlock) => out.push_str("</code></pre>"),
        Some(TagKind::HtmlBlock) => out.push_str("</pre>"),
        Some(TagKind::List) => {
            if event.flag {
                out.push_str("</ol>");
            } else {
                out.push_str("</ul>");
            }
        },
        Some(TagKind::Item) => out.push_str("</li>"),
        Some(TagKind::FootnoteDefinition) => out.push_str("</section>"),
        Some(TagKind::DefinitionList) => out.push_str("</dl>"),
        Some(TagKind::DefinitionListTitle) => out.push_str("</dt>"),
        Some(TagKind::DefinitionListDefinition) => out.push_str("</dd>"),
        Some(TagKind::Table) => out.push_str("</table>"),
        Some(TagKind::TableHead) => {
            *in_table_head = false;
            out.push_str("</thead>");
        },
        Some(TagKind::TableRow) => out.push_str("</tr>"),
        Some(TagKind::TableCell) => {
            if *in_table_head {
                out.push_str("</th>");
            } else {
                out.push_str("</td>");
            }
        },
        Some(TagKind::Emphasis) => out.push_str("</em>"),
        Some(TagKind::Strong) => out.push_str("</strong>"),
        Some(TagKind::Strikethrough) => out.push_str("</del>"),
        Some(TagKind::Superscript) => out.push_str("</sup>"),
        Some(TagKind::Subscript) => out.push_str("</sub>"),
        Some(TagKind::Link) => out.push_str("</a>"),
        Some(TagKind::Image) => {
            assert(out@ =~= before + html);
        },
        Some(TagKind::MetadataBlock) => out.push_str("</pre>"),
        None => {
            assert(out@ =~= before + html);
        },
    }
}

/// What an event adds while the alternative text of an image is open: the
/// end of an image closes the attribute, adds the title of the innermost
/// open image and closes the element; text comes escaped, a line break as
/// a space, and nothing else shows.
pub open spec fn alt_event_html(event: EventView, titles: Seq<Option<Seq<char>>>) -> Seq<char> {
    if is_tag(event, EventKind::End, TagKind::Image) {
        seq!['"'] + if titles.len() > 0 && titles.last() is Some {
            attribute("title"@, titles.last()->0)
        } else {
            Seq::empty()
        } + " />"@
    } else if carries_text(event.kind) {
        escaped(event.text)
    } else if is_break(event.kind) {
        seq![' ']
    } else {
        Seq::empty()
    }
}

/// The titles of the images that are open after such an event: the end of
/// an image closes the innermost.
pub open spec fn titles_after_alt(event: EventView, titles: Seq<Option<Seq<char>>>) -> Seq<
    Option<Seq<char>>,
> {
    if is_tag(event, EventKind::End, TagKind::Image) && titles.len() > 0 {
        titles.drop_last()
    } else {
        titles
    }
}

/// Renders an event inside the alternative text of an image.
pub fn render_image_alt_event(out: &mut String, image_titles: &mut Vec<Option<String>>, event: &MdEvent)
    ensures
        final(out)@ == old(out)@ + alt_event_html(event@, titles_of(old(image_titles)@)),
        titles_of(final(image_titles)@) == titles_after_alt(event@, titles_of(old(image_titles)@)),
{
    let ghost before = out@;
    let ghost titles = titles_of(image_titles@);
    let ghost html = alt_event_html(event@, titles);
    match (event.kind, event.tag) {
        (EventKind::End, Some(TagKind::Image)) => {
            out.push('"');
            if let Some(Some(title)) = image_titles.pop() {
                push_attribute(out, "title", title.as_str());
            }
            out.push_str(" />");
            proof {
                assert(titles_of(image_titles@) =~= titles_after_alt(event@, titles));
            }
            assert(out@ =~= before + html);
        },
        (EventKind::Text, _)
        | (EventKind::Code, _)
        | (EventKind::Html, _)
        | (EventKind::InlineHtml, _)
        | (EventKind::InlineMath, _)
        | (EventKind::DisplayMath, _)
        | (EventKind::FootnoteReference, _) => {
            push_escaped_attr(out, event.text.as_str());
        },
        (EventKind::SoftBreak, _) | (EventKind::HardBreak, _) => {
            out.push(' ');
            assert(out@ =~= before + html);
        },
        _ => {
            assert(out@ =~= before + html);
        },
    }
}

/// What an event that neither opens nor closes an element adds to the
/// document, outside of alternative texts.
pub open spec fn inline_html(event: EventView) -> Seq<char> {
    match event.kind {
        EventKind::Text => escaped(event.text),
        EventKind::Code => "<code>"@ + escaped(event.text) + "</code>"@,
        EventKind::InlineMath => "<span class=\"math-inline\">"@ + escaped(event.text) + "</span>"@,
        EventKind::DisplayMath => "<div class=\"math-display\">"@ + escaped(event.text) + "</div>"@,
        EventKind::Html => escaped(event.text),
        EventKind::InlineHtml => escaped(event.text),
        EventKind::FootnoteReference => "<sup>"@ + escaped(event.text) + "</sup>"@,
        EventKind::SoftBreak => seq!['\n'],
        EventKind::HardBreak => "<br />\n"@,
        EventKind::Rule => "<hr />"@,
        EventKind::TaskListMarker => if event.flag {
            "<input type=\"checkbox\" checked disabled /> "@
        } else {
            "<input type=\"checkbox\" disabled /> "@
        },
        EventKind::Start => Seq::empty(),
        EventKind::End => Seq::empty(),
    }
}

/// Where rendering stands: the HTML so far, the last line marker, the
/// number of headings met, the titles of the images whose alternative text
/// is open, and whether a table head is open.
pub struct RenderScan {
    pub html: Seq<char>,
    pub last_line: usize,
    pub heading_index: usize,
    pub titles: Seq<Option<Seq<char>>>,
    pub in_table_head: bool,
}

/// The line marker of an event: the line of its offset, but never less
/// than the marker before it.
pub open spec fn marker_line(offset: usize, starts: Seq<usize>, last_line: usize) -> usize {
    if line_of(offset, starts) < last_line {
        last_line
    } else {
        line_of(offset, starts) as usize
    }
}

/// Rendering after one more event.
pub open spec fn render_step(
    scan: RenderScan,
    event: EventView,
    offset: usize,
    starts: Seq<usize>,
    ids: Seq<Seq<char>>,
) -> RenderScan {
    let line = marker_line(offset, starts, scan.last_line);
    if scan.titles.len() > 0 {
        RenderScan {
            html: scan.html + alt_event_html(event, scan.titles),
            last_line: line,
            titles: titles_after_alt(event, scan.titles),
            ..scan
        }
    } else if event.kind == EventKind::Start {
        RenderScan {
            html: scan.html + start_tag_html(
                event,
                line,
                id_at(ids, scan.heading_index),
                scan.in_table_head,
            ),
            last_line: line,
            heading_index: index_after_start(event, scan.heading_index),
            titles: titles_after_start(event, scan.titles),
            in_table_head: scan.in_table_head || event.tag == Some(TagKind::TableHead),
        }
    } else if event.kind == EventKind::End {
        RenderScan {
            html: scan.html + end_tag_html(event, scan.in_table_head),
            last_line: line,
            in_table_head: scan.in_table_head && event.tag != Some(TagKind::TableHead),
            ..scan
        }
    } else {
        RenderScan { html: scan.html + inline_html(event), last_line: line, ..scan }
    }
}

/// Rendering after all of `events`, begun with the opening of the root
/// container.
pub open spec fn render_scan(events: Seq<(EventView, usize)>, starts: Seq<usize>, ids: Seq<Seq<char>>) -> RenderScan
    decreases events.len(),
{
    if events.len() == 0 {
        RenderScan {
            html: "<article id=\"md-root\">"@,
            last_line: 1,
            heading_index: 0,
            titles: Seq::empty(),
            in_table_head: false,
        }
    } else {
        render_step(
            render_scan(events.drop_last(), starts, ids),
            events.last().0,
            events.last().1,
            starts,
            ids,
        )
    }
}

/// The HTML of a document: its events rendered in order inside the root
/// container.
pub open spec fn document_html(events: Seq<(EventView, usize)>, starts: Seq<usize>, ids: Seq<Seq<char>>) -> Seq<
    char,
> {
    render_scan(events, starts, ids).html + "</article>"@
}

/// The opening of the root container.
pub open spec fn root_open() -> Seq<char> {
    "<article id=\"md-root\">"@
}

/// The HTML of a document begins with the opening of the root container
/// and ends with its closing.
pub proof fn lemma_document_is_wrapped(events: Seq<(EventView, usize)>, starts: Seq<usize>, ids: Seq<Seq<char>>)
    ensures
        root_open().is_prefix_of(document_html(events, starts, ids)),
        "</article>"@.is_suffix_of(document_html(events, starts, ids)),
{
    lemma_scan_keeps_root(events, starts, ids);
    let html = render_scan(events, starts, ids).html;
    let whole = document_html(events, starts, ids);
    assert(whole.subrange(0, root_open().len() as int) =~= html.subrange(0, root_open().len() as int));
    assert(whole.subrange(whole.len() - "</article>"@.len(), whole.len() as int) =~= "</article>"@);
}

proof fn lemma_scan_keeps_root(events: Seq<(EventView, usize)>, starts: Seq<usize>, ids: Seq<Seq<char>>)
    ensures
        root_open().is_prefix_of(render_scan(events, starts, ids).html),
    decreases events.len(),
{
    if events.len() == 0 {
        assert(root_open().subrange(0, root_open().len() as int) =~= root_open());
    } else {
        lemma_scan_keeps_root(events.drop_last(), starts, ids);
        let before = render_scan(events.drop_last(), starts, ids).html;
        let after = render_scan(events, starts, ids).html;
        assert(after.subrange(0, before.len() as int) =~= before);
        assert(after.subrange(0, root_open().len() as int) =~= before.subrange(
            0,
            root_open().len() as int,
        ));
    }
}

/// The line marker that the `index`-th event of a document is rendered with.
pub open spec fn marker_at(
    events: Seq<(EventView, usize)>,
    starts: Seq<usize>,
    ids: Seq<Seq<char>>,
    index: int,
) -> usize {
    render_scan(events.take(index + 1), starts, ids).last_line
}

/// Line markers start at 1 and never regress: of two events of one
/// document, the later one is rendered with a marker at least as large.
pub proof fn lemma_markers_never_regress(
    events: Seq<(EventView, usize)>,
    starts: Seq<usize>,
    ids: Seq<Seq<char>>,
    earlier: int,
    later: int,
)
    requires
        0 <= earlier <= later < events.len(),
        starts.len() <= usize::MAX,
    ensures
        1 <= marker_at(events, starts, ids, earlier) <= marker_at(events, starts, ids, later),
    decreases later - earlier,
{
    if earlier < later {
        lemma_markers_never_regress(events, starts, ids, earlier, later - 1);
        assert(events.take(later + 1).drop_last() == events.take(later));
        lemma_entries_bounded(starts, events[later].1);
    } else {
        lemma_marker_positive(events.take(earlier + 1), starts, ids);
    }
}

proof fn lemma_marker_positive(events: Seq<(EventView, usize)>, starts: Seq<usize>, ids: Seq<Seq<char>>)
    requires
        starts.len() <= usize::MAX,
    ensures
        render_scan(events, starts, ids).last_line >= 1,
    decreases events.len(),
{
    if events.len() > 0 {
        lemma_marker_positive(events.drop_last(), starts, ids);
        lemma_entries_bounded(starts, events.last().1);
    }
}

fn render_inline_event(out: &mut String, event: &MdEvent)
    ensures
        final(out)@ == old(out)@ + inline_html(event@),
{
    let ghost before = out@;
    let ghost html = inline_html(event@);
    match event.kind {
        EventKind::Text => push_escaped_html(out, event.text.as_str()),
        EventKind::Code => {
            out.push_str("<code>");
            push_escaped_html(out, event.text.as_str());
            out.push_str("</code>");
            assert(out@ =~= before + html);
        },
        EventKind::InlineMath => {
            out.push_str("<span class=\"math-inline\">");
            push_escaped_html(out, event.text.as_str());
            out.push_str("</span>");
            assert(out@ =~= before + html);
        },
        EventKind::DisplayMath => {
            out.push_str("<div class=\"math-display\">");
            push_escaped_html(out, event.text.as_str());
            out.push_str("</div>");
            assert(out@ =~= before + html);
        },
        EventKind::Html | EventKind::InlineHtml => push_escaped_html(out, event.text.as_str()),
        EventKind::FootnoteReference => {
            out.push_str("<sup>");
            push_escaped_html(out, event.text.as_str());
            out.push_str("</sup>");
            assert(out@ =~= before + html);
        },
        EventKind::SoftBreak => {
            out.push('\n');
            assert(out@ =~= before + html);
        },
        EventKind::HardBreak => out.push_str("<br />\n"),
        EventKind::Rule => out.push_str("<hr />"),
        EventKind::TaskListMarker => {
            if event.flag {
                out.push_str("<input type=\"checkbox\" checked disabled /> ");
            } else {
                out.push_str("<input type=\"checkbox\" disabled /> ");
            }
        },
        EventKind::Start | EventKind::End => {
            assert(out@ =~= before + html);
        },
    }
}

/// Renders the events of a document into HTML. Each event is placed on the
/// line of `markdown` that holds its offset, and the headings take their
/// ids from `heading_ids` in order.
pub fn render_events(markdown: &str, events: &[(MdEvent, usize)], heading_ids: &[String]) -> (html: String)
    ensures
        html@ == document_html(
            events.deep_view(),
            line_starts(encode_utf8(markdown@)),
            heading_ids.deep_view(),
        ),
{
    let mut output = String::new();
    output.push_str("<article id=\"md-root\">");

    let line_starts = line_start_indices(markdown);
    let mut last_line: usize = 1;
    let mut heading_index: usize = 0;
    let mut image_titles: Vec<Option<String>> = Vec::new();
    let mut in_table_head = false;

    let ghost all = events.deep_view();
    let ghost starts = line_starts@;
    let ghost ids = heading_ids.deep_view();
    proof {
        assert(all.take(0).len() == 0);
        assert(titles_of(image_titles@) =~= Seq::empty());
    }

    let mut i: usize = 0;
    while i < events.len()
        invariant
            i <= events.len(),
            all == events.deep_view(),
            starts == line_starts@,
            ids == heading_ids.deep_view(),
            is_ascending(starts),
            render_scan(all.take(i as int), starts, ids) == (RenderScan {
                html: output@,
                last_line,
                heading_index,
                titles: titles_of(image_titles@),
                in_table_head,
            }),
        decreases events.len() - i,
    {
        let event = &events[i].0;
        proof {
            assert(all.take(i + 1).drop_last() == all.take(i as int));
            assert(all.take(i + 1).last() == (event@, events[i as int].1));
        }
        let mut line = line_for_offset(events[i].1, line_starts.as_slice());
        if line < last_line {
            line = last_line;
        } else {
            last_line = line;
        }

        if image_titles.len() > 0 {
            render_image_alt_event(&mut output, &mut image_titles, event);
        } else {
            match event.kind {
                EventKind::Start => render_start_tag(
                    &mut output,
                    event,
                    line,
                    heading_ids,
                    &mut heading_index,
                    &mut image_titles,
                    &mut in_table_head,
                ),
                EventKind::End => render_end_tag(&mut output, event, &mut in_table_head),
                _ => render_inline_event(&mut output, event),
            }
        }
        i += 1;
    }
    proof {
        assert(all.take(events.len() as int) == all);
    }

    output.push_str("</article>");
    output
}

/// The HTML of a markdown text under the given parser options.
pub open spec fn rendered(text: Seq<char>, options: u32) -> Seq<char> {
    document_html(
        markdown_events(text, options),
        line_starts(encode_utf8(text)),
        heading_ids(markdown_events(text, options)),
    )
}

/// Renders markdown to HTML.
#[derive(Debug, Clone)]
pub struct MarkdownRenderer {
    options: u32,
}

impl Default for MarkdownRenderer {
    /// A renderer with every extension of the parser switched on.
    fn default() -> (renderer: Self)
        ensures
            renderer.options() == ALL_EXTENSIONS,
    {
        Self { options: all_option_bits() }
    }
}

impl MarkdownRenderer {
    /// The parser option bits of this renderer.
    pub closed spec fn options(self) -> u32 {
        self.options
    }

    /// The parser option bits of this renderer.
    pub fn option_bits(&self) -> (bits: u32)
        ensures
            bits == self.options(),
    {
        self.options
    }

    /// Renders a markdown text. The result is a function of the text and
    /// the renderer's options alone.
    pub fn render(&self, markdown: &str) -> (html: String)
        ensures
            html@ == rendered(markdown@, self.options()),
    {
        let heading_ids = collect_heading_ids(markdown, self.options);
        let events = parse_markdown(markdown, self.options);
        render_events(markdown, events.as_slice(), heading_ids.as_slice())
    }
}

} // verus!
