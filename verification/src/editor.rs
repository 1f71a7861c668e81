//! What the editor side decides on plain values: which buffers are markdown, which settings are taken.

use crate::text::{eq_ignoring_case, lowered, same_text};
use vstd::prelude::*;

verus! {

/// Whether a file type, in any case, is one of markdown.
pub open spec fn markdown_filetype(filetype: Seq<char>) -> bool {
    let name = lowered(filetype);
    name == "markdown"@ || name == "mdx"@ || name == "rmd"@ || name == "quarto"@ || name == "pandoc"@
}

/// Tells whether a buffer of this file type holds markdown.
pub fn is_markdown_filetype(filetype: &str) -> (markdown: bool)
    ensures
        markdown == markdown_filetype(filetype@),
{
    eq_ignoring_case(filetype, "markdown") || eq_ignoring_case(filetype, "mdx") || eq_ignoring_case(
        filetype,
        "rmd",
    ) || eq_ignoring_case(filetype, "quarto") || eq_ignoring_case(filetype, "pandoc")
}

/// Whether a file extension, in any case, is one of markdown.
pub open spec fn markdown_extension(extension: Seq<char>) -> bool {
    let ext = lowered(extension);
    ext == "md"@ || ext == "markdown"@ || ext == "mdown"@ || ext == "mkd"@ || ext == "mdx"@ || ext
        == "qmd"@
}

/// Tells whether a file with this extension holds markdown.
pub fn is_markdown_extension(extension: &str) -> (markdown: bool)
    ensures
        markdown == markdown_extension(extension@),
{
    eq_ignoring_case(extension, "md") || eq_ignoring_case(extension, "markdown") || eq_ignoring_case(
        extension,
        "mdown",
    ) || eq_ignoring_case(extension, "mkd") || eq_ignoring_case(extension, "mdx")
        || eq_ignoring_case(extension, "qmd")
}

/// Tells whether a buffer holds markdown: by its file type if it has one
/// of markdown, else by the extension of its name.
pub fn is_markdown_buffer(filetype: Option<&str>, extension: Option<&str>) -> (markdown: bool)
    ensures
        markdown == ((filetype matches Some(name) && markdown_filetype(name@)) || (
        extension matches Some(ext) && markdown_extension(ext@))),
{
    if let Some(name) = filetype {
        if is_markdown_filetype(name) {
            return true;
        }
    }
    match extension {
        Some(ext) => is_markdown_extension(ext),
        None => false,
    }
}

/// Lines joined by line feeds.
pub open spec fn joined_lines(lines: Seq<Seq<char>>) -> Seq<char>
    decreases lines.len(),
{
    if lines.len() == 0 {
        Seq::empty()
    } else if lines.len() == 1 {
        lines[0]
    } else {
        joined_lines(lines.drop_last()).push('\n') + lines.last()
    }
}

/// The text of a buffer from its lines.
pub fn join_lines(lines: &[String]) -> (text: String)
    ensures
        text@ == joined_lines(lines.deep_view()),
{
    let mut text = String::new();
    let ghost all = lines.deep_view();
    let mut idx: usize = 0;
    while idx < lines.len()
        invariant
            idx <= lines.len(),
            all == lines.deep_view(),
            text@ == joined_lines(all.take(idx as int)),
        decreases lines.len() - idx,
    {
        proof {
            assert(all.take(idx + 1).drop_last() == all.take(idx as int));
            assert(all.take(idx + 1).last() == lines[idx as int]@);
        }
        if idx > 0 {
            text.push('\n');
        }
        text.push_str(lines[idx].as_str());
        proof {
            if idx == 0 {
                assert(all.take(1)[0] == lines[0]@);
                assert(text@ =~= lines[0]@);
            }
        }
        idx += 1;
    }
    proof {
        assert(all.take(lines.len() as int) == all);
    }
    text
}

/// The port that a setting asks for, if it is one: 1 to 65535.
pub fn accept_port(value: i64) -> (port: Option<u16>)
    ensures
        port == if 1 <= value <= u16::MAX {
            Some(value as u16)
        } else {
            None
        },
{
    if 1 <= value && value <= 65535 {
        Some(value as u16)
    } else {
        None
    }
}

/// The number of milliseconds that a setting asks for, if it is none
/// below zero.
pub fn accept_millis(value: i64) -> (millis: Option<u64>)
    ensures
        millis == if value >= 0 {
            Some(value as u64)
        } else {
            None
        },
{
    if value >= 0 {
        Some(value as u64)
    } else {
        None
    }
}

/// Tells whether a setting names this machine as the address to bind:
/// `127.0.0.1` or `localhost`. No other address is taken.
pub fn accept_bind_address(value: &str) -> (local: bool)
    ensures
        local == (value@ == "127.0.0.1"@ || value@ == "localhost"@),
{
    same_text(value, "127.0.0.1") || same_text(value, "localhost")
}

} // verus!
