//! Character-level helpers shared by the renderer.

use vstd::prelude::*;

verus! {

/// `String::push` appends one character to the end of the string.
pub assume_specification[ String::push ](s: &mut String, ch: char)
    ensures
        final(s)@ == old(s)@.push(ch),
;

/// `String::push_str` appends a string slice to the end of the string.
pub assume_specification[ String::push_str ](s: &mut String, tail: &str)
    ensures
        final(s)@ == old(s)@ + tail@,
;

/// The characters of an optional string.
pub open spec fn text_of(value: Option<String>) -> Option<Seq<char>> {
    match value {
        Some(s) => Some(s@),
        None => None,
    }
}

/// Whether a character has the Unicode property `White_Space`.
pub uninterp spec fn white_space(ch: char) -> bool;

/// `char::is_whitespace` tells whether the character has the Unicode
/// property `White_Space`.
pub assume_specification[ char::is_whitespace ](ch: char) -> (r: bool)
    ensures
        r == white_space(ch),
;

/// A text without its leading whitespace.
pub open spec fn trim_start(text: Seq<char>) -> Seq<char>
    decreases text.len(),
{
    if text.len() > 0 && white_space(text.first()) {
        trim_start(text.drop_first())
    } else {
        text
    }
}

/// A text without its trailing whitespace.
pub open spec fn trim_end(text: Seq<char>) -> Seq<char>
    decreases text.len(),
{
    if text.len() > 0 && white_space(text.last()) {
        trim_end(text.drop_last())
    } else {
        text
    }
}

/// A text without leading and trailing whitespace.
pub open spec fn trimmed(text: Seq<char>) -> Seq<char> {
    trim_end(trim_start(text))
}

/// `str::trim` returns the slice with leading and trailing whitespace
/// removed, whitespace being the Unicode property `White_Space`.
pub assume_specification[ str::trim ](s: &str) -> (r: &str)
    ensures
        r@ == trimmed(s@),
;

/// `str::ends_with` with a character as pattern: whether the last
/// character of the slice is that character.
#[verifier::external_body]
pub(crate) fn ends_with_char(text: &str, ch: char) -> (found: bool)
    ensures
        found == (text@.len() > 0 && text@.last() == ch),
{
    text.ends_with(ch)
}

/// An ASCII capital letter as its small letter; any other character unchanged.
pub open spec fn ascii_lower(ch: char) -> char {
    if 'A' <= ch && ch <= 'Z' {
        ((ch as u32) + 32) as char
    } else {
        ch
    }
}

/// `char::to_ascii_lowercase` maps `'A'..='Z'` to `'a'..='z'` and leaves
/// every other character unchanged.
pub assume_specification[ char::to_ascii_lowercase ](ch: &char) -> (r: char)
    ensures
        r == ascii_lower(*ch),
;

/// A text with its ASCII capital letters made small.
pub open spec fn lowered(text: Seq<char>) -> Seq<char> {
    text.map_values(|ch: char| ascii_lower(ch))
}

/// Whether a text begins with `prefix` once ASCII case is ignored in the
/// text. `prefix` is expected in lower case.
pub open spec fn has_prefix_ignoring_case(text: Seq<char>, prefix: Seq<char>) -> bool {
    prefix.len() <= text.len() && lowered(text.take(prefix.len() as int)) == prefix
}

/// The characters of a string slice.
pub fn chars_of(text: &str) -> (chars: Vec<char>)
    ensures
        chars@ == text@,
{
    let mut chars: Vec<char> = Vec::new();
    for ch in it: text.chars()
        invariant
            it.seq() == text@,
            chars@ == text@.take(it.index() as int),
    {
        chars.push(ch);
        proof {
            assert(text@.take(it.index() + 1) == text@.take(it.index() as int).push(ch));
        }
    }
    proof {
        assert(text@.take(text@.len() as int) == text@);
    }
    chars
}

/// Tells whether `text` begins with `prefix`, ignoring ASCII case in `text`.
pub fn starts_with_ignoring_case(text: &str, prefix: &str) -> (found: bool)
    ensures
        found == has_prefix_ignoring_case(text@, prefix@),
{
    let chars = chars_of(text);
    let wanted = chars_of(prefix);
    if wanted.len() > chars.len() {
        return false;
    }
    let mut i: usize = 0;
    while i < wanted.len()
        invariant
            i <= wanted.len() <= chars.len(),
            chars@ == text@,
            wanted@ == prefix@,
            forall|j: int| 0 <= j < i ==> ascii_lower(chars@[j]) == wanted@[j],
        decreases wanted.len() - i,
    {
        if chars[i].to_ascii_lowercase() != wanted[i] {
            proof {
                let low = lowered(text@.take(prefix@.len() as int));
                assert(low[i as int] == ascii_lower(chars@[i as int]));
            }
            return false;
        }
        i += 1;
    }
    proof {
        assert(lowered(text@.take(prefix@.len() as int)) =~= prefix@);
    }
    true
}

/// Tells whether `text` is `lower` once its ASCII capital letters are made
/// small.
pub fn eq_ignoring_case(text: &str, lower: &str) -> (same: bool)
    ensures
        same == (lowered(text@) == lower@),
{
    let chars = chars_of(text);
    let wanted = chars_of(lower);
    if wanted.len() != chars.len() {
        return false;
    }
    let mut i: usize = 0;
    while i < wanted.len()
        invariant
            i <= wanted.len(),
            wanted.len() == chars.len(),
            chars@ == text@,
            wanted@ == lower@,
            forall|j: int| 0 <= j < i ==> ascii_lower(chars@[j]) == wanted@[j],
        decreases wanted.len() - i,
    {
        if chars[i].to_ascii_lowercase() != wanted[i] {
            proof {
                assert(lowered(text@)[i as int] == ascii_lower(chars@[i as int]));
            }
            return false;
        }
        i += 1;
    }
    proof {
        assert(lowered(text@) =~= lower@);
    }
    true
}

/// Tells whether two string slices hold the same text.
pub fn same_text(left: &str, right: &str) -> (same: bool)
    ensures
        same == (left@ == right@),
{
    let a = chars_of(left);
    let b = chars_of(right);
    if a.len() != b.len() {
        return false;
    }
    let mut i: usize = 0;
    while i < a.len()
        invariant
            i <= a.len(),
            a.len() == b.len(),
            a@ == left@,
            b@ == right@,
            forall|j: int| 0 <= j < i ==> a@[j] == b@[j],
        decreases a.len() - i,
    {
        if a[i] != b[i] {
            return false;
        }
        i += 1;
    }
    proof {
        assert(left@ =~= right@);
    }
    true
}

/// The character of one hexadecimal digit, letters small.
pub open spec fn hex_digit_char(digit: nat) -> char {
    if digit < 10 {
        digit_char(digit)
    } else if digit == 10 {
        'a'
    } else if digit == 11 {
        'b'
    } else if digit == 12 {
        'c'
    } else if digit == 13 {
        'd'
    } else if digit == 14 {
        'e'
    } else {
        'f'
    }
}

/// A number in hexadecimal with small letters, without prefix or leading
/// zeros.
pub open spec fn lower_hex(n: nat) -> Seq<char>
    decreases n,
{
    if n < 16 {
        seq![hex_digit_char(n)]
    } else {
        lower_hex(n / 16).push(hex_digit_char(n % 16))
    }
}

fn hex_digit_to_char(digit: u64) -> (ch: char)
    requires
        digit < 16,
    ensures
        ch == hex_digit_char(digit as nat),
{
    if digit < 10 {
        digit_to_char(digit)
    } else if digit == 10 {
        'a'
    } else if digit == 11 {
        'b'
    } else if digit == 12 {
        'c'
    } else if digit == 13 {
        'd'
    } else if digit == 14 {
        'e'
    } else {
        'f'
    }
}

/// Appends a number in hexadecimal with small letters.
pub fn push_lower_hex(out: &mut String, n: u64)
    ensures
        final(out)@ == old(out)@ + lower_hex(n as nat),
    decreases n,
{
    if n >= 16 {
        push_lower_hex(out, n / 16);
    }
    out.push(hex_digit_to_char(n % 16));
}

/// The character of one decimal digit.
pub open spec fn digit_char(digit: nat) -> char {
    if digit == 0 {
        '0'
    } else if digit == 1 {
        '1'
    } else if digit == 2 {
        '2'
    } else if digit == 3 {
        '3'
    } else if digit == 4 {
        '4'
    } else if digit == 5 {
        '5'
    } else if digit == 6 {
        '6'
    } else if digit == 7 {
        '7'
    } else if digit == 8 {
        '8'
    } else {
        '9'
    }
}

/// A number in decimal, without sign or leading zeros.
pub open spec fn decimal(n: nat) -> Seq<char>
    decreases n,
{
    if n < 10 {
        seq![digit_char(n)]
    } else {
        decimal(n / 10).push(digit_char(n % 10))
    }
}

fn digit_to_char(digit: u64) -> (ch: char)
    requires
        digit < 10,
    ensures
        ch == digit_char(digit as nat),
{
    if digit == 0 {
        '0'
    } else if digit == 1 {
        '1'
    } else if digit == 2 {
        '2'
    } else if digit == 3 {
        '3'
    } else if digit == 4 {
        '4'
    } else if digit == 5 {
        '5'
    } else if digit == 6 {
        '6'
    } else if digit == 7 {
        '7'
    } else if digit == 8 {
        '8'
    } else {
        '9'
    }
}

/// Appends a number in decimal.
pub fn push_decimal(out: &mut String, n: u64)
    ensures
        final(out)@ == old(out)@ + decimal(n as nat),
    decreases n,
{
    if n >= 10 {
        push_decimal(out, n / 10);
    }
    out.push(digit_to_char(n % 10));
}

/// The HTML-safe replacement of one character.
pub open spec fn escaped_char(ch: char) -> Seq<char> {
    if ch == '&' {
        "&amp;"@
    } else if ch == '<' {
        "&lt;"@
    } else if ch == '>' {
        "&gt;"@
    } else if ch == '"' {
        "&quot;"@
    } else if ch == '\'' {
        "&#39;"@
    } else {
        seq![ch]
    }
}

/// The HTML-safe rendering of a text: every character replaced in order.
pub open spec fn escaped(text: Seq<char>) -> Seq<char>
    decreases text.len(),
{
    if text.len() == 0 {
        Seq::empty()
    } else {
        escaped(text.drop_last()) + escaped_char(text.last())
    }
}

/// Whether a character opens or closes markup or an attribute value.
pub open spec fn is_markup_char(ch: char) -> bool {
    ch == '<' || ch == '>' || ch == '"' || ch == '\''
}

/// Escaped text holds no character that opens or closes markup or an
/// attribute value.
pub proof fn lemma_escaped_is_inert(text: Seq<char>)
    ensures
        forall|i: int| 0 <= i < escaped(text).len() ==> !is_markup_char(#[trigger] escaped(text)[i]),
    decreases text.len(),
{
    reveal_strlit("&amp;");
    reveal_strlit("&lt;");
    reveal_strlit("&gt;");
    reveal_strlit("&quot;");
    reveal_strlit("&#39;");
    if text.len() > 0 {
        lemma_escaped_is_inert(text.drop_last());
        let front = escaped(text.drop_last());
        let tail = escaped_char(text.last());
        assert forall|k: int| 0 <= k < tail.len() implies !is_markup_char(#[trigger] tail[k]) by {}
        assert forall|i: int| 0 <= i < escaped(text).len() implies !is_markup_char(
            #[trigger] escaped(text)[i],
        ) by {
            if i >= front.len() {
                assert(escaped(text)[i] == tail[i - front.len()]);
            } else {
                assert(escaped(text)[i] == front[i]);
            }
        }
    }
}

/// Appends a text with its HTML-special characters replaced.
pub fn push_escaped_html(out: &mut String, text: &str)
    ensures
        final(out)@ == old(out)@ + escaped(text@),
{
    let ghost start = out@;
    for ch in it: text.chars()
        invariant
            it.seq() == text@,
            out@ == start + escaped(text@.take(it.index() as int)),
    {
        proof {
            let k = it.index() as int;
            assert(text@.take(k + 1).drop_last() == text@.take(k));
            assert(text@.take(k + 1).last() == ch);
        }
        match ch {
            '&' => out.push_str("&amp;"),
            '<' => out.push_str("&lt;"),
            '>' => out.push_str("&gt;"),
            '"' => out.push_str("&quot;"),
            '\'' => out.push_str("&#39;"),
            _ => out.push(ch),
        }
    }
    proof {
        assert(text@.take(text@.len() as int) == text@);
    }
}

/// Appends a text as the value of an attribute, escaped.
pub fn push_escaped_attr(out: &mut String, text: &str)
    ensures
        final(out)@ == old(out)@ + escaped(text@),
{
    push_escaped_html(out, text);
}

/// Whether a trimmed destination must not be followed as a link: it is
/// empty or starts a `javascript:`, `data:` or `vbscript:` address.
pub open spec fn is_unsafe_link(target: Seq<char>) -> bool {
    target.len() == 0 || has_prefix_ignoring_case(target, "javascript:"@)
        || has_prefix_ignoring_case(target, "data:"@) || has_prefix_ignoring_case(
        target,
        "vbscript:"@,
    )
}

/// What a link destination turns into: itself trimmed, or `#` in place of
/// an unsafe one.
pub open spec fn sanitized_url(url: Seq<char>) -> Seq<char> {
    if is_unsafe_link(trimmed(url)) {
        "#"@
    } else {
        trimmed(url)
    }
}

/// A sanitized link destination is the placeholder `#` or a trimmed
/// destination that is not unsafe.
pub proof fn lemma_sanitized_url_is_safe(url: Seq<char>)
    ensures
        sanitized_url(url) == "#"@ || (sanitized_url(url) == trimmed(url) && !is_unsafe_link(
            sanitized_url(url),
        )),
{
}

/// The destination of a link made safe to follow.
pub fn sanitize_url(url: &str) -> (safe: String)
    ensures
        safe@ == sanitized_url(url@),
{
    let trimmed = url.trim();
    if trimmed.is_empty() {
        return "#".to_owned();
    }
    if starts_with_ignoring_case(trimmed, "javascript:") || starts_with_ignoring_case(
        trimmed,
        "data:",
    ) || starts_with_ignoring_case(trimmed, "vbscript:") {
        return "#".to_owned();
    }
    trimmed.to_owned()
}

/// Whether a trimmed destination must not be loaded as an image: it is
/// empty, starts a `javascript:` or `vbscript:` address, or is a `data:`
/// address of anything but `data:image/`.
pub open spec fn is_unsafe_image(target: Seq<char>) -> bool {
    target.len() == 0 || has_prefix_ignoring_case(target, "javascript:"@)
        || has_prefix_ignoring_case(target, "vbscript:"@) || (has_prefix_ignoring_case(
        target,
        "data:"@,
    ) && !has_prefix_ignoring_case(target, "data:image/"@))
}

/// What an image source turns into: itself trimmed, or `#` in place of an
/// unsafe one.
pub open spec fn sanitized_image_url(url: Seq<char>) -> Seq<char> {
    if is_unsafe_image(trimmed(url)) {
        "#"@
    } else {
        trimmed(url)
    }
}

/// A sanitized image source is the placeholder `#` or a trimmed source
/// that is not unsafe.
pub proof fn lemma_sanitized_image_url_is_safe(url: Seq<char>)
    ensures
        sanitized_image_url(url) == "#"@ || (sanitized_image_url(url) == trimmed(url)
            && !is_unsafe_image(sanitized_image_url(url))),
{
}

/// The source of an image made safe to load.
pub fn sanitize_image_url(url: &str) -> (safe: String)
    ensures
        safe@ == sanitized_image_url(url@),
{
    let trimmed = url.trim();
    if trimmed.is_empty() {
        return "#".to_owned();
    }
    if starts_with_ignoring_case(trimmed, "javascript:") || starts_with_ignoring_case(
        trimmed,
        "vbscript:",
    ) {
        return "#".to_owned();
    }
    if starts_with_ignoring_case(trimmed, "data:") && !starts_with_ignoring_case(
        trimmed,
        "data:image/",
    ) {
        return "#".to_owned();
    }
    trimmed.to_owned()
}

} // verus!
