//! References from a document to local image files: which ones name a path, and which paths are images.

use crate::text::{eq_ignoring_case, lowered, text_of, trimmed};
use std::path::Path;
use vstd::prelude::*;
use vstd::slice::slice_subrange;
use vstd::utf8::{decode_utf8, encode_utf8, valid_utf8};

verus! {

/// Whether a byte is an ASCII letter.
pub open spec fn is_ascii_letter(byte: u8) -> bool {
    (0x41 <= byte <= 0x5a) || (0x61 <= byte <= 0x7a)
}

/// Whether a byte may stand inside the name of a URL scheme: an ASCII
/// letter or digit, `+`, `-` or `.`.
pub open spec fn is_scheme_byte(byte: u8) -> bool {
    is_ascii_letter(byte) || (0x30 <= byte <= 0x39) || byte == 0x2b || byte == 0x2d || byte == 0x2e
}

/// Whether a reference begins like a path on a lettered drive: a letter,
/// a colon, and a slash or backslash.
pub open spec fn is_drive_path(bytes: Seq<u8>) -> bool {
    bytes.len() >= 3 && is_ascii_letter(bytes[0]) && bytes[1] == 0x3a && (bytes[2] == 0x5c || bytes[2]
        == 0x2f)
}

/// Whether a reference names a URL scheme: it is no drive path, begins with
/// a letter, and a colon follows after nothing but scheme characters.
pub open spec fn names_scheme(bytes: Seq<u8>) -> bool {
    &&& !is_drive_path(bytes)
    &&& bytes.len() > 0
    &&& is_ascii_letter(bytes[0])
    &&& exists|colon: int|
        1 <= colon < bytes.len() && #[trigger] bytes[colon] == 0x3a && forall|j: int|
            1 <= j < colon ==> is_scheme_byte(#[trigger] bytes[j])
}

fn is_letter(byte: u8) -> (letter: bool)
    ensures
        letter == is_ascii_letter(byte),
{
    (0x41 <= byte && byte <= 0x5a) || (0x61 <= byte && byte <= 0x7a)
}

/// Tells whether a reference names a URL scheme.
pub fn has_url_scheme(value: &str) -> (found: bool)
    ensures
        found == names_scheme(encode_utf8(value@)),
{
    let bytes = value.as_bytes();
    if bytes.len() >= 3 {
        if is_letter(bytes[0]) && bytes[1] == 0x3a && (bytes[2] == 0x5c || bytes[2] == 0x2f) {
            return false;
        }
    }
    if bytes.len() == 0 || !is_letter(bytes[0]) {
        return false;
    }
    let mut i: usize = 1;
    while i < bytes.len()
        invariant
            1 <= i <= bytes.len(),
            bytes@ == encode_utf8(value@),
            !is_drive_path(bytes@),
            is_ascii_letter(bytes@[0]),
            forall|j: int| 1 <= j < i ==> is_scheme_byte(#[trigger] bytes@[j]) && bytes@[j] != 0x3a,
        decreases bytes.len() - i,
    {
        let byte = bytes[i];
        if byte == 0x3a {
            return true;
        }
        let scheme_byte = is_letter(byte) || (0x30 <= byte && byte <= 0x39) || byte == 0x2b || byte
            == 0x2d || byte == 0x2e;
        if !scheme_byte {
            proof {
                assert forall|colon: int|
                    1 <= colon < bytes@.len() && #[trigger] bytes@[colon] == 0x3a implies !(forall|
                    j: int,
                | 1 <= j < colon ==> is_scheme_byte(#[trigger] bytes@[j])) by {
                    if colon < i {
                        assert(bytes@[colon] != 0x3a);
                    } else {
                        assert(!is_scheme_byte(bytes@[i as int]));
                    }
                }
            }
            return false;
        }
        i += 1;
    }
    false
}

/// The value of a hexadecimal digit.
pub open spec fn hex_value(byte: u8) -> Option<u8> {
    if 0x30 <= byte <= 0x39 {
        Some((byte - 0x30) as u8)
    } else if 0x61 <= byte <= 0x66 {
        Some((byte - 0x61 + 10) as u8)
    } else if 0x41 <= byte <= 0x46 {
        Some((byte - 0x41 + 10) as u8)
    } else {
        None
    }
}

/// The value of a hexadecimal digit, if the byte is one.
pub fn decode_hex_nibble(value: u8) -> (nibble: Option<u8>)
    ensures
        nibble == hex_value(value),
        nibble matches Some(n) ==> n < 16,
{
    if 0x30 <= value && value <= 0x39 {
        Some(value - 0x30)
    } else if 0x61 <= value && value <= 0x66 {
        Some(value - 0x61 + 10)
    } else if 0x41 <= value && value <= 0x46 {
        Some(value - 0x41 + 10)
    } else {
        None
    }
}

/// The bytes that a percent-encoded text stands for: every `%` with the
/// two hexadecimal digits after it gives one byte, every other byte
/// itself. There is no such text where a `%` lacks its two digits.
pub open spec fn percent_decoded(bytes: Seq<u8>) -> Option<Seq<u8>>
    decreases bytes.len(),
{
    if bytes.len() == 0 {
        Some(Seq::empty())
    } else if bytes[0] != 0x25 {
        match percent_decoded(bytes.skip(1)) {
            Some(rest) => Some(seq![bytes[0]] + rest),
            None => None,
        }
    } else if bytes.len() < 3 {
        None
    } else {
        match (hex_value(bytes[1]), hex_value(bytes[2]), percent_decoded(bytes.skip(3))) {
            (Some(high), Some(low), Some(rest)) => Some(seq![(high * 16 + low) as u8] + rest),
            _ => None,
        }
    }
}

/// `String::from_utf8`: the string that the bytes encode, if they are
/// valid UTF-8.
#[verifier::external_body]
fn string_from_utf8(bytes: Vec<u8>) -> (text: Option<String>)
    ensures
        text is Some == valid_utf8(bytes@),
        text matches Some(s) ==> s@ == decode_utf8(bytes@),
{
    String::from_utf8(bytes).ok()
}

/// The text that a percent-encoded text stands for, if it stands for
/// valid UTF-8.
pub open spec fn percent_decoded_text(bytes: Seq<u8>) -> Option<Seq<char>> {
    match percent_decoded(bytes) {
        Some(decoded) => if valid_utf8(decoded) {
            Some(decode_utf8(decoded))
        } else {
            None
        },
        None => None,
    }
}

fn decode_percent_bytes(bytes: &[u8]) -> (text: Option<String>)
    ensures
        text_of(text) == percent_decoded_text(bytes@),
{
    let mut decoded: Vec<u8> = Vec::new();
    let mut index: usize = 0;
    proof {
        assert(bytes@.skip(0) =~= bytes@);
        if let Some(rest) = percent_decoded(bytes@) {
            assert(decoded@ + rest =~= rest);
        }
    }
    while index < bytes.len()
        invariant
            index <= bytes.len(),
            percent_decoded(bytes@) == match percent_decoded(bytes@.skip(index as int)) {
                Some(rest) => Some(decoded@ + rest),
                None => None,
            },
        decreases bytes.len() - index,
    {
        let ghost left = bytes@.skip(index as int);
        proof {
            assert(left[0] == bytes@[index as int]);
        }
        if bytes[index] != 0x25 {
            proof {
                assert(left.skip(1) =~= bytes@.skip(index + 1));
                if let Some(rest) = percent_decoded(left.skip(1)) {
                    assert(decoded@.push(bytes@[index as int]) + rest =~= decoded@ + (seq![left[0]] + rest));
                }
            }
            decoded.push(bytes[index]);
            index += 1;
            continue ;
        }
        if bytes.len() - index < 3 {
            return None;
        }
        proof {
            assert(left[1] == bytes@[index + 1]);
            assert(left[2] == bytes@[index + 2]);
            assert(left.skip(3) =~= bytes@.skip(index + 3));
        }
        let high = match decode_hex_nibble(bytes[index + 1]) {
            Some(high) => high,
            None => {
                return None;
            },
        };
        let low = match decode_hex_nibble(bytes[index + 2]) {
            Some(low) => low,
            None => {
                return None;
            },
        };
        let byte = (high << 4) | low;
        proof {
            assert(byte == (high * 16 + low) as u8) by (bit_vector)
                requires
                    byte == (high << 4) | low,
                    high < 16,
                    low < 16,
            ;
            if let Some(rest) = percent_decoded(left.skip(3)) {
                assert(decoded@.push(byte) + rest =~= decoded@ + (seq![byte] + rest));
            }
        }
        decoded.push(byte);
        index += 3;
    }
    proof {
        assert(bytes@.skip(bytes@.len() as int) =~= Seq::<u8>::empty());
        assert(decoded@ + Seq::<u8>::empty() =~= decoded@);
    }
    string_from_utf8(decoded)
}

/// Decodes a percent-encoded text.
pub fn decode_percent_encoded(value: &str) -> (text: Option<String>)
    ensures
        text_of(text) == percent_decoded_text(encode_utf8(value@)),
{
    decode_percent_bytes(value.as_bytes())
}

/// Whether a byte ends the path of a reference: `?` or `#`.
pub open spec fn ends_path(byte: u8) -> bool {
    byte == 0x3f || byte == 0x23
}

/// The path of a reference: what stands before the first `?` or `#`.
pub open spec fn path_part(bytes: Seq<u8>) -> Seq<u8>
    decreases bytes.len(),
{
    if bytes.len() == 0 || ends_path(bytes[0]) {
        Seq::empty()
    } else {
        seq![bytes[0]] + path_part(bytes.skip(1))
    }
}

/// Where no byte before place `end` ends the path and the byte at `end`,
/// if there is one, does, the path is what stands before `end`.
pub proof fn lemma_path_part(bytes: Seq<u8>, end: int)
    requires
        0 <= end <= bytes.len(),
        forall|j: int| 0 <= j < end ==> !ends_path(#[trigger] bytes[j]),
        end < bytes.len() ==> ends_path(bytes[end]),
    ensures
        path_part(bytes) == bytes.take(end),
    decreases end,
{
    if end == 0 {
        assert(bytes.take(0) =~= Seq::<u8>::empty());
    } else {
        let rest = bytes.skip(1);
        assert forall|j: int| 0 <= j < end - 1 implies !ends_path(#[trigger] rest[j]) by {
            assert(rest[j] == bytes[j + 1]);
        }
        lemma_path_part(rest, end - 1);
        assert(seq![bytes[0]] + rest.take(end - 1) =~= bytes.take(end));
    }
}

/// The lower-case form of an ASCII capital letter; any other byte itself.
pub open spec fn lower_byte(byte: u8) -> u8 {
    if 0x41 <= byte <= 0x5a {
        (byte + 0x20) as u8
    } else {
        byte
    }
}

/// The bytes of `file://`.
pub open spec fn file_prefix() -> Seq<u8> {
    seq![0x66u8, 0x69u8, 0x6cu8, 0x65u8, 0x3au8, 0x2fu8, 0x2fu8]
}

/// Whether a reference begins with `file://`, in any case.
pub open spec fn has_file_prefix(bytes: Seq<u8>) -> bool {
    bytes.len() >= 7 && forall|i: int| 0 <= i < 7 ==> lower_byte(#[trigger] bytes[i]) == file_prefix()[i]
}

fn starts_with_file_prefix(bytes: &[u8]) -> (found: bool)
    ensures
        found == has_file_prefix(bytes@),
{
    if bytes.len() < 7 {
        return false;
    }
    let prefix: [u8; 7] = [0x66, 0x69, 0x6c, 0x65, 0x3a, 0x2f, 0x2f];
    let mut i: usize = 0;
    while i < 7
        invariant
            i <= 7 <= bytes.len(),
            prefix@ == file_prefix(),
            forall|j: int| 0 <= j < i ==> lower_byte(#[trigger] bytes@[j]) == file_prefix()[j],
        decreases 7 - i,
    {
        let byte = bytes[i];
        let lower = if 0x41 <= byte && byte <= 0x5a {
            byte + 0x20
        } else {
            byte
        };
        if lower != prefix[i] {
            return false;
        }
        i += 1;
    }
    true
}

/// Where in a trimmed reference its local path begins: at the start, or
/// after `file://`. A reference that is empty, a fragment, relative to
/// the protocol or under another scheme holds no local path.
pub open spec fn local_start(bytes: Seq<u8>) -> Option<int> {
    if bytes.len() == 0 || bytes[0] == 0x23 || (bytes.len() >= 2 && bytes[0] == 0x2f && bytes[1]
        == 0x2f) {
        None
    } else if names_scheme(bytes) {
        if has_file_prefix(bytes) {
            Some(7)
        } else {
            None
        }
    } else {
        Some(0)
    }
}

/// The local path that a reference names: the path part of the trimmed
/// reference, after `file://` if it has that, percent-decoded. None where
/// the reference holds no local path, the path is empty or blank, or the
/// decoding fails.
pub open spec fn local_asset_reference(raw: Seq<char>) -> Option<Seq<char>> {
    let bytes = encode_utf8(trimmed(raw));
    match local_start(bytes) {
        None => None,
        Some(start) => {
            let path = path_part(bytes.skip(start));
            if path.len() == 0 {
                None
            } else {
                match percent_decoded_text(path) {
                    Some(text) => if trimmed(text).len() == 0 {
                        None
                    } else {
                        Some(text)
                    },
                    None => None,
                }
            }
        },
    }
}

/// Reads the local path that a reference names, if it names one.
pub fn parse_local_asset_reference(raw_path: &str) -> (path: Option<String>)
    ensures
        text_of(path) == local_asset_reference(raw_path@),
{
    let trimmed = raw_path.trim();
    let bytes = trimmed.as_bytes();
    if bytes.len() == 0 || bytes[0] == 0x23 || (bytes.len() >= 2 && bytes[0] == 0x2f && bytes[1]
        == 0x2f) {
        return None;
    }
    let start: usize = if has_url_scheme(trimmed) {
        if !starts_with_file_prefix(bytes) {
            return None;
        }
        7
    } else {
        0
    };
    let candidate = slice_subrange(bytes, start, bytes.len());
    proof {
        assert(candidate@ =~= bytes@.skip(start as int));
    }
    let mut end: usize = 0;
    while end < candidate.len() && !(candidate[end] == 0x3f || candidate[end] == 0x23)
        invariant
            end <= candidate.len(),
            forall|j: int| 0 <= j < end ==> !ends_path(#[trigger] candidate@[j]),
        decreases candidate.len() - end,
    {
        end += 1;
    }
    proof {
        lemma_path_part(candidate@, end as int);
    }
    if end == 0 {
        return None;
    }
    let without_suffix = slice_subrange(candidate, 0, end);
    proof {
        assert(without_suffix@ =~= candidate@.take(end as int));
    }
    let decoded = match decode_percent_bytes(without_suffix) {
        Some(decoded) => decoded,
        None => {
            return None;
        },
    };
    if decoded.as_str().trim().is_empty() {
        return None;
    }
    Some(decoded)
}

/// `Path::extension` of a path, where it is valid Unicode: what follows
/// the last dot of the file name, if the name has a dot that is not its
/// first character. The file name is the last component of the path, and
/// what ends a component depends on the platform; on every platform the
/// extension stands in the path right after a dot and holds no dot
/// itself.
#[verifier::external_body]
fn path_extension(path: &str) -> (extension: Option<String>)
    ensures
        extension matches Some(found) ==> holds_extension(path@, found@),
{
    Some(Path::new(path).extension()?.to_str()?.to_owned())
}

/// Whether files with this extension, in any case, are served as images.
pub open spec fn is_image_extension(extension: Seq<char>) -> bool {
    let ext = lowered(extension);
    ext == "png"@ || ext == "jpg"@ || ext == "jpeg"@ || ext == "gif"@ || ext == "webp"@ || ext == "svg"@
        || ext == "bmp"@ || ext == "ico"@ || ext == "avif"@ || ext == "apng"@ || ext == "tif"@ || ext
        == "tiff"@
}

/// Tells whether files with this extension are served as images.
pub fn is_supported_image_extension(extension: &str) -> (supported: bool)
    ensures
        supported == is_image_extension(extension@),
{
    eq_ignoring_case(extension, "png") || eq_ignoring_case(extension, "jpg") || eq_ignoring_case(
        extension,
        "jpeg",
    ) || eq_ignoring_case(extension, "gif") || eq_ignoring_case(extension, "webp")
        || eq_ignoring_case(extension, "svg") || eq_ignoring_case(extension, "bmp")
        || eq_ignoring_case(extension, "ico") || eq_ignoring_case(extension, "avif")
        || eq_ignoring_case(extension, "apng") || eq_ignoring_case(extension, "tif")
        || eq_ignoring_case(extension, "tiff")
}

/// Tells whether a path names a file that is served as an image, going by
/// the extension that the platform reads off the path. A path that holds
/// no dot followed by the extension of an image is not.
pub fn is_supported_image_path(path: &str) -> (supported: bool)
    ensures
        supported ==> names_image(path@),
{
    match path_extension(path) {
        Some(extension) => is_supported_image_extension(extension.as_str()),
        None => false,
    }
}

/// Whether a path holds `extension` right after a dot, and `extension`
/// holds no dot itself.
pub open spec fn holds_extension(path: Seq<char>, extension: Seq<char>) -> bool {
    &&& !extension.contains('.')
    &&& exists|dot: int|
        0 <= dot && dot + 1 + extension.len() <= path.len() && path[dot] == '.' && #[trigger] path.subrange(
            dot + 1,
            dot + 1 + extension.len(),
        ) == extension
}

/// Whether a path holds, right after a dot, an extension under which files
/// are served as images.
pub open spec fn names_image(path: Seq<char>) -> bool {
    exists|extension: Seq<char>| holds_extension(path, extension) && is_image_extension(extension)
}

/// The media type under which files with this extension, in any case,
/// are served.
pub open spec fn media_type_of(extension: Option<Seq<char>>) -> Seq<char> {
    match extension {
        None => "application/octet-stream"@,
        Some(extension) => {
            let ext = lowered(extension);
            if ext == "png"@ || ext == "apng"@ {
                "image/png"@
            } else if ext == "jpg"@ || ext == "jpeg"@ {
                "image/jpeg"@
            } else if ext == "gif"@ {
                "image/gif"@
            } else if ext == "webp"@ {
                "image/webp"@
            } else if ext == "svg"@ {
                "image/svg+xml"@
            } else if ext == "bmp"@ {
                "image/bmp"@
            } else if ext == "ico"@ {
                "image/x-icon"@
            } else if ext == "avif"@ {
                "image/avif"@
            } else if ext == "tif"@ || ext == "tiff"@ {
                "image/tiff"@
            } else {
                "application/octet-stream"@
            }
        },
    }
}

/// The media type under which files with this extension are served.
pub fn content_type_for_extension(extension: Option<&str>) -> (media_type: &'static str)
    ensures
        media_type@ == media_type_of(
            match extension {
                Some(extension) => Some(extension@),
                None => None,
            },
        ),
{
    let ext = match extension {
        Some(ext) => ext,
        None => {
            return "application/octet-stream";
        },
    };
    if eq_ignoring_case(ext, "png") || eq_ignoring_case(ext, "apng") {
        "image/png"
    } else if eq_ignoring_case(ext, "jpg") || eq_ignoring_case(ext, "jpeg") {
        "image/jpeg"
    } else if eq_ignoring_case(ext, "gif") {
        "image/gif"
    } else if eq_ignoring_case(ext, "webp") {
        "image/webp"
    } else if eq_ignoring_case(ext, "svg") {
        "image/svg+xml"
    } else if eq_ignoring_case(ext, "bmp") {
        "image/bmp"
    } else if eq_ignoring_case(ext, "ico") {
        "image/x-icon"
    } else if eq_ignoring_case(ext, "avif") {
        "image/avif"
    } else if eq_ignoring_case(ext, "tif") || eq_ignoring_case(ext, "tiff") {
        "image/tiff"
    } else {
        "application/octet-stream"
    }
}

/// The media type under which the file at a path is served, going by the
/// extension that the platform reads off the path.
pub fn image_content_type(path: &str) -> (media_type: &'static str)
    ensures
        exists|extension: Option<Seq<char>>| media_type@ == media_type_of(extension),
{
    match path_extension(path) {
        Some(extension) => content_type_for_extension(Some(extension.as_str())),
        None => content_type_for_extension(None),
    }
}

} // verus!
