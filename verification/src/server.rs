//! What the preview server decides without touching the network: ports to try, addresses, cache tags.

use crate::text::{chars_of, decimal, lower_hex, push_decimal, push_lower_hex, same_text, trimmed};
use vstd::prelude::*;
use vstd::string::StrSliceExecFns;

verus! {

/// How many ports are tried, the configured one first.
pub const PORT_FALLBACK_ATTEMPTS: u16 = 12;

/// The last port that is tried when `port` is configured: eleven above
/// it, or the highest port there is.
pub open spec fn last_fallback_port(port: u16) -> u16 {
    if port + (PORT_FALLBACK_ATTEMPTS - 1) > u16::MAX {
        u16::MAX
    } else {
        (port + (PORT_FALLBACK_ATTEMPTS - 1)) as u16
    }
}

/// The range of ports to try in ascending order, both ends included.
pub fn fallback_ports(port: u16) -> (range: (u16, u16))
    ensures
        range.0 == port,
        range.1 == last_fallback_port(port),
{
    let span: u16 = PORT_FALLBACK_ATTEMPTS - 1;
    if port > u16::MAX - span {
        (port, u16::MAX)
    } else {
        (port, port + span)
    }
}

/// The address to bind for a port: host, colon, port.
pub open spec fn socket_address(host: Seq<char>, port: u16) -> Seq<char> {
    host + seq![':'] + decimal(port as nat)
}

/// The address to bind for a port.
pub fn bind_address(host: &str, port: u16) -> (address: String)
    ensures
        address@ == socket_address(host@, port),
{
    let mut address = String::new();
    address.push_str(host);
    address.push(':');
    push_decimal(&mut address, port as u64);
    assert(address@ =~= socket_address(host@, port));
    address
}

/// The URL under which the preview is reached.
pub open spec fn preview_url_of(ip: Seq<char>, port: u16) -> Seq<char> {
    "http://"@ + ip + seq![':'] + decimal(port as nat) + seq!['/']
}

/// The URL under which the preview is reached.
pub fn preview_url(ip: &str, port: u16) -> (url: String)
    ensures
        url@ == preview_url_of(ip@, port),
{
    let mut url = String::new();
    url.push_str("http://");
    url.push_str(ip);
    url.push(':');
    push_decimal(&mut url, port as u64);
    url.push('/');
    assert(url@ =~= preview_url_of(ip@, port));
    url
}

/// The weak cache tag of a file: its length and the second it was last
/// modified, both in hexadecimal.
pub open spec fn asset_etag(len: u64, modified_secs: u64) -> Seq<char> {
    "W/\""@ + lower_hex(len as nat) + seq!['-'] + lower_hex(modified_secs as nat) + seq!['"']
}

/// The weak cache tag of a file of this length, last modified at this
/// second.
pub fn build_asset_etag(len: u64, modified_secs: u64) -> (etag: String)
    ensures
        etag@ == asset_etag(len, modified_secs),
{
    let mut etag = String::new();
    etag.push_str("W/\"");
    push_lower_hex(&mut etag, len);
    etag.push('-');
    push_lower_hex(&mut etag, modified_secs);
    etag.push('"');
    assert(etag@ =~= asset_etag(len, modified_secs));
    etag
}

/// Whether `from..to` is one of the pieces that the commas of a text cut
/// it into.
pub open spec fn is_piece(text: Seq<char>, from: int, to: int) -> bool {
    &&& 0 <= from <= to <= text.len()
    &&& from == 0 || text[from - 1] == ','
    &&& to == text.len() || text[to] == ','
    &&& forall|j: int| from <= j < to ==> text[j] != ','
}

/// Whether a list of cache tags names `etag`: the list is `*`, or one of
/// its comma-separated pieces is `etag` once trimmed.
pub open spec fn names_etag(list: Seq<char>, etag: Seq<char>) -> bool {
    trimmed(list) == seq!['*'] || exists|from: int, to: int|
        is_piece(list, from, to) && trimmed(#[trigger] list.subrange(from, to)) == etag
}

/// Tells whether the cache tags that a request names, if it names any,
/// include `etag`.
pub fn if_none_match_matches(raw_value: Option<&str>, etag: &str) -> (matched: bool)
    ensures
        matched == match raw_value {
            Some(list) => names_etag(list@, etag@),
            None => false,
        },
{
    let list = match raw_value {
        Some(list) => list,
        None => {
            return false;
        },
    };
    proof {
        reveal_strlit("*");
        assert("*"@ =~= seq!['*']);
    }
    if same_text(list.trim(), "*") {
        return true;
    }
    let chars = chars_of(list);
    let mut start: usize = 0;
    let mut i: usize = 0;
    while i < chars.len()
        invariant
            start <= i <= chars.len(),
            raw_value == Some(list),
            chars@ == list@,
            start == 0 || chars@[start - 1] == ',',
            forall|j: int| start <= j < i ==> chars@[j] != ',',
            forall|from: int, to: int|
                is_piece(list@, from, to) && to < start ==> trimmed(#[trigger] list@.subrange(from, to))
                    != etag@,
        decreases chars.len() - i,
    {
        if chars[i] == ',' {
            let piece = list.substring_char(start, i);
            if same_text(piece.trim(), etag) {
                proof {
                    assert(is_piece(list@, start as int, i as int));
                    assert(trimmed(list@.subrange(start as int, i as int)) == etag@);
                }
                return true;
            }
            proof {
                lemma_piece_is_current(list@, start as int, i as int);
            }
            start = i + 1;
        }
        i += 1;
    }
    let piece = list.substring_char(start, chars.len());
    proof {
        lemma_piece_is_current(list@, start as int, list@.len() as int);
    }
    if same_text(piece.trim(), etag) {
        proof {
            assert(is_piece(list@, start as int, list@.len() as int));
            assert(trimmed(list@.subrange(start as int, list@.len() as int)) == etag@);
        }
        return true;
    }
    false
}

/// Where a piece begins at `start` and no comma stands from there up to
/// `end`, where the text ends or a comma stands, every piece that does not
/// end before `start` is the one from `start` to `end`.
proof fn lemma_piece_is_current(text: Seq<char>, start: int, end: int)
    requires
        0 <= start <= end <= text.len(),
        start == 0 || text[start - 1] == ',',
        end == text.len() || text[end] == ',',
        forall|j: int| start <= j < end ==> text[j] != ',',
    ensures
        forall|from: int, to: int|
            is_piece(text, from, to) && to >= start && to <= end ==> from == start && to == end,
        end == text.len() ==> forall|from: int, to: int|
            is_piece(text, from, to) && to >= start ==> from == start && to == end,
{
    assert forall|from: int, to: int| is_piece(text, from, to) && to >= start && to <= end implies from
        == start && to == end by {
        if to < end {
            assert(text[to] == ',');
        }
        if from < start {
            assert(text[start - 1] == ',');
        }
        if from > start {
            assert(text[from - 1] == ',');
        }
    }
}

} // verus!
