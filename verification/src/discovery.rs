//! Answering searches for devices and services.
use crate::advertisement::{Advertisement, DeviceName, ServiceName};
use crate::codec::string_from_utf8;
use crate::device_id::parse_device_id;
use crate::text::{
    chars_of, eq_ignore_ascii_case, find_first, lower, spells, split_line, starts_with, str_eq,
    string_of, trim, trim_end,
};
use vstd::prelude::*;
use vstd::slice::{slice_subrange, slice_to_vec};
use vstd::string::*;
use vstd::utf8::*;

verus! {

/// Why a message is no request that can be answered.
#[derive(Debug, Clone, Copy, PartialEq, Eq, Structural)]
pub enum DiscoverError {
    NotUtf8,
    NoRequestLine,
    InvalidHeader,
    NoSearchTarget,
}

impl DiscoverError {
    /// What is wrong with the message.
    pub open spec fn text(self) -> Seq<char> {
        match self {
            DiscoverError::NotUtf8 => "Request is not UTF-8"@,
            DiscoverError::NoRequestLine => "No request line"@,
            DiscoverError::InvalidHeader => "Invalid Header"@,
            DiscoverError::NoSearchTarget => "No search target"@,
        }
    }

    /// What is wrong with the message.
    pub fn message(&self) -> (out: &'static str)
        ensures
            out@ == self.text(),
    {
        match self {
            DiscoverError::NotUtf8 => "Request is not UTF-8",
            DiscoverError::NoRequestLine => "No request line",
            DiscoverError::InvalidHeader => "Invalid Header",
            DiscoverError::NoSearchTarget => "No search target",
        }
    }
}

/// The name and the value of a header line, which its first colon parts.
pub open spec fn header(line: Seq<char>) -> Option<(Seq<char>, Seq<char>)> {
    match line.index_of_first(':') {
        Some(i) => Some(
            (crate::text::trimmed(line.take(i)), crate::text::trimmed(line.skip(i + 1))),
        ),
        None => None,
    }
}

/// The headers that `lines` hold; `None` where a line is no header. Of headers with the same name the
/// last counts.
pub open spec fn headers(lines: Seq<Seq<char>>) -> Option<Map<Seq<char>, Seq<char>>>
    decreases lines.len(),
{
    if lines.len() == 0 {
        Some(Map::empty())
    } else {
        match (headers(lines.drop_last()), header(lines.last())) {
            (Some(map), Some((name, value))) => Some(map.insert(name, value)),
            _ => None,
        }
    }
}

/// What the headers of a search say is searched for.
pub open spec fn target_of(headers: Map<Seq<char>, Seq<char>>) -> Result<
    Option<Seq<char>>,
    DiscoverError,
> {
    if !headers.dom().contains("man"@) || headers["man"@] != "\"ssdp:discover\""@ {
        Ok(None)
    } else if !headers.dom().contains("st"@) {
        Err(DiscoverError::NoSearchTarget)
    } else {
        Ok(Some(headers["st"@]))
    }
}

/// What the message `text`, in small letters, searches for; nothing where it is another kind of message.
pub open spec fn search_target(text: Seq<char>) -> Result<Option<Seq<char>>, DiscoverError> {
    let lines = crate::text::lines(crate::text::trimmed_end(text));
    if lines.len() == 0 {
        Err(DiscoverError::NoRequestLine)
    } else if !"m-search"@.is_prefix_of(lines[0]) {
        Ok(None)
    } else {
        match headers(lines.skip(1)) {
            None => Err(DiscoverError::InvalidHeader),
            Some(map) => target_of(map),
        }
    }
}

/// What the message `request` searches for.
pub open spec fn requested_target(request: Seq<u8>) -> Result<Option<Seq<char>>, DiscoverError> {
    if valid_utf8(request) {
        search_target(crate::text::lowered(decode_utf8(request)))
    } else {
        Err(DiscoverError::NotUtf8)
    }
}

/// A line that is no header spoils all that follow it.
proof fn lemma_headers_spoilt(lines: Seq<Seq<char>>, n: int)
    requires
        0 <= n <= lines.len(),
        headers(lines.take(n)) is None,
    ensures
        headers(lines) is None,
    decreases lines.len() - n,
{
    if n == lines.len() {
        assert(lines.take(n) =~= lines);
    } else {
        assert(lines.take(n + 1).drop_last() =~= lines.take(n));
        lemma_headers_spoilt(lines, n + 1);
    }
}

/// Reads the headers in `text`, one to a line, and says what is searched for.
fn parse_headers(text: &[char]) -> (out: Result<Option<String>, DiscoverError>)
    ensures
        match headers(crate::text::lines(text@)) {
            None => out == Err::<Option<String>, DiscoverError>(DiscoverError::InvalidHeader),
            Some(map) => same_target(out, target_of(map)),
        },
{
    let ghost all = crate::text::lines(text@);
    let ghost mut done: int = 0;
    let ghost mut map: Map<Seq<char>, Seq<char>> = Map::empty();
    let mut rest: &[char] = text;
    let mut discover: bool = false;
    let mut target: Option<String> = None;
    assert(all.take(0) =~= Seq::empty());
    assert(all.skip(0) =~= all);
    while rest.len() > 0
        invariant
            all == crate::text::lines(text@),
            0 <= done <= all.len(),
            all.skip(done) == crate::text::lines(rest@),
            headers(all.take(done)) == Some(map),
            discover == (map.dom().contains("man"@) && map["man"@] == "\"ssdp:discover\""@),
            match target {
                Some(t) => map.dom().contains("st"@) && map["st"@] == t@,
                None => !map.dom().contains("st"@),
            },
        decreases rest@.len(),
    {
        let (line, after): (&[char], &[char]) = split_line(rest);
        proof {
            assert(all.skip(done)[0] == line@);
            assert(all.skip(done + 1) =~= all.skip(done).skip(1));
            assert(crate::text::lines(rest@).skip(1) =~= crate::text::lines(after@));
            assert(all.take(done + 1).drop_last() =~= all.take(done));
            assert(all.take(done + 1).last() == line@);
            line@.index_of_first_ensures(':');
        }
        match find_first(line, ':') {
            None => {
                proof {
                    lemma_headers_spoilt(all, done + 1);
                }
                return Err(DiscoverError::InvalidHeader);
            },
            Some(i) => {
                let end: usize = line.len();
                let name: &[char] = trim(slice_subrange(line, 0, i));
                let value: &[char] = trim(slice_subrange(line, i + 1, end));
                proof {
                    reveal_strlit("man");
                    reveal_strlit("st");
                    assert("man"@.len() != "st"@.len());
                    map = map.insert(name@, value@);
                    done = done + 1;
                }
                if spells(name, "man") {
                    discover = spells(value, "\"ssdp:discover\"");
                }
                if spells(name, "st") {
                    target = Some(string_of(value));
                }
            },
        }
        rest = after;
    }
    assert(all.take(done) =~= all) by {
        assert(all.skip(done).len() == 0);
    }
    if !discover {
        return Ok(None);
    }
    match target {
        None => Err(DiscoverError::NoSearchTarget),
        Some(t) => Ok(Some(t)),
    }
}

/// `out` is `target` with its text as a string.
pub open spec fn same_target(
    out: Result<Option<String>, DiscoverError>,
    target: Result<Option<Seq<char>>, DiscoverError>,
) -> bool {
    match (out, target) {
        (Ok(Some(a)), Ok(Some(b))) => a@ == b,
        (Ok(None), Ok(None)) => true,
        (Err(a), Err(b)) => a == b,
        _ => false,
    }
}

/// Reads the message `text`, in small letters, and says what is searched for.
pub fn parse_search(text: &str) -> (out: Result<Option<String>, DiscoverError>)
    ensures
        same_target(out, search_target(text@)),
{
    let chars: Vec<char> = chars_of(text);
    let message: &[char] = trim_end(chars.as_slice());
    if message.len() == 0 {
        return Err(DiscoverError::NoRequestLine);
    }
    let (line, after): (&[char], &[char]) = split_line(message);
    let ghost lines = crate::text::lines(message@);
    assert(lines[0] == line@);
    assert(lines.skip(1) =~= crate::text::lines(after@));
    if !starts_with(line, "m-search") {
        return Ok(None);
    }
    parse_headers(after)
}

/// `b` with an ASCII capital turned into its small letter.
pub open spec fn lowered_byte(b: u8) -> u8 {
    if 0x41 <= b <= 0x5a {
        (b + 0x20) as u8
    } else {
        b
    }
}

/// `bytes` with each ASCII capital turned into its small letter.
pub open spec fn lowered_bytes(bytes: Seq<u8>) -> Seq<u8> {
    Seq::new(bytes.len(), |i: int| lowered_byte(bytes[i]))
}

/// The bytes that encode a character outside ASCII are outside ASCII.
proof fn lemma_wide_bytes(scalar: u32)
    by (bit_vector)
    ensures
        leading_byte_width_2(scalar) >= 0x80,
        leading_byte_width_3(scalar) >= 0x80,
        leading_byte_width_4(scalar) >= 0x80,
        last_continuation_byte(scalar) >= 0x80,
        second_last_continuation_byte(scalar) >= 0x80,
        third_last_continuation_byte(scalar) >= 0x80,
{
}

/// The byte that encodes an ASCII character is its number.
proof fn lemma_narrow_byte(scalar: u32)
    by (bit_vector)
    requires
        scalar <= 0x7f,
    ensures
        leading_byte_width_1(scalar) == scalar,
{
}

/// Turning a text into small letters turns its bytes into small letters.
proof fn lemma_lowered_encoding(chars: Seq<char>)
    ensures
        encode_utf8(crate::text::lowered(chars)) == lowered_bytes(encode_utf8(chars)),
    decreases chars.len(),
{
    let small = crate::text::lowered(chars);
    if chars.len() == 0 {
        assert(encode_utf8(small) =~= lowered_bytes(encode_utf8(chars)));
    } else {
        let c = chars[0] as u32;
        let d = small[0] as u32;
        char_is_scalar(chars[0]);
        lemma_wide_bytes(c);
        if c <= 0x7f {
            lemma_narrow_byte(c);
            lemma_narrow_byte(d);
        }
        assert(encode_scalar(d) =~= lowered_bytes(encode_scalar(c)));
        assert(small.drop_first() =~= crate::text::lowered(chars.drop_first()));
        lemma_lowered_encoding(chars.drop_first());
        assert(encode_utf8(small) =~= lowered_bytes(encode_utf8(chars)));
    }
}

/// Reads the message `request` and says what it searches for. A message that is text is left in small
/// letters.
pub fn parse_discover_request(request: &mut [u8]) -> (out: Result<Option<String>, DiscoverError>)
    ensures
        same_target(out, requested_target(old(request)@)),
        final(request)@ == if valid_utf8(old(request)@) {
            encode_utf8(crate::text::lowered(decode_utf8(old(request)@)))
        } else {
            old(request)@
        },
{
    let ghost message = request@;
    let text: String = match string_from_utf8(slice_to_vec(request)) {
        Err(_) => return Err(DiscoverError::NotUtf8),
        Ok(text) => text,
    };
    let mut i: usize = 0;
    let len: usize = request.len();
    while i < len
        invariant
            i <= len,
            len == request@.len() == message.len(),
            request@ == lowered_bytes(message).take(i as int) + message.skip(i as int),
        decreases len - i,
    {
        let b: u8 = request[i];
        assert(b == message[i as int]);
        if 0x41 <= b && b <= 0x5a {
            request[i] = b + 0x20;
        }
        i = i + 1;
    }
    proof {
        assert(request@ =~= lowered_bytes(message));
        lemma_lowered_encoding(text@);
        decode_utf8_encode_utf8(message);
    }
    parse_search(lower(text.as_str()).as_str())
}

/// What the device `id` answers to a search for `target`: the root device, the device itself, or a kind
/// of device or service that it is or offers.
pub open spec fn answer(target: Seq<char>, id: u128) -> Option<Advertisement> {
    let small = crate::text::lowered(target);
    if target == "upnp:rootdevice"@ {
        Some(Advertisement::RootDevice { id })
    } else if "uuid:"@.is_prefix_of(target) && crate::device_id::writes(
        target.skip("uuid:"@.len() as int),
        id,
    ) {
        Some(Advertisement::Uuid { id })
    } else if small == crate::text::lowered(DeviceName::MediaServer.urn()) {
        Some(Advertisement::Device { id, name: DeviceName::MediaServer })
    } else if small == crate::text::lowered(ServiceName::ConnectionManager.urn()) {
        Some(Advertisement::Service { id, name: ServiceName::ConnectionManager })
    } else if small == crate::text::lowered(ServiceName::ContentDirectory.urn()) {
        Some(Advertisement::Service { id, name: ServiceName::ContentDirectory })
    } else {
        None
    }
}

/// A search for the device of some identifier is none for a kind of device or service.
proof fn lemma_uuid_is_no_urn(target: Seq<char>)
    requires
        "uuid:"@.is_prefix_of(target),
    ensures
        crate::text::lowered(target) != crate::text::lowered(DeviceName::MediaServer.urn()),
        crate::text::lowered(target) != crate::text::lowered(ServiceName::ConnectionManager.urn()),
        crate::text::lowered(target) != crate::text::lowered(ServiceName::ContentDirectory.urn()),
{
    reveal_strlit("uuid:");
    reveal_strlit("urn:schemas-upnp-org:device:MediaServer:1");
    reveal_strlit("urn:schemas-upnp-org:service:ConnectionManager:1");
    reveal_strlit("urn:schemas-upnp-org:service:ContentDirectory:1");
    assert(target[1] == "uuid:"@[1]);
    assert(crate::text::lowered(target)[1] == 'u');
    assert(crate::text::lowered(DeviceName::MediaServer.urn())[1] == 'r');
    assert(crate::text::lowered(ServiceName::ConnectionManager.urn())[1] == 'r');
    assert(crate::text::lowered(ServiceName::ContentDirectory.urn())[1] == 'r');
}

/// What the device `id` answers to a search for `target`.
pub fn matching_advertisement(target: &str, id: u128) -> (out: Option<Advertisement>)
    ensures
        out == answer(target@, id),
{
    if str_eq(target, "upnp:rootdevice") {
        return Some(Advertisement::RootDevice { id });
    }
    let chars: Vec<char> = chars_of(target);
    let len: usize = chars.len();
    if starts_with(chars.as_slice(), "uuid:") {
        proof {
            reveal_strlit("uuid:");
            lemma_uuid_is_no_urn(target@);
        }
        let rest: String = string_of(slice_subrange(chars.as_slice(), 5, len));
        match parse_device_id(rest.as_str()) {
            Some(search_id) => {
                proof {
                    if crate::device_id::writes(rest@, id) {
                        crate::device_id::text_writes_one_id(rest@, id, search_id);
                    }
                }
                if search_id == id {
                    return Some(Advertisement::Uuid { id });
                }
                return None;
            },
            None => {},
        }
    }
    if eq_ignore_ascii_case(target, DeviceName::MediaServer.as_str()) {
        return Some(Advertisement::Device { id, name: DeviceName::MediaServer });
    }
    if eq_ignore_ascii_case(target, ServiceName::ConnectionManager.as_str()) {
        return Some(Advertisement::Service { id, name: ServiceName::ConnectionManager });
    }
    if eq_ignore_ascii_case(target, ServiceName::ContentDirectory.as_str()) {
        return Some(Advertisement::Service { id, name: ServiceName::ContentDirectory });
    }
    None
}

/// What the device `id` answers to the message `request`: nothing where it is no search or one for
/// something else. A message that is text is left in small letters.
pub fn answer_search(request: &mut [u8], id: u128) -> (out: Result<
    Option<Advertisement>,
    DiscoverError,
>)
    ensures
        out == match requested_target(old(request)@) {
            Err(e) => Err::<Option<Advertisement>, DiscoverError>(e),
            Ok(None) => Ok(None),
            Ok(Some(target)) => Ok(answer(target, id)),
        },
        final(request)@ == if valid_utf8(old(request)@) {
            encode_utf8(crate::text::lowered(decode_utf8(old(request)@)))
        } else {
            old(request)@
        },
{
    match parse_discover_request(request) {
        Err(e) => Err(e),
        Ok(None) => Ok(None),
        Ok(Some(target)) => Ok(matching_advertisement(target.as_str(), id)),
    }
}

} // verus!
