//! What holds across the protocols that the server speaks.
use crate::advertisement::{Advertisement, DeviceName, ServiceName};
use crate::content_directory_browse::child::ChildModel;
use crate::content_directory_browse::listing::DirectoryEntry;
use crate::content_directory_browse::object_id::ObjectIDModel;
use crate::discovery::DiscoverError;
use crate::media::MediaError;
use vstd::prelude::*;
use vstd::utf8::*;

verus! {

/// A search for the type of anything that the device advertises, in small letters, finds that
/// advertisement.
pub proof fn what_is_advertised_is_found(id: u128, i: int)
    requires
        0 <= i < crate::advertisement::advertised(id).len(),
    ensures
        crate::discovery::answer(
            crate::text::lowered(crate::advertisement::advertised(id)[i].type_text()),
            id,
        ) == Some(crate::advertisement::advertised(id)[i]),
{
    let advertisement = crate::advertisement::advertised(id)[i];
    let target = crate::text::lowered(advertisement.type_text());
    reveal_strlit("upnp:rootdevice");
    reveal_strlit("uuid:");
    reveal_strlit("urn:schemas-upnp-org:device:MediaServer:1");
    reveal_strlit("urn:schemas-upnp-org:service:ConnectionManager:1");
    reveal_strlit("urn:schemas-upnp-org:service:ContentDirectory:1");
    lemma_lowered_twice(advertisement.type_text());
    match advertisement {
        Advertisement::RootDevice { .. } => {
            assert(target =~= "upnp:rootdevice"@);
        },
        Advertisement::Uuid { .. } => {
            crate::device_id::text_of_id_writes_it(id);
            let text = crate::device_id::hyphenated(id);
            assert forall|k: int| 0 <= k < text.len() implies crate::text::lowered_char(
                #[trigger] text[k],
            ) == text[k] by {
                assert(crate::text::lowered(text)[k] == crate::text::lowered_char(text[k]));
            }
            assert(target =~= "uuid:"@ + text);
            assert("uuid:"@ =~= target.subrange(0, 5));
            assert(target.skip(5) =~= text);
            assert(target.len() == 41);
        },
        Advertisement::Device { .. } | Advertisement::Service { .. } => {
            let urn = advertisement.type_text();
            assert(target[1] == 'r');
            assert(target != "upnp:rootdevice"@) by {
                assert("upnp:rootdevice"@[1] == 'p');
            }
            assert(!"uuid:"@.is_prefix_of(target)) by {
                assert("uuid:"@[1] == 'u');
                if "uuid:"@.is_prefix_of(target) {
                    assert(target.subrange(0, 5)[1] == target[1]);
                }
            }
            assert(crate::text::lowered(target) == crate::text::lowered(urn));
        },
    }
}

/// Small letters stay as they are.
proof fn lemma_lowered_twice(s: Seq<char>)
    ensures
        crate::text::lowered(crate::text::lowered(s)) == crate::text::lowered(s),
{
    assert(crate::text::lowered(crate::text::lowered(s)) =~= crate::text::lowered(s));
}

/// The device answers a search with nothing but what it advertises.
pub proof fn answers_are_advertised(target: Seq<char>, id: u128)
    ensures
        crate::discovery::answer(target, id) matches Some(advertisement)
            ==> crate::advertisement::advertised(id).contains(advertisement),
{
    let all = crate::advertisement::advertised(id);
    assert(all[0] == (Advertisement::RootDevice { id }));
    assert(all[1] == (Advertisement::Uuid { id }));
    assert(all[2] == (Advertisement::Device { id, name: DeviceName::MediaServer }));
    assert(all[3] == (Advertisement::Service { id, name: ServiceName::ConnectionManager }));
    assert(all[4] == (Advertisement::Service { id, name: ServiceName::ContentDirectory }));
}

/// Service names are unique: no two advertisements, of one device or of two, have the same.
pub proof fn service_names_are_unique(id: u128, other_id: u128, i: int, j: int)
    requires
        0 <= i < crate::advertisement::advertised(id).len(),
        0 <= j < crate::advertisement::advertised(other_id).len(),
        crate::advertisement::advertised(id)[i].unique_text()
            == crate::advertisement::advertised(other_id)[j].unique_text(),
    ensures
        id == other_id,
        i == j,
{
    reveal_strlit("uuid:");
    reveal_strlit("::");
    reveal_strlit("::upnp:rootdevice");
    reveal_strlit("urn:schemas-upnp-org:device:MediaServer:1");
    reveal_strlit("urn:schemas-upnp-org:service:ConnectionManager:1");
    reveal_strlit("urn:schemas-upnp-org:service:ContentDirectory:1");
    let text = crate::advertisement::advertised(id)[i].unique_text();
    let other = crate::advertisement::advertised(other_id)[j].unique_text();
    assert(text.subrange(5, 41) =~= crate::device_id::hyphenated(id));
    assert(other.subrange(5, 41) =~= crate::device_id::hyphenated(other_id));
    crate::device_id::text_of_id_writes_it(id);
    crate::device_id::text_of_id_writes_it(other_id);
    crate::device_id::text_writes_one_id(crate::device_id::hyphenated(id), id, other_id);
    lemma_service_name_len(id, i);
    lemma_service_name_len(other_id, j);
}

/// The service names of a device differ in length.
proof fn lemma_service_name_len(id: u128, i: int)
    requires
        0 <= i < crate::advertisement::advertised(id).len(),
    ensures
        crate::advertisement::advertised(id)[i].unique_text().len() == 41 + (if i == 0 {
            17int
        } else if i == 1 {
            0
        } else if i == 2 {
            43
        } else if i == 3 {
            50
        } else {
            49
        }),
{
    reveal_strlit("uuid:");
    reveal_strlit("::");
    reveal_strlit("::upnp:rootdevice");
    reveal_strlit("urn:schemas-upnp-org:device:MediaServer:1");
    reveal_strlit("urn:schemas-upnp-org:service:ConnectionManager:1");
    reveal_strlit("urn:schemas-upnp-org:service:ContentDirectory:1");
    assert(crate::device_id::hyphenated(id).len() == 36);
    assert(DeviceName::MediaServer.urn().len() == 41);
    assert(ServiceName::ConnectionManager.urn().len() == 48);
    assert(ServiceName::ContentDirectory.urn().len() == 47);
}

/// A header as it is written on a line.
pub open spec fn header_line(name: Seq<char>, value: Seq<char>) -> Seq<char> {
    name + seq![':', ' '] + value
}

/// The lines that `headers` are written on.
pub open spec fn header_lines(headers: Seq<(Seq<char>, Seq<char>)>) -> Seq<Seq<char>> {
    Seq::new(headers.len(), |i: int| header_line(headers[i].0, headers[i].1))
}

/// What `headers` say, the last of a name counting.
pub open spec fn header_values(headers: Seq<(Seq<char>, Seq<char>)>) -> Map<Seq<char>, Seq<char>>
    decreases headers.len(),
{
    if headers.len() == 0 {
        Map::empty()
    } else {
        header_values(headers.drop_last()).insert(headers.last().0, headers.last().1)
    }
}

/// A header that can be written on a line: no line feed, no colon in the name, and no white space around
/// the name or the value.
pub open spec fn writable(name: Seq<char>, value: Seq<char>) -> bool {
    &&& !name.contains(':')
    &&& !name.contains('\n')
    &&& !value.contains('\n')
    &&& crate::text::trimmed(name) == name
    &&& crate::text::trimmed(value) == value
}

/// A message: the request line, the headers and a blank line.
pub open spec fn message(request_line: Seq<char>, headers: Seq<(Seq<char>, Seq<char>)>) -> Seq<
    char,
> {
    crate::text::ended_lines(seq![request_line] + header_lines(headers)) + seq!['\r', '\n']
}

/// A header is read from the line that it is written on, and from that line without trailing white
/// space.
proof fn lemma_header_read(name: Seq<char>, value: Seq<char>)
    requires
        writable(name, value),
    ensures
        crate::discovery::header(header_line(name, value)) == Some((name, value)),
        value.len() == 0 ==> crate::discovery::header(name + seq![':']) == Some((name, value)),
{
    if value.len() > 0 {
        crate::text::lemma_trimmed_ends(value);
    }
    crate::text::lemma_trimmed_start(seq![' '], value);
    crate::text::lemma_trimmed_end(value, Seq::empty());
    assert(value + Seq::<char>::empty() =~= value);
    lemma_header_parts(name, seq![' '] + value);
    assert(header_line(name, value) =~= name + seq![':'] + (seq![' '] + value));
    if value.len() == 0 {
        lemma_header_parts(name, value);
        assert(name + seq![':'] + value =~= name + seq![':']);
    }
}

/// The first colon of a line parts the name from what follows.
proof fn lemma_header_parts(name: Seq<char>, rest: Seq<char>)
    requires
        !name.contains(':'),
    ensures
        crate::discovery::header(name + seq![':'] + rest) == Some(
            (crate::text::trimmed(name), crate::text::trimmed(rest)),
        ),
{
    let line = name + seq![':'] + rest;
    let at = name.len() as int;
    line.index_of_first_ensures(':');
    assert(line[at] == ':');
    assert(line.contains(':'));
    assert forall|j: int| 0 <= j < at implies line[j] != ':' by {
        assert(line[j] == name[j]);
        assert(name.contains(name[j]));
    }
    assert(line.index_of_first(':') == Some(at));
    assert(line.take(at) =~= name);
    assert(line.skip(at + 1) =~= rest);
}

/// Headers are read from the lines that they are written on.
proof fn lemma_headers_read(headers: Seq<(Seq<char>, Seq<char>)>)
    requires
        forall|i: int| 0 <= i < headers.len() ==> writable((#[trigger] headers[i]).0, headers[i].1),
    ensures
        crate::discovery::headers(header_lines(headers)) == Some(header_values(headers)),
    decreases headers.len(),
{
    if headers.len() > 0 {
        let rest = headers.drop_last();
        assert(header_lines(headers).drop_last() =~= header_lines(rest));
        assert(writable(headers.last().0, headers.last().1));
        assert forall|i: int| 0 <= i < rest.len() implies writable(
            (#[trigger] rest[i]).0,
            rest[i].1,
        ) by {
            assert(rest[i] == headers[i]);
        }
        lemma_headers_read(rest);
        lemma_header_read(headers.last().0, headers.last().1);
    }
}

/// The line of a header holds no line feed.
proof fn lemma_header_line(name: Seq<char>, value: Seq<char>)
    requires
        writable(name, value),
    ensures
        !header_line(name, value).contains('\n'),
        !(name + seq![':']).contains('\n'),
{
    let line = header_line(name, value);
    assert forall|j: int| 0 <= j < line.len() implies line[j] != '\n' by {
        if j < name.len() {
            assert(line[j] == name[j]);
            assert(name.contains(name[j]));
        } else if j >= name.len() + 2 {
            assert(line[j] == value[j - name.len() - 2]);
            assert(value.contains(value[j - name.len() - 2]));
        }
    }
    let short = name + seq![':'];
    assert forall|j: int| 0 <= j < short.len() implies short[j] != '\n' by {
        assert(short[j] == line[j]);
    }
}

/// The lines of a message that ends in the line `last` and white space, `last` itself neither empty
/// nor ending in white space.
proof fn lemma_message_lines(written: Seq<Seq<char>>, last: Seq<char>, space: Seq<char>)
    requires
        forall|i: int| 0 <= i < written.len() ==> !(#[trigger] written[i]).contains('\n'),
        !last.contains('\n'),
        last.len() > 0,
        !crate::text::whitespace(last.last()),
        forall|i: int| 0 <= i < space.len() ==> crate::text::whitespace(#[trigger] space[i]),
    ensures
        crate::text::lines(
            crate::text::trimmed_end(crate::text::ended_lines(written) + last + space),
        ) == written.push(last),
{
    let before = crate::text::ended_lines(written);
    assert((before + last).last() == last.last());
    crate::text::lemma_trimmed_end(before + last, space);
    crate::text::written_lines_are_read(written, last);
    last.index_of_first_ensures('\n');
    assert(crate::text::lines(last) =~= seq![last]) by {
        assert(crate::text::first_line(last) == last);
        assert(crate::text::lines(crate::text::after_line(last)) =~= Seq::<Seq<char>>::empty());
    }
    assert(written + seq![last] =~= written.push(last));
}

/// Trimming the end of a text takes white space from it, and keeps how it starts up to a character
/// that is none. The white space is returned.
proof fn lemma_trimmed_end_keeps(text: Seq<char>, prefix: Seq<char>) -> (space: Seq<char>)
    requires
        prefix.is_prefix_of(text),
        prefix.len() > 0,
        !crate::text::whitespace(prefix.last()),
    ensures
        prefix.is_prefix_of(crate::text::trimmed_end(text)),
        !crate::text::whitespace(crate::text::trimmed_end(text).last()),
        crate::text::trimmed_end(text) + space == text,
        forall|i: int| 0 <= i < space.len() ==> crate::text::whitespace(#[trigger] space[i]),
    decreases text.len(),
{
    assert(text.subrange(0, prefix.len() as int).last() == text[prefix.len() - 1]);
    if crate::text::whitespace(text.last()) {
        let rest = text.drop_last();
        assert(rest.subrange(0, prefix.len() as int) =~= text.subrange(0, prefix.len() as int));
        let space = lemma_trimmed_end_keeps(rest, prefix);
        assert(crate::text::trimmed_end(text) + space.push(text.last()) =~= rest.push(text.last()));
        space.push(text.last())
    } else {
        Seq::empty()
    }
}

/// A search is read as it was written: what a message in small letters says in its headers is what it is
/// taken to search for.
pub proof fn written_searches_are_read(
    request_line: Seq<char>,
    headers: Seq<(Seq<char>, Seq<char>)>,
)
    requires
        "m-search"@.is_prefix_of(request_line),
        !request_line.contains('\n'),
        forall|i: int| 0 <= i < headers.len() ==> writable((#[trigger] headers[i]).0, headers[i].1),
    ensures
        crate::discovery::search_target(message(request_line, headers))
            == crate::discovery::target_of(header_values(headers)),
{
    let written = seq![request_line] + header_lines(headers);
    let blank = seq!['\r', '\n', '\r', '\n'];
    let text = message(request_line, headers);
    crate::text::lemma_ended_lines_last(written);
    if headers.len() == 0 {
        reveal_strlit("m-search");
        let space = lemma_trimmed_end_keeps(request_line, "m-search"@);
        let line = crate::text::trimmed_end(request_line);
        let none = Seq::<Seq<char>>::empty();
        assert(written.drop_last() =~= none);
        assert(written.last() == request_line);
        assert(text =~= crate::text::ended_lines(none) + line + (space + blank));
        assert forall|j: int| 0 <= j < line.len() implies line[j] != '\n' by {
            assert(request_line[j] == line[j]);
            assert(request_line.contains(request_line[j]));
        }
        lemma_message_lines(none, line, space + blank);
        assert(none.push(line).skip(1) =~= header_lines(headers));
    } else {
        let rest = headers.drop_last();
        let (name, value) = headers.last();
        let full = header_line(name, value);
        let before = written.drop_last();
        assert(before =~= seq![request_line] + header_lines(rest));
        assert(written.last() == full);
        assert(writable(name, value));
        lemma_header_line(name, value);
        lemma_header_read(name, value);
        assert forall|i: int| 0 <= i < before.len() implies !(#[trigger] before[i]).contains('\n') by {
            if i > 0 {
                assert(writable(headers[i - 1].0, headers[i - 1].1));
                lemma_header_line(headers[i - 1].0, headers[i - 1].1);
                assert(before[i] == header_line(headers[i - 1].0, headers[i - 1].1));
            }
        }
        assert forall|i: int| 0 <= i < rest.len() implies writable(
            (#[trigger] rest[i]).0,
            rest[i].1,
        ) by {
            assert(rest[i] == headers[i]);
        }
        lemma_headers_read(rest);
        let (last, space) = if value.len() == 0 {
            (name + seq![':'], seq![' '] + blank)
        } else {
            (full, blank)
        };
        if value.len() > 0 {
            crate::text::lemma_trimmed_ends(value);
            assert(full.last() == value.last());
        }
        assert(text =~= crate::text::ended_lines(before) + last + space);
        lemma_message_lines(before, last, space);
        let lines = before.push(last);
        assert(lines[0] == request_line);
        assert(lines.skip(1) =~= header_lines(rest).push(last));
        assert(header_lines(rest).push(last).drop_last() =~= header_lines(rest));
    }
}

/// A search for anything that the device advertises is answered with it, whatever case the search is
/// written in and whatever other headers it has.
pub proof fn searches_are_answered(
    text: Seq<char>,
    request_line: Seq<char>,
    headers: Seq<(Seq<char>, Seq<char>)>,
    id: u128,
    i: int,
)
    requires
        crate::text::lowered(text) == message(request_line, headers),
        "m-search"@.is_prefix_of(request_line),
        !request_line.contains('\n'),
        forall|k: int| 0 <= k < headers.len() ==> writable((#[trigger] headers[k]).0, headers[k].1),
        0 <= i < crate::advertisement::advertised(id).len(),
        header_values(headers).contains_pair("man"@, "\"ssdp:discover\""@),
        header_values(headers).contains_pair(
            "st"@,
            crate::text::lowered(crate::advertisement::advertised(id)[i].type_text()),
        ),
    ensures
        crate::discovery::requested_target(encode_utf8(text)) matches Ok(Some(target))
            && crate::discovery::answer(target, id) == Some(
            crate::advertisement::advertised(id)[i],
        ),
{
    encode_utf8_valid_utf8(text);
    encode_utf8_decode_utf8(text);
    written_searches_are_read(request_line, headers);
    what_is_advertised_is_found(id, i);
}

/// Trailing white space makes no difference to a text without its trailing white space.
proof fn lemma_trimmed_end_alike(text: Seq<char>, space: Seq<char>)
    requires
        forall|i: int| 0 <= i < space.len() ==> crate::text::whitespace(#[trigger] space[i]),
    ensures
        crate::text::trimmed_end(text + space) == crate::text::trimmed_end(text),
    decreases space.len(),
{
    if space.len() == 0 {
        assert(text + space =~= text);
    } else {
        assert((text + space).last() == space.last());
        assert((text + space).drop_last() =~= text + space.drop_last());
        lemma_trimmed_end_alike(text, space.drop_last());
    }
}

/// A search means the same in any case of its ASCII letters and with any white space after it.
pub proof fn searches_are_read_alike(text: Seq<char>, other: Seq<char>, space: Seq<char>)
    requires
        crate::text::lowered(text) == crate::text::lowered(other),
        forall|i: int| 0 <= i < space.len() ==> crate::text::whitespace(#[trigger] space[i]),
    ensures
        crate::discovery::requested_target(encode_utf8(other + space))
            == crate::discovery::requested_target(encode_utf8(text)),
{
    encode_utf8_valid_utf8(text);
    encode_utf8_decode_utf8(text);
    encode_utf8_valid_utf8(other + space);
    encode_utf8_decode_utf8(other + space);
    assert(crate::text::lowered(other + space) =~= crate::text::lowered(text) + space) by {
        assert forall|i: int| 0 <= i < (other + space).len() implies crate::text::lowered(
            other + space,
        )[i] == (crate::text::lowered(text) + space)[i] by {
            if i < other.len() {
                assert(crate::text::lowered(other)[i] == crate::text::lowered_char(other[i]));
            } else {
                assert(crate::text::whitespace(space[i - other.len()]));
            }
        }
    }
    lemma_trimmed_end_alike(crate::text::lowered(text), space);
}

/// A file that is shown in the content directory is fetched from where it lies: the path that a client
/// is given leads to the path of the object, below the shared folder.
pub proof fn shown_files_are_found(folders: Map<Seq<char>, Seq<char>>, child: ChildModel)
    requires
        crate::content_directory_browse::listing::path_decodes(child),
        child matches ChildModel::Item {
            id: ObjectIDModel::Folder { root_name: folder, .. },
            root_name,
            ..
        } && folder == root_name && folders.dom().contains(root_name),
    ensures
        child matches ChildModel::Item {
            id: ObjectIDModel::Folder { path, .. },
            root_name,
            base64_path,
            ..
        }
            && crate::media::location(folders, root_name, base64_path) == Ok::<
            Seq<char>,
            MediaError,
        >(crate::path::joined(folders[root_name], path)),
{
    if let ChildModel::Item { id: ObjectIDModel::Folder { path, .. }, .. } = child {
        encode_utf8_valid_utf8(path);
        encode_utf8_decode_utf8(path);
    }
}

/// What is answered is what was searched for, and nothing else is: the root device to a search for root
/// devices, the device to one for its identifier, and a kind of device or service to one for that kind, in
/// any case of its letters. Any other search goes unanswered.
pub proof fn only_what_is_searched_for_is_answered(target: Seq<char>, id: u128)
    ensures
        ({
            let answer = crate::discovery::answer(target, id);
            let small = crate::text::lowered(target);
            let root = target == "upnp:rootdevice"@;
            let own = "uuid:"@.is_prefix_of(target) && crate::device_id::writes(target.skip(5), id);
            let server = small == "urn:schemas-upnp-org:device:mediaserver:1"@;
            let connections = small == "urn:schemas-upnp-org:service:connectionmanager:1"@;
            let contents = small == "urn:schemas-upnp-org:service:contentdirectory:1"@;
            &&& answer == Some(Advertisement::RootDevice { id }) <==> root
            &&& answer == Some(Advertisement::Uuid { id }) <==> own
            &&& answer == Some(Advertisement::Device { id, name: DeviceName::MediaServer })
                <==> server
            &&& answer == Some(Advertisement::Service { id, name: ServiceName::ConnectionManager })
                <==> connections
            &&& answer == Some(Advertisement::Service { id, name: ServiceName::ContentDirectory })
                <==> contents
            &&& answer is None <==> !root && !own && !server && !connections && !contents
            &&& answer matches Some(advertisement) ==> small == crate::text::lowered(
                advertisement.type_text(),
            ) || advertisement == (Advertisement::Uuid { id })
        }),
{
    reveal_strlit("upnp:rootdevice");
    reveal_strlit("uuid:");
    reveal_strlit("urn:schemas-upnp-org:device:MediaServer:1");
    reveal_strlit("urn:schemas-upnp-org:service:ConnectionManager:1");
    reveal_strlit("urn:schemas-upnp-org:service:ContentDirectory:1");
    reveal_strlit("urn:schemas-upnp-org:device:mediaserver:1");
    reveal_strlit("urn:schemas-upnp-org:service:connectionmanager:1");
    reveal_strlit("urn:schemas-upnp-org:service:contentdirectory:1");
    let server = "urn:schemas-upnp-org:device:mediaserver:1"@;
    let connections = "urn:schemas-upnp-org:service:connectionmanager:1"@;
    let contents = "urn:schemas-upnp-org:service:contentdirectory:1"@;
    assert(crate::text::lowered(DeviceName::MediaServer.urn()) =~= server);
    assert(crate::text::lowered(ServiceName::ConnectionManager.urn()) =~= connections);
    assert(crate::text::lowered(ServiceName::ContentDirectory.urn()) =~= contents);
    assert(server[1] == 'r' && connections[1] == 'r' && contents[1] == 'r');
    assert(server.len() == 41 && connections.len() == 48 && contents.len() == 47);
    let small = crate::text::lowered(target);
    if target.len() > 1 {
        assert(small[1] == crate::text::lowered_char(target[1]));
    }
    assert("upnp:rootdevice"@[1] == 'p');
    assert("uuid:"@[1] == 'u');
    if "uuid:"@.is_prefix_of(target) {
        assert(target.subrange(0, 5)[1] == target[1]);
    }
}

/// A header line is parted at its first colon, and white space around the two parts does not count; a line
/// without a colon is no header.
pub proof fn headers_are_parted_by_a_colon(
    left: Seq<char>,
    name: Seq<char>,
    right: Seq<char>,
    value_left: Seq<char>,
    value: Seq<char>,
    value_right: Seq<char>,
    line: Seq<char>,
)
    requires
        !(left + name + right).contains(':'),
        forall|i: int| 0 <= i < left.len() ==> crate::text::whitespace(#[trigger] left[i]),
        forall|i: int| 0 <= i < right.len() ==> crate::text::whitespace(#[trigger] right[i]),
        forall|i: int|
            0 <= i < value_left.len() ==> crate::text::whitespace(#[trigger] value_left[i]),
        forall|i: int|
            0 <= i < value_right.len() ==> crate::text::whitespace(#[trigger] value_right[i]),
        name.len() > 0 ==> !crate::text::whitespace(name[0]) && !crate::text::whitespace(
            name.last(),
        ),
        value.len() > 0 ==> !crate::text::whitespace(value[0]) && !crate::text::whitespace(
            value.last(),
        ),
        !line.contains(':'),
    ensures
        crate::discovery::header(
            (left + name + right) + seq![':'] + (value_left + value + value_right),
        ) == Some((name, value)),
        crate::discovery::header(line) is None,
{
    lemma_header_parts(left + name + right, value_left + value + value_right);
    crate::text::white_space_around_is_dropped(left, name, right);
    crate::text::white_space_around_is_dropped(value_left, value, value_right);
    line.index_of_first_ensures(':');
}

/// Headers are gathered line by line: of two with the same name the later counts, and one line that is no
/// header spoils all.
pub proof fn headers_are_gathered_line_by_line(lines: Seq<Seq<char>>, line: Seq<char>)
    ensures
        crate::discovery::headers(Seq::empty()) == Some(Map::<Seq<char>, Seq<char>>::empty()),
        crate::discovery::header(line) is None ==> crate::discovery::headers(lines.push(line)) is None,
        crate::discovery::headers(lines) is None ==> crate::discovery::headers(lines.push(line)) is None,
        crate::discovery::header(line) matches Some((name, value)) ==> (crate::discovery::headers(
            lines,
        ) matches Some(map) ==> crate::discovery::headers(lines.push(line)) == Some(
            map.insert(name, value),
        )),
{
    assert(lines.push(line).drop_last() =~= lines);
    assert(lines.push(line).last() == line);
}

/// A search is one for discovery, said so in its header `man`, quotes and all; it asks for what its header
/// `st` says, and is an error without that header. Anything else is no search.
pub proof fn searches_ask_for_their_target(map: Map<Seq<char>, Seq<char>>, target: Seq<char>)
    ensures
        ({
            let quoted = seq!['"'] + "ssdp:discover"@ + seq!['"'];
            let discovers = map.contains_pair("man"@, quoted);
            let asked = crate::discovery::target_of(map);
            &&& asked == Ok::<Option<Seq<char>>, DiscoverError>(Some(target)) <==> discovers
                && map.contains_pair("st"@, target)
            &&& asked == Err::<Option<Seq<char>>, DiscoverError>(DiscoverError::NoSearchTarget)
                <==> discovers && !map.dom().contains("st"@)
            &&& asked == Ok::<Option<Seq<char>>, DiscoverError>(None) <==> !discovers
        }),
{
    reveal_strlit("\"ssdp:discover\"");
    reveal_strlit("ssdp:discover");
    assert("\"ssdp:discover\""@ =~= seq!['"'] + "ssdp:discover"@ + seq!['"']);
}

/// A message is judged by its lines, and white space after the last does not count: without a line it is an
/// error, with a first line that does not start as a search does it is none, and otherwise it asks for what
/// the headers in the other lines say, one of which that is no header making it an error.
pub proof fn messages_are_judged_by_their_lines(
    written: Seq<Seq<char>>,
    last: Seq<char>,
    space: Seq<char>,
)
    requires
        forall|i: int| 0 <= i < written.len() ==> !(#[trigger] written[i]).contains('\n'),
        !last.contains('\n'),
        last.len() > 0,
        !crate::text::whitespace(last.last()),
        forall|i: int| 0 <= i < space.len() ==> crate::text::whitespace(#[trigger] space[i]),
    ensures
        crate::discovery::search_target(space) == Err::<Option<Seq<char>>, DiscoverError>(
            DiscoverError::NoRequestLine,
        ),
        ({
            let lines = written.push(last);
            let asked = crate::discovery::search_target(
                crate::text::ended_lines(written) + last + space,
            );
            &&& !"m-search"@.is_prefix_of(lines[0]) ==> asked == Ok::<
                Option<Seq<char>>,
                DiscoverError,
            >(None)
            &&& "m-search"@.is_prefix_of(lines[0]) ==> match crate::discovery::headers(
                lines.skip(1),
            ) {
                None => asked == Err::<Option<Seq<char>>, DiscoverError>(
                    DiscoverError::InvalidHeader,
                ),
                Some(map) => asked == crate::discovery::target_of(map),
            }
        }),
{
    lemma_message_lines(written, last, space);
    crate::text::lemma_trimmed_end(Seq::empty(), space);
    assert(Seq::<char>::empty() + space =~= space);
}

/// The same of any message, by the lines that it has when the white space after them is dropped.
pub proof fn any_message_is_judged_by_its_lines(text: Seq<char>)
    ensures
        ({
            let lines = crate::text::lines(crate::text::trimmed_end(text));
            let asked = crate::discovery::search_target(text);
            &&& asked == Err::<Option<Seq<char>>, DiscoverError>(DiscoverError::NoRequestLine)
                <==> lines.len() == 0
            &&& lines.len() > 0 && !"m-search"@.is_prefix_of(lines[0]) ==> asked == Ok::<
                Option<Seq<char>>,
                DiscoverError,
            >(None)
            &&& lines.len() > 0 && "m-search"@.is_prefix_of(lines[0])
                ==> match crate::discovery::headers(lines.skip(1)) {
                None => asked == Err::<Option<Seq<char>>, DiscoverError>(
                    DiscoverError::InvalidHeader,
                ),
                Some(map) => asked == crate::discovery::target_of(map),
            }
        }),
{
}

/// A message is read in small letters; bytes that are no text are an error.
pub proof fn messages_are_read_in_small_letters(text: Seq<char>, bytes: Seq<u8>)
    ensures
        crate::discovery::requested_target(encode_utf8(text)) == crate::discovery::search_target(
            crate::text::lowered(text),
        ),
        !valid_utf8(bytes) ==> crate::discovery::requested_target(bytes) == Err::<
            Option<Seq<char>>,
            DiscoverError,
        >(DiscoverError::NotUtf8),
{
    encode_utf8_valid_utf8(text);
    encode_utf8_decode_utf8(text);
}

/// A result that agrees with an expected one is that result.
pub proof fn agreeing_targets_are_the_same(
    out: Result<Option<String>, DiscoverError>,
    expected: Result<Option<Seq<char>>, DiscoverError>,
)
    requires
        crate::discovery::same_target(out, expected),
    ensures
        expected matches Ok(Some(target)) ==> out matches Ok(Some(text)) && text@ == target,
        expected matches Ok(None) ==> out matches Ok(None),
        expected matches Err(error) ==> out == Err::<Option<String>, DiscoverError>(error),
{
}

/// A file that is browsed is fetched from where it lies: the name and the path that a client is given for an
/// entry of a folder lead to that entry, below the place of the shared folder that was browsed.
pub proof fn browsed_files_are_fetched(
    folders: Map<Seq<char>, Seq<char>>,
    root_name: Seq<char>,
    path: Seq<char>,
    entry: DirectoryEntry,
    child: ChildModel,
)
    requires
        crate::content_directory_browse::listing::entry_child(root_name, path, entry) == Some(child),
        crate::content_directory_browse::listing::path_decodes(child),
        folders.dom().contains(root_name),
    ensures
        child matches ChildModel::Item { root_name: shown_name, base64_path, .. }
            ==> crate::media::location(folders, shown_name, base64_path) == Ok::<
            Seq<char>,
            MediaError,
        >(
            crate::path::joined(
                folders[root_name],
                if path.len() == 0 {
                    entry.name@
                } else {
                    path + seq!['/'] + entry.name@
                },
            ),
        ),
        child matches ChildModel::Item { root_name: shown_name, .. } ==> shown_name == root_name,
{
    let below = crate::content_directory_browse::listing::path_below(path, entry.name@);
    encode_utf8_valid_utf8(below);
    encode_utf8_decode_utf8(below);
}

} // verus!
