//! Fetching the shared files and their album art.
use crate::codec::{base64_decode, string_from_utf8};
use crate::folder_roots::FolderRoots;
use crate::path::join;
use crate::text::append_decimal;
use axum::http::HeaderValue;
use axum_extra::headers::{Header, Range};
use std::ops::Bound;
use vstd::prelude::*;
use vstd::slice::slice_subrange;
use vstd::slice::slice_to_vec;
use vstd::string::*;
use vstd::utf8::*;

verus! {

/// Why a file cannot be fetched.
#[derive(Debug, Clone, Copy, PartialEq, Eq, Structural)]
pub enum MediaError {
    /// The path in the request is not the base64 of a text.
    BadRequest,
    /// No folder is shared under the name, or the file is not there.
    NotFound,
}

impl MediaError {
    /// The HTTP status that tells a client of the error.
    pub fn status(&self) -> (code: u16)
        ensures
            code == match self {
                MediaError::BadRequest => 400u16,
                MediaError::NotFound => 404u16,
            },
    {
        match self {
            MediaError::BadRequest => 400,
            MediaError::NotFound => 404,
        }
    }
}

/// Where the file lies whose path below the shared folder `root_name` decodes to `decoded`.
pub open spec fn decoded_location(
    folders: Map<Seq<char>, Seq<char>>,
    root_name: Seq<char>,
    decoded: Result<Seq<u8>, Seq<char>>,
) -> Result<Seq<char>, MediaError> {
    match decoded {
        Err(_) => Err(MediaError::BadRequest),
        Ok(bytes) => if !valid_utf8(bytes) {
            Err(MediaError::BadRequest)
        } else if !folders.dom().contains(root_name) {
            Err(MediaError::NotFound)
        } else {
            Ok(crate::path::joined(folders[root_name], decode_utf8(bytes)))
        },
    }
}

/// Where the file lies whose path below the shared folder `root_name` is `path`, in base64.
pub open spec fn location(
    folders: Map<Seq<char>, Seq<char>>,
    root_name: Seq<char>,
    path: Seq<char>,
) -> Result<Seq<char>, MediaError> {
    decoded_location(folders, root_name, crate::codec::base64_decoded(path))
}

/// `out` is `expected` with its text as a string.
pub open spec fn same_location(
    out: Result<String, MediaError>,
    expected: Result<Seq<char>, MediaError>,
) -> bool {
    match (out, expected) {
        (Ok(a), Ok(b)) => a@ == b,
        (Err(a), Err(b)) => a == b,
        _ => false,
    }
}

/// Where the file lies whose path below the shared folder `root_name` has been decoded to `decoded`.
pub fn locate_decoded(
    folder_roots: &FolderRoots,
    root_name: &str,
    decoded: Result<Vec<u8>, String>,
) -> (out: Result<String, MediaError>)
    ensures
        same_location(
            out,
            decoded_location(
                folder_roots@,
                root_name@,
                crate::codec::decoded_view(decoded),
            ),
        ),
{
    let bytes: Vec<u8> = match decoded {
        Err(_) => return Err(MediaError::BadRequest),
        Ok(bytes) => bytes,
    };
    let path: String = match string_from_utf8(bytes) {
        Err(_) => return Err(MediaError::BadRequest),
        Ok(path) => path,
    };
    match folder_roots.get(root_name) {
        None => Err(MediaError::NotFound),
        Some(root_path) => Ok(join(root_path, path.as_str())),
    }
}

/// Where the file lies whose path below the shared folder `root_name` is `path`, in base64.
pub fn locate(folder_roots: &FolderRoots, root_name: &str, path: &str) -> (out: Result<
    String,
    MediaError,
>)
    ensures
        same_location(out, location(folder_roots@, root_name@, path@)),
{
    locate_decoded(folder_roots, root_name, base64_decode(path))
}

/// One end of a range of bytes.
#[derive(Debug, Clone, Copy, PartialEq, Eq, Structural)]
pub enum RangeBound {
    Included(u64),
    Excluded(u64),
    Unbounded,
}

/// The bounds of the first range that the value of a `Range` header asks for and that a file of `len`
/// bytes can satisfy, as `headers` reads it; `None` where the value is no such header or there is no such
/// range.
pub uninterp spec fn satisfiable_range(header: Seq<u8>, len: u64) -> Option<(RangeBound, RangeBound)>;

/// `Range::decode` of `headers`, on the one value that `HeaderValue::from_bytes` of `http` makes, and the
/// first item of `Range::satisfiable_ranges`. They parse the value, so the result is a function of it and
/// of the length.
#[verifier::external_body]
pub(crate) fn first_satisfiable_range(header: &[u8], len: u64) -> (out: Option<
    (RangeBound, RangeBound),
>)
    ensures
        out == satisfiable_range(header@, len),
{
    let value = HeaderValue::from_bytes(header).ok()?;
    let range = Range::decode(&mut std::iter::once(&value)).ok()?;
    let (start, end) = range.satisfiable_ranges(len).next()?;
    let start = match start {
        Bound::Included(n) => RangeBound::Included(n),
        Bound::Excluded(n) => RangeBound::Excluded(n),
        Bound::Unbounded => RangeBound::Unbounded,
    };
    let end = match end {
        Bound::Included(n) => RangeBound::Included(n),
        Bound::Excluded(n) => RangeBound::Excluded(n),
        Bound::Unbounded => RangeBound::Unbounded,
    };
    Some((start, end))
}

/// The first position in a range that starts at `bound`.
pub open spec fn range_start(bound: RangeBound) -> int {
    match bound {
        RangeBound::Included(n) => n as int,
        RangeBound::Excluded(n) => n + 1,
        RangeBound::Unbounded => 0,
    }
}

/// The position after the last in a range that ends at `bound`, in a file of `len` bytes.
pub open spec fn range_end(bound: RangeBound, len: nat) -> int {
    match bound {
        RangeBound::Included(n) => n + 1,
        RangeBound::Excluded(n) => n as int,
        RangeBound::Unbounded => len as int,
    }
}

/// The positions that a range goes by fit the machine.
pub open spec fn range_fits(range: (RangeBound, RangeBound)) -> bool {
    range_start(range.0) <= usize::MAX && range_end(range.1, 0) <= usize::MAX
}

/// The bytes of `file` from `start` on and before `end`; none where these are no positions of `file`.
pub open spec fn slice_of(file: Seq<u8>, start: int, end: int) -> Seq<u8> {
    if 0 <= start <= end <= file.len() {
        file.subrange(start, end)
    } else {
        Seq::empty()
    }
}

/// Two parts of a file that follow each other, put together, are the part that covers both; and the part
/// that covers all positions is the file.
pub proof fn parts_make_the_whole(file: Seq<u8>, start: int, middle: int, end: int)
    requires
        0 <= start <= middle <= end <= file.len(),
    ensures
        slice_of(file, start, middle) + slice_of(file, middle, end) == slice_of(file, start, end),
        slice_of(file, 0, file.len() as int) == file,
{
    assert(slice_of(file, start, middle) + slice_of(file, middle, end) =~= slice_of(
        file,
        start,
        end,
    ));
    assert(slice_of(file, 0, file.len() as int) =~= file);
}

/// The text that says which part of a file of `len` bytes is sent.
pub open spec fn content_range(start: int, end: int, len: nat) -> Seq<char> {
    "bytes "@ + crate::text::decimal(start as nat) + "-"@ + crate::text::decimal(end as nat) + "/"@
        + crate::text::decimal(len)
}

/// A file, or a part of one, as it is sent.
pub struct MediaReply {
    pub content_type: &'static str,
    pub accept_ranges: &'static str,
    pub content_range: Option<String>,
    pub body: Vec<u8>,
}

/// `reply` sends `file`, or the part of it that `range` bounds.
pub open spec fn sends(
    reply: MediaReply,
    file: Seq<u8>,
    range: Option<(RangeBound, RangeBound)>,
) -> bool {
    &&& reply.content_type@ == "audio/mpeg"@
    &&& reply.accept_ranges@ == "bytes"@
    &&& match range {
        None => reply.content_range is None && reply.body@ == file,
        Some((first, last)) => {
            let start = range_start(first);
            let end = range_end(last, file.len());
            &&& reply.content_range matches Some(text)
            &&& text@ == content_range(start, end, file.len())
            &&& reply.body@ == slice_of(file, start, end)
        },
    }
}

/// The reply that sends `file`, or the part of it that `range` bounds.
pub fn media_reply(file: Vec<u8>, range: Option<(RangeBound, RangeBound)>) -> (out: MediaReply)
    requires
        range matches Some(bounds) ==> range_fits(bounds),
    ensures
        sends(out, file@, range),
{
    let (first, last): (RangeBound, RangeBound) = match range {
        None => return MediaReply {
            content_type: "audio/mpeg",
            accept_ranges: "bytes",
            content_range: None,
            body: file,
        },
        Some(bounds) => bounds,
    };
    let len: usize = file.len();
    let start: usize = match first {
        RangeBound::Included(n) => n as usize,
        RangeBound::Excluded(n) => (n + 1) as usize,
        RangeBound::Unbounded => 0,
    };
    let end: usize = match last {
        RangeBound::Included(n) => (n + 1) as usize,
        RangeBound::Excluded(n) => n as usize,
        RangeBound::Unbounded => len,
    };
    let mut text: String = "bytes ".to_owned();
    append_decimal(&mut text, start);
    text.append("-");
    append_decimal(&mut text, end);
    text.append("/");
    append_decimal(&mut text, len);
    let body: Vec<u8> = if start <= end && end <= len {
        slice_to_vec(slice_subrange(file.as_slice(), start, end))
    } else {
        Vec::new()
    };
    MediaReply {
        content_type: "audio/mpeg",
        accept_ranges: "bytes",
        content_range: Some(text),
        body,
    }
}

/// Whether the positions that a range goes by fit the machine.
fn check_range(range: (RangeBound, RangeBound)) -> (fits: bool)
    ensures
        fits == range_fits(range),
{
    let start_fits: bool = match range.0 {
        RangeBound::Included(n) => n <= usize::MAX as u64,
        RangeBound::Excluded(n) => n < usize::MAX as u64,
        RangeBound::Unbounded => true,
    };
    let end_fits: bool = match range.1 {
        RangeBound::Included(n) => n < usize::MAX as u64,
        RangeBound::Excluded(n) => n <= usize::MAX as u64,
        RangeBound::Unbounded => true,
    };
    start_fits && end_fits
}

/// The range that a request asks for: the first in the value of its `Range` header that a file of `len`
/// bytes can satisfy.
pub open spec fn requested_range(header: Option<Seq<u8>>, len: nat) -> Option<
    (RangeBound, RangeBound),
> {
    match header {
        None => None,
        Some(value) => satisfiable_range(value, len as u64),
    }
}

/// Answers a request for a file. `file` is what reading the file gave and `range` the value of the
/// `Range` header, where the request has one. There is no answer where the request asks for positions
/// that do not fit the machine.
pub fn serve_media(file: Result<Vec<u8>, std::io::Error>, range: Option<&[u8]>) -> (out: Option<
    Result<MediaReply, MediaError>,
>)
    ensures
        match file {
            Err(_) => out == Some(Err::<MediaReply, MediaError>(MediaError::NotFound)),
            Ok(bytes) => {
                let wanted = requested_range(
                    match range {
                        Some(value) => Some(value@),
                        None => None,
                    },
                    bytes@.len(),
                );
                if wanted matches Some(bounds) && !range_fits(bounds) {
                    out is None
                } else {
                    out matches Some(Ok(reply)) && sends(reply, bytes@, wanted)
                }
            },
        },
{
    let bytes: Vec<u8> = match file {
        Err(_) => return Some(Err(MediaError::NotFound)),
        Ok(bytes) => bytes,
    };
    let wanted: Option<(RangeBound, RangeBound)> = match range {
        None => None,
        Some(value) => first_satisfiable_range(value, bytes.len() as u64),
    };
    match wanted {
        None => Some(Ok(media_reply(bytes, None))),
        Some(bounds) => {
            if check_range(bounds) {
                Some(Ok(media_reply(bytes, Some(bounds))))
            } else {
                None
            }
        },
    }
}

/// The formats of the pictures that tags hold.
#[derive(Debug, Clone, Copy, PartialEq, Eq, Structural)]
pub enum CoverFormat {
    Png,
    Jpeg,
    Tiff,
    Bmp,
    Gif,
}

impl CoverFormat {
    /// The media type of the format.
    pub open spec fn text(self) -> Seq<char> {
        match self {
            CoverFormat::Png => "image/png"@,
            CoverFormat::Jpeg => "image/jpeg"@,
            CoverFormat::Tiff => "image/tiff"@,
            CoverFormat::Bmp => "image/bmp"@,
            CoverFormat::Gif => "image/gif"@,
        }
    }

    /// The media type of the format.
    pub fn content_type(&self) -> (text: &'static str)
        ensures
            text@ == self.text(),
    {
        match self {
            CoverFormat::Png => "image/png",
            CoverFormat::Jpeg => "image/jpeg",
            CoverFormat::Tiff => "image/tiff",
            CoverFormat::Bmp => "image/bmp",
            CoverFormat::Gif => "image/gif",
        }
    }
}

/// The picture of an album.
pub struct Cover {
    pub format: CoverFormat,
    pub data: Vec<u8>,
}

/// The picture of an album as it is sent.
pub struct AlbumArtReply {
    pub content_type: &'static str,
    pub body: Vec<u8>,
}

/// Answers a request for the album art of a file. `cover` is the picture in the tags of the file, where
/// it has readable tags that hold one.
pub fn serve_album_art(cover: Option<Cover>) -> (out: Result<AlbumArtReply, MediaError>)
    ensures
        match cover {
            None => out == Err::<AlbumArtReply, MediaError>(MediaError::NotFound),
            Some(picture) => out matches Ok(reply) && reply.content_type@ == picture.format.text()
                && reply.body@ == picture.data@,
        },
{
    match cover {
        None => Err(MediaError::NotFound),
        Some(Cover { format, data }) => Ok(
            AlbumArtReply { content_type: format.content_type(), body: data },
        ),
    }
}

/// A file is looked for below the folder that is shared under the name, at the path that its base64 stands
/// for. A path that is no base64, or the base64 of no text, is a bad request; a name that nothing is shared
/// under is not found.
pub proof fn files_are_looked_for_by_path(
    folders: Map<Seq<char>, Seq<char>>,
    root_name: Seq<char>,
    text: Seq<char>,
)
    ensures
        match crate::codec::base64_decoded(text) {
            Err(_) => location(folders, root_name, text) == Err::<Seq<char>, MediaError>(
                MediaError::BadRequest,
            ),
            Ok(bytes) => {
                &&& !valid_utf8(bytes) ==> location(folders, root_name, text) == Err::<
                    Seq<char>,
                    MediaError,
                >(MediaError::BadRequest)
                &&& forall|path: Seq<char>|
                    bytes == #[trigger] encode_utf8(path) ==> location(folders, root_name, text)
                        == if folders.dom().contains(root_name) {
                        Ok::<Seq<char>, MediaError>(
                            crate::path::joined(folders[root_name], path),
                        )
                    } else {
                        Err(MediaError::NotFound)
                    }
            },
        },
        location(folders, root_name, text) == decoded_location(
            folders,
            root_name,
            crate::codec::base64_decoded(text),
        ),
{
    if let Ok(bytes) = crate::codec::base64_decoded(text) {
        assert forall|path: Seq<char>| bytes == #[trigger] encode_utf8(path) implies location(
            folders,
            root_name,
            text,
        ) == if folders.dom().contains(root_name) {
            Ok::<Seq<char>, MediaError>(crate::path::joined(folders[root_name], path))
        } else {
            Err(MediaError::NotFound)
        } by {
            encode_utf8_valid_utf8(path);
            encode_utf8_decode_utf8(path);
        }
    }
}

/// The same of a path that has been decoded already.
pub proof fn decoded_files_are_looked_for_by_path(
    folders: Map<Seq<char>, Seq<char>>,
    root_name: Seq<char>,
    path: Seq<char>,
    bytes: Seq<u8>,
    message: Seq<char>,
)
    ensures
        decoded_location(folders, root_name, Ok(encode_utf8(path))) == if folders.dom().contains(
            root_name,
        ) {
            Ok::<Seq<char>, MediaError>(crate::path::joined(folders[root_name], path))
        } else {
            Err(MediaError::NotFound)
        },
        !valid_utf8(bytes) ==> decoded_location(folders, root_name, Ok(bytes)) == Err::<
            Seq<char>,
            MediaError,
        >(MediaError::BadRequest),
        decoded_location(folders, root_name, Err(message)) == Err::<Seq<char>, MediaError>(
            MediaError::BadRequest,
        ),
{
    encode_utf8_valid_utf8(path);
    encode_utf8_decode_utf8(path);
}

/// A result that agrees with an expected one is that result.
pub proof fn agreeing_locations_are_the_same(
    out: Result<String, MediaError>,
    expected: Result<Seq<char>, MediaError>,
)
    requires
        same_location(out, expected),
    ensures
        expected matches Ok(place) ==> out matches Ok(text) && text@ == place,
        expected matches Err(error) ==> out == Err::<String, MediaError>(error),
{
}

/// A request without a range is answered with the whole file.
pub proof fn whole_files_are_sent(reply: MediaReply, file: Seq<u8>)
    requires
        sends(reply, file, None),
    ensures
        reply.content_type@ == "audio/mpeg"@,
        reply.accept_ranges@ == "bytes"@,
        reply.content_range is None,
        reply.body@ == file,
{
}

/// A range is answered with the bytes from its first position to its last, whatever bounds it is given by,
/// in their order; with none where it does not lie in the file. The reply says which they are: the first
/// position, the one after the last, and the length of the file.
pub proof fn parts_are_sent_by_position(
    reply: MediaReply,
    file: Seq<u8>,
    first: RangeBound,
    last: RangeBound,
    start: nat,
    end: nat,
)
    requires
        sends(reply, file, Some((first, last))),
        first matches RangeBound::Included(n) ==> start == n,
        first matches RangeBound::Excluded(n) ==> start == n + 1,
        first is Unbounded ==> start == 0,
        last matches RangeBound::Included(n) ==> end == n + 1,
        last matches RangeBound::Excluded(n) ==> end == n,
        last is Unbounded ==> end == file.len(),
    ensures
        reply.content_type@ == "audio/mpeg"@,
        reply.accept_ranges@ == "bytes"@,
        reply.content_range matches Some(text) && text@ == "bytes "@ + crate::text::decimal(start)
            + "-"@ + crate::text::decimal(end) + "/"@ + crate::text::decimal(file.len()),
        start <= end <= file.len() ==> reply.body@.len() == end - start,
        start > end || end > file.len() ==> reply.body@.len() == 0,
        forall|i: int| 0 <= i < reply.body@.len() ==> reply.body@[i] == file[start + i],
{
}

/// A range without an end reaches the end of the file, however long it is.
pub proof fn open_ranges_reach_the_end(reply: MediaReply, file: Seq<u8>, start: u64)
    requires
        sends(reply, file, Some((RangeBound::Included(start), RangeBound::Unbounded))),
        start <= file.len(),
    ensures
        reply.body@ == file.skip(start as int),
        reply.body@.len() == file.len() - start,
        file.take(start as int) + reply.body@ == file,
{
    parts_are_sent_by_position(
        reply,
        file,
        RangeBound::Included(start),
        RangeBound::Unbounded,
        start as nat,
        file.len(),
    );
    assert(reply.body@ =~= file.skip(start as int));
    assert(file.take(start as int) + reply.body@ =~= file);
}

/// The replies to two ranges that follow each other send what the reply to the range over both sends.
pub proof fn following_ranges_are_sent_alike(
    one: MediaReply,
    two: MediaReply,
    both: MediaReply,
    file: Seq<u8>,
    start: u64,
    middle: u64,
    end: u64,
)
    requires
        start <= middle < end < file.len(),
        sends(one, file, Some((RangeBound::Included(start), RangeBound::Included(middle)))),
        sends(two, file, Some((RangeBound::Excluded(middle), RangeBound::Included(end)))),
        sends(both, file, Some((RangeBound::Included(start), RangeBound::Included(end)))),
    ensures
        one.body@ + two.body@ == both.body@,
        both.body@ == file.subrange(start as int, end + 1),
{
    assert(one.body@ + two.body@ =~= both.body@);
}

/// A range is refused where a position that it goes by is beyond what the machine counts to, and only there;
/// a range without bounds never is.
pub proof fn ranges_fit_by_their_positions(first: u64, last: u64)
    ensures
        range_fits((RangeBound::Unbounded, RangeBound::Unbounded)),
        range_fits((RangeBound::Included(first), RangeBound::Unbounded)) <==> first <= usize::MAX,
        range_fits((RangeBound::Excluded(first), RangeBound::Unbounded)) <==> first + 1
            <= usize::MAX,
        range_fits((RangeBound::Unbounded, RangeBound::Included(last))) <==> last + 1 <= usize::MAX,
        range_fits((RangeBound::Unbounded, RangeBound::Excluded(last))) <==> last <= usize::MAX,
        range_fits((RangeBound::Included(first), RangeBound::Included(last))) <==> first
            <= usize::MAX && last + 1 <= usize::MAX,
        range_fits((RangeBound::Included(first), RangeBound::Excluded(last))) <==> first
            <= usize::MAX && last <= usize::MAX,
        range_fits((RangeBound::Excluded(first), RangeBound::Included(last))) <==> first + 1
            <= usize::MAX && last + 1 <= usize::MAX,
        range_fits((RangeBound::Excluded(first), RangeBound::Excluded(last))) <==> first + 1
            <= usize::MAX && last <= usize::MAX,
{
}

/// The range that counts is the one that the header asks for of a file of that length; without the header
/// there is none.
pub proof fn ranges_come_from_the_header(header: Seq<u8>, len: nat)
    ensures
        requested_range(Some(header), len) == satisfiable_range(header, len as u64),
        requested_range(None, len) is None,
{
}

} // verus!
