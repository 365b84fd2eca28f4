use std::io;
use upnp_media_server::folder_roots::FolderRoots;
use upnp_media_server::media::{
    locate, locate_decoded, media_reply, serve_album_art, serve_media, Cover, CoverFormat, MediaError, MediaReply,
    RangeBound,
};

fn roots() -> FolderRoots {
    let mut out = FolderRoots::new();
    out.insert("m".to_string(), "/music".to_string());
    out
}

fn served(range: Option<&str>) -> MediaReply {
    match serve_media(Ok(b"0123456789".to_vec()), range.map(|text| text.as_bytes())) {
        Some(Ok(reply)) => reply,
        _ => panic!("no reply"),
    }
}

fn part(range: &str) -> (Option<String>, Vec<u8>) {
    let reply = served(Some(range));
    (reply.content_range, reply.body)
}

fn text(range: &str) -> Option<String> {
    Some(range.to_string())
}

#[test]
fn files_are_located() {
    assert_eq!(locate(&roots(), "m", "YS9i"), Ok("/music/a/b".to_string()));
    assert_eq!(locate(&roots(), "m", ""), Ok("/music/".to_string()));
    assert_eq!(locate(&roots(), "m", "L2V0Yw=="), Ok("/etc".to_string()));
}

#[test]
fn bad_requests_are_refused() {
    assert_eq!(locate(&roots(), "m", "!"), Err(MediaError::BadRequest));
    assert_eq!(locate(&roots(), "m", "YS9"), Err(MediaError::BadRequest));
    assert_eq!(locate(&roots(), "m", "/w=="), Err(MediaError::BadRequest));
    // The path is looked at before the name.
    assert_eq!(locate(&roots(), "other", "!"), Err(MediaError::BadRequest));
    assert_eq!(locate(&roots(), "other", "YS9i"), Err(MediaError::NotFound));
    assert_eq!(MediaError::BadRequest.status(), 400);
    assert_eq!(MediaError::NotFound.status(), 404);
}

#[test]
fn decoded_paths_are_located() {
    assert_eq!(locate_decoded(&roots(), "m", Ok(b"a".to_vec())), Ok("/music/a".to_string()));
    assert_eq!(locate_decoded(&roots(), "m", Ok(vec![0x80])), Err(MediaError::BadRequest));
    assert_eq!(
        locate_decoded(&roots(), "m", Err("why".to_string())),
        Err(MediaError::BadRequest)
    );
}

#[test]
fn whole_files_are_sent() {
    let reply = served(None);
    assert_eq!(reply.content_type, "audio/mpeg");
    assert_eq!(reply.accept_ranges, "bytes");
    assert_eq!(reply.content_range, None);
    assert_eq!(reply.body, b"0123456789");
}

#[test]
fn parts_of_files_are_sent() {
    assert_eq!(part("bytes=2-4"), (text("bytes 2-5/10"), b"234".to_vec()));
    assert_eq!(part("bytes=2-"), (text("bytes 2-10/10"), b"23456789".to_vec()));
    assert_eq!(part("bytes=-3"), (text("bytes 7-10/10"), b"789".to_vec()));
    assert_eq!(part("bytes=0-9"), (text("bytes 0-10/10"), b"0123456789".to_vec()));
    assert_eq!(part("bytes=1-2,5-6"), (text("bytes 1-3/10"), b"12".to_vec()));
    let reply = served(Some("bytes=2-4"));
    assert_eq!((reply.content_type, reply.accept_ranges), ("audio/mpeg", "bytes"));
}

#[test]
fn parts_outside_the_file_are_empty() {
    assert_eq!(part("bytes=8-12"), (text("bytes 8-13/10"), Vec::new()));
    assert_eq!(part("bytes=20-"), (text("bytes 20-10/10"), Vec::new()));
    assert_eq!(part("bytes=5-2"), (text("bytes 5-3/10"), Vec::new()));
}

#[test]
fn other_range_headers_send_the_whole_file() {
    for range in ["items=1-2", "bytes 1-2", "bytes=a-b", "bytes=-11", ""] {
        assert_eq!(part(range), (None, b"0123456789".to_vec()), "{range}");
    }
    match serve_media(Ok(vec![1, 2]), Some(b"bytes=0-0\n")) {
        Some(Ok(reply)) => assert_eq!(reply.body, [1, 2]),
        _ => panic!("no reply"),
    }
}

#[test]
fn positions_that_do_not_fit_have_no_answer() {
    let range = format!("bytes=0-{}", u64::MAX);
    assert!(serve_media(Ok(vec![1, 2]), Some(range.as_bytes())).is_none());
}

#[test]
fn missing_files_are_not_found() {
    let missing = io::Error::new(io::ErrorKind::NotFound, "missing");
    assert!(matches!(serve_media(Err(missing), Some(b"bytes=0-1")), Some(Err(MediaError::NotFound))));
}

#[test]
fn every_kind_of_bound_is_counted() {
    let reply = media_reply(b"abcde".to_vec(), Some((RangeBound::Excluded(0), RangeBound::Excluded(3))));
    assert_eq!((reply.content_range, reply.body), (text("bytes 1-3/5"), b"bc".to_vec()));
    let reply = media_reply(b"abcde".to_vec(), Some((RangeBound::Unbounded, RangeBound::Unbounded)));
    assert_eq!((reply.content_range, reply.body), (text("bytes 0-5/5"), b"abcde".to_vec()));
    let reply = media_reply(b"abcde".to_vec(), None);
    assert_eq!((reply.content_range, reply.body), (None, b"abcde".to_vec()));
}

#[test]
fn following_parts_make_the_file() {
    let mut joined = part("bytes=0-3").1;
    joined.extend(part("bytes=4-9").1);
    assert_eq!(joined, served(None).body);
    assert_eq!(part("bytes=0-").1, served(None).body);
}

#[test]
fn covers_are_sent_with_their_format() {
    let sent = |format: CoverFormat| {
        let reply = serve_album_art(Some(Cover { format, data: vec![1, 2, 3] })).ok().unwrap();
        assert_eq!(reply.body, [1, 2, 3]);
        reply.content_type
    };
    assert_eq!(sent(CoverFormat::Png), "image/png");
    assert_eq!(sent(CoverFormat::Jpeg), "image/jpeg");
    assert_eq!(sent(CoverFormat::Tiff), "image/tiff");
    assert_eq!(sent(CoverFormat::Bmp), "image/bmp");
    assert_eq!(sent(CoverFormat::Gif), "image/gif");
    assert!(matches!(serve_album_art(None), Err(MediaError::NotFound)));
}
