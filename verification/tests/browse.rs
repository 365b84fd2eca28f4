use std::io;
use upnp_media_server::content_directory_browse::browse::{browse, directory_to_read};
use upnp_media_server::content_directory_browse::listing::{
    child_of_entry, entry_path, item, list_children, DirectoryEntry, EntryKind, Tags,
};
use upnp_media_server::content_directory_browse::response::{respond, take_page};
use upnp_media_server::content_directory_browse::sort::sort_by_title;
use upnp_media_server::content_directory_browse::{
    BrowseFlag, Child, ContentDirectoryAction, Error, ObjectID, Response, ResponseResult,
};
use upnp_media_server::folder_roots::FolderRoots;
use upnp_media_server::media::locate;
use upnp_media_server::path::join;

fn folder(root_name: &str, path: &str) -> ObjectID {
    ObjectID::Folder { root_name: root_name.to_string(), path: path.to_string() }
}

fn roots(folders: &[(&str, &str)]) -> FolderRoots {
    let mut out = FolderRoots::new();
    for (name, path) in folders {
        out.insert(name.to_string(), path.to_string());
    }
    out
}

fn directory(name: &str) -> DirectoryEntry {
    DirectoryEntry { name: name.to_string(), kind: EntryKind::Directory }
}

fn tags(title: &str) -> Tags {
    Tags {
        artist: Some("Artist".to_string()),
        album_title: Some("Album".to_string()),
        title: Some(title.to_string()),
        genre: Some("Genre".to_string()),
        year: Some(1999),
        track_number: Some(7),
    }
}

fn file(name: &str, title: &str) -> DirectoryEntry {
    DirectoryEntry { name: name.to_string(), kind: EntryKind::File { tags: Some(tags(title)) } }
}

fn container(title: &str, id: ObjectID) -> Child {
    Child::Container { id, parent_id: ObjectID::Root, title: title.to_string() }
}

fn id_text(child: &Child) -> String {
    match child {
        Child::Container { id, .. } => id.to_string(),
        Child::Item { id, .. } => id.to_string(),
    }
}

fn parent_text(child: &Child) -> String {
    match child {
        Child::Container { parent_id, .. } => parent_id.to_string(),
        Child::Item { parent_id, .. } => parent_id.to_string(),
    }
}

fn titles(children: &[Child]) -> Vec<String> {
    children.iter().map(|child| child.title().to_string()).collect()
}

fn action(object_id: ObjectID, flag: BrowseFlag, start: usize, count: usize) -> ContentDirectoryAction {
    ContentDirectoryAction::Browse {
        object_id,
        browse_flag: flag,
        filter: "*".to_string(),
        starting_index: start,
        requested_count: count,
    }
}

fn children_of(response: Response) -> Vec<Child> {
    match response.result {
        ResponseResult::DirectChildren { children, .. } => children,
        ResponseResult::Metadata { .. } => panic!("metadata"),
    }
}

fn failure() -> io::Error {
    io::Error::new(io::ErrorKind::Other, "failure")
}

#[test]
fn root_holds_the_container_of_folders() {
    let response = browse(
        action(ObjectID::Root, BrowseFlag::BrowseDirectChildren, 0, 10),
        &roots(&[]),
        Err(failure()),
        "host".to_string(),
        8080,
    )
    .unwrap();
    assert_eq!(response.number_returned, 1);
    assert_eq!(response.total_matches, 1);
    match response.result {
        ResponseResult::DirectChildren { hostname, port, children } => {
            assert_eq!(hostname, "host");
            assert_eq!(port, 8080);
            assert_eq!(titles(&children), ["Folder"]);
            assert_eq!(id_text(&children[0]), "folder");
            assert_eq!(parent_text(&children[0]), "0");
        }
        ResponseResult::Metadata { .. } => panic!("metadata"),
    }
}

#[test]
fn shared_folders_are_listed_by_name() {
    let response = browse(
        action(ObjectID::FolderRoot, BrowseFlag::BrowseDirectChildren, 0, 10),
        &roots(&[("b", "/y"), ("a", "/x"), ("C", "/z")]),
        Ok(Vec::new()),
        "host".to_string(),
        1,
    )
    .unwrap();
    let children = children_of(response);
    assert_eq!(titles(&children), ["C", "a", "b"]);
    assert_eq!(id_text(&children[1]), "folder_a_");
    assert_eq!(parent_text(&children[1]), "folder");
}

#[test]
fn shared_folders_are_shown_alike_in_any_order() {
    let shown = |folders: &[(&str, &str)]| {
        let response = browse(
            action(ObjectID::FolderRoot, BrowseFlag::BrowseDirectChildren, 0, 10),
            &roots(folders),
            Ok(Vec::new()),
            "host".to_string(),
            1,
        )
        .unwrap();
        children_of(response).iter().map(id_text).collect::<Vec<String>>()
    };
    assert_eq!(shown(&[("b", "/y"), ("a", "/x")]), shown(&[("a", "/x"), ("b", "/y")]));
}

#[test]
fn metadata_describes_the_object() {
    let response = browse(
        action(folder("m", "a/b"), BrowseFlag::BrowseMetadata, 0, 2),
        &roots(&[("m", "/music")]),
        Ok(vec![Ok(directory("x")), Ok(directory("y")), Ok(directory("z"))]),
        "host".to_string(),
        1,
    )
    .unwrap();
    assert_eq!(response.number_returned, 2);
    assert_eq!(response.total_matches, 3);
    match response.result {
        ResponseResult::Metadata { id, parent_id, title, child_count } => {
            assert_eq!(id.to_string(), "folder_m_YS9i");
            assert_eq!(parent_id.to_string(), "folder_m_YQ==");
            assert_eq!(title, "b");
            assert_eq!(child_count, 2);
        }
        ResponseResult::DirectChildren { .. } => panic!("children"),
    }
}

#[test]
fn unknown_folder_is_not_found() {
    let out = browse(
        action(folder("other", ""), BrowseFlag::BrowseDirectChildren, 0, 10),
        &roots(&[("m", "/music")]),
        Ok(Vec::new()),
        "host".to_string(),
        1,
    );
    assert!(matches!(out, Err(Error::NotFound)));
    assert_eq!(Error::NotFound.status(), 404);
}

#[test]
fn unreadable_folder_is_an_error() {
    let shared = roots(&[("m", "/music")]);
    let out = browse(
        action(folder("m", ""), BrowseFlag::BrowseDirectChildren, 0, 10),
        &shared,
        Err(failure()),
        "host".to_string(),
        1,
    );
    assert!(matches!(out, Err(Error::IO)));
    let out = browse(
        action(folder("m", ""), BrowseFlag::BrowseDirectChildren, 0, 10),
        &shared,
        Ok(vec![Ok(directory("a")), Err(failure()), Ok(directory("b"))]),
        "host".to_string(),
        1,
    );
    assert!(matches!(out, Err(Error::IO)));
    assert_eq!(Error::IO.status(), 500);
}

#[test]
fn errors_are_made_of_outside_errors() {
    assert!(matches!(Error::from(failure()), Error::IO));
    assert!(matches!(Error::from(quick_xml::DeError::UnexpectedEof), Error::IO));
}

#[test]
fn directories_to_read_are_named() {
    let shared = roots(&[("m", "/music"), ("n", "/more/"), ("e", "")]);
    let read = |id: ObjectID| directory_to_read(&id, &shared);
    assert!(matches!(read(ObjectID::Root), Ok(None)));
    assert!(matches!(read(ObjectID::FolderRoot), Ok(None)));
    assert_eq!(read(folder("m", "a/b")).unwrap(), Some("/music/a/b".to_string()));
    assert_eq!(read(folder("m", "")).unwrap(), Some("/music/".to_string()));
    assert_eq!(read(folder("n", "a")).unwrap(), Some("/more/a".to_string()));
    assert_eq!(read(folder("e", "a")).unwrap(), Some("a".to_string()));
    assert_eq!(read(folder("m", "/abs")).unwrap(), Some("/abs".to_string()));
    assert!(matches!(read(folder("other", "a")), Err(Error::NotFound)));
}

#[test]
fn directories_nest_below_each_other() {
    for path in ["", "p", "p/q"] {
        let below = entry_path(path, "a");
        assert_eq!(join("/base", below.as_str()), join(join("/base", path).as_str(), "a"));
    }
}

#[test]
fn entry_paths_are_joined_by_a_separator() {
    assert_eq!(entry_path("", "a"), "a");
    assert_eq!(entry_path("p", "a"), "p/a");
    assert_eq!(entry_path("p/q", "\u{e9}"), "p/q/\u{e9}");
}

#[test]
fn directory_becomes_a_container() {
    match child_of_entry("m", "p", directory("a")) {
        Some(Child::Container { id, parent_id, title }) => {
            assert_eq!(id.to_string(), folder("m", "p/a").to_string());
            assert_eq!(parent_id.to_string(), folder("m", "p").to_string());
            assert_eq!(title, "a");
        }
        _ => panic!("no container"),
    }
}

#[test]
fn tagged_file_becomes_an_item() {
    match child_of_entry("m", "", file("song.mp3", "Song")) {
        Some(Child::Item {
            id,
            parent_id,
            root_name,
            base64_path,
            artist,
            album,
            title,
            genre,
            year,
            track_number,
            mime_type,
        }) => {
            assert_eq!(id.to_string(), "folder_m_c29uZy5tcDM=");
            assert_eq!(parent_id.to_string(), "folder_m_");
            assert_eq!(root_name, "m");
            assert_eq!(base64_path, "c29uZy5tcDM=");
            assert_eq!(artist, "Artist");
            assert_eq!(album, "Album");
            assert_eq!(title, "Song");
            assert_eq!(genre, "Genre");
            assert_eq!(year, 1999);
            assert_eq!(track_number, 7);
            assert_eq!(mime_type, "audio/mpeg");
        }
        _ => panic!("no item"),
    }
}

#[test]
fn media_type_goes_by_the_extension() {
    let guessed = |name: &str| match child_of_entry("m", "p.mp3", file(name, "t")) {
        Some(Child::Item { mime_type, .. }) => mime_type,
        _ => panic!("no item"),
    };
    assert_eq!(guessed("a.flac"), "audio/flac");
    assert_eq!(guessed("a.MP3"), "audio/mpeg");
    assert_eq!(guessed("a.unknown"), "application/octet-stream");
    assert_eq!(guessed("mp3"), "application/octet-stream");
}

#[test]
fn missing_tags_are_empty() {
    let none = Tags { artist: None, album_title: None, title: None, genre: None, year: None, track_number: None };
    match item("m", "p", "a.mp3", none, "encoded".to_string(), "type".to_string()) {
        Child::Item { base64_path, artist, album, title, genre, year, track_number, mime_type, .. } => {
            assert_eq!((artist.as_str(), album.as_str(), title.as_str(), genre.as_str()), ("", "", "", ""));
            assert_eq!((year, track_number), (0, 0));
            assert_eq!((base64_path.as_str(), mime_type.as_str()), ("encoded", "type"));
        }
        Child::Container { .. } => panic!("container"),
    }
}

#[test]
fn other_entries_are_left_out() {
    let other = DirectoryEntry { name: "pipe".to_string(), kind: EntryKind::Other };
    let plain = DirectoryEntry { name: "a.txt".to_string(), kind: EntryKind::File { tags: None } };
    assert!(child_of_entry("m", "", other).is_none());
    assert!(child_of_entry("m", "", plain).is_none());
    let listing = vec![
        Ok(directory("b")),
        Ok(DirectoryEntry { name: "pipe".to_string(), kind: EntryKind::Other }),
        Ok(file("c.mp3", "a")),
    ];
    let children = list_children("m", "", listing).ok().unwrap();
    assert_eq!(titles(&children), ["b", "a"]);
}

#[test]
fn children_know_the_object_that_holds_them() {
    for entry in [directory("a"), file("a.mp3", "t")] {
        let child = child_of_entry("m", "p/q", entry).unwrap();
        let id = ObjectID::parse(id_text(&child).as_str()).unwrap();
        assert_eq!(id.parent().to_string(), parent_text(&child));
        match child {
            Child::Container { title, .. } => assert_eq!((id.title(), title), ("a".to_string(), "a".to_string())),
            Child::Item { .. } => assert_eq!(id.title(), "a.mp3"),
        }
    }
}

#[test]
fn shown_files_can_be_fetched() {
    let shared = roots(&[("m", "/music")]);
    let response = browse(
        action(folder("m", "p"), BrowseFlag::BrowseDirectChildren, 0, 10),
        &shared,
        Ok(vec![Ok(file("a.mp3", "t"))]),
        "host".to_string(),
        1,
    )
    .unwrap();
    match &children_of(response)[0] {
        Child::Item { root_name, base64_path, .. } => {
            let place = locate(&shared, root_name.as_str(), base64_path.as_str());
            assert_eq!(place, Ok("/music/p/a.mp3".to_string()));
        }
        Child::Container { .. } => panic!("container"),
    }
}

#[test]
fn children_are_sorted_by_title() {
    let unsorted = vec![
        container("b", ObjectID::Root),
        container("\u{e9}", ObjectID::Root),
        container("", ObjectID::Root),
        container("B", ObjectID::Root),
        container("ab", ObjectID::Root),
        container("a", ObjectID::Root),
        container("z", ObjectID::Root),
        container("\u{1f3b5}", ObjectID::Root),
        container("\u{ff5e}", ObjectID::Root),
    ];
    let sorted = sort_by_title(unsorted);
    assert_eq!(titles(&sorted), ["", "B", "a", "ab", "b", "z", "\u{e9}", "\u{ff5e}", "\u{1f3b5}"]);
}

#[test]
fn same_titles_keep_their_order() {
    let unsorted = vec![
        container("x", folder("m", "1")),
        container("a", folder("m", "2")),
        container("x", folder("m", "3")),
        container("x", folder("m", "4")),
    ];
    let sorted = sort_by_title(unsorted);
    let ids: Vec<String> = sorted.iter().map(id_text).collect();
    assert_eq!(ids, ["folder_m_Mg==", "folder_m_MQ==", "folder_m_Mw==", "folder_m_NA=="]);
}

#[test]
fn different_titles_sort_alike_from_any_order() {
    let one = vec![container("c", ObjectID::Root), container("a", ObjectID::Root), container("b", ObjectID::Root)];
    let two = vec![container("b", ObjectID::Root), container("c", ObjectID::Root), container("a", ObjectID::Root)];
    assert_eq!(titles(&sort_by_title(one)), titles(&sort_by_title(two)));
}

#[test]
fn pages_are_cut_out() {
    let all = || vec![1, 2, 3, 4, 5];
    assert_eq!(take_page(all(), 0, 5), all());
    assert_eq!(take_page(all(), 0, usize::MAX), all());
    assert_eq!(take_page(all(), 1, 2), [2, 3]);
    assert_eq!(take_page(all(), 3, 10), [4, 5]);
    assert_eq!(take_page(all(), 2, 0), Vec::<i32>::new());
    assert_eq!(take_page(all(), 5, 1), Vec::<i32>::new());
    assert_eq!(take_page(all(), usize::MAX, usize::MAX), Vec::<i32>::new());
}

#[test]
fn following_pages_make_one() {
    let all = || vec![1, 2, 3, 4, 5];
    let mut joined = take_page(all(), 1, 2);
    joined.extend(take_page(all(), 3, 7));
    assert_eq!(joined, take_page(all(), 1, 9));
}

#[test]
fn replies_count_what_they_show() {
    let children = || vec![container("b", ObjectID::Root), container("a", ObjectID::Root), container("c", ObjectID::Root)];
    let shown = respond(ObjectID::Root, BrowseFlag::BrowseDirectChildren, 1, 5, "h".to_string(), 1, children());
    assert_eq!((shown.number_returned, shown.total_matches), (2, 3));
    assert_eq!(titles(&children_of(shown)), ["b", "c"]);
    let meta = respond(ObjectID::Root, BrowseFlag::BrowseMetadata, 1, 5, "h".to_string(), 1, children());
    assert_eq!((meta.number_returned, meta.total_matches), (2, 3));
    assert!(matches!(meta.result, ResponseResult::Metadata { child_count: 2, .. }));
}

#[test]
fn folder_roots_keep_one_folder_to_a_name() {
    let mut shared = roots(&[("a", "/x"), ("b", "/y")]);
    shared.insert("a".to_string(), "/z".to_string());
    assert_eq!(shared.get("a"), Some("/z"));
    assert_eq!(shared.get("b"), Some("/y"));
    assert_eq!(shared.get("c"), None);
    assert_eq!(shared.get("A"), None);
    let mut names = shared.list_names();
    names.sort();
    assert_eq!(names, ["a", "b"]);
}

#[test]
fn read_objects_are_looked_for_in_their_folder() {
    let shared = roots(&[("m", "/music"), ("n", "/more/")]);
    let place = |text: &str| directory_to_read(&ObjectID::parse(text).unwrap(), &shared).unwrap().unwrap();
    assert_eq!(place("folder_m_YS9i"), "/music/a/b");
    assert_eq!(place("folder_n_YS9i"), "/more/a/b");
    assert_eq!(place("folder_m_"), "/music/");
}
