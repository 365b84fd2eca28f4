use upnp_media_server::content_directory_browse::object_id::ObjectIDError;
use upnp_media_server::content_directory_browse::ObjectID;

fn folder(root_name: &str, path: &str) -> ObjectID {
    ObjectID::Folder { root_name: root_name.to_string(), path: path.to_string() }
}

fn parts(id: &ObjectID) -> Option<(&str, &str)> {
    match id {
        ObjectID::Folder { root_name, path } => Some((root_name.as_str(), path.as_str())),
        _ => None,
    }
}

#[test]
fn object_ids_are_written() {
    assert_eq!(ObjectID::Root.to_string(), "0");
    assert_eq!(ObjectID::FolderRoot.to_string(), "folder");
    assert_eq!(folder("Music", "").to_string(), "folder_Music_");
    assert_eq!(folder("Music", "a/b").to_string(), "folder_Music_YS9i");
    assert_eq!(folder("Music", "song.mp3").to_string(), "folder_Music_c29uZy5tcDM=");
    assert_eq!(folder("Music", "\u{c4}").to_string(), "folder_Music_w4Q=");
    assert_eq!(folder("a_b", "c").to_string(), "folder_a_b_Yw==");
}

#[test]
fn object_ids_are_read() {
    assert!(matches!(ObjectID::parse("0"), Ok(ObjectID::Root)));
    assert!(matches!(ObjectID::parse("folder"), Ok(ObjectID::FolderRoot)));
    assert_eq!(parts(&ObjectID::parse("folder_Music_").unwrap()), Some(("Music", "")));
    assert_eq!(parts(&ObjectID::parse("folder_Music_YS9i").unwrap()), Some(("Music", "a/b")));
    assert_eq!(parts(&ObjectID::parse("folder__YS9i").unwrap()), Some(("", "a/b")));
    assert_eq!(parts(&ObjectID::parse("folder_Music_w4Q=").unwrap()), Some(("Music", "\u{c4}")));
}

#[test]
fn readable_objects_are_read_back() {
    let ids = [
        ObjectID::Root,
        ObjectID::FolderRoot,
        folder("Music", ""),
        folder("Music", "a"),
        folder("My Music", "Artist/Album/01 - \u{e9}t\u{e9}.mp3"),
        folder("", "..."),
        folder("Music", "a/..b/c.."),
    ];
    for id in ids {
        let text = id.to_string();
        let read = ObjectID::parse(text.as_str()).unwrap();
        assert_eq!(read.to_string(), text);
        assert_eq!(parts(&read), parts(&id));
    }
}

#[test]
fn name_with_underscore_is_not_read_back() {
    // The name ends at the first underscore, and what follows is no base64.
    assert!(matches!(ObjectID::parse("folder_a_b_Yw=="), Err(ObjectIDError::NotBase64(_))));
}

#[test]
fn bad_object_ids_are_refused() {
    for text in ["", "1", "Folder", "folder_", "folder_Music", "folders_Music_YS9i", " 0"] {
        match ObjectID::parse(text) {
            Err(ObjectIDError::BadObjectID(bad)) => assert_eq!(bad, text),
            _ => panic!("{text} was read"),
        }
    }
}

#[test]
fn bad_base64_is_refused() {
    for text in ["folder_m_!", "folder_m_YS9", "folder_m_YS9i=", "folder_m_Yx==", "folder_m_Yw", "folder_m_YS_i"] {
        assert!(matches!(ObjectID::parse(text), Err(ObjectIDError::NotBase64(_))), "{text}");
    }
}

#[test]
fn bad_utf8_is_refused() {
    // One byte, 0xff.
    assert!(matches!(ObjectID::parse("folder_m_/w=="), Err(ObjectIDError::NotUtf8(_))));
}

#[test]
fn absolute_paths_are_refused() {
    // "/etc"
    assert!(matches!(ObjectID::parse("folder_m_L2V0Yw=="), Err(ObjectIDError::AbsolutePath)));
    // "/.." is both; that it is absolute is found first.
    assert!(matches!(ObjectID::parse("folder_m_Ly4u"), Err(ObjectIDError::AbsolutePath)));
}

#[test]
fn parent_segments_are_refused() {
    // "..", "a/../b", "a/..", "../a"
    for encoded in ["Li4=", "YS8uLi9i", "YS8uLg==", "Li4vYQ=="] {
        let text = format!("folder_m_{encoded}");
        assert!(matches!(ObjectID::parse(text.as_str()), Err(ObjectIDError::ParentSegment)), "{text}");
    }
}

#[test]
fn decoding_decides_the_object() {
    let id = ObjectID::from_decoded("m".to_string(), Ok(b"a/b".to_vec())).unwrap();
    assert_eq!(parts(&id), Some(("m", "a/b")));
    assert!(matches!(
        ObjectID::from_decoded("m".to_string(), Ok(vec![0xff])),
        Err(ObjectIDError::NotUtf8(_))
    ));
    assert!(matches!(
        ObjectID::from_decoded("m".to_string(), Err("why".to_string())),
        Err(ObjectIDError::NotBase64(text)) if text == "why"
    ));
}

fn refusal(text: &str) -> String {
    ObjectID::parse(text).err().unwrap().message()
}

#[test]
fn refusals_say_what_is_wrong() {
    assert_eq!(refusal("folder_m_L2V0Yw=="), "Path must be relative");
    assert_eq!(refusal("folder_m_Li4="), "Paths may not have parent segments");
    assert_eq!(refusal("x"), "Bad ObjectID x");
    for encoded in ["YS9", "Y!==", "Yx==", "A", "b_Yw=="] {
        let said = base64::Engine::decode(&base64::engine::general_purpose::STANDARD, encoded).unwrap_err();
        assert_eq!(refusal(format!("folder_m_{encoded}").as_str()), format!("Not base64: {said}"));
    }
    assert_eq!(refusal("folder_m_Y!=="), "Not base64: Invalid symbol 33, offset 1.");
    // The bytes 0x61, 0xff.
    let said = String::from_utf8(vec![0x61, 0xff]).unwrap_err();
    assert_eq!(refusal("folder_m_Yf8="), format!("Not UTF-8: {said}"));
}

#[test]
fn folders_with_an_underscore_in_the_name_are_refused() {
    for name in ["_", "a_b", "a_", "_a", "a__b"] {
        for path in ["", "c", "c/d"] {
            let text = folder(name, path).to_string();
            assert!(matches!(ObjectID::parse(text.as_str()), Err(ObjectIDError::NotBase64(_))), "{text}");
        }
    }
}

#[test]
fn unreadable_paths_are_written_and_refused() {
    for path in ["/a", "..", "a/../b"] {
        assert!(ObjectID::parse(folder("m", path).to_string().as_str()).is_err());
    }
}

#[test]
fn texts_of_different_objects_differ() {
    let mut texts = vec![ObjectID::Root.to_string(), ObjectID::FolderRoot.to_string()];
    for name in ["", "_", "a", "a_", "_a", "a_b", "a_b_", "b"] {
        for path in ["", "a", "b", "a/b", "_"] {
            texts.push(folder(name, path).to_string());
        }
    }
    for (i, text) in texts.iter().enumerate() {
        assert!(!texts[..i].contains(text), "{text}");
    }
}

#[test]
fn parents_are_found() {
    assert!(matches!(ObjectID::Root.parent(), ObjectID::Root));
    assert!(matches!(ObjectID::FolderRoot.parent(), ObjectID::Root));
    assert!(matches!(folder("m", "").parent(), ObjectID::FolderRoot));
    assert!(matches!(folder("m", "a").parent(), ObjectID::FolderRoot));
    assert_eq!(parts(&folder("m", "a/b").parent()), Some(("m", "a")));
    assert_eq!(parts(&folder("m", "a/b/c").parent()), Some(("m", "a/b")));
    assert_eq!(parts(&folder("m", "a/").parent()), Some(("m", "a")));
}

#[test]
fn titles_are_found() {
    assert_eq!(ObjectID::Root.title(), "Root");
    assert_eq!(ObjectID::FolderRoot.title(), "Folder");
    assert_eq!(folder("m", "").title(), "m");
    assert_eq!(folder("m", "a").title(), "m");
    assert_eq!(folder("m", "a/b").title(), "b");
    assert_eq!(folder("m", "a/\u{e9}t\u{e9}").title(), "\u{e9}t\u{e9}");
    assert_eq!(folder("m", "a/").title(), "");
}

#[test]
fn parents_lead_to_the_root() {
    let mut id = folder("m", "a/b/c");
    for _ in 0..4 {
        assert!(!matches!(id, ObjectID::Root));
        id = id.parent();
    }
    assert!(matches!(id, ObjectID::Root));
    // A separator at the end counts as well.
    let id = folder("m", "a/").parent().parent();
    assert!(!matches!(id, ObjectID::Root));
    assert!(matches!(id.parent(), ObjectID::Root));
}

#[test]
fn parents_of_readable_objects_are_readable() {
    let mut id = folder("m", "a/b/c");
    while !matches!(id, ObjectID::Root) {
        id = id.parent();
        let text = id.to_string();
        assert_eq!(ObjectID::parse(text.as_str()).unwrap().to_string(), text);
    }
}

#[test]
fn clones_are_the_same() {
    assert_eq!(parts(&folder("m", "a/b").clone()), Some(("m", "a/b")));
    assert!(matches!(ObjectID::Root.clone(), ObjectID::Root));
    assert!(matches!(ObjectID::FolderRoot.clone(), ObjectID::FolderRoot));
}
