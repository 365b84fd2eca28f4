//! The entries of a directory as children of the folder that it is.
use crate::codec::base64_encode;
use crate::content_directory_browse::child::{Child, ChildModel};
use crate::content_directory_browse::error::Error;
use crate::content_directory_browse::object_id::{ObjectID, ObjectIDModel};
use crate::mime_type::guess_mime_type;
use vstd::prelude::*;
use vstd::string::*;
use vstd::utf8::*;

verus! {

/// The tags of an audio file, as far as it has them.
pub struct Tags {
    pub artist: Option<String>,
    pub album_title: Option<String>,
    pub title: Option<String>,
    pub genre: Option<String>,
    pub year: Option<i32>,
    pub track_number: Option<u16>,
}

/// What an entry of a directory is. The tags of a file are there where they could be read.
pub enum EntryKind {
    Directory,
    File { tags: Option<Tags> },
    Other,
}

/// An entry of a directory.
pub struct DirectoryEntry {
    pub name: String,
    pub kind: EntryKind,
}

/// The path of the entry `name` in the folder at `path`.
pub open spec fn path_below(path: Seq<char>, name: Seq<char>) -> Seq<char> {
    if path.len() == 0 {
        name
    } else {
        path + seq!['/'] + name
    }
}

/// A text that may be missing, which is then empty.
pub open spec fn text_or_empty(text: Option<String>) -> Seq<char> {
    match text {
        Some(s) => s@,
        None => Seq::empty(),
    }
}

/// The file `name` with the tags `tags` in the folder at `path` below `root_name`, where `base64_path`
/// is its path in base64 and `mime_type` its media type.
pub open spec fn item_model(
    root_name: Seq<char>,
    path: Seq<char>,
    name: Seq<char>,
    tags: Tags,
    base64_path: Seq<char>,
    mime_type: Seq<char>,
) -> ChildModel {
    ChildModel::Item {
        id: ObjectIDModel::Folder { root_name, path: path_below(path, name) },
        parent_id: ObjectIDModel::Folder { root_name, path },
        root_name,
        base64_path,
        artist: text_or_empty(tags.artist),
        album: text_or_empty(tags.album_title),
        title: text_or_empty(tags.title),
        genre: text_or_empty(tags.genre),
        year: match tags.year {
            Some(year) => year,
            None => 0,
        },
        track_number: match tags.track_number {
            Some(number) => number,
            None => 0,
        },
        mime_type,
    }
}

/// The child that an entry of the folder at `path` below `root_name` is. Files without readable tags,
/// and what is neither a file nor a directory, are none.
pub open spec fn entry_child(
    root_name: Seq<char>,
    path: Seq<char>,
    entry: DirectoryEntry,
) -> Option<ChildModel> {
    match entry.kind {
        EntryKind::Directory => Some(
            ChildModel::Container {
                id: ObjectIDModel::Folder { root_name, path: path_below(path, entry.name@) },
                parent_id: ObjectIDModel::Folder { root_name, path },
                title: entry.name@,
            },
        ),
        EntryKind::File { tags: Some(tags) } => Some(
            item_model(
                root_name,
                path,
                entry.name@,
                tags,
                crate::codec::base64_encoded(encode_utf8(path_below(path, entry.name@))),
                crate::mime_type::guessed_mime_type(entry.name@),
            ),
        ),
        EntryKind::File { tags: None } => None,
        EntryKind::Other => None,
    }
}

/// The child that a step of reading the folder yields.
pub open spec fn step_child(
    root_name: Seq<char>,
    path: Seq<char>,
    step: Result<DirectoryEntry, std::io::Error>,
) -> Option<ChildModel> {
    match step {
        Ok(entry) => entry_child(root_name, path, entry),
        Err(_) => None,
    }
}

/// Every entry of the folder could be read.
pub open spec fn all_read(listing: Seq<Result<DirectoryEntry, std::io::Error>>) -> bool {
    forall|i: int| 0 <= i < listing.len() ==> (#[trigger] listing[i]) is Ok
}

/// The children in the folder at `path` below `root_name`, in the order of the listing.
pub open spec fn listed_children(
    root_name: Seq<char>,
    path: Seq<char>,
    listing: Seq<Result<DirectoryEntry, std::io::Error>>,
) -> Seq<ChildModel> {
    listing.filter_map(
        |step: Result<DirectoryEntry, std::io::Error>| step_child(root_name, path, step),
    )
}

/// The path that a file is fetched by decodes to the path of the object that it is.
pub open spec fn path_decodes(child: ChildModel) -> bool {
    child matches ChildModel::Item { id: ObjectIDModel::Folder { path, .. }, base64_path, .. }
        ==> crate::codec::base64_decoded(base64_path) == Ok::<Seq<u8>, Seq<char>>(encode_utf8(path))
}

/// The path of the entry `name` in the folder at `path`.
pub fn entry_path(path: &str, name: &str) -> (out: String)
    ensures
        out@ == path_below(path@, name@),
{
    if path.is_empty() {
        return name.to_owned();
    }
    let mut out: String = path.to_owned();
    out.push('/');
    assert(out@ == path@ + seq!['/']);
    out.append(name);
    out
}

fn or_empty(text: Option<String>) -> (out: String)
    ensures
        out@ == text_or_empty(text),
{
    match text {
        Some(s) => s,
        None => String::new(),
    }
}

/// The child that a file with readable tags is, given its path in base64 and its media type.
pub fn item(
    root_name: &str,
    path: &str,
    name: &str,
    tags: Tags,
    base64_path: String,
    mime_type: String,
) -> (child: Child)
    ensures
        child@ == item_model(root_name@, path@, name@, tags, base64_path@, mime_type@),
{
    Child::Item {
        id: ObjectID::Folder { root_name: root_name.to_owned(), path: entry_path(path, name) },
        parent_id: ObjectID::Folder { root_name: root_name.to_owned(), path: path.to_owned() },
        root_name: root_name.to_owned(),
        base64_path,
        artist: or_empty(tags.artist),
        album: or_empty(tags.album_title),
        title: or_empty(tags.title),
        genre: or_empty(tags.genre),
        year: match tags.year {
            Some(year) => year,
            None => 0,
        },
        track_number: match tags.track_number {
            Some(number) => number,
            None => 0,
        },
        mime_type,
    }
}

/// The child that `entry` is in the folder at `path` below `root_name`.
pub fn child_of_entry(root_name: &str, path: &str, entry: DirectoryEntry) -> (out: Option<Child>)
    ensures
        match out {
            Some(child) => entry_child(root_name@, path@, entry) == Some(child@) && path_decodes(
                child@,
            ),
            None => entry_child(root_name@, path@, entry) is None,
        },
{
    let DirectoryEntry { name, kind } = entry;
    match kind {
        EntryKind::Directory => Some(
            Child::Container {
                id: ObjectID::Folder {
                    root_name: root_name.to_owned(),
                    path: entry_path(path, name.as_str()),
                },
                parent_id: ObjectID::Folder {
                    root_name: root_name.to_owned(),
                    path: path.to_owned(),
                },
                title: name,
            },
        ),
        EntryKind::File { tags: Some(tags) } => {
            let full_path: String = entry_path(path, name.as_str());
            let base64_path: String = base64_encode(full_path.as_str().as_bytes());
            let mime_type: String = guess_mime_type(name.as_str());
            Some(item(root_name, path, name.as_str(), tags, base64_path, mime_type))
        },
        EntryKind::File { tags: None } => None,
        EntryKind::Other => None,
    }
}

/// The children in the folder at `path` below `root_name`. One entry that cannot be read is an error
/// for the whole folder.
pub fn list_children(
    root_name: &str,
    path: &str,
    listing: Vec<Result<DirectoryEntry, std::io::Error>>,
) -> (out: Result<Vec<Child>, Error>)
    ensures
        match out {
            Ok(children) => {
                &&& all_read(listing@)
                &&& crate::content_directory_browse::child::models(children@) == listed_children(
                    root_name@,
                    path@,
                    listing@,
                )
                &&& forall|i: int| 0 <= i < children@.len() ==> path_decodes((#[trigger] children@[i])@)
            },
            Err(e) => !all_read(listing@) && e == Error::IO,
        },
{
    let ghost steps = listing@;
    let ghost pick = |step: Result<DirectoryEntry, std::io::Error>| step_child(root_name@, path@, step);
    let mut children: Vec<Child> = Vec::new();
    assert(crate::content_directory_browse::child::models(children@) =~= steps.take(0).filter_map(
        pick,
    ));
    for step in it: listing
        invariant
            it.seq() == steps,
            pick == (|step: Result<DirectoryEntry, std::io::Error>| step_child(root_name@, path@, step)),
            forall|i: int| 0 <= i < it.index() ==> (#[trigger] steps[i]) is Ok,
            crate::content_directory_browse::child::models(children@) == steps.take(
                it.index(),
            ).filter_map(pick),
            forall|i: int| 0 <= i < children@.len() ==> path_decodes((#[trigger] children@[i])@),
    {
        proof {
            steps.lemma_filter_map_take_succ(pick, it.index());
        }
        match step {
            Err(e) => {
                assert(steps[it.index()] is Err);
                return Err(Error::from(e));
            },
            Ok(entry) => {
                let ghost before = crate::content_directory_browse::child::models(children@);
                match child_of_entry(root_name, path, entry) {
                    Some(child) => {
                        children.push(child);
                        assert(crate::content_directory_browse::child::models(children@)
                            =~= before.push(child@));
                    },
                    None => {},
                }
            },
        }
    }
    assert(steps.take(steps.len() as int) == steps);
    Ok(children)
}

} // verus!
