//! What holds of what browsing shows: which children, in which order, and which of them in a reply.
use crate::content_directory_browse::child::{Child, ChildModel};
use crate::content_directory_browse::error::Error;
use crate::content_directory_browse::listing::{DirectoryEntry, EntryKind, Tags};
use crate::content_directory_browse::object_id::{ObjectID, ObjectIDModel};
use crate::content_directory_browse::response::{
    BrowseFlag, Response, ResponseModel, ResponseResult, ResponseResultModel,
};
use vstd::prelude::*;
use vstd::utf8::*;

verus! {

/// A directory is shown as a container: the object of that name in the folder, in the folder, under its
/// name.
pub proof fn directories_are_shown_as_containers(
    root_name: Seq<char>,
    path: Seq<char>,
    name: String,
)
    ensures
        ({
            let shown = crate::content_directory_browse::listing::entry_child(
                root_name,
                path,
                DirectoryEntry { name, kind: EntryKind::Directory },
            );
            &&& shown matches Some(ChildModel::Container { id, parent_id, title })
            &&& id == (ObjectIDModel::Folder {
                root_name,
                path: if path.len() == 0 {
                    name@
                } else {
                    path + seq!['/'] + name@
                },
            })
            &&& parent_id == (ObjectIDModel::Folder { root_name, path })
            &&& title == name@
        }),
{
}

/// A file with readable tags is shown as an item: the object of that name in the folder, in the folder, with
/// what its tags say, the base64 of its path to fetch it by, the name of the folder to fetch it from, and
/// the media type that goes by its name. Tags that it lacks are empty.
pub proof fn tagged_files_are_shown_as_items(
    root_name: Seq<char>,
    path: Seq<char>,
    name: String,
    tags: Tags,
)
    ensures
        ({
            let shown = crate::content_directory_browse::listing::entry_child(
                root_name,
                path,
                DirectoryEntry { name, kind: EntryKind::File { tags: Some(tags) } },
            );
            let below = if path.len() == 0 {
                name@
            } else {
                path + seq!['/'] + name@
            };
            &&& shown matches Some(
                ChildModel::Item {
                    id,
                    parent_id,
                    root_name: shown_name,
                    base64_path,
                    artist,
                    album,
                    title,
                    genre,
                    year,
                    track_number,
                    mime_type,
                },
            )
            &&& id == (ObjectIDModel::Folder { root_name, path: below })
            &&& parent_id == (ObjectIDModel::Folder { root_name, path })
            &&& shown_name == root_name
            &&& base64_path == crate::codec::base64_encoded(encode_utf8(below))
            &&& mime_type == crate::mime_type::guessed_mime_type(name@)
            &&& tags.artist matches Some(text) ==> artist == text@
            &&& tags.artist is None ==> artist.len() == 0
            &&& tags.album_title matches Some(text) ==> album == text@
            &&& tags.album_title is None ==> album.len() == 0
            &&& tags.title matches Some(text) ==> title == text@
            &&& tags.title is None ==> title.len() == 0
            &&& tags.genre matches Some(text) ==> genre == text@
            &&& tags.genre is None ==> genre.len() == 0
            &&& tags.year matches Some(n) ==> year == n
            &&& tags.year is None ==> year == 0
            &&& tags.track_number matches Some(n) ==> track_number == n
            &&& tags.track_number is None ==> track_number == 0
        }),
{
}

/// The same of a file whose path in base64 and media type are given.
pub proof fn items_show_their_tags(
    root_name: Seq<char>,
    path: Seq<char>,
    name: Seq<char>,
    tags: Tags,
    encoded: Seq<char>,
    media_type: Seq<char>,
)
    ensures
        ({
            let shown = crate::content_directory_browse::listing::item_model(
                root_name,
                path,
                name,
                tags,
                encoded,
                media_type,
            );
            &&& shown matches ChildModel::Item {
                id,
                parent_id,
                root_name: shown_name,
                base64_path,
                artist,
                album,
                title,
                genre,
                year,
                track_number,
                mime_type,
            }
            &&& id == (ObjectIDModel::Folder {
                root_name,
                path: if path.len() == 0 {
                    name
                } else {
                    path + seq!['/'] + name
                },
            })
            &&& parent_id == (ObjectIDModel::Folder { root_name, path })
            &&& shown_name == root_name
            &&& base64_path == encoded
            &&& mime_type == media_type
            &&& tags.artist matches Some(text) ==> artist == text@
            &&& tags.artist is None ==> artist.len() == 0
            &&& tags.album_title matches Some(text) ==> album == text@
            &&& tags.album_title is None ==> album.len() == 0
            &&& tags.title matches Some(text) ==> title == text@
            &&& tags.title is None ==> title.len() == 0
            &&& tags.genre matches Some(text) ==> genre == text@
            &&& tags.genre is None ==> genre.len() == 0
            &&& tags.year matches Some(n) ==> year == n
            &&& tags.year is None ==> year == 0
            &&& tags.track_number matches Some(n) ==> track_number == n
            &&& tags.track_number is None ==> track_number == 0
        }),
{
}

/// A file without readable tags, and what is neither a file nor a directory, is not shown.
pub proof fn other_entries_are_not_shown(root_name: Seq<char>, path: Seq<char>, name: String)
    ensures
        crate::content_directory_browse::listing::entry_child(
            root_name,
            path,
            DirectoryEntry { name, kind: EntryKind::File { tags: None } },
        ) is None,
        crate::content_directory_browse::listing::entry_child(
            root_name,
            path,
            DirectoryEntry { name, kind: EntryKind::Other },
        ) is None,
{
}

/// The path of an entry is its name after that of the folder and a separator, or its name alone at the top.
pub proof fn entries_lie_below_their_folder(path: Seq<char>, name: Seq<char>)
    ensures
        crate::content_directory_browse::listing::path_below(Seq::empty(), name) == name,
        path.len() > 0 ==> crate::content_directory_browse::listing::path_below(path, name) == path
            + seq!['/'] + name,
{
}

/// A folder is read entry by entry: each that is shown adds its child at the end, each that is not adds
/// nothing, and all are read where each is.
pub proof fn folders_are_read_entry_by_entry(
    root_name: Seq<char>,
    path: Seq<char>,
    listing: Seq<Result<DirectoryEntry, std::io::Error>>,
    step: Result<DirectoryEntry, std::io::Error>,
)
    ensures
        crate::content_directory_browse::listing::listed_children(root_name, path, Seq::empty())
            == Seq::<ChildModel>::empty(),
        crate::content_directory_browse::listing::listed_children(
            root_name,
            path,
            listing.push(step),
        ) == crate::content_directory_browse::listing::listed_children(root_name, path, listing)
            + match step {
            Ok(entry) => match crate::content_directory_browse::listing::entry_child(
                root_name,
                path,
                entry,
            ) {
                Some(child) => seq![child],
                None => Seq::<ChildModel>::empty(),
            },
            Err(_) => Seq::<ChildModel>::empty(),
        },
        crate::content_directory_browse::listing::all_read(Seq::empty()),
        crate::content_directory_browse::listing::all_read(listing.push(step)) <==> step is Ok
            && crate::content_directory_browse::listing::all_read(listing),
{
    let pick = |step: Result<DirectoryEntry, std::io::Error>|
        crate::content_directory_browse::listing::step_child(root_name, path, step);
    let all = listing.push(step);
    let none = Seq::<Result<DirectoryEntry, std::io::Error>>::empty();
    assert(none.filter_map(pick) =~= Seq::empty());
    all.lemma_filter_map_take_succ(pick, listing.len() as int);
    assert(all.take(listing.len() as int) =~= listing);
    assert(all.take(listing.len() as int + 1) =~= all);
    assert(crate::content_directory_browse::listing::listed_children(root_name, path, all)
        =~= crate::content_directory_browse::listing::listed_children(root_name, path, listing)
        + match step {
        Ok(entry) => match crate::content_directory_browse::listing::entry_child(
            root_name,
            path,
            entry,
        ) {
            Some(child) => seq![child],
            None => Seq::<ChildModel>::empty(),
        },
        Err(_) => Seq::<ChildModel>::empty(),
    });
    if crate::content_directory_browse::listing::all_read(all) {
        assert(all[listing.len() as int] == step);
        assert forall|i: int| 0 <= i < listing.len() implies (#[trigger] listing[i]) is Ok by {
            assert(all[i] == listing[i]);
        }
    }
}

/// A file is fetched by the base64 of the path of the object that it is.
pub proof fn fetched_paths_are_those_of_the_object(child: ChildModel)
    requires
        crate::content_directory_browse::listing::path_decodes(child),
    ensures
        child matches ChildModel::Item { id: ObjectIDModel::Folder { path, .. }, base64_path, .. }
            ==> crate::codec::base64_decoded(base64_path) == Ok::<Seq<u8>, Seq<char>>(
            encode_utf8(path),
        ),
{
}

/// Children are shown by title: the bytes of the titles never go down, and no child is lost or added.
pub proof fn titles_never_go_down(input: Seq<ChildModel>, output: Seq<ChildModel>, i: int, j: int)
    requires
        crate::content_directory_browse::sort::sorted_by_title(input, output),
        0 <= i < j < output.len(),
    ensures
        !crate::order::before(encode_utf8(output[j].title()), encode_utf8(output[i].title())),
        output.to_multiset() == input.to_multiset(),
{
    crate::content_directory_browse::sort::sorting_keeps_children(input, output);
    crate::content_directory_browse::sort::lemma_sorted(input, output, i, j);
}

/// One child more goes after all whose titles are not greater than its own, and before all others: where
/// titles are the same, the child that was found later is shown later.
pub proof fn one_more_child_goes_to_its_place(
    input: Seq<ChildModel>,
    child: ChildModel,
    shown: Seq<ChildModel>,
    shown_with: Seq<ChildModel>,
    place: int,
)
    requires
        crate::content_directory_browse::sort::sorted_by_title(input, shown),
        crate::content_directory_browse::sort::sorted_by_title(input.push(child), shown_with),
        0 <= place <= shown.len(),
        forall|i: int|
            0 <= i < place ==> !crate::order::before(
                encode_utf8(child.title()),
                encode_utf8((#[trigger] shown[i]).title()),
            ),
        forall|i: int|
            place <= i < shown.len() ==> crate::order::before(
                encode_utf8(child.title()),
                encode_utf8((#[trigger] shown[i]).title()),
            ),
    ensures
        shown_with == shown.insert(place, child),
{
    crate::content_directory_browse::sort::lemma_one_more(input, child, shown, place);
    crate::content_directory_browse::sort::sorting_is_unique(
        input.push(child),
        shown_with,
        shown.insert(place, child),
    );
}

/// A page holds the elements from its start on, one for one, as many as are asked for or as there are.
pub proof fn pages_are_counted_from_their_start<T>(s: Seq<T>, start: nat, count: nat)
    ensures
        ({
            let page = crate::content_directory_browse::response::page(s, start, count);
            &&& start + count <= s.len() ==> page.len() == count
            &&& start <= s.len() < start + count ==> page.len() == s.len() - start
            &&& s.len() < start ==> page.len() == 0
            &&& forall|i: int| 0 <= i < page.len() ==> page[i] == s[start + i]
        }),
{
}

/// A reply shows the children from the start that is asked for on, one for one, as many as are asked for or
/// as there are; it counts those, and all that there are. What it shows of the object itself is the object,
/// what it lies in and what it is called.
pub proof fn replies_show_what_is_asked_for(
    object: ObjectIDModel,
    start: nat,
    count: nat,
    hostname: Seq<char>,
    port: u16,
    sorted: Seq<ChildModel>,
)
    ensures
        ({
            let own = crate::content_directory_browse::response::reply(
                object,
                BrowseFlag::BrowseMetadata,
                start,
                count,
                hostname,
                port,
                sorted,
            );
            let held = crate::content_directory_browse::response::reply(
                object,
                BrowseFlag::BrowseDirectChildren,
                start,
                count,
                hostname,
                port,
                sorted,
            );
            let shown: nat = if sorted.len() <= start {
                0
            } else if sorted.len() <= start + count {
                (sorted.len() - start) as nat
            } else {
                count
            };
            &&& held.total_matches == sorted.len()
            &&& held.number_returned == shown
            &&& held.result matches ResponseResultModel::DirectChildren {
                hostname: shown_hostname,
                port: shown_port,
                children,
            }
            &&& shown_hostname == hostname
            &&& shown_port == port
            &&& children.len() == shown
            &&& forall|i: int| 0 <= i < shown ==> children[i] == sorted[start + i]
            &&& own.total_matches == sorted.len()
            &&& own.number_returned == shown
            &&& own.result matches ResponseResultModel::Metadata {
                id,
                parent_id,
                title,
                child_count,
            }
            &&& id == object
            &&& parent_id == object.parent()
            &&& title == object.title()
            &&& child_count == shown
        }),
{
}

/// The children that a reply shows.
pub open spec fn children_in(reply: ResponseModel) -> Seq<ChildModel> {
    match reply.result {
        ResponseResultModel::DirectChildren { children, .. } => children,
        ResponseResultModel::Metadata { .. } => Seq::empty(),
    }
}

/// Two replies whose pages follow each other show together what the reply for both pages shows, and a reply
/// from the start for all that there is shows all.
pub proof fn replies_follow(
    object: ObjectIDModel,
    start: nat,
    first: nat,
    second: nat,
    hostname: Seq<char>,
    port: u16,
    sorted: Seq<ChildModel>,
)
    ensures
        ({
            let ask = |start: nat, count: nat|
                children_in(
                    crate::content_directory_browse::response::reply(
                        object,
                        BrowseFlag::BrowseDirectChildren,
                        start,
                        count,
                        hostname,
                        port,
                        sorted,
                    ),
                );
            &&& ask(start, first) + ask(start + first, second) == ask(start, first + second)
            &&& ask(0, sorted.len() + second) == sorted
        }),
{
    crate::content_directory_browse::laws::pages_follow(sorted, start, first, second);
    crate::content_directory_browse::laws::long_page_shows_all(sorted, sorted.len() + second);
}

/// The root holds the container of the shared folders, which holds a container for each of them under its
/// name, at its top; a folder holds what reading its directory gave.
pub proof fn objects_hold_their_children(
    names: Seq<Seq<char>>,
    listing: Seq<Result<DirectoryEntry, std::io::Error>>,
    root_name: Seq<char>,
    path: Seq<char>,
)
    ensures
        crate::content_directory_browse::browse::found_children(
            ObjectIDModel::Root,
            names,
            listing,
        ) == seq![
            ChildModel::Container {
                id: ObjectIDModel::FolderRoot,
                parent_id: ObjectIDModel::Root,
                title: "Folder"@,
            },
        ],
        ({
            let shared = crate::content_directory_browse::browse::found_children(
                ObjectIDModel::FolderRoot,
                names,
                listing,
            );
            &&& shared.len() == names.len()
            &&& forall|i: int|
                0 <= i < names.len() ==> #[trigger] shared[i] == (ChildModel::Container {
                    id: ObjectIDModel::Folder { root_name: names[i], path: Seq::empty() },
                    parent_id: ObjectIDModel::FolderRoot,
                    title: names[i],
                })
        }),
        crate::content_directory_browse::browse::found_children(
            ObjectIDModel::Folder { root_name, path },
            names,
            listing,
        ) == crate::content_directory_browse::listing::listed_children(root_name, path, listing),
{
}

/// Browsing fails where no folder is shared under the name, and then as not found; where the directory
/// cannot be read, as a whole or at one of its entries; and nowhere else.
pub proof fn browsing_fails_for_a_reason(
    folders: Map<Seq<char>, Seq<char>>,
    listing: Result<Vec<Result<DirectoryEntry, std::io::Error>>, std::io::Error>,
    root_name: Seq<char>,
    path: Seq<char>,
)
    ensures
        crate::content_directory_browse::browse::browse_error(ObjectIDModel::Root, folders, listing) is None,
        crate::content_directory_browse::browse::browse_error(
            ObjectIDModel::FolderRoot,
            folders,
            listing,
        ) is None,
        ({
            let error = crate::content_directory_browse::browse::browse_error(
                ObjectIDModel::Folder { root_name, path },
                folders,
                listing,
            );
            let read = listing matches Ok(steps) && forall|i: int|
                0 <= i < steps@.len() ==> (#[trigger] steps@[i]) is Ok;
            &&& error == Some(Error::NotFound) <==> !folders.dom().contains(root_name)
            &&& error == Some(Error::IO) <==> folders.dom().contains(root_name) && !read
            &&& error is None <==> folders.dom().contains(root_name) && read
        }),
{
}

/// Nothing of a child is lost or moved where it is taken as a model.
pub proof fn children_are_seen_whole(child: Child, children: Seq<Child>)
    ensures
        match child {
            Child::Container { id, parent_id, title } => {
                &&& child@ == (ChildModel::Container {
                    id: id@,
                    parent_id: parent_id@,
                    title: title@,
                })
                &&& child@.title() == title@
                &&& child@.id() == id@
                &&& child@.parent_id() == parent_id@
            },
            Child::Item {
                id,
                parent_id,
                root_name,
                base64_path,
                artist,
                album,
                title,
                genre,
                year,
                track_number,
                mime_type,
            } => {
                &&& child@ == (ChildModel::Item {
                    id: id@,
                    parent_id: parent_id@,
                    root_name: root_name@,
                    base64_path: base64_path@,
                    artist: artist@,
                    album: album@,
                    title: title@,
                    genre: genre@,
                    year,
                    track_number,
                    mime_type: mime_type@,
                })
                &&& child@.title() == title@
                &&& child@.id() == id@
                &&& child@.parent_id() == parent_id@
            },
        },
        crate::content_directory_browse::child::models(children).len() == children.len(),
        forall|i: int|
            0 <= i < children.len() ==> #[trigger] crate::content_directory_browse::child::models(
                children,
            )[i] == children[i]@,
{
}

/// Nothing of a reply is lost or moved where it is taken as a model.
pub proof fn replies_are_seen_whole(response: Response)
    ensures
        response@.number_returned == response.number_returned,
        response@.total_matches == response.total_matches,
        match response.result {
            ResponseResult::DirectChildren { hostname, port, children } => {
                &&& response@.result matches ResponseResultModel::DirectChildren {
                    hostname: seen_hostname,
                    port: seen_port,
                    children: seen,
                }
                &&& seen_hostname == hostname@
                &&& seen_port == port
                &&& seen.len() == children@.len()
                &&& forall|i: int| 0 <= i < seen.len() ==> seen[i] == children@[i]@
            },
            ResponseResult::Metadata { id, parent_id, title, child_count } => {
                &&& response@.result == (ResponseResultModel::Metadata {
                    id: id@,
                    parent_id: parent_id@,
                    title: title@,
                    child_count: child_count as nat,
                })
            },
        },
{
}

} // verus!
