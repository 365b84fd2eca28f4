//! What holds of the content directory as a whole.
use crate::content_directory_browse::child::ChildModel;
use crate::content_directory_browse::listing::DirectoryEntry;
use crate::content_directory_browse::object_id::{ObjectIDErrorModel, ObjectIDModel};
use crate::content_directory_browse::response::{BrowseFlag, ResponseResultModel};
use vstd::prelude::*;
use vstd::utf8::*;

verus! {

/// Two pages that follow each other are the page that covers both.
pub proof fn pages_follow<T>(s: Seq<T>, start: nat, first: nat, second: nat)
    ensures
        crate::content_directory_browse::response::page(s, start, first)
            + crate::content_directory_browse::response::page(s, start + first, second)
            == crate::content_directory_browse::response::page(s, start, first + second),
{
    assert(crate::content_directory_browse::response::page(s, start, first)
        + crate::content_directory_browse::response::page(s, start + first, second)
        =~= crate::content_directory_browse::response::page(s, start, first + second));
}

/// A page from the start that is long enough shows everything.
pub proof fn long_page_shows_all<T>(s: Seq<T>, count: nat)
    requires
        count >= s.len(),
    ensures
        crate::content_directory_browse::response::page(s, 0, count) == s,
{
    assert(crate::content_directory_browse::response::page(s, 0, count) =~= s);
}

/// A reply returns no more than was asked for and no more than there is; the total does not depend on
/// the page; and asking for the object itself counts what asking for its children shows.
pub proof fn replies_count(
    object: ObjectIDModel,
    start: nat,
    count: nat,
    hostname: Seq<char>,
    port: u16,
    sorted: Seq<ChildModel>,
)
    ensures
        ({
            let own = crate::content_directory_browse::response::reply(
                object,
                BrowseFlag::BrowseMetadata,
                start,
                count,
                hostname,
                port,
                sorted,
            );
            let held = crate::content_directory_browse::response::reply(
                object,
                BrowseFlag::BrowseDirectChildren,
                start,
                count,
                hostname,
                port,
                sorted,
            );
            &&& held.number_returned <= count
            &&& held.number_returned <= held.total_matches
            &&& held.total_matches == sorted.len()
            &&& own.number_returned == held.number_returned
            &&& own.total_matches == held.total_matches
            &&& held.result matches ResponseResultModel::DirectChildren { children, .. }
                && children.len() == held.number_returned
            &&& own.result matches ResponseResultModel::Metadata { child_count, .. } && child_count
                == held.number_returned
        }),
{
}

/// Where an object that was read out of a text is looked for lies below its shared folder: the path of
/// the folder, and then a path that goes through no parent.
pub proof fn read_objects_lie_in_their_folder(
    text: Seq<char>,
    root_name: Seq<char>,
    path: Seq<char>,
    base: Seq<char>,
)
    requires
        crate::content_directory_browse::object_id::object_of(text) == Ok::<
            ObjectIDModel,
            ObjectIDErrorModel,
        >(ObjectIDModel::Folder { root_name, path }),
    ensures
        crate::path::joined(base, path) == base + path || crate::path::joined(base, path) == base
            + seq!['/'] + path,
        base.is_prefix_of(crate::path::joined(base, path)),
        !crate::path::has_parent_segment(path),
{
    let place = crate::path::joined(base, path);
    assert(base =~= place.subrange(0, base.len() as int));
}

/// The last separator of the path of an entry stands before the name of the entry.
proof fn lemma_last_separator(path: Seq<char>, name: Seq<char>)
    requires
        path.len() > 0,
        !name.contains('/'),
    ensures
        crate::content_directory_browse::listing::path_below(path, name).index_of_last('/') == Some(
            path.len() as int,
        ),
{
    let below = crate::content_directory_browse::listing::path_below(path, name);
    below.index_of_last_ensures('/');
    assert(below[path.len() as int] == '/');
    assert(below.contains('/'));
    assert forall|j: int| path.len() < j < below.len() implies below[j] != '/' by {
        assert(below[j] == name[j - path.len() - 1]);
        assert(name.contains(name[j - path.len() - 1]));
    }
}

/// A child of a folder that is not itself a shared folder is shown in its own parent, its object is called
/// what the entry is called, and a directory is shown under that title.
pub proof fn children_know_their_parent(
    root_name: Seq<char>,
    path: Seq<char>,
    entry: DirectoryEntry,
    child: ChildModel,
)
    requires
        crate::content_directory_browse::listing::entry_child(root_name, path, entry) == Some(child),
        !entry.name@.contains('/'),
        path.len() > 0,
    ensures
        child.id().parent() == child.parent_id(),
        child.id().title() == entry.name@,
        child is Container ==> child.id().title() == child.title(),
{
    let below = crate::content_directory_browse::listing::path_below(path, entry.name@);
    lemma_last_separator(path, entry.name@);
    assert(below.take(path.len() as int) =~= path);
    assert(below.skip((path.len() + 1) as int) =~= entry.name@);
}

/// The children of a readable folder are readable: the text of each stands for it.
pub proof fn children_are_readable(
    root_name: Seq<char>,
    path: Seq<char>,
    entry: DirectoryEntry,
    child: ChildModel,
)
    requires
        crate::content_directory_browse::listing::entry_child(root_name, path, entry) == Some(child),
        (ObjectIDModel::Folder { root_name, path }).readable(),
        !entry.name@.contains('/'),
        entry.name@ != ".."@,
    ensures
        child.id().readable(),
{
    let name = entry.name@;
    let below = crate::content_directory_browse::listing::path_below(path, name);
    reveal_strlit("..");
    if name.len() > 0 {
        assert(name.contains(name[0]));
    }
    if crate::path::has_parent_segment(below) {
        let i = choose|i: int| crate::path::parent_segment_at(below, i);
        let at: int = if path.len() == 0 { 0 } else { path.len() as int + 1 };
        if i >= at {
            if i > at {
                assert(below[i - 1] == name[i - 1 - at]);
                assert(name.contains(name[i - 1 - at]));
            }
            if i + 2 < below.len() {
                assert(below[i + 2] == name[i + 2 - at]);
                assert(name.contains(name[i + 2 - at]));
            }
            assert(name[0] == below[at] && name[1] == below[at + 1]);
            assert(name =~= ".."@);
        } else {
            assert(below[i] == path[i]) by {
                if i == path.len() {
                    assert(below[i] == '/');
                }
            }
            assert(below[i + 1] == path[i + 1]) by {
                if i + 1 == path.len() {
                    assert(below[i + 1] == '/');
                }
            }
            assert(i + 2 < path.len() ==> below[i + 2] == path[i + 2]);
            assert(i > 0 ==> below[i - 1] == path[i - 1]);
            assert(crate::path::parent_segment_at(path, i));
        }
    }
}

/// What a readable object lies in is readable.
pub proof fn parents_are_readable(id: ObjectIDModel)
    requires
        id.readable(),
    ensures
        id.parent().readable(),
{
    if let ObjectIDModel::Folder { root_name, path } = id {
        path.index_of_last_ensures('/');
        if let Some(n) = path.index_of_last('/') {
            let above = path.take(n);
            if crate::path::has_parent_segment(above) {
                let i = choose|i: int| crate::path::parent_segment_at(above, i);
                assert(above[i] == path[i] && above[i + 1] == path[i + 1]);
                assert(i > 0 ==> above[i - 1] == path[i - 1]);
                assert(i + 2 < above.len() ==> above[i + 2] == path[i + 2]);
                assert(crate::path::parent_segment_at(path, i));
            }
        }
    }
}

/// The texts of two objects differ, whatever the names of their folders are.
pub proof fn texts_differ(a: ObjectIDModel, b: ObjectIDModel)
    requires
        a.encoded_well(),
        b.encoded_well(),
        a.text() == b.text(),
    ensures
        a == b,
{
    reveal_strlit("0");
    reveal_strlit("folder");
    reveal_strlit("folder_");
    reveal_strlit("_");
    assert("0"@[0] != "folder"@[0]);
    match (a, b) {
        (
            ObjectIDModel::Folder { root_name, path },
            ObjectIDModel::Folder { root_name: other_name, path: other_path },
        ) => {
            let text = a.text();
            let encoded = crate::codec::base64_encoded(encode_utf8(path));
            let other = crate::codec::base64_encoded(encode_utf8(other_path));
            lemma_encoded_part(text, root_name, encoded);
            lemma_encoded_part(text, other_name, other);
            assert(encoded =~= other);
            encode_utf8_decode_utf8(path);
            encode_utf8_decode_utf8(other_path);
            assert(root_name =~= text.subrange(7, 7 + root_name.len() as int));
            assert(other_name =~= text.subrange(7, 7 + root_name.len() as int));
        },
        (ObjectIDModel::Folder { root_name, .. }, _) => {
            assert(a.text().len() > 6);
            assert(a.text().len() != b.text().len());
        },
        (_, ObjectIDModel::Folder { root_name, .. }) => {
            assert(b.text().len() > 6);
            assert(a.text().len() != b.text().len());
        },
        _ => {},
    }
}

/// The encoded path in the text of a folder is what follows the last `_`.
proof fn lemma_encoded_part(text: Seq<char>, root_name: Seq<char>, encoded: Seq<char>)
    requires
        text == "folder_"@ + root_name + "_"@ + encoded,
        !encoded.contains('_'),
    ensures
        text.index_of_last('_') == Some((7 + root_name.len()) as int),
        encoded == text.skip((8 + root_name.len()) as int),
{
    reveal_strlit("folder_");
    reveal_strlit("_");
    let at = 7 + root_name.len() as int;
    text.index_of_last_ensures('_');
    assert(text[at] == '_');
    assert(text.contains('_'));
    assert forall|j: int| at < j < text.len() implies text[j] != '_' by {
        assert(text[j] == encoded[j - at - 1]);
        assert(encoded.contains(encoded[j - at - 1]));
    }
    assert(encoded =~= text.skip(at + 1));
}

/// The object that is reached from `id` by going to the parent `steps` times.
pub open spec fn ancestor(id: ObjectIDModel, steps: nat) -> ObjectIDModel
    decreases steps,
{
    if steps == 0 {
        id
    } else {
        ancestor(id.parent(), (steps - 1) as nat)
    }
}

/// How many separators a path holds.
pub open spec fn separators(path: Seq<char>) -> nat
    decreases path.len(),
{
    if path.len() == 0 {
        0
    } else {
        separators(path.drop_last()) + if path.last() == '/' {
            1nat
        } else {
            0nat
        }
    }
}

/// How far below the root an object lies.
pub open spec fn depth(id: ObjectIDModel) -> nat {
    match id {
        ObjectIDModel::Root => 0,
        ObjectIDModel::FolderRoot => 1,
        ObjectIDModel::Folder { path, .. } => separators(path) + 2,
    }
}

/// What follows the last separator adds none.
proof fn lemma_separators(path: Seq<char>, at: int)
    requires
        0 <= at < path.len(),
        path[at] == '/',
        forall|j: int| at < j < path.len() ==> path[j] != '/',
    ensures
        separators(path) == separators(path.take(at)) + 1,
    decreases path.len(),
{
    if at == path.len() - 1 {
        assert(path.drop_last() =~= path.take(at));
    } else {
        lemma_separators(path.drop_last(), at);
        assert(path.drop_last().take(at) =~= path.take(at));
    }
}

/// A path without a separator holds none.
proof fn lemma_no_separators(path: Seq<char>)
    requires
        !path.contains('/'),
    ensures
        separators(path) == 0,
    decreases path.len(),
{
    if path.len() > 0 {
        assert(path.contains(path.last()));
        assert forall|c: char| path.drop_last().contains(c) implies path.contains(c) by {
            let j = choose|j: int| 0 <= j < path.drop_last().len() && path.drop_last()[j] == c;
            assert(path[j] == c);
        }
        lemma_no_separators(path.drop_last());
    }
}

/// The parent of an object lies one step nearer to the root.
proof fn lemma_parent_depth(id: ObjectIDModel)
    requires
        id != ObjectIDModel::Root,
    ensures
        depth(id.parent()) + 1 == depth(id),
{
    if let ObjectIDModel::Folder { path, .. } = id {
        path.index_of_last_ensures('/');
        match path.index_of_last('/') {
            Some(at) => lemma_separators(path, at),
            None => lemma_no_separators(path),
        }
    }
}

/// Going from parent to parent ends at the root, after as many steps as the object lies below it and not
/// before: for a folder, two more than its path holds separators.
pub proof fn parents_lead_to_root(id: ObjectIDModel, steps: nat)
    ensures
        ancestor(id, steps) == ObjectIDModel::Root <==> steps >= depth(id),
    decreases steps,
{
    if steps > 0 {
        parents_lead_to_root(id.parent(), (steps - 1) as nat);
        if id != ObjectIDModel::Root {
            lemma_parent_depth(id);
        }
    }
}

/// The directory of a child that is a directory is the entry of that name in the directory of its
/// parent.
pub proof fn directories_nest(base: Seq<char>, path: Seq<char>, name: Seq<char>)
    requires
        path.len() > 0 ==> path.last() != '/',
        !crate::path::absolute(name),
    ensures
        crate::path::joined(
            base,
            crate::content_directory_browse::listing::path_below(path, name),
        ) == crate::path::joined(crate::path::joined(base, path), name),
{
    let below = crate::content_directory_browse::listing::path_below(path, name);
    assert(path.len() > 0 ==> below[0] == path[0]);
    let directory = crate::path::joined(base, path);
    assert(crate::path::joined(base, below) =~= crate::path::joined(directory, name));
}

/// The shared folders are shown in one order, whatever order they are listed in.
pub proof fn shared_folders_are_shown_alike(
    names: Seq<Seq<char>>,
    other_names: Seq<Seq<char>>,
    shown: Seq<ChildModel>,
    other_shown: Seq<ChildModel>,
)
    requires
        names.no_duplicates(),
        other_names.no_duplicates(),
        names.to_set() == other_names.to_set(),
        crate::content_directory_browse::sort::sorted_by_title(
            crate::content_directory_browse::browse::shared_folders(names),
            shown,
        ),
        crate::content_directory_browse::sort::sorted_by_title(
            crate::content_directory_browse::browse::shared_folders(other_names),
            other_shown,
        ),
    ensures
        shown == other_shown,
{
    let folders = crate::content_directory_browse::browse::shared_folders(names);
    let other_folders = crate::content_directory_browse::browse::shared_folders(other_names);
    lemma_distinct_titles(names);
    lemma_distinct_titles(other_names);
    assert forall|child: ChildModel| folders.contains(child) <==> other_folders.contains(child) by {
        if folders.contains(child) {
            lemma_same_folders(names, other_names, child);
        }
        if other_folders.contains(child) {
            lemma_same_folders(other_names, names, child);
        }
    }
    crate::content_directory_browse::sort::distinct_titles_sort_alike(
        folders,
        other_folders,
        shown,
        other_shown,
    );
}

proof fn lemma_distinct_titles(names: Seq<Seq<char>>)
    requires
        names.no_duplicates(),
    ensures
        crate::content_directory_browse::sort::distinct_titles(
            crate::content_directory_browse::browse::shared_folders(names),
        ),
{
    let folders = crate::content_directory_browse::browse::shared_folders(names);
    assert forall|i: int, j: int| 0 <= i < j < folders.len() implies (#[trigger] folders[i]).title()
        != (#[trigger] folders[j]).title() by {
        assert(folders[i].title() == names[i]);
        assert(folders[j].title() == names[j]);
    }
}

proof fn lemma_same_folders(names: Seq<Seq<char>>, other_names: Seq<Seq<char>>, child: ChildModel)
    requires
        names.to_set() == other_names.to_set(),
        crate::content_directory_browse::browse::shared_folders(names).contains(child),
    ensures
        crate::content_directory_browse::browse::shared_folders(other_names).contains(child),
{
    let folders = crate::content_directory_browse::browse::shared_folders(names);
    let other_folders = crate::content_directory_browse::browse::shared_folders(other_names);
    let i = choose|i: int| 0 <= i < folders.len() && folders[i] == child;
    assert(names.to_set().contains(names[i]));
    assert(other_names.contains(names[i]));
    let j = choose|j: int| 0 <= j < other_names.len() && other_names[j] == names[i];
    assert(other_folders[j] == child);
}

} // verus!
