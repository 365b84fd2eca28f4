//! Browsing an object.
use crate::content_directory_browse::child::{Child, ChildModel};
use crate::content_directory_browse::error::Error;
use crate::content_directory_browse::listing::{list_children, DirectoryEntry};
use crate::content_directory_browse::object_id::{ObjectID, ObjectIDModel};
use crate::content_directory_browse::response::{respond, BrowseFlag, Response};
use crate::folder_roots::FolderRoots;
use crate::path::join;
use vstd::prelude::*;

verus! {

/// What a client asks of the content directory.
pub enum ContentDirectoryAction {
    Browse {
        object_id: ObjectID,
        browse_flag: BrowseFlag,
        filter: String,
        starting_index: usize,
        requested_count: usize,
    },
}

/// What the root of the content directory holds: the container of the shared folders.
pub open spec fn root_children() -> Seq<ChildModel> {
    seq![
        ChildModel::Container {
            id: ObjectIDModel::FolderRoot,
            parent_id: ObjectIDModel::Root,
            title: "Folder"@,
        },
    ]
}

/// The shared folders with the names `names`, as children of their container.
pub open spec fn shared_folders(names: Seq<Seq<char>>) -> Seq<ChildModel> {
    Seq::new(
        names.len(),
        |i: int|
            ChildModel::Container {
                id: ObjectIDModel::Folder { root_name: names[i], path: Seq::empty() },
                parent_id: ObjectIDModel::FolderRoot,
                title: names[i],
            },
    )
}

/// What `object` holds, where folders are shared under `names` and `listing` is what reading the
/// directory of the object gave.
pub open spec fn found_children(
    object: ObjectIDModel,
    names: Seq<Seq<char>>,
    listing: Seq<Result<DirectoryEntry, std::io::Error>>,
) -> Seq<ChildModel> {
    match object {
        ObjectIDModel::Root => root_children(),
        ObjectIDModel::FolderRoot => shared_folders(names),
        ObjectIDModel::Folder { root_name, path } =>
            crate::content_directory_browse::listing::listed_children(root_name, path, listing),
    }
}

/// Why `object` cannot be browsed: no folder is shared under its name, or reading the directory failed,
/// as a whole or at one entry. The root and the container of the shared folders always can be.
pub open spec fn browse_error(
    object: ObjectIDModel,
    folders: Map<Seq<char>, Seq<char>>,
    listing: Result<Vec<Result<DirectoryEntry, std::io::Error>>, std::io::Error>,
) -> Option<Error> {
    match object {
        ObjectIDModel::Root | ObjectIDModel::FolderRoot => None,
        ObjectIDModel::Folder { root_name, path } => if !folders.dom().contains(root_name) {
            Some(Error::NotFound)
        } else {
            match listing {
                Err(_) => Some(Error::IO),
                Ok(steps) => if crate::content_directory_browse::listing::all_read(steps@) {
                    None
                } else {
                    Some(Error::IO)
                },
            }
        },
    }
}

/// The directory that has to be read to browse `object_id`, if one has to be.
pub fn directory_to_read(object_id: &ObjectID, folder_roots: &FolderRoots) -> (out: Result<
    Option<String>,
    Error,
>)
    ensures
        match object_id@ {
            ObjectIDModel::Root | ObjectIDModel::FolderRoot => out == Ok::<Option<String>, Error>(
                None,
            ),
            ObjectIDModel::Folder { root_name, path } => if folder_roots@.dom().contains(
                root_name,
            ) {
                out matches Ok(Some(directory)) && directory@ == crate::path::joined(
                    folder_roots@[root_name],
                    path,
                )
            } else {
                out == Err::<Option<String>, Error>(Error::NotFound)
            },
        },
{
    match object_id {
        ObjectID::Root | ObjectID::FolderRoot => Ok(None),
        ObjectID::Folder { root_name, path } => match folder_roots.get(root_name.as_str()) {
            None => Err(Error::NotFound),
            Some(root_path) => Ok(Some(join(root_path, path.as_str()))),
        },
    }
}

/// The shared folders as children of their container.
fn list_shared_folders(folder_roots: &FolderRoots) -> (children: Vec<Child>)
    ensures
        crate::content_directory_browse::child::models(children@) == shared_folders(
            folder_roots.names(),
        ),
        folder_roots.names().no_duplicates(),
        folder_roots.names().to_set() == folder_roots@.dom(),
{
    let names: Vec<String> = folder_roots.list_names();
    let mut children: Vec<Child> = Vec::new();
    let mut i: usize = 0;
    while i < names.len()
        invariant
            i <= names@.len() == folder_roots.names().len(),
            forall|j: int| 0 <= j < names@.len() ==> (#[trigger] names@[j])@ == folder_roots.names()[j],
            children@.len() == i,
            forall|j: int|
                0 <= j < i ==> (#[trigger] children@[j])@ == shared_folders(folder_roots.names())[j],
        decreases names@.len() - i,
    {
        let child: Child = Child::Container {
            id: ObjectID::Folder { root_name: names[i].clone(), path: String::new() },
            parent_id: ObjectID::FolderRoot,
            title: names[i].clone(),
        };
        children.push(child);
        i = i + 1;
    }
    assert(crate::content_directory_browse::child::models(children@) =~= shared_folders(
        folder_roots.names(),
    ));
    children
}

/// Answers `action`. `listing` is what reading the directory that [`directory_to_read`] names gave: its
/// entries, each with the error that stood in its place, or the error of opening it.
pub fn browse(
    action: ContentDirectoryAction,
    folder_roots: &FolderRoots,
    listing: Result<Vec<Result<DirectoryEntry, std::io::Error>>, std::io::Error>,
    hostname: String,
    port: u16,
) -> (out: Result<Response, Error>)
    ensures
        action matches ContentDirectoryAction::Browse { object_id: ObjectID::FolderRoot, .. } ==> {
            &&& folder_roots.names().no_duplicates()
            &&& folder_roots.names().to_set() == folder_roots@.dom()
        },
        action matches ContentDirectoryAction::Browse {
            object_id,
            browse_flag,
            starting_index,
            requested_count,
            ..
        } && match out {
            Err(e) => browse_error(object_id@, folder_roots@, listing) == Some(e),
            Ok(response) => {
                &&& browse_error(object_id@, folder_roots@, listing) is None
                &&& exists|sorted: Seq<ChildModel>|
                    {
                        &&& crate::content_directory_browse::sort::sorted_by_title(
                            found_children(
                                object_id@,
                                folder_roots.names(),
                                match listing {
                                    Ok(steps) => steps@,
                                    Err(_) => Seq::empty(),
                                },
                            ),
                            sorted,
                        )
                        &&& response@ == #[trigger] crate::content_directory_browse::response::reply(
                            object_id@,
                            browse_flag,
                            starting_index as nat,
                            requested_count as nat,
                            hostname@,
                            port,
                            sorted,
                        )
                        &&& forall|i: int|
                            0 <= i < sorted.len()
                                ==> crate::content_directory_browse::listing::path_decodes(
                                #[trigger] sorted[i],
                            )
                    }
            },
        },
{
    match action {
        ContentDirectoryAction::Browse {
            object_id,
            browse_flag,
            filter: _,
            starting_index,
            requested_count,
        } => {
            let children: Vec<Child> = match &object_id {
                ObjectID::Root => {
                    let mut children: Vec<Child> = Vec::new();
                    children.push(
                        Child::Container {
                            id: ObjectID::FolderRoot,
                            parent_id: ObjectID::Root,
                            title: "Folder".to_owned(),
                        },
                    );
                    assert(crate::content_directory_browse::child::models(children@)
                        =~= root_children());
                    children
                },
                ObjectID::FolderRoot => list_shared_folders(folder_roots),
                ObjectID::Folder { root_name, path } => {
                    if folder_roots.get(root_name.as_str()).is_none() {
                        return Err(Error::NotFound);
                    }
                    match listing {
                        Err(e) => return Err(Error::from(e)),
                        Ok(steps) => match list_children(root_name.as_str(), path.as_str(), steps) {
                            Err(e) => return Err(e),
                            Ok(children) => children,
                        },
                    }
                },
            };
            let ghost found = crate::content_directory_browse::child::models(children@);
            assert forall|i: int|
                0 <= i
                    < found.len() implies crate::content_directory_browse::listing::path_decodes(
                #[trigger] found[i],
            ) by {
                assert(found[i] == children@[i]@);
            }
            let out: Response = respond(
                object_id,
                browse_flag,
                starting_index,
                requested_count,
                hostname,
                port,
                children,
            );
            proof {
                let sorted = choose|sorted: Seq<ChildModel>|
                    crate::content_directory_browse::sort::sorted_by_title(found, sorted) && out@
                        == #[trigger] crate::content_directory_browse::response::reply(
                        object_id@,
                        browse_flag,
                        starting_index as nat,
                        requested_count as nat,
                        hostname@,
                        port,
                        sorted,
                    );
                crate::content_directory_browse::sort::sorting_keeps_children(found, sorted);
                assert forall|i: int|
                    0 <= i
                        < sorted.len() implies crate::content_directory_browse::listing::path_decodes(
                    #[trigger] sorted[i],
                ) by {
                    assert(sorted.contains(sorted[i]));
                    assert(found.contains(sorted[i]));
                }
            }
            Ok(out)
        },
    }
}

} // verus!
