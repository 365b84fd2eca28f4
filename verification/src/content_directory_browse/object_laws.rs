//! What holds of the identifiers of objects: where they lie, what they are called, how they are written and
//! which texts are read.
use crate::content_directory_browse::object_id::{
    ObjectID, ObjectIDError, ObjectIDErrorModel, ObjectIDModel,
};
use vstd::prelude::*;
use vstd::utf8::*;

verus! {

/// The last separator of a path parts what lies in a folder from the folder.
proof fn lemma_last_separator_parts(path: Seq<char>, name: Seq<char>)
    requires
        !name.contains('/'),
    ensures
        (path + seq!['/'] + name).index_of_last('/') == Some(path.len() as int),
        (path + seq!['/'] + name).take(path.len() as int) == path,
        (path + seq!['/'] + name).skip(path.len() as int + 1) == name,
        name.index_of_last('/') is None,
{
    let all = path + seq!['/'] + name;
    all.index_of_last_ensures('/');
    name.index_of_last_ensures('/');
    assert(all[path.len() as int] == '/');
    assert(all.contains('/'));
    assert forall|j: int| path.len() < j < all.len() implies all[j] != '/' by {
        assert(all[j] == name[j - path.len() - 1]);
        assert(name.contains(name[j - path.len() - 1]));
    }
    assert(all.take(path.len() as int) =~= path);
    assert(all.skip(path.len() as int + 1) =~= name);
}

/// An object at a path lies in the folder at the path before the last separator, and is called what follows
/// it. One at a path without a separator lies among the shared folders, and is called like its own. Above
/// them is the root, which lies in itself.
pub proof fn objects_lie_by_their_path(root_name: Seq<char>, path: Seq<char>, name: Seq<char>)
    requires
        !name.contains('/'),
    ensures
        (ObjectIDModel::Folder { root_name, path: path + seq!['/'] + name }).parent() == (
        ObjectIDModel::Folder { root_name, path }),
        (ObjectIDModel::Folder { root_name, path: path + seq!['/'] + name }).title() == name,
        (ObjectIDModel::Folder { root_name, path: name }).parent() == ObjectIDModel::FolderRoot,
        (ObjectIDModel::Folder { root_name, path: name }).title() == root_name,
        ObjectIDModel::FolderRoot.parent() == ObjectIDModel::Root,
        ObjectIDModel::FolderRoot.title() == "Folder"@,
        ObjectIDModel::Root.parent() == ObjectIDModel::Root,
        ObjectIDModel::Root.title() == "Root"@,
{
    lemma_last_separator_parts(path, name);
}

/// The root is written as a zero, the container of the shared folders by its name, and an object below them
/// by the name of its folder and the base64 of its path.
pub proof fn objects_are_written(root_name: Seq<char>, path: Seq<char>)
    ensures
        ObjectIDModel::Root.text() == seq!['0'],
        ObjectIDModel::FolderRoot.text() == "folder"@,
        (ObjectIDModel::Folder { root_name, path }).text() == "folder"@ + seq!['_'] + root_name + seq![
            '_',
        ] + crate::codec::base64_encoded(encode_utf8(path)),
{
    reveal_strlit("0");
    reveal_strlit("folder");
    reveal_strlit("folder_");
    reveal_strlit("_");
    assert("0"@ =~= seq!['0']);
    assert((ObjectIDModel::Folder { root_name, path }).text() =~= "folder"@ + seq!['_'] + root_name
        + seq!['_'] + crate::codec::base64_encoded(encode_utf8(path)));
}

/// A text that starts like that of a folder, with a name that holds no `_`, is read by what follows the
/// name: text that is no base64, base64 of no text, an absolute path and one through a parent are refused,
/// each for that reason and in that order; anything else is the object at that path below that name.
pub proof fn folders_are_read_by_name_and_path(name: Seq<char>, encoded: Seq<char>, path: Seq<char>)
    requires
        !name.contains('_'),
    ensures
        ({
            let read = crate::content_directory_browse::object_id::object_of(
                "folder"@ + seq!['_'] + name + seq!['_'] + encoded,
            );
            match crate::codec::base64_decoded(encoded) {
                Err(said) => read == Err::<ObjectIDModel, ObjectIDErrorModel>(
                    ObjectIDErrorModel::NotBase64(said),
                ),
                Ok(bytes) => {
                    &&& !valid_utf8(bytes) ==> read == Err::<ObjectIDModel, ObjectIDErrorModel>(
                        ObjectIDErrorModel::NotUtf8(crate::codec::utf8_error(bytes)),
                    )
                    &&& bytes == encode_utf8(path) && seq!['/'].is_prefix_of(path) ==> read == Err::<
                        ObjectIDModel,
                        ObjectIDErrorModel,
                    >(ObjectIDErrorModel::AbsolutePath)
                    &&& bytes == encode_utf8(path) && !seq!['/'].is_prefix_of(path)
                        && crate::path::has_parent_segment(path) ==> read == Err::<
                        ObjectIDModel,
                        ObjectIDErrorModel,
                    >(ObjectIDErrorModel::ParentSegment)
                    &&& bytes == encode_utf8(path) && !seq!['/'].is_prefix_of(path)
                        && !crate::path::has_parent_segment(path) ==> read == Ok::<
                        ObjectIDModel,
                        ObjectIDErrorModel,
                    >(ObjectIDModel::Folder { root_name: name, path })
                },
            }
        }),
{
    reveal_strlit("0");
    reveal_strlit("folder");
    reveal_strlit("folder_");
    let text = "folder"@ + seq!['_'] + name + seq!['_'] + encoded;
    let rest = text.skip("folder_"@.len() as int);
    assert("folder_"@ =~= text.subrange(0, "folder_"@.len() as int));
    assert(rest =~= name + seq!['_'] + encoded);
    rest.index_of_first_ensures('_');
    assert(rest[name.len() as int] == '_');
    assert(rest.contains('_'));
    assert forall|j: int| 0 <= j < name.len() implies rest[j] != '_' by {
        assert(rest[j] == name[j]);
        assert(name.contains(name[j]));
    }
    assert(rest.index_of_first('_') == Some(name.len() as int));
    assert(rest.take(name.len() as int) =~= name);
    assert(rest.skip(name.len() as int + 1) =~= encoded);
    crate::path::absolute_paths_start_with_a_separator(path);
    encode_utf8_valid_utf8(path);
    encode_utf8_decode_utf8(path);
    assert(text.len() > 6);
}

/// A text of another form is refused as such, and carried along; the two that stand for the root and for the
/// container of the shared folders are read as these.
pub proof fn other_texts_are_refused(text: Seq<char>)
    requires
        "folder_"@.is_prefix_of(text) ==> !text.skip(7).contains('_'),
    ensures
        ({
            let read = crate::content_directory_browse::object_id::object_of(text);
            &&& text == seq!['0'] ==> read == Ok::<ObjectIDModel, ObjectIDErrorModel>(
                ObjectIDModel::Root,
            )
            &&& text == "folder"@ ==> read == Ok::<ObjectIDModel, ObjectIDErrorModel>(
                ObjectIDModel::FolderRoot,
            )
            &&& text != seq!['0'] && text != "folder"@ ==> read == Err::<
                ObjectIDModel,
                ObjectIDErrorModel,
            >(ObjectIDErrorModel::BadObjectID(text))
        }),
{
    reveal_strlit("0");
    reveal_strlit("folder");
    reveal_strlit("folder_");
    assert("0"@ =~= seq!['0']);
    assert("0"@[0] != "folder"@[0]);
    if "folder_"@.is_prefix_of(text) {
        text.skip(7).index_of_first_ensures('_');
    }
}

/// The objects that their text stands for: all but those below a name with a `_`, at an absolute path or at
/// a path through a parent.
pub proof fn readable_objects_are_plain(root_name: Seq<char>, path: Seq<char>)
    ensures
        ObjectIDModel::Root.readable(),
        ObjectIDModel::FolderRoot.readable(),
        (ObjectIDModel::Folder { root_name, path }).readable() <==> {
            &&& !root_name.contains('_')
            &&& !seq!['/'].is_prefix_of(path)
            &&& !crate::path::has_parent_segment(path)
        },
        !ObjectIDModel::Root.ambiguous_name(),
        !ObjectIDModel::FolderRoot.ambiguous_name(),
        (ObjectIDModel::Folder { root_name, path }).ambiguous_name() <==> root_name.contains('_'),
{
    crate::path::absolute_paths_start_with_a_separator(path);
}

/// A refusal says what is wrong.
pub proof fn refusals_are_explained(text: Seq<char>)
    ensures
        ObjectIDErrorModel::NotBase64(text).message() == "Not base64: "@ + text,
        ObjectIDErrorModel::NotUtf8(text).message() == "Not UTF-8: "@ + text,
        ObjectIDErrorModel::AbsolutePath.message() == "Path must be relative"@,
        ObjectIDErrorModel::ParentSegment.message() == "Paths may not have parent segments"@,
        ObjectIDErrorModel::BadObjectID(text).message() == "Bad ObjectID "@ + text,
{
}

/// Nothing of an identifier or of a refusal is lost or moved where it is taken as a model.
pub proof fn identifiers_are_seen_whole(root_name: String, path: String)
    ensures
        ObjectID::Root@ == ObjectIDModel::Root,
        ObjectID::FolderRoot@ == ObjectIDModel::FolderRoot,
        (ObjectID::Folder { root_name, path })@ == (ObjectIDModel::Folder {
            root_name: root_name@,
            path: path@,
        }),
        ObjectIDError::NotBase64(path)@ == ObjectIDErrorModel::NotBase64(path@),
        ObjectIDError::NotUtf8(path)@ == ObjectIDErrorModel::NotUtf8(path@),
        ObjectIDError::AbsolutePath@ == ObjectIDErrorModel::AbsolutePath,
        ObjectIDError::ParentSegment@ == ObjectIDErrorModel::ParentSegment,
        ObjectIDError::BadObjectID(path)@ == ObjectIDErrorModel::BadObjectID(path@),
{
}

/// A result that agrees with an expected one is that result.
pub proof fn agreeing_objects_are_the_same(
    out: Result<ObjectID, ObjectIDError>,
    expected: Result<ObjectIDModel, ObjectIDErrorModel>,
)
    requires
        crate::content_directory_browse::object_id::same_object(out, expected),
    ensures
        expected matches Ok(object) ==> out matches Ok(id) && id@ == object,
        expected matches Err(error) ==> out matches Err(refusal) && refusal@ == error,
{
}

/// What has been decoded is read as the text that it was decoded from is.
pub proof fn decoded_folders_are_read(
    root_name: Seq<char>,
    path: Seq<char>,
    bytes: Seq<u8>,
    message: Seq<char>,
)
    ensures
        crate::content_directory_browse::object_id::folder_at(root_name, Err(message)) == Err::<
            ObjectIDModel,
            ObjectIDErrorModel,
        >(ObjectIDErrorModel::NotBase64(message)),
        !valid_utf8(bytes) ==> crate::content_directory_browse::object_id::folder_at(
            root_name,
            Ok(bytes),
        ) == Err::<ObjectIDModel, ObjectIDErrorModel>(
            ObjectIDErrorModel::NotUtf8(crate::codec::utf8_error(bytes)),
        ),
        crate::content_directory_browse::object_id::folder_at(root_name, Ok(encode_utf8(path)))
            == if seq!['/'].is_prefix_of(path) {
            Err::<ObjectIDModel, ObjectIDErrorModel>(ObjectIDErrorModel::AbsolutePath)
        } else if crate::path::has_parent_segment(path) {
            Err(ObjectIDErrorModel::ParentSegment)
        } else {
            Ok(ObjectIDModel::Folder { root_name, path })
        },
{
    crate::path::absolute_paths_start_with_a_separator(path);
    encode_utf8_valid_utf8(path);
    encode_utf8_decode_utf8(path);
}

} // verus!
