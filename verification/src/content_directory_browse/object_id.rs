//! The identifiers of the objects in the content directory.
use crate::codec::{base64_decode, base64_encode, string_from_utf8};
use crate::path::{contains_parent_segment, is_absolute};
use crate::text::{chars_of, find_first, find_last, starts_with, str_eq, string_of};
use vstd::prelude::*;
use vstd::slice::slice_subrange;
use vstd::string::*;
use vstd::utf8::*;

verus! {

/// An object of the content directory: its root, the container of all shared folders, or a folder or
/// file at `path` below the shared folder `root_name`.
#[derive(Debug)]
pub enum ObjectID {
    Root,
    FolderRoot,
    Folder { root_name: String, path: String },
}

/// An [`ObjectID`] with its texts as sequences of characters.
#[verifier::ext_equal]
pub enum ObjectIDModel {
    Root,
    FolderRoot,
    Folder { root_name: Seq<char>, path: Seq<char> },
}

impl View for ObjectID {
    type V = ObjectIDModel;

    open spec fn view(&self) -> ObjectIDModel {
        match self {
            ObjectID::Root => ObjectIDModel::Root,
            ObjectID::FolderRoot => ObjectIDModel::FolderRoot,
            ObjectID::Folder { root_name, path } => ObjectIDModel::Folder {
                root_name: root_name@,
                path: path@,
            },
        }
    }
}

impl ObjectIDModel {
    /// The object that holds this one.
    pub open spec fn parent(self) -> ObjectIDModel {
        match self {
            ObjectIDModel::Root | ObjectIDModel::FolderRoot => ObjectIDModel::Root,
            ObjectIDModel::Folder { root_name, path } => match path.index_of_last('/') {
                None => ObjectIDModel::FolderRoot,
                Some(i) => ObjectIDModel::Folder { root_name, path: path.take(i) },
            },
        }
    }

    /// The name under which the object is shown.
    pub open spec fn title(self) -> Seq<char> {
        match self {
            ObjectIDModel::Root => "Root"@,
            ObjectIDModel::FolderRoot => "Folder"@,
            ObjectIDModel::Folder { root_name, path } => match path.index_of_last('/') {
                None => root_name,
                Some(i) => path.skip(i + 1),
            },
        }
    }

    /// The text that stands for the object in requests and replies.
    pub open spec fn text(self) -> Seq<char> {
        match self {
            ObjectIDModel::Root => "0"@,
            ObjectIDModel::FolderRoot => "folder"@,
            ObjectIDModel::Folder { root_name, path } => "folder_"@ + root_name + "_"@
                + crate::codec::base64_encoded(encode_utf8(path)),
        }
    }
}

impl Clone for ObjectID {
    fn clone(&self) -> (out: ObjectID)
        ensures
            out@ == self@,
    {
        match self {
            ObjectID::Root => ObjectID::Root,
            ObjectID::FolderRoot => ObjectID::FolderRoot,
            ObjectID::Folder { root_name, path } => ObjectID::Folder {
                root_name: root_name.clone(),
                path: path.clone(),
            },
        }
    }
}

impl ObjectID {
    /// The object that holds this one.
    pub fn parent(&self) -> (out: ObjectID)
        ensures
            out@ == self@.parent(),
    {
        match self {
            ObjectID::Root | ObjectID::FolderRoot => ObjectID::Root,
            ObjectID::Folder { root_name, path } => {
                proof {
                    path@.index_of_last_ensures('/');
                }
                let chars: Vec<char> = chars_of(path.as_str());
                match find_last(chars.as_slice(), '/') {
                    None => ObjectID::FolderRoot,
                    Some(i) => ObjectID::Folder {
                        root_name: root_name.clone(),
                        path: string_of(slice_subrange(chars.as_slice(), 0, i)),
                    },
                }
            },
        }
    }

    /// The name under which the object is shown.
    pub fn title(&self) -> (out: String)
        ensures
            out@ == self@.title(),
    {
        match self {
            ObjectID::Root => "Root".to_owned(),
            ObjectID::FolderRoot => "Folder".to_owned(),
            ObjectID::Folder { root_name, path } => {
                proof {
                    path@.index_of_last_ensures('/');
                }
                let chars: Vec<char> = chars_of(path.as_str());
                let len: usize = chars.len();
                match find_last(chars.as_slice(), '/') {
                    None => root_name.clone(),
                    Some(i) => string_of(slice_subrange(chars.as_slice(), i + 1, len)),
                }
            },
        }
    }
}

/// Why a text stands for no object.
#[derive(Debug)]
pub enum ObjectIDError {
    /// What follows the name of the shared folder is not base64, as the text says.
    NotBase64(String),
    /// The decoded path is not UTF-8, as the text says.
    NotUtf8(String),
    /// The path starts at the root of the file system.
    AbsolutePath,
    /// A segment of the path is `..`.
    ParentSegment,
    /// The text, which is carried, has none of the forms of an identifier.
    BadObjectID(String),
}

/// An [`ObjectIDError`] with its texts as sequences of characters.
#[verifier::ext_equal]
pub enum ObjectIDErrorModel {
    NotBase64(Seq<char>),
    NotUtf8(Seq<char>),
    AbsolutePath,
    ParentSegment,
    BadObjectID(Seq<char>),
}

impl View for ObjectIDError {
    type V = ObjectIDErrorModel;

    open spec fn view(&self) -> ObjectIDErrorModel {
        match self {
            ObjectIDError::NotBase64(text) => ObjectIDErrorModel::NotBase64(text@),
            ObjectIDError::NotUtf8(text) => ObjectIDErrorModel::NotUtf8(text@),
            ObjectIDError::AbsolutePath => ObjectIDErrorModel::AbsolutePath,
            ObjectIDError::ParentSegment => ObjectIDErrorModel::ParentSegment,
            ObjectIDError::BadObjectID(text) => ObjectIDErrorModel::BadObjectID(text@),
        }
    }
}

impl ObjectIDErrorModel {
    /// What is wrong with the text.
    pub open spec fn message(self) -> Seq<char> {
        match self {
            ObjectIDErrorModel::NotBase64(text) => "Not base64: "@ + text,
            ObjectIDErrorModel::NotUtf8(text) => "Not UTF-8: "@ + text,
            ObjectIDErrorModel::AbsolutePath => "Path must be relative"@,
            ObjectIDErrorModel::ParentSegment => "Paths may not have parent segments"@,
            ObjectIDErrorModel::BadObjectID(text) => "Bad ObjectID "@ + text,
        }
    }
}

impl ObjectIDError {
    /// What is wrong with the text.
    pub fn message(&self) -> (out: String)
        ensures
            out@ == self@.message(),
    {
        match self {
            ObjectIDError::NotBase64(text) => {
                let mut out: String = "Not base64: ".to_owned();
                out.append(text.as_str());
                out
            },
            ObjectIDError::NotUtf8(text) => {
                let mut out: String = "Not UTF-8: ".to_owned();
                out.append(text.as_str());
                out
            },
            ObjectIDError::AbsolutePath => "Path must be relative".to_owned(),
            ObjectIDError::ParentSegment => "Paths may not have parent segments".to_owned(),
            ObjectIDError::BadObjectID(text) => {
                let mut out: String = "Bad ObjectID ".to_owned();
                out.append(text.as_str());
                out
            },
        }
    }
}

/// The two parts of a text `folder_`, name, `_`, encoded path. The name ends at the first `_`.
pub open spec fn folder_parts(text: Seq<char>) -> Option<(Seq<char>, Seq<char>)> {
    if "folder_"@.is_prefix_of(text) {
        let rest = text.skip("folder_"@.len() as int);
        match rest.index_of_first('_') {
            Some(i) => Some((rest.take(i), rest.skip(i + 1))),
            None => None,
        }
    } else {
        None
    }
}

/// The object below the shared folder `root_name` whose path `decoded` holds, as UTF-8.
pub open spec fn folder_at(
    root_name: Seq<char>,
    decoded: Result<Seq<u8>, Seq<char>>,
) -> Result<ObjectIDModel, ObjectIDErrorModel> {
    match decoded {
        Err(text) => Err(ObjectIDErrorModel::NotBase64(text)),
        Ok(bytes) => {
            let path = decode_utf8(bytes);
            if !valid_utf8(bytes) {
                Err(ObjectIDErrorModel::NotUtf8(crate::codec::utf8_error(bytes)))
            } else if crate::path::absolute(path) {
                Err(ObjectIDErrorModel::AbsolutePath)
            } else if crate::path::has_parent_segment(path) {
                Err(ObjectIDErrorModel::ParentSegment)
            } else {
                Ok(ObjectIDModel::Folder { root_name, path })
            }
        },
    }
}

/// The object that `text` stands for.
pub open spec fn object_of(text: Seq<char>) -> Result<ObjectIDModel, ObjectIDErrorModel> {
    if text == "0"@ {
        Ok(ObjectIDModel::Root)
    } else if text == "folder"@ {
        Ok(ObjectIDModel::FolderRoot)
    } else {
        match folder_parts(text) {
            None => Err(ObjectIDErrorModel::BadObjectID(text)),
            Some((root_name, encoded)) => folder_at(
                root_name,
                crate::codec::base64_decoded(encoded),
            ),
        }
    }
}

/// `out` is `expected` with its texts as strings.
pub open spec fn same_object(
    out: Result<ObjectID, ObjectIDError>,
    expected: Result<ObjectIDModel, ObjectIDErrorModel>,
) -> bool {
    match (out, expected) {
        (Ok(a), Ok(b)) => a@ == b,
        (Err(a), Err(b)) => a@ == b,
        _ => false,
    }
}

impl ObjectIDModel {
    /// An object that its own text stands for: a path that is relative and has no segment `..`, below a
    /// shared folder whose name holds no `_`.
    pub open spec fn readable(self) -> bool {
        self matches ObjectIDModel::Folder { root_name, path } ==> {
            &&& !root_name.contains('_')
            &&& !crate::path::absolute(path)
            &&& !crate::path::has_parent_segment(path)
        }
    }
}

impl ObjectIDModel {
    /// The name of the shared folder holds a `_`, at which a reader of the text takes it to end.
    pub open spec fn ambiguous_name(self) -> bool {
        self matches ObjectIDModel::Folder { root_name, .. } && root_name.contains('_')
    }

    /// The path of the object is read back from its base64, which holds no `_`. That is so of every object
    /// that has been written or read.
    pub open spec fn encoded_well(self) -> bool {
        self matches ObjectIDModel::Folder { path, .. } ==> {
            let encoded = crate::codec::base64_encoded(encode_utf8(path));
            &&& crate::codec::base64_decoded(encoded) == Ok::<Seq<u8>, Seq<char>>(encode_utf8(path))
            &&& !encoded.contains('_')
        }
    }
}

/// How the text of a folder is taken apart, where the name holds no `_`.
proof fn lemma_folder_parts(root_name: Seq<char>, path: Seq<char>)
    requires
        !root_name.contains('_'),
    ensures
        folder_parts((ObjectIDModel::Folder { root_name, path }).text()) == Some(
            (root_name, crate::codec::base64_encoded(encode_utf8(path))),
        ),
        (ObjectIDModel::Folder { root_name, path }).text() != "0"@,
        (ObjectIDModel::Folder { root_name, path }).text() != "folder"@,
{
    reveal_strlit("0");
    reveal_strlit("folder");
    reveal_strlit("folder_");
    reveal_strlit("_");
    let text = (ObjectIDModel::Folder { root_name, path }).text();
    let encoded = crate::codec::base64_encoded(encode_utf8(path));
    let rest = text.skip("folder_"@.len() as int);
    assert("folder_"@ =~= text.subrange(0, "folder_"@.len() as int));
    assert(rest =~= root_name + "_"@ + encoded);
    rest.index_of_first_ensures('_');
    assert(rest[root_name.len() as int] == '_');
    assert forall|j: int| 0 <= j < root_name.len() implies rest[j] != '_' by {
        assert(rest[j] == root_name[j]);
        assert(root_name.contains(root_name[j]));
    }
    assert(rest.contains('_'));
    assert(rest.index_of_first('_') == Some(root_name.len() as int));
    assert(rest.take(root_name.len() as int) =~= root_name);
    assert(rest.skip((root_name.len() + 1) as int) =~= encoded);
}

/// The text of an object whose folder has an unambiguous name is read as that object where it is readable,
/// and refused otherwise.
proof fn lemma_text_read(id: ObjectIDModel)
    requires
        id.encoded_well(),
        !id.ambiguous_name(),
    ensures
        id.readable() ==> object_of(id.text()) == Ok::<ObjectIDModel, ObjectIDErrorModel>(id),
        !id.readable() ==> object_of(id.text()) is Err,
{
    reveal_strlit("0");
    reveal_strlit("folder");
    if let ObjectIDModel::Folder { root_name, path } = id {
        lemma_folder_parts(root_name, path);
        encode_utf8_valid_utf8(path);
        encode_utf8_decode_utf8(path);
    } else {
        assert("0"@[0] != "folder"@[0]);
    }
}

/// What follows the first `_` in the text of a folder whose name holds a `_` holds another.
proof fn lemma_ambiguous_parts(id: ObjectIDModel)
    requires
        id.ambiguous_name(),
    ensures
        folder_parts(id.text()) matches Some((_, encoded)) && encoded.contains('_'),
        id.text() != "0"@,
        id.text() != "folder"@,
{
    reveal_strlit("0");
    reveal_strlit("folder");
    reveal_strlit("folder_");
    reveal_strlit("_");
    if let ObjectIDModel::Folder { root_name, path } = id {
        let text = id.text();
        let rest = text.skip("folder_"@.len() as int);
        let encoded = crate::codec::base64_encoded(encode_utf8(path));
        assert("folder_"@ =~= text.subrange(0, "folder_"@.len() as int));
        assert(rest =~= root_name + "_"@ + encoded);
        let k = choose|k: int| 0 <= k < root_name.len() && root_name[k] == '_';
        rest.index_of_first_ensures('_');
        assert(rest[k] == '_');
        assert(rest.contains('_'));
        if let Some(i) = rest.index_of_first('_') {
            assert(i <= k);
            let at = root_name.len() - i - 1;
            assert(rest.skip(i + 1)[at] == '_');
        }
    }
}

impl ObjectID {
    /// The text that stands for the object. [`ObjectID::parse`] reads a readable object back from it, and
    /// refuses the text of any other.
    pub fn to_string(&self) -> (out: String)
        ensures
            out@ == self@.text(),
            self@.encoded_well(),
            self@.readable() ==> object_of(out@) == Ok::<ObjectIDModel, ObjectIDErrorModel>(self@),
            !self@.readable() && !self@.ambiguous_name() ==> object_of(out@) is Err,
    {
        match self {
            ObjectID::Root => {
                proof {
                    lemma_text_read(self@);
                }
                "0".to_owned()
            },
            ObjectID::FolderRoot => {
                proof {
                    lemma_text_read(self@);
                }
                "folder".to_owned()
            },
            ObjectID::Folder { root_name, path } => {
                let encoded: String = base64_encode(path.as_str().as_bytes());
                proof {
                    if !self@.ambiguous_name() {
                        lemma_text_read(self@);
                    }
                }
                let mut out: String = "folder_".to_owned();
                out.append(root_name.as_str());
                out.append("_");
                out.append(encoded.as_str());
                out
            },
        }
    }

    /// The object below the shared folder `root_name` whose encoded path has been decoded to `decoded`.
    pub fn from_decoded(root_name: String, decoded: Result<Vec<u8>, String>) -> (out: Result<
        ObjectID,
        ObjectIDError,
    >)
        ensures
            same_object(out, folder_at(root_name@, crate::codec::decoded_view(decoded))),
    {
        match decoded {
            Err(text) => Err(ObjectIDError::NotBase64(text)),
            Ok(bytes) => match string_from_utf8(bytes) {
                Err(text) => Err(ObjectIDError::NotUtf8(text)),
                Ok(path) => {
                    if is_absolute(path.as_str()) {
                        Err(ObjectIDError::AbsolutePath)
                    } else if contains_parent_segment(path.as_str()) {
                        Err(ObjectIDError::ParentSegment)
                    } else {
                        Ok(ObjectID::Folder { root_name, path })
                    }
                },
            },
        }
    }

    /// Reads the object that `id` stands for. An object that is read is readable and `id` is its text. The
    /// text of a folder with a `_` in its name is refused: it is never taken for another object.
    pub fn parse(id: &str) -> (out: Result<ObjectID, ObjectIDError>)
        ensures
            same_object(out, object_of(id@)),
            out matches Ok(object) ==> {
                &&& object@.readable()
                &&& object@.encoded_well()
                &&& object@.text() == id@
            },
            forall|written: ObjectIDModel|
                written.ambiguous_name() && #[trigger] written.text() == id@ ==> out matches Err(
                    ObjectIDError::NotBase64(_),
                ),
    {
        proof {
            reveal_strlit("0");
            reveal_strlit("folder");
            reveal_strlit("folder_");
            reveal_strlit("_");
            assert forall|written: ObjectIDModel|
                written.ambiguous_name() && #[trigger] written.text() == id@ implies folder_parts(
                id@,
            ) matches Some((_, encoded)) && encoded.contains('_') && id@ != "0"@ && id@
                != "folder"@ by {
                lemma_ambiguous_parts(written);
            }
        }
        if str_eq(id, "0") {
            return Ok(ObjectID::Root);
        }
        if str_eq(id, "folder") {
            return Ok(ObjectID::FolderRoot);
        }
        let chars: Vec<char> = chars_of(id);
        let len: usize = chars.len();
        if !starts_with(chars.as_slice(), "folder_") {
            return Err(ObjectIDError::BadObjectID(id.to_owned()));
        }
        let rest: &[char] = slice_subrange(chars.as_slice(), 7, len);
        proof {
            rest@.index_of_first_ensures('_');
        }
        match find_first(rest, '_') {
            None => Err(ObjectIDError::BadObjectID(id.to_owned())),
            Some(i) => {
                let root_name: String = string_of(slice_subrange(rest, 0, i));
                let encoded: String = string_of(slice_subrange(rest, i + 1, rest.len()));
                let decoded: Result<Vec<u8>, String> = base64_decode(encoded.as_str());
                proof {
                    assert(folder_parts(id@) == Some((root_name@, encoded@)));
                    if let Ok(bytes) = &decoded {
                        if valid_utf8(bytes@) {
                            decode_utf8_encode_utf8(bytes@);
                        }
                    }
                    assert(id@ =~= "folder_"@ + root_name@ + "_"@ + encoded@);
                    assert forall|j: int| 0 <= j < root_name@.len() implies root_name@[j]
                        != '_' by {
                        assert(rest@[j] == root_name@[j]);
                    }
                }
                ObjectID::from_decoded(root_name, decoded)
            },
        }
    }
}

} // verus!
