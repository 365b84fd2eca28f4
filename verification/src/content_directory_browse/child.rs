//! What a container of the content directory holds.
use crate::content_directory_browse::object_id::{ObjectID, ObjectIDModel};
use vstd::prelude::*;

verus! {

/// A child of a browsed object: a container, or an audio file with its tags.
pub enum Child {
    Container { id: ObjectID, parent_id: ObjectID, title: String },
    Item {
        id: ObjectID,
        parent_id: ObjectID,
        root_name: String,
        base64_path: String,
        artist: String,
        album: String,
        title: String,
        genre: String,
        year: i32,
        track_number: u16,
        mime_type: String,
    },
}

/// A [`Child`] with its texts as sequences of characters.
#[verifier::ext_equal]
pub enum ChildModel {
    Container {
        id: ObjectIDModel,
        parent_id: ObjectIDModel,
        title: Seq<char>,
    },
    Item {
        id: ObjectIDModel,
        parent_id: ObjectIDModel,
        root_name: Seq<char>,
        base64_path: Seq<char>,
        artist: Seq<char>,
        album: Seq<char>,
        title: Seq<char>,
        genre: Seq<char>,
        year: i32,
        track_number: u16,
        mime_type: Seq<char>,
    },
}

impl View for Child {
    type V = ChildModel;

    open spec fn view(&self) -> ChildModel {
        match self {
            Child::Container { id, parent_id, title } => ChildModel::Container {
                id: id@,
                parent_id: parent_id@,
                title: title@,
            },
            Child::Item {
                id,
                parent_id,
                root_name,
                base64_path,
                artist,
                album,
                title,
                genre,
                year,
                track_number,
                mime_type,
            } => ChildModel::Item {
                id: id@,
                parent_id: parent_id@,
                root_name: root_name@,
                base64_path: base64_path@,
                artist: artist@,
                album: album@,
                title: title@,
                genre: genre@,
                year: *year,
                track_number: *track_number,
                mime_type: mime_type@,
            },
        }
    }
}

impl ChildModel {
    /// The name under which the child is shown, and by which the children of an object are ordered.
    pub open spec fn title(self) -> Seq<char> {
        match self {
            ChildModel::Container { title, .. } => title,
            ChildModel::Item { title, .. } => title,
        }
    }

    /// The object that the child is.
    pub open spec fn id(self) -> ObjectIDModel {
        match self {
            ChildModel::Container { id, .. } => id,
            ChildModel::Item { id, .. } => id,
        }
    }

    /// The object that the child is shown in.
    pub open spec fn parent_id(self) -> ObjectIDModel {
        match self {
            ChildModel::Container { parent_id, .. } => parent_id,
            ChildModel::Item { parent_id, .. } => parent_id,
        }
    }
}

impl Child {
    /// The name under which the child is shown.
    pub fn title(&self) -> (title: &str)
        ensures
            title@ == self@.title(),
    {
        match self {
            Child::Container { title, .. } => title.as_str(),
            Child::Item { title, .. } => title.as_str(),
        }
    }
}

/// The models of children.
pub open spec fn models(children: Seq<Child>) -> Seq<ChildModel> {
    Seq::new(children.len(), |i: int| children[i]@)
}

} // verus!
