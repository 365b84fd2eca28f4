//! The reply to a browse request.
use crate::content_directory_browse::child::{Child, ChildModel};
use crate::content_directory_browse::object_id::{ObjectID, ObjectIDModel};
use crate::content_directory_browse::sort::sort_by_title;
use vstd::prelude::*;

verus! {

/// What a browse request asks of an object: itself, or what it holds.
#[derive(Debug, Clone, Copy)]
pub enum BrowseFlag {
    BrowseMetadata,
    BrowseDirectChildren,
}

/// What a reply shows.
pub enum ResponseResult {
    DirectChildren { hostname: String, port: u16, children: Vec<Child> },
    Metadata { id: ObjectID, parent_id: ObjectID, title: String, child_count: usize },
}

/// The reply to a browse request.
pub struct Response {
    pub result: ResponseResult,
    pub number_returned: usize,
    pub total_matches: usize,
}

/// A [`ResponseResult`] with its texts as sequences of characters.
#[verifier::ext_equal]
pub enum ResponseResultModel {
    DirectChildren { hostname: Seq<char>, port: u16, children: Seq<ChildModel> },
    Metadata { id: ObjectIDModel, parent_id: ObjectIDModel, title: Seq<char>, child_count: nat },
}

/// A [`Response`] with its texts as sequences of characters.
#[verifier::ext_equal]
pub struct ResponseModel {
    pub result: ResponseResultModel,
    pub number_returned: nat,
    pub total_matches: nat,
}

impl View for ResponseResult {
    type V = ResponseResultModel;

    open spec fn view(&self) -> ResponseResultModel {
        match self {
            ResponseResult::DirectChildren { hostname, port, children } =>
                ResponseResultModel::DirectChildren {
                hostname: hostname@,
                port: *port,
                children: crate::content_directory_browse::child::models(children@),
            },
            ResponseResult::Metadata { id, parent_id, title, child_count } =>
                ResponseResultModel::Metadata {
                id: id@,
                parent_id: parent_id@,
                title: title@,
                child_count: *child_count as nat,
            },
        }
    }
}

impl View for Response {
    type V = ResponseModel;

    open spec fn view(&self) -> ResponseModel {
        ResponseModel {
            result: self.result@,
            number_returned: self.number_returned as nat,
            total_matches: self.total_matches as nat,
        }
    }
}

/// The `count` elements of `s` from position `start` on, or as many as there are.
pub open spec fn page<T>(s: Seq<T>, start: nat, count: nat) -> Seq<T> {
    let from = if start < s.len() { start as int } else { s.len() as int };
    let to = if from + count < s.len() { from + count } else { s.len() as int };
    s.subrange(from, to)
}

/// The reply that shows `sorted` as the children of `object`, from position `start` on and `count` at
/// most. The children that are counted as returned are those of the page.
pub open spec fn reply(
    object: ObjectIDModel,
    flag: BrowseFlag,
    start: nat,
    count: nat,
    hostname: Seq<char>,
    port: u16,
    sorted: Seq<ChildModel>,
) -> ResponseModel {
    let shown = page(sorted, start, count);
    ResponseModel {
        result: match flag {
            BrowseFlag::BrowseMetadata => ResponseResultModel::Metadata {
                id: object,
                parent_id: object.parent(),
                title: object.title(),
                child_count: shown.len(),
            },
            BrowseFlag::BrowseDirectChildren => ResponseResultModel::DirectChildren {
                hostname,
                port,
                children: shown,
            },
        },
        number_returned: shown.len(),
        total_matches: sorted.len(),
    }
}

/// The `count` elements of `v` from position `start` on, or as many as there are.
pub fn take_page<T>(v: Vec<T>, start: usize, count: usize) -> (out: Vec<T>)
    ensures
        out@ == page(v@, start as nat, count as nat),
{
    let mut v: Vec<T> = v;
    if start >= v.len() {
        return Vec::new();
    }
    let mut out: Vec<T> = v.split_off(start);
    out.truncate(count);
    out
}

/// Makes the reply that shows `children`, sorted by title, as the children of `object_id`.
pub fn respond(
    object_id: ObjectID,
    browse_flag: BrowseFlag,
    starting_index: usize,
    requested_count: usize,
    hostname: String,
    port: u16,
    children: Vec<Child>,
) -> (out: Response)
    ensures
        exists|sorted: Seq<ChildModel>|
            crate::content_directory_browse::sort::sorted_by_title(
                crate::content_directory_browse::child::models(children@),
                sorted,
            ) && out@ == #[trigger] reply(
                object_id@,
                browse_flag,
                starting_index as nat,
                requested_count as nat,
                hostname@,
                port,
                sorted,
            ),
{
    let children: Vec<Child> = sort_by_title(children);
    let ghost sorted = crate::content_directory_browse::child::models(children@);
    let total_matches: usize = children.len();
    let children: Vec<Child> = take_page(children, starting_index, requested_count);
    assert(crate::content_directory_browse::child::models(children@) =~= page(
        sorted,
        starting_index as nat,
        requested_count as nat,
    ));
    let number_returned: usize = children.len();
    let out: Response = Response {
        result: match browse_flag {
            BrowseFlag::BrowseMetadata => {
                let parent_id: ObjectID = object_id.parent();
                let title: String = object_id.title();
                ResponseResult::Metadata {
                    id: object_id,
                    parent_id,
                    title,
                    child_count: children.len(),
                }
            },
            BrowseFlag::BrowseDirectChildren => ResponseResult::DirectChildren {
                hostname,
                port,
                children,
            },
        },
        number_returned,
        total_matches,
    };
    assert(out@ =~= reply(
        object_id@,
        browse_flag,
        starting_index as nat,
        requested_count as nat,
        hostname@,
        port,
        sorted,
    ));
    out
}

} // verus!
