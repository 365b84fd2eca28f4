//! The content directory: its objects, what browsing one of them finds, and the reply.
pub mod browse;
pub mod child;
pub mod error;
pub mod laws;
pub mod listing;
pub mod listing_laws;
pub mod object_id;
pub mod object_laws;
pub mod response;
pub mod sort;

pub use browse::ContentDirectoryAction;
pub use child::Child;
pub use error::Error;
pub use object_id::ObjectID;
pub use response::BrowseFlag;
pub use response::Response;
pub use response::ResponseResult;
