//! The verified core of a UPnP media server.
pub mod advertisement;
pub mod codec;
pub mod content_directory_browse;
pub mod device_id;
pub mod discovery;
pub mod folder_roots;
pub mod laws;
pub mod media;
pub mod mime_type;
pub mod notification;
pub mod order;
pub mod path;
pub mod soap;
pub mod text;
