//! Which requests are taken as SOAP actions.
use crate::text::str_eq;
use axum::http::HeaderValue;
use axum_extra::headers::{ContentType, Header};
use mime::Mime;
use vstd::prelude::*;

verus! {

/// Why a request is not taken as an action.
#[derive(Debug, Clone, Copy, PartialEq, Eq, Structural)]
pub enum SoapRejection {
    /// It says that its body is something else than XML, or does not say what it is.
    UnsupportedMediaType,
    /// Its body cannot be read as an action.
    BadRequest,
}

impl SoapRejection {
    /// The HTTP status that tells a client of the rejection.
    pub fn status(&self) -> (code: u16)
        ensures
            code == match self {
                SoapRejection::UnsupportedMediaType => 415u16,
                SoapRejection::BadRequest => 400u16,
            },
    {
        match self {
            SoapRejection::UnsupportedMediaType => 415,
            SoapRejection::BadRequest => 400,
        }
    }
}

/// The media type, as type and subtype, in the value of a `Content-Type` header, as `headers` and `mime`
/// read it; `None` where the value is no media type.
pub uninterp spec fn content_type_essence(header: Seq<u8>) -> Option<Seq<char>>;

/// `ContentType::decode` of `headers`, on the one value that `HeaderValue::from_bytes` of `http` makes,
/// and `Mime::essence_str` of `mime`. They parse the value, so the result is a function of it.
#[verifier::external_body]
pub(crate) fn read_content_type(header: &[u8]) -> (out: Option<String>)
    ensures
        match out {
            Some(text) => content_type_essence(header@) == Some(text@),
            None => content_type_essence(header@) is None,
        },
{
    let value = HeaderValue::from_bytes(header).ok()?;
    let content_type = ContentType::decode(&mut std::iter::once(&value)).ok()?;
    Some(Mime::from(content_type).essence_str().to_owned())
}

/// The body of a request may be read as an action: its media type is that of XML.
pub open spec fn acceptable(essence: Option<Seq<char>>) -> bool {
    essence == Some("text/xml"@)
}

/// Rejects a body with the media type `essence`, unless it is that of XML.
pub fn check_essence(essence: Option<String>) -> (out: Result<(), SoapRejection>)
    ensures
        out == if acceptable(
            match essence {
                Some(text) => Some(text@),
                None => None,
            },
        ) {
            Ok::<(), SoapRejection>(())
        } else {
            Err(SoapRejection::UnsupportedMediaType)
        },
{
    match essence {
        Some(text) => if str_eq(text.as_str(), "text/xml") {
            Ok(())
        } else {
            Err(SoapRejection::UnsupportedMediaType)
        },
        None => Err(SoapRejection::UnsupportedMediaType),
    }
}

/// Rejects a request with the `Content-Type` header `content_type`, unless it says that the body is XML.
pub fn check_content_type(content_type: Option<&[u8]>) -> (out: Result<(), SoapRejection>)
    ensures
        out == if content_type matches Some(value) && acceptable(content_type_essence(value@)) {
            Ok::<(), SoapRejection>(())
        } else {
            Err(SoapRejection::UnsupportedMediaType)
        },
{
    check_essence(
        match content_type {
            Some(value) => read_content_type(value),
            None => None,
        },
    )
}

/// Takes the action that a body holds, where it could be read as one.
pub fn accept<T>(action: Option<T>) -> (out: Result<T, SoapRejection>)
    ensures
        out == match action {
            Some(value) => Ok::<T, SoapRejection>(value),
            None => Err(SoapRejection::BadRequest),
        },
{
    match action {
        Some(value) => Ok(value),
        None => Err(SoapRejection::BadRequest),
    }
}

/// A request is taken where its media type is known and is `text/xml`, and only there.
pub proof fn only_xml_is_acceptable(essence: Seq<char>)
    ensures
        acceptable(Some(essence)) <==> essence == seq!['t', 'e', 'x', 't', '/', 'x', 'm', 'l'],
        !acceptable(None),
{
    reveal_strlit("text/xml");
    assert("text/xml"@ =~= seq!['t', 'e', 'x', 't', '/', 'x', 'm', 'l']);
}

} // verus!
