use upnp_media_server::soap::{accept, check_content_type, check_essence, SoapRejection};

#[test]
fn xml_is_taken() {
    assert_eq!(check_content_type(Some(b"text/xml")), Ok(()));
    assert_eq!(check_content_type(Some(b"text/xml; charset=\"utf-8\"")), Ok(()));
    assert_eq!(check_content_type(Some(b"TEXT/XML;charset=utf-8")), Ok(()));
}

#[test]
fn other_media_types_are_rejected() {
    for value in ["text/plain", "application/xml", "text/xml+soap", "xml", "", "text/xml\n"] {
        assert_eq!(
            check_content_type(Some(value.as_bytes())),
            Err(SoapRejection::UnsupportedMediaType),
            "{value}"
        );
    }
    assert_eq!(check_content_type(None), Err(SoapRejection::UnsupportedMediaType));
}

#[test]
fn media_type_decides() {
    assert_eq!(check_essence(Some("text/xml".to_string())), Ok(()));
    assert_eq!(check_essence(Some("text/html".to_string())), Err(SoapRejection::UnsupportedMediaType));
    assert_eq!(check_essence(None), Err(SoapRejection::UnsupportedMediaType));
}

#[test]
fn unreadable_bodies_are_bad_requests() {
    assert_eq!(accept(Some(5)), Ok(5));
    assert_eq!(accept::<u8>(None), Err(SoapRejection::BadRequest));
}

#[test]
fn rejections_have_a_status() {
    assert_eq!(SoapRejection::UnsupportedMediaType.status(), 415);
    assert_eq!(SoapRejection::BadRequest.status(), 400);
}
