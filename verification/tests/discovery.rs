use upnp_media_server::advertisement::{Advertisement, DeviceName, ServiceName};
use upnp_media_server::discovery::{
    answer_search, matching_advertisement, parse_discover_request, parse_search, DiscoverError,
};

const ID: u128 = 0x550e8400_e29b_41d4_a716_446655440000;
const OTHER_ID: u128 = 0x550e8400_e29b_41d4_a716_446655440001;

fn search(target: &str) -> Vec<u8> {
    format!(
        "M-SEARCH * HTTP/1.1\r\nHOST: 239.255.255.250:1900\r\nMAN: \"ssdp:discover\"\r\nMX: 2\r\nST: {target}\r\n\r\n"
    )
    .into_bytes()
}

fn answered(message: &[u8]) -> Result<Option<Advertisement>, DiscoverError> {
    let mut buffer = message.to_vec();
    answer_search(&mut buffer, ID)
}

#[test]
fn advertisements_are_five() {
    let all = Advertisement::all(ID);
    assert_eq!(
        all,
        [
            Advertisement::RootDevice { id: ID },
            Advertisement::Uuid { id: ID },
            Advertisement::Device { id: ID, name: DeviceName::MediaServer },
            Advertisement::Service { id: ID, name: ServiceName::ConnectionManager },
            Advertisement::Service { id: ID, name: ServiceName::ContentDirectory },
        ]
    );
}

#[test]
fn notification_types_are_written() {
    let types: Vec<String> = Advertisement::all(ID).iter().map(|a| a.notification_type()).collect();
    assert_eq!(
        types,
        [
            "upnp:rootdevice",
            "uuid:550e8400-e29b-41d4-a716-446655440000",
            "urn:schemas-upnp-org:device:MediaServer:1",
            "urn:schemas-upnp-org:service:ConnectionManager:1",
            "urn:schemas-upnp-org:service:ContentDirectory:1",
        ]
    );
}

#[test]
fn service_names_are_written() {
    let names: Vec<String> = Advertisement::all(ID).iter().map(|a| a.service_name()).collect();
    assert_eq!(
        names,
        [
            "uuid:550e8400-e29b-41d4-a716-446655440000::upnp:rootdevice",
            "uuid:550e8400-e29b-41d4-a716-446655440000",
            "uuid:550e8400-e29b-41d4-a716-446655440000::urn:schemas-upnp-org:device:MediaServer:1",
            "uuid:550e8400-e29b-41d4-a716-446655440000::urn:schemas-upnp-org:service:ConnectionManager:1",
            "uuid:550e8400-e29b-41d4-a716-446655440000::urn:schemas-upnp-org:service:ContentDirectory:1",
        ]
    );
}

#[test]
fn service_names_differ() {
    let all: Vec<String> = [ID, OTHER_ID, 0, u128::MAX]
        .iter()
        .flat_map(|id| Advertisement::all(*id))
        .map(|a| a.service_name())
        .collect();
    for (i, name) in all.iter().enumerate() {
        assert!(!all[..i].contains(name));
    }
}

#[test]
fn small_identifiers_are_padded() {
    assert_eq!(
        Advertisement::Uuid { id: 0xabc }.notification_type(),
        "uuid:00000000-0000-0000-0000-000000000abc"
    );
}

#[test]
fn what_is_advertised_can_be_searched_for() {
    for advertisement in Advertisement::all(ID) {
        let target = advertisement.notification_type();
        assert_eq!(matching_advertisement(target.as_str(), ID), Some(advertisement));
        assert_eq!(answered(&search(target.as_str())), Ok(Some(advertisement)));
        let shouted = String::from_utf8(search(target.as_str())).unwrap().to_uppercase();
        assert_eq!(answered(shouted.as_bytes()), Ok(Some(advertisement)));
    }
}

#[test]
fn answers_are_among_what_is_advertised() {
    for target in ["upnp:rootdevice", "uuid:550E8400E29B41D4A716446655440000", "ssdp:all", ""] {
        if let Some(advertisement) = matching_advertisement(target, ID) {
            assert!(Advertisement::all(ID).contains(&advertisement));
        }
    }
}

#[test]
fn identifiers_are_read_in_every_form() {
    for target in [
        "uuid:550e8400-e29b-41d4-a716-446655440000",
        "uuid:550E8400-E29B-41D4-A716-446655440000",
        "uuid:550e8400e29b41d4a716446655440000",
        "uuid:{550e8400-e29b-41d4-a716-446655440000}",
        "uuid:urn:uuid:550e8400-e29b-41d4-a716-446655440000",
        "uuid:URN:UUID:550e8400-e29b-41d4-a716-446655440000",
    ] {
        assert_eq!(matching_advertisement(target, ID), Some(Advertisement::Uuid { id: ID }), "{target}");
        assert_eq!(matching_advertisement(target, OTHER_ID), None, "{target}");
    }
}

#[test]
fn other_targets_are_not_answered() {
    for target in [
        "ssdp:all",
        "",
        "uuid:",
        "uuid:550e8400",
        "uuid:{550e8400e29b41d4a716446655440000}",
        "550e8400-e29b-41d4-a716-446655440000",
        "upnp:RootDevice",
        "urn:schemas-upnp-org:device:MediaServer:2",
        "urn:schemas-upnp-org:service:AVTransport:1",
    ] {
        assert_eq!(matching_advertisement(target, ID), None, "{target}");
    }
}

#[test]
fn names_are_matched_in_any_case() {
    assert_eq!(
        matching_advertisement("URN:Schemas-UPNP-org:DEVICE:mediaserver:1", ID),
        Some(Advertisement::Device { id: ID, name: DeviceName::MediaServer })
    );
    assert_eq!(
        matching_advertisement("urn:schemas-upnp-org:service:contentdirectory:1", ID),
        Some(Advertisement::Service { id: ID, name: ServiceName::ContentDirectory })
    );
}

#[test]
fn search_for_another_device_is_not_answered() {
    assert_eq!(answered(&search("uuid:550e8400-e29b-41d4-a716-446655440001")), Ok(None));
    assert_eq!(answered(&search("ssdp:all")), Ok(None));
}

#[test]
fn search_targets_are_read() {
    let mut message = search("upnp:rootdevice");
    assert_eq!(parse_discover_request(&mut message), Ok(Some("upnp:rootdevice".to_string())));
    assert_eq!(
        parse_search("m-search\nst:a:b \n man :\t\"ssdp:discover\"\n"),
        Ok(Some("a:b".to_string()))
    );
    assert_eq!(parse_search("m-search\r\nman: \"ssdp:discover\"\r\nst:\r\n\r\n"), Ok(Some("".to_string())));
}

#[test]
fn messages_are_left_in_small_letters() {
    let mut message = b"NOTIFY \xc3\x84Z[@".to_vec();
    assert_eq!(parse_discover_request(&mut message), Ok(None));
    assert_eq!(message, b"notify \xc3\x84z[@");
    let mut broken = b"NOTIFY \xff".to_vec();
    assert_eq!(answer_search(&mut broken, ID), Err(DiscoverError::NotUtf8));
    assert_eq!(broken, b"NOTIFY \xff");
}

#[test]
fn last_of_the_same_header_counts() {
    assert_eq!(
        parse_search("m-search\nst: a\nman: x\nst: b\nman: \"ssdp:discover\""),
        Ok(Some("b".to_string()))
    );
    assert_eq!(parse_search("m-search\nst: a\nman: \"ssdp:discover\"\nman: x"), Ok(None));
}

#[test]
fn other_messages_are_passed_over() {
    assert_eq!(parse_search("notify * http/1.1\nno header"), Ok(None));
    assert_eq!(parse_search("m-search"), Ok(None));
    assert_eq!(parse_search("m-search\nst: a"), Ok(None));
    assert_eq!(parse_search("m-search\nman: ssdp:discover\nst: a"), Ok(None));
    assert_eq!(parse_search("m-search\nman: \"ssdp:discover \"\nst: a"), Ok(None));
    assert_eq!(parse_search("\nm-search\nman: \"ssdp:discover\"\nst: a"), Ok(None));
}

#[test]
fn broken_messages_are_errors() {
    assert_eq!(answered(b"\xff"), Err(DiscoverError::NotUtf8));
    assert_eq!(answered(b""), Err(DiscoverError::NoRequestLine));
    assert_eq!(answered(b" \r\n\t\r\n"), Err(DiscoverError::NoRequestLine));
    assert_eq!(answered(b"M-SEARCH\r\nMAN\r\n"), Err(DiscoverError::InvalidHeader));
    assert_eq!(answered(b"M-SEARCH\r\n\r\nMAN: x\r\n"), Err(DiscoverError::InvalidHeader));
    assert_eq!(answered(b"M-SEARCH\r\nMAN: \"ssdp:discover\"\r\n"), Err(DiscoverError::NoSearchTarget));
}

#[test]
fn errors_say_what_is_wrong() {
    assert_eq!(DiscoverError::NotUtf8.message(), "Request is not UTF-8");
    assert_eq!(DiscoverError::NoRequestLine.message(), "No request line");
    assert_eq!(DiscoverError::InvalidHeader.message(), "Invalid Header");
    assert_eq!(DiscoverError::NoSearchTarget.message(), "No search target");
}

#[test]
fn case_and_trailing_white_space_make_no_difference() {
    let plain = search("upnp:rootdevice");
    let text = String::from_utf8(plain.clone()).unwrap();
    for other in [text.to_lowercase(), text.to_uppercase(), format!("{text} \t\n\u{3000}"), text.trim_end().to_string()] {
        assert_eq!(answered(other.as_bytes()), answered(&plain));
    }
    assert_eq!(answered(&plain), Ok(Some(Advertisement::RootDevice { id: ID })));
}

#[test]
fn written_searches_are_read_as_written() {
    // With an empty value last, and without headers at all.
    assert_eq!(
        parse_search("m-search *\r\nman: \"ssdp:discover\"\r\nst: a\r\nx: \r\n\r\n"),
        Ok(Some("a".to_string()))
    );
    assert_eq!(parse_search("m-search * \r\n\r\n"), Ok(None));
}
