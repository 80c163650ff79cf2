//! The hint codec and image reference classification, exercised end to end
//! with the real URL machinery linked.
use ninomiya::error::ProtocolError;
use ninomiya::hints::{HintEntry, Hints, ImageRef, WireValue};

fn raw_image_value(width: i32, height: i32, has_alpha: bool, bits: i32, data: Vec<u8>) -> WireValue {
    WireValue::Image {
        width,
        height,
        rowstride: 0,
        has_alpha,
        bits_per_sample: bits,
        channels: 0,
        data,
    }
}

fn entry(key: &str, value: WireValue) -> HintEntry {
    HintEntry { key: key.to_owned(), value }
}

#[test]
fn image_data_overrides_image_path() {
    let map = vec![
        entry("image-path", WireValue::Str("some-icon".to_owned())),
        entry("image-data", raw_image_value(2, 1, false, 8, vec![1, 2, 3, 4, 5, 6])),
    ];
    let hints = Hints::from_dbus(map, None).expect("decode should succeed");
    match hints.image {
        Some(ImageRef::Image { width, height, has_alpha, bits_per_sample, image_data }) => {
            assert_eq!(width, 2);
            assert_eq!(height, 1);
            assert!(!has_alpha);
            assert_eq!(bits_per_sample, 8);
            assert_eq!(image_data, vec![1, 2, 3, 4, 5, 6]);
        }
        other => panic!("expected the raw image from image-data, got {:?}", other),
    }
}

#[test]
fn icon_data_is_weakest() {
    let map = vec![
        entry("icon_data", raw_image_value(1, 1, false, 8, vec![9, 9, 9])),
        entry("image-path", WireValue::Str("some-icon".to_owned())),
    ];
    let hints = Hints::from_dbus(map, None).expect("decode should succeed");
    match hints.image {
        Some(ImageRef::IconName(name)) => assert_eq!(name, "some-icon"),
        other => panic!("expected image-path to override icon_data, got {:?}", other),
    }
}

#[test]
fn raw_image_round_trip() {
    let hints = Hints {
        image: Some(ImageRef::Image {
            width: 2,
            height: 2,
            has_alpha: true,
            bits_per_sample: 8,
            image_data: vec![7; 16],
        }),
    };
    let wire = hints.into_dbus();
    assert_eq!(wire.len(), 1);
    assert_eq!(wire[0].key, "image-data");
    match &wire[0].value {
        WireValue::Image { width, height, rowstride, has_alpha, bits_per_sample, channels, data } => {
            assert_eq!(*width, 2);
            assert_eq!(*height, 2);
            // the rowstride is recomputed as width * bits_per_sample
            assert_eq!(*rowstride, 16);
            assert!(*has_alpha);
            assert_eq!(*bits_per_sample, 8);
            assert_eq!(*channels, 4);
            assert_eq!(*data, vec![7; 16]);
        }
        other => panic!("expected a raw image tuple, got {:?}", other),
    }
    let decoded = Hints::from_dbus(wire, None).expect("decode should succeed");
    match decoded.image {
        Some(ImageRef::Image { width, height, has_alpha, bits_per_sample, image_data }) => {
            assert_eq!(width, 2);
            assert_eq!(height, 2);
            assert!(has_alpha);
            assert_eq!(bits_per_sample, 8);
            assert_eq!(image_data, vec![7; 16]);
        }
        other => panic!("expected the same raw image back, got {:?}", other),
    }
}

#[test]
fn url_and_icon_encode_as_image_path() {
    let hints = Hints { image: Some(ImageRef::Url("http://h/x".to_owned())) };
    let wire = hints.into_dbus();
    assert_eq!(wire.len(), 1);
    assert_eq!(wire[0].key, "image-path");
    match &wire[0].value {
        WireValue::Str(s) => assert_eq!(s, "http://h/x"),
        other => panic!("expected a string, got {:?}", other),
    }
    let hints = Hints { image: Some(ImageRef::IconName("mail-unread".to_owned())) };
    let wire = hints.into_dbus();
    assert_eq!(wire[0].key, "image-path");
}

#[test]
fn empty_hints_decode_to_no_image() {
    let hints = Hints::from_dbus(Vec::new(), None).expect("decode should succeed");
    assert!(hints.image.is_none());
    let encoded = Hints::new().into_dbus();
    assert!(encoded.is_empty());
}

#[test]
fn unrecognized_keys_are_ignored() {
    let map = vec![entry("urgency", WireValue::Other)];
    let hints = Hints::from_dbus(map, None).expect("unrecognized keys never fail the decode");
    assert!(hints.image.is_none());
}

#[test]
fn malformed_image_data_rejects_the_decode() {
    let map = vec![entry("image-data", WireValue::Str("not a tuple".to_owned()))];
    assert_eq!(Hints::from_dbus(map, None).unwrap_err(), ProtocolError::MalformedHint);
    let map = vec![entry("image-path", WireValue::Other)];
    assert_eq!(Hints::from_dbus(map, None).unwrap_err(), ProtocolError::MalformedHint);
    let map = vec![entry("icon_data", WireValue::Other)];
    assert_eq!(Hints::from_dbus(map, None).unwrap_err(), ProtocolError::MalformedHint);
}

#[test]
fn unresolvable_path_hint_degrades_to_no_image() {
    let map = vec![entry("image-path", WireValue::Str("missing/file.png".to_owned()))];
    let hints = Hints::from_dbus(map, None).expect("an unresolvable path hint is not fatal");
    assert!(hints.image.is_none());
}

#[test]
fn image_path_hint_reports_path_like_strings() {
    let map = vec![entry("image-path", WireValue::Str("pics/cat.png".to_owned()))];
    assert_eq!(Hints::image_path_hint(&map), Some("pics/cat.png".to_owned()));
    let map = vec![entry("image-path", WireValue::Str("mail-unread".to_owned()))];
    assert_eq!(Hints::image_path_hint(&map), None);
    assert_eq!(Hints::image_path_hint(&Vec::new()), None);
}

#[test]
fn parse_classifies_icon_names() {
    match ImageRef::parse("icon-name", None) {
        Ok(ImageRef::IconName(name)) => assert_eq!(name, "icon-name"),
        other => panic!("expected an icon name, got {:?}", other),
    }
}

#[test]
fn parse_converts_paths_to_file_urls() {
    match ImageRef::parse("/tmp/x.png", Some("/tmp/x.png")) {
        Ok(ImageRef::Url(url)) => assert_eq!(url, "file:///tmp/x.png"),
        other => panic!("expected a file URL, got {:?}", other),
    }
}

#[test]
fn parse_keeps_urls() {
    match ImageRef::parse("http://h/x", None) {
        Ok(ImageRef::Url(url)) => assert_eq!(url, "http://h/x"),
        other => panic!("expected a URL, got {:?}", other),
    }
}

#[test]
fn parse_normalizes_urls() {
    // the url crate lowercases the scheme and host, so handing the input
    // back unchanged would fail here
    match ImageRef::parse("HTTP://EXample.com/x", None) {
        Ok(ImageRef::Url(url)) => assert_eq!(url, "http://example.com/x"),
        other => panic!("expected a normalized URL, got {:?}", other),
    }
}

#[test]
fn parse_rejects_unresolvable_paths() {
    match ImageRef::parse("missing/file.png", None) {
        Err(e) => assert_eq!(e, ProtocolError::InvalidResource),
        other => panic!("expected InvalidResource, got {:?}", other),
    }
}
