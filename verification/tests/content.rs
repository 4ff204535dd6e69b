//! Tests for the payload type and the decoding of raw clipboard data.

use clipboard_stream::body::decode_text_content;
use clipboard_stream::Body;
use clipboard_stream::Error;
use clipboard_stream::Kind;
use clipboard_stream::MimeType;

#[test]
fn decode_no_data_is_no_content() {
    assert!(decode_text_content(None).is_none());
}

#[test]
fn decode_valid_utf8_text() {
    let bytes = String::from("héllo ✂").into_bytes();
    match decode_text_content(Some(bytes)) {
        Some(Ok(Body::Utf8String(s))) => assert_eq!(s, "héllo ✂"),
        _ => panic!("expected the decoded text body"),
    }
}

#[test]
fn decode_invalid_utf8_is_a_decode_error() {
    let bytes = vec![0xff, 0xfe, 0x41];
    match decode_text_content(Some(bytes)) {
        Some(Err(e)) => assert_eq!(e, Error::ContentDecode),
        _ => panic!("expected a decode error item"),
    }
}

#[test]
fn body_kind_tags_each_variant() {
    let t = Body::Utf8String(String::from("x"));
    assert_eq!(t.kind(), Kind::Utf8);
    let i = Body::Image { mime: MimeType::ImagePng, data: vec![1, 2, 3] };
    assert_eq!(i.kind(), Kind::Img);
}

#[test]
fn body_clone_keeps_the_value() {
    let t = Body::Utf8String(String::from("copy me"));
    match t.clone() {
        Body::Utf8String(s) => assert_eq!(s, "copy me"),
        _ => panic!("clone changed the variant"),
    }
    let i = Body::Image { mime: MimeType::ImagePng, data: vec![9, 8, 7] };
    match i.clone() {
        Body::Image { mime, data } => {
            assert_eq!(mime, MimeType::ImagePng);
            assert_eq!(data, vec![9, 8, 7]);
        },
        _ => panic!("clone changed the variant"),
    }
}

#[test]
fn kind_keys_are_distinct() {
    assert_ne!(Kind::Utf8.key(), Kind::Img.key());
}

#[test]
fn error_messages_name_each_failure() {
    assert_eq!(
        Error::DuplicateConsumer.message(),
        "a consumer with this key is already registered"
    );
    assert_eq!(Error::ContentDecode.message(), "failed to decode the clipboard item");
    assert_eq!(Error::Platform.message(), "failed to read the clipboard");
}
