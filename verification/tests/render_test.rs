use bytes::Bytes;
use redis_server::server::frame::{Error, Frame};
use redis_server::server::parser::ParserError;

#[test]
fn simple_and_integer_render_literally() {
    assert_eq!(Frame::Simple(String::from("OK")).to_string(), "OK");
    assert_eq!(Frame::Simple(String::new()).to_string(), "");
    assert_eq!(Frame::Integer(0).to_string(), "0");
    assert_eq!(Frame::Integer(7).to_string(), "7");
    assert_eq!(Frame::Integer(10).to_string(), "10");
    assert_eq!(Frame::Integer(42).to_string(), "42");
    assert_eq!(Frame::Integer(1234567890).to_string(), "1234567890");
    assert_eq!(Frame::Integer(u64::MAX).to_string(), "18446744073709551615");
}

#[test]
fn error_renders_with_its_prefix() {
    assert_eq!(
        Frame::Error(String::from("unknown command")).to_string(),
        "error: unknown command"
    );
}

#[test]
fn null_renders_as_nil() {
    assert_eq!(Frame::Null.to_string(), "(nil)");
}

#[test]
fn bulk_renders_as_text_when_it_is_utf8() {
    assert_eq!(Frame::Bulk(Bytes::from("hello world")).to_string(), "hello world");
    assert_eq!(Frame::Bulk(Bytes::from("grüße")).to_string(), "grüße");
    assert_eq!(Frame::Bulk(Bytes::from("")).to_string(), "");
}

#[test]
fn bulk_renders_escaped_when_it_is_not_utf8() {
    assert_eq!(
        Frame::Bulk(Bytes::from(vec![0xff, 0x02, b'a', b'\n'])).to_string(),
        "b\"\\xff\\x02a\\n\""
    );
}

#[test]
fn array_renders_its_parts_with_blanks_between() {
    let frame = Frame::Array(vec![
        Frame::Bulk(Bytes::from("set")),
        Frame::Simple(String::from("key")),
        Frame::Integer(12),
        Frame::Null,
        Frame::Error(String::from("no")),
    ]);
    assert_eq!(frame.to_string(), "set key 12 (nil) error: no");
    assert_eq!(Frame::Array(vec![]).to_string(), "");
    assert_eq!(Frame::Array(vec![Frame::Integer(5)]).to_string(), "5");
}

#[test]
fn nested_array_renders_flat() {
    let frame = Frame::Array(vec![
        Frame::Integer(1),
        Frame::Array(vec![Frame::Integer(2), Frame::Integer(3)]),
        Frame::Array(vec![]),
        Frame::Integer(4),
    ]);
    assert_eq!(frame.to_string(), "1 2 3  4");
}

#[test]
fn frame_equals_the_text_it_holds() {
    assert!(Frame::Simple(String::from("ping")) == "ping");
    assert!(Frame::Bulk(Bytes::from("ping")) == "ping");
    assert!(Frame::Bulk(Bytes::from("grüße")) == "grüße");
    assert!(Frame::Simple(String::new()) == "");
    assert!(Frame::Simple(String::from("ping")) != "pong");
    assert!(Frame::Simple(String::from("ping")) != "pin");
    assert!(Frame::Bulk(Bytes::from("ping")) != "pings");
    assert!(Frame::Error(String::from("ping")) != "ping");
    assert!(Frame::Integer(1) != "1");
    assert!(Frame::Null != "");
    assert!(Frame::Array(vec![Frame::Simple(String::from("ping"))]) != "ping");
}

#[test]
fn clone_gives_an_equal_frame() {
    let frame = Frame::Array(vec![
        Frame::Simple(String::from("a")),
        Frame::Error(String::from("b")),
        Frame::Integer(3),
        Frame::Bulk(Bytes::from(vec![0u8, 255])),
        Frame::Array(vec![Frame::Null, Frame::Array(vec![])]),
        Frame::Null,
    ]);
    let copy = frame.clone();
    assert_eq!(copy, frame);
    assert_eq!(Frame::Null.clone(), Frame::Null);
}

#[test]
fn builder_appends_in_order() {
    let mut frame = Frame::new();
    frame.push_bulk(Bytes::from("get"));
    frame.push_int(7);
    frame.push_bulk(Bytes::from("key"));
    assert_eq!(
        frame,
        Frame::Array(vec![
            Frame::Bulk(Bytes::from("get")),
            Frame::Integer(7),
            Frame::Bulk(Bytes::from("key")),
        ])
    );
}

#[test]
fn frame_errors_say_what_went_wrong() {
    assert_eq!(Error::Incomplete.to_string(), "stream ended early");
    assert_eq!(
        Error::Other(redis_server::Error::InvalidFrameType(33)).to_string(),
        "protocol error; invalid frame type byte `33`"
    );
    assert_eq!(
        Error::Other(redis_server::Error::InvalidFrameType(0)).to_string(),
        "protocol error; invalid frame type byte `0`"
    );
    assert_eq!(
        Error::Other(redis_server::Error::InvalidFrameType(255)).to_string(),
        "protocol error; invalid frame type byte `255`"
    );
    assert_eq!(
        Error::Other(redis_server::Error::InvalidFrameFormat).to_string(),
        "protocol error; invalid frame format"
    );
    assert_eq!(
        Error::Other(redis_server::Error::InvalidNull).to_string(),
        "protocol invalid; invalid frame format"
    );
}

#[test]
fn argument_errors_say_what_went_wrong() {
    assert_eq!(
        ParserError::NoMoreFrame.to_string(),
        "protocol error; unexpected end of stream"
    );
    assert_eq!(
        ParserError::Other(redis_server::Error::ExpectedArray).to_string(),
        "protocol error; expected array"
    );
    assert_eq!(
        ParserError::Other(redis_server::Error::ExpectedText).to_string(),
        "protocol error; expected simple frame or bulk frame"
    );
    assert_eq!(
        ParserError::Other(redis_server::Error::InvalidString).to_string(),
        "protocol error; invalid string"
    );
    assert_eq!(
        ParserError::Other(redis_server::Error::ExpectedInteger).to_string(),
        "protocol error; expected int frame"
    );
    assert_eq!(
        ParserError::Other(redis_server::Error::InvalidNumber).to_string(),
        "protocol error; invalid number"
    );
    assert_eq!(
        ParserError::Other(redis_server::Error::TrailingArguments).to_string(),
        "protocol error; expected end of frame, but there was more"
    );
    assert_eq!(
        redis_server::Error::ConnectionReset.to_string(),
        "connection reset by peer"
    );
}
