use bytes::Bytes;
use redis_server::server::frame::Frame;
use redis_server::server::parser::{Parser, ParserError};

fn other(reason: redis_server::Error) -> ParserError {
    ParserError::Other(reason)
}

#[test]
fn parser_refuses_what_is_no_array() {
    assert_eq!(
        Parser::new(Frame::Null).unwrap_err(),
        other(redis_server::Error::ExpectedArray)
    );
    assert_eq!(
        Parser::new(Frame::Integer(1)).unwrap_err(),
        other(redis_server::Error::ExpectedArray)
    );
}

#[test]
fn arguments_come_out_front_to_back() {
    let mut parser = Parser::new(Frame::Array(vec![
        Frame::Bulk(Bytes::from("set")),
        Frame::Simple(String::from("key")),
        Frame::Integer(9),
        Frame::Bulk(Bytes::from("12")),
    ]))
    .unwrap();
    assert_eq!(parser.next_string().unwrap(), "set");
    assert_eq!(parser.next_bytes().unwrap(), Bytes::from("key"));
    assert_eq!(parser.next_int().unwrap(), 9);
    assert_eq!(parser.next_int().unwrap(), 12);
    assert!(parser.finish().is_ok());
}

#[test]
fn next_hands_out_the_frame_itself() {
    let mut parser = Parser::new(Frame::Array(vec![
        Frame::Null,
        Frame::Array(vec![Frame::Integer(1)]),
    ]))
    .unwrap();
    assert_eq!(parser.next().unwrap(), Frame::Null);
    assert_eq!(parser.next().unwrap(), Frame::Array(vec![Frame::Integer(1)]));
    assert_eq!(parser.next().unwrap_err(), ParserError::NoMoreFrame);
}

#[test]
fn next_int_reads_a_bulk_number() {
    let mut parser = Parser::new(Frame::Array(vec![Frame::Bulk(Bytes::from("42"))])).unwrap();
    assert_eq!(parser.next_int(), Ok(42));
}

#[test]
fn null_is_no_argument_of_any_type() {
    let mut parser = Parser::new(Frame::Array(vec![Frame::Null])).unwrap();
    assert_eq!(parser.next_int(), Err(other(redis_server::Error::ExpectedInteger)));
    let mut parser = Parser::new(Frame::Array(vec![Frame::Null])).unwrap();
    assert_eq!(
        parser.next_bytes().unwrap_err(),
        other(redis_server::Error::ExpectedText)
    );
    let mut parser = Parser::new(Frame::Array(vec![Frame::Null])).unwrap();
    assert_eq!(
        parser.next_string().unwrap_err(),
        other(redis_server::Error::ExpectedText)
    );
}

#[test]
fn running_out_is_told_apart_from_a_wrong_type() {
    let mut parser = Parser::new(Frame::Array(vec![Frame::Integer(1)])).unwrap();
    assert_eq!(
        parser.next_string().unwrap_err(),
        other(redis_server::Error::ExpectedText)
    );
    assert_eq!(parser.next_string().unwrap_err(), ParserError::NoMoreFrame);
    assert_eq!(parser.next_bytes().unwrap_err(), ParserError::NoMoreFrame);
    assert_eq!(parser.next_int().unwrap_err(), ParserError::NoMoreFrame);
    assert_eq!(parser.next_int().unwrap_err(), ParserError::NoMoreFrame);
}

#[test]
fn next_string_wants_utf8() {
    let mut parser = Parser::new(Frame::Array(vec![
        Frame::Bulk(Bytes::from(vec![0xff, 0x02, 0x03])),
        Frame::Bulk(Bytes::from("grüße")),
    ]))
    .unwrap();
    assert_eq!(
        parser.next_string().unwrap_err(),
        other(redis_server::Error::InvalidString)
    );
    assert_eq!(parser.next_string().unwrap(), "grüße");
}

#[test]
fn next_bytes_encodes_simple_text() {
    let mut parser = Parser::new(Frame::Array(vec![
        Frame::Simple(String::from("grüße")),
        Frame::Bulk(Bytes::from(vec![0xff, 0x00])),
    ]))
    .unwrap();
    assert_eq!(parser.next_bytes().unwrap(), Bytes::from("grüße".as_bytes().to_vec()));
    assert_eq!(parser.next_bytes().unwrap(), Bytes::from(vec![0xff, 0x00]));
}

#[test]
fn next_int_takes_digits_only() {
    let texts = vec!["", "12a", "+12", "-1", " 12", "12 ", "1e3", "18446744073709551616"];
    for text in texts {
        let mut parser = Parser::new(Frame::Array(vec![
            Frame::Simple(String::from(text)),
            Frame::Bulk(Bytes::from(text.as_bytes().to_vec())),
        ]))
        .unwrap();
        assert_eq!(parser.next_int(), Err(other(redis_server::Error::InvalidNumber)));
        assert_eq!(parser.next_int(), Err(other(redis_server::Error::InvalidNumber)));
    }
    let mut parser = Parser::new(Frame::Array(vec![
        Frame::Simple(String::from("18446744073709551615")),
        Frame::Bulk(Bytes::from("000")),
    ]))
    .unwrap();
    assert_eq!(parser.next_int(), Ok(u64::MAX));
    assert_eq!(parser.next_int(), Ok(0));
}

#[test]
fn next_int_refuses_other_frames() {
    let mut parser = Parser::new(Frame::Array(vec![
        Frame::Error(String::from("1")),
        Frame::Array(vec![Frame::Integer(1)]),
    ]))
    .unwrap();
    assert_eq!(parser.next_int(), Err(other(redis_server::Error::ExpectedInteger)));
    assert_eq!(parser.next_int(), Err(other(redis_server::Error::ExpectedInteger)));
}

#[test]
fn finish_after_draining_succeeds() {
    let mut parser = Parser::new(Frame::Array(vec![
        Frame::Integer(1),
        Frame::Integer(2),
    ]))
    .unwrap();
    assert_eq!(parser.next_int(), Ok(1));
    assert_eq!(parser.next_int(), Ok(2));
    assert_eq!(parser.finish(), Ok(()));
    assert_eq!(parser.finish(), Ok(()));
}

#[test]
fn finish_with_arguments_left_fails() {
    let mut parser = Parser::new(Frame::Array(vec![
        Frame::Integer(1),
        Frame::Integer(2),
    ]))
    .unwrap();
    assert_eq!(parser.next_int(), Ok(1));
    assert_eq!(
        parser.finish(),
        Err(other(redis_server::Error::TrailingArguments))
    );
}

#[test]
fn finish_drops_the_argument_it_finds() {
    let mut parser = Parser::new(Frame::Array(vec![
        Frame::Integer(1),
        Frame::Integer(2),
    ]))
    .unwrap();
    assert!(parser.finish().is_err());
    assert_eq!(parser.next_int(), Ok(2));
    assert!(parser.finish().is_ok());
}
