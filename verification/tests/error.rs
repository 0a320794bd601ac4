use media_io::{map_embedded_io_error, MediaError, MediaErrorKind};
use std::io::ErrorKind;

#[test]
fn constructors_set_kind_and_message() {
    assert_eq!(MediaError::eof().kind(), MediaErrorKind::Eof);
    assert_eq!(MediaError::eof().as_message(), None);
    assert_eq!(MediaError::end_of_bitstream().kind(), MediaErrorKind::EndOfBitstream);
    assert_eq!(MediaError::end_of_bitstream().as_message(), None);
    assert_eq!(MediaError::interrupted().kind(), MediaErrorKind::Interrupted);
    assert_eq!(MediaError::interrupted().as_message(), None);
    assert_eq!(MediaError::message("bad").kind(), MediaErrorKind::Message("bad"));
    assert_eq!(MediaError::message("bad").as_message(), Some("bad"));
    let err = MediaError::eof_message("out of bounds");
    assert_eq!(err.kind(), MediaErrorKind::Eof);
    assert_eq!(err.as_message(), Some("out of bounds"));
}

#[test]
fn text_is_message_or_text_of_kind() {
    assert_eq!(MediaError::eof().to_text(), "unexpected end of stream");
    assert_eq!(MediaError::interrupted().to_text(), "I/O operation interrupted");
    assert_eq!(MediaError::end_of_bitstream().to_text(), "unexpected end of bitstream");
    assert_eq!(MediaError::message("bad").to_text(), "bad");
    assert_eq!(MediaError::eof_message("out of bounds").to_text(), "out of bounds");
    assert_eq!(MediaErrorKind::Message("bad").as_str(), "bad");
}

#[test]
fn eof_becomes_unexpected_eof() {
    let io = std::io::Error::from(MediaError::eof());
    assert_eq!(io.kind(), ErrorKind::UnexpectedEof);
    assert!(io.get_ref().is_none());

    let io = std::io::Error::from(MediaError::eof_message("out of bounds"));
    assert_eq!(io.kind(), ErrorKind::UnexpectedEof);
    assert_eq!(io.get_ref().unwrap().to_string(), "out of bounds");
}

#[test]
fn end_of_bitstream_becomes_other() {
    let io = std::io::Error::from(MediaError::end_of_bitstream());
    assert_eq!(io.kind(), ErrorKind::Other);
    assert_eq!(io.get_ref().unwrap().to_string(), "unexpected end of bitstream");
}

#[test]
fn interruption_becomes_interrupted() {
    let io = std::io::Error::from(MediaError::interrupted());
    assert_eq!(io.kind(), ErrorKind::Interrupted);
    assert!(io.get_ref().is_none());
}

#[test]
fn message_becomes_other() {
    let io = std::io::Error::from(MediaError::message("bad"));
    assert_eq!(io.kind(), ErrorKind::Other);
    assert_eq!(io.get_ref().unwrap().to_string(), "bad");
    assert_eq!(io.to_string(), "bad");
}

#[test]
fn io_errors_are_classified() {
    let kind = |kind: ErrorKind| MediaError::from(std::io::Error::from(kind)).kind();
    assert_eq!(kind(ErrorKind::UnexpectedEof), MediaErrorKind::Eof);
    assert_eq!(kind(ErrorKind::Interrupted), MediaErrorKind::Interrupted);
    assert_eq!(kind(ErrorKind::Other), MediaErrorKind::EndOfBitstream);
    assert_eq!(kind(ErrorKind::NotFound), MediaErrorKind::Message("I/O error"));
    assert_eq!(kind(ErrorKind::InvalidData), MediaErrorKind::Message("I/O error"));
    let err = MediaError::from(std::io::Error::new(ErrorKind::UnexpectedEof, "text"));
    assert_eq!(err.as_message(), None);
}

/// An error that can be neither displayed nor debugged.
struct Mute;

impl std::fmt::Debug for Mute {
    fn fmt(&self, _: &mut std::fmt::Formatter) -> std::fmt::Result {
        panic!("the error was debugged")
    }
}

impl std::fmt::Display for Mute {
    fn fmt(&self, _: &mut std::fmt::Formatter) -> std::fmt::Result {
        panic!("the error was displayed")
    }
}

impl std::error::Error for Mute {}

#[test]
fn other_io_errors_are_told_apart_by_what_they_wrap() {
    let kind = |io: std::io::Error| MediaError::from(io).kind();
    assert_eq!(kind(std::io::Error::other("disk gone")), MediaErrorKind::EndOfBitstream);
    assert_eq!(
        kind(std::io::Error::other("unexpected end of bitstream")),
        MediaErrorKind::EndOfBitstream
    );
    assert_eq!(kind(std::io::Error::other(Mute)), MediaErrorKind::EndOfBitstream);
    assert_eq!(
        kind(std::io::Error::other(std::io::Error::other("bad"))),
        MediaErrorKind::Message("I/O error")
    );
    assert_eq!(
        kind(std::io::Error::new(ErrorKind::UnexpectedEof, std::io::Error::other("bad"))),
        MediaErrorKind::Eof
    );
    assert_eq!(
        kind(std::io::Error::new(ErrorKind::NotFound, "unexpected end of bitstream")),
        MediaErrorKind::Message("I/O error")
    );
}

#[test]
fn io_parts_are_classified() {
    let kind =
        |kind: ErrorKind, wrapped: bool| MediaError::from_io_parts(kind, wrapped).kind();
    let message = MediaErrorKind::Message("I/O error");
    for wrapped in [false, true] {
        assert_eq!(kind(ErrorKind::TimedOut, wrapped), message);
        assert_eq!(kind(ErrorKind::UnexpectedEof, wrapped), MediaErrorKind::Eof);
        assert_eq!(kind(ErrorKind::Interrupted, wrapped), MediaErrorKind::Interrupted);
    }
    assert_eq!(kind(ErrorKind::Other, false), MediaErrorKind::EndOfBitstream);
    assert_eq!(kind(ErrorKind::Other, true), message);
}

#[test]
fn kinds_survive_the_round_trip() {
    let back = |err: MediaError| MediaError::from(std::io::Error::from(err)).kind();
    assert_eq!(back(MediaError::eof()), MediaErrorKind::Eof);
    assert_eq!(back(MediaError::eof_message("out of bounds")), MediaErrorKind::Eof);
    assert_eq!(back(MediaError::interrupted()), MediaErrorKind::Interrupted);
    assert_eq!(back(MediaError::end_of_bitstream()), MediaErrorKind::EndOfBitstream);
    // The text of a generic message is dropped.
    assert_eq!(back(MediaError::message("bad")), MediaErrorKind::Message("I/O error"));
    assert_eq!(
        back(MediaError::message("unexpected end of bitstream")),
        MediaErrorKind::Message("I/O error")
    );
}

#[test]
fn io_kinds_survive_the_round_trip() {
    let back =
        |kind: ErrorKind| std::io::Error::from(MediaError::from(std::io::Error::from(kind))).kind();
    assert_eq!(back(ErrorKind::UnexpectedEof), ErrorKind::UnexpectedEof);
    assert_eq!(back(ErrorKind::Interrupted), ErrorKind::Interrupted);
    assert_eq!(back(ErrorKind::Other), ErrorKind::Other);
    assert_eq!(back(ErrorKind::NotFound), ErrorKind::Other);
}

#[test]
fn embedded_errors_are_mapped() {
    let kind = |kind: embedded_io::ErrorKind| map_embedded_io_error(kind).kind();
    assert_eq!(kind(embedded_io::ErrorKind::Interrupted), MediaErrorKind::Interrupted);
    assert_eq!(
        kind(embedded_io::ErrorKind::Other),
        MediaErrorKind::Message("embedded I/O error")
    );
    assert_eq!(
        kind(embedded_io::ErrorKind::NotFound),
        MediaErrorKind::Message("embedded I/O error")
    );
}
