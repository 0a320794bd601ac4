//! The error type of all readers and streams, and its conversions.

use vstd::prelude::*;
use vstd::std_specs::convert::FromSpecImpl;

verus! {

/// `MediaErrorKind` classifies a [`MediaError`].
///
/// The kind is the only part of an error that the reading stack or its consumers depend on for
/// control flow, so it is retained when an error crosses the I/O boundary.
#[non_exhaustive]
#[derive(Debug, Clone, Copy, PartialEq, Eq)]
pub enum MediaErrorKind {
    /// The stream was exhausted. The read extended past the end of the source, or past the bound of
    /// a scoped stream.
    Eof,
    /// The I/O operation was interrupted and may be retried.
    Interrupted,
    /// The end of a read-ahead buffer or bitstream was reached.
    EndOfBitstream,
    /// A generic I/O error with a static message.
    Message(&'static str),
}

impl MediaErrorKind {
    /// The text that describes an error of this kind.
    pub open spec fn text(self) -> Seq<char> {
        match self {
            MediaErrorKind::Eof => "unexpected end of stream"@,
            MediaErrorKind::Interrupted => "I/O operation interrupted"@,
            MediaErrorKind::EndOfBitstream => "unexpected end of bitstream"@,
            MediaErrorKind::Message(msg) => msg@,
        }
    }

    /// The kind of `std::io::Error` that stands for this kind.
    pub open spec fn as_io_kind(self) -> std::io::ErrorKind {
        match self {
            MediaErrorKind::Eof => std::io::ErrorKind::UnexpectedEof,
            MediaErrorKind::Interrupted => std::io::ErrorKind::Interrupted,
            MediaErrorKind::EndOfBitstream => std::io::ErrorKind::Other,
            MediaErrorKind::Message(_) => std::io::ErrorKind::Other,
        }
    }

    /// The kind that stands for a `std::io::Error` of kind `kind`, where `wraps_another` says whether it
    /// wraps another `std::io::Error`. Only the kinds that are meaningful to the reading stack are
    /// told apart.
    ///
    /// The end of a bitstream and a generic message both become errors of kind `Other`. Only the
    /// latter becomes one that wraps another, which tells them apart on the way back.
    pub open spec fn of_io(kind: std::io::ErrorKind, wraps_another: bool) -> MediaErrorKind {
        match kind {
            std::io::ErrorKind::UnexpectedEof => MediaErrorKind::Eof,
            std::io::ErrorKind::Interrupted => MediaErrorKind::Interrupted,
            std::io::ErrorKind::Other => if wraps_another {
                MediaErrorKind::Message("I/O error")
            } else {
                MediaErrorKind::EndOfBitstream
            },
            _ => MediaErrorKind::Message("I/O error"),
        }
    }

    /// Returns the text that describes an error of this kind.
    pub fn as_str(&self) -> (text: &'static str)
        ensures
            text@ == self.text(),
    {
        match self {
            MediaErrorKind::Eof => "unexpected end of stream",
            MediaErrorKind::Interrupted => "I/O operation interrupted",
            MediaErrorKind::EndOfBitstream => "unexpected end of bitstream",
            MediaErrorKind::Message(msg) => msg,
        }
    }
}

/// `MediaError` is the error type used by all readers and streams.
///
/// It is the equivalent of `std::io::Error` without the allocation requirement.
#[derive(Debug)]
pub struct MediaError {
    kind: MediaErrorKind,
    message: Option<&'static str>,
}

/// `MediaResult` is a convenience type alias for `Result<T, MediaError>`.
pub type MediaResult<T> = Result<T, MediaError>;

impl MediaError {
    /// The kind of this error.
    pub closed spec fn spec_kind(self) -> MediaErrorKind {
        self.kind
    }

    /// The additional message of this error, if it carries one.
    pub closed spec fn spec_message(self) -> Option<&'static str> {
        self.message
    }

    /// The message that was provided when this error was made, if one was: an additional message, or
    /// that of a generic error.
    pub open spec fn provided_message(self) -> Option<&'static str> {
        match (self.spec_message(), self.spec_kind()) {
            (Some(msg), _) => Some(msg),
            (None, MediaErrorKind::Message(msg)) => Some(msg),
            _ => None,
        }
    }

    /// Whether this error has the given kind and carries no additional message.
    pub open spec fn is_plain(self, kind: MediaErrorKind) -> bool {
        &&& self.spec_kind() == kind
        &&& self.spec_message() is None
    }

    /// The text that is shown to a user: the additional message where there is one, the text of the
    /// kind otherwise.
    pub open spec fn text(self) -> Seq<char> {
        match self.spec_message() {
            Some(msg) => msg@,
            None => self.spec_kind().text(),
        }
    }

    /// The text that goes into a `std::io::Error` made from this error, if any does.
    pub open spec fn io_payload(self) -> Option<Seq<char>> {
        match (self.spec_kind(), self.spec_message()) {
            (MediaErrorKind::Eof, Some(msg)) => Some(msg@),
            (MediaErrorKind::Eof, None) => None,
            (MediaErrorKind::EndOfBitstream, Some(msg)) => Some(msg@),
            (MediaErrorKind::EndOfBitstream, None) => Some("unexpected end of bitstream"@),
            (MediaErrorKind::Interrupted, _) => None,
            (MediaErrorKind::Message(msg), _) => Some(msg@),
        }
    }

    /// Whether `io` is what this error becomes when it is converted into a `std::io::Error`.
    pub open spec fn becomes(self, io: std::io::Error) -> bool {
        &&& io_error_kind(io) == self.spec_kind().as_io_kind()
        &&& io_error_wraps_another(io) <==> self.spec_kind() is Message
        &&& io_error_payload(io) == self.io_payload()
    }

    /// Whether this error is what `io` is converted into.
    pub open spec fn stands_for(self, io: std::io::Error) -> bool {
        self.is_plain(MediaErrorKind::of_io(io_error_kind(io), io_error_wraps_another(io)))
    }

    /// The stream was exhausted.
    pub fn eof() -> (err: Self)
        ensures
            err.is_plain(MediaErrorKind::Eof),
    {
        MediaError { kind: MediaErrorKind::Eof, message: None }
    }

    /// The stream was exhausted, with an additional static message describing the boundary that was
    /// exceeded.
    pub fn eof_message(message: &'static str) -> (err: Self)
        ensures
            err.spec_kind() == MediaErrorKind::Eof,
            err.spec_message() == Some(message),
    {
        MediaError { kind: MediaErrorKind::Eof, message: Some(message) }
    }

    /// The end of a read-ahead buffer or bitstream was reached.
    pub fn end_of_bitstream() -> (err: Self)
        ensures
            err.is_plain(MediaErrorKind::EndOfBitstream),
    {
        MediaError { kind: MediaErrorKind::EndOfBitstream, message: None }
    }

    /// A generic I/O error with the given message.
    pub fn message(msg: &'static str) -> (err: Self)
        ensures
            err.is_plain(MediaErrorKind::Message(msg)),
    {
        MediaError { kind: MediaErrorKind::Message(msg), message: None }
    }

    /// The I/O operation was interrupted and may be retried.
    pub fn interrupted() -> (err: Self)
        ensures
            err.is_plain(MediaErrorKind::Interrupted),
    {
        MediaError { kind: MediaErrorKind::Interrupted, message: None }
    }

    /// Returns the kind of this error.
    pub fn kind(&self) -> (kind: MediaErrorKind)
        ensures
            kind == self.spec_kind(),
    {
        self.kind
    }

    /// Returns the static message of this error, if one was provided.
    pub fn as_message(&self) -> (message: Option<&'static str>)
        ensures
            message == self.provided_message(),
    {
        match (self.message, self.kind) {
            (Some(msg), _) => Some(msg),
            (None, MediaErrorKind::Message(msg)) => Some(msg),
            _ => None,
        }
    }

    /// Returns the text that is shown to a user: the message of this error if one was provided, or
    /// the text of its kind.
    pub fn to_text(&self) -> (text: &'static str)
        ensures
            text@ == self.text(),
    {
        match self.message {
            Some(msg) => msg,
            None => self.kind.as_str(),
        }
    }

    /// Returns the error that stands for a `std::io::Error` of the given kind, where `wraps_another` says
    /// whether it wraps another `std::io::Error`. Only the kinds meaningful to the reading stack are
    /// remapped; all other kinds collapse to a generic message error.
    pub fn from_io_parts(kind: std::io::ErrorKind, wraps_another: bool) -> (err: Self)
        ensures
            err.is_plain(MediaErrorKind::of_io(kind, wraps_another)),
    {
        match kind {
            std::io::ErrorKind::UnexpectedEof => MediaError::eof(),
            std::io::ErrorKind::Interrupted => MediaError::interrupted(),
            std::io::ErrorKind::Other => {
                if wraps_another {
                    MediaError::message("I/O error")
                } else {
                    MediaError::end_of_bitstream()
                }
            },
            _ => MediaError::message("I/O error"),
        }
    }
}

/// `std::io::ErrorKind`, with its variants as they are.
#[verifier::external_type_specification]
pub struct ExIoErrorKind(std::io::ErrorKind);

/// `std::io::Error`, of which only what the functions below say is known.
#[verifier::external_type_specification]
#[verifier::external_body]
pub struct ExIoError(std::io::Error);

/// `embedded_io::ErrorKind`, with its variants as they are.
#[verifier::external_type_specification]
pub struct ExEmbeddedErrorKind(embedded_io::ErrorKind);

/// What `std::io::Error::kind` returns for `err`.
pub uninterp spec fn io_error_kind(err: std::io::Error) -> std::io::ErrorKind;

/// Whether `err` wraps another `std::io::Error`, that is, whether `std::io::Error::downcast` to that
/// type succeeds.
pub uninterp spec fn io_error_wraps_another(err: std::io::Error) -> bool;

/// The text that `err` was made from, or, where `err` wraps another `std::io::Error`, that text of the
/// wrapped one. The error that `std::io::Error::get_ref` returns shows as that text. `None` stands for
/// an error that was not made from a text.
pub uninterp spec fn io_error_payload(err: std::io::Error) -> Option<Seq<char>>;

/// Calls `std::io::Error::kind`, which returns the kind of an error.
#[verifier::external_body]
fn kind_of_io_error(err: &std::io::Error) -> (kind: std::io::ErrorKind)
    ensures
        kind == io_error_kind(*err),
{
    err.kind()
}

/// Calls `std::io::Error::downcast`, which returns the `std::io::Error` that `err` wraps, or gives
/// `err` back where it wraps none. What is returned besides is left unsaid.
#[verifier::external_body]
fn unwrap_io_error(err: std::io::Error) -> (res: Result<std::io::Error, std::io::Error>)
    ensures
        res is Ok <==> io_error_wraps_another(err),
{
    err.downcast::<std::io::Error>()
}

/// Calls `std::io::Error::from` on a kind, which makes an error of that kind without an inner error.
#[verifier::external_body]
fn io_error_from_kind(kind: std::io::ErrorKind) -> (err: std::io::Error)
    ensures
        io_error_kind(err) == kind,
        !io_error_wraps_another(err),
        io_error_payload(err) is None,
{
    std::io::Error::from(kind)
}

/// Calls `std::io::Error::new`, which makes an error of the given kind whose inner error holds the
/// given text.
#[verifier::external_body]
fn io_error_new(kind: std::io::ErrorKind, msg: &'static str) -> (err: std::io::Error)
    ensures
        io_error_kind(err) == kind,
        !io_error_wraps_another(err),
        io_error_payload(err) == Some(msg@),
{
    std::io::Error::new(kind, msg)
}

/// Calls `std::io::Error::other`, which makes an error of kind `Other` whose inner error holds the
/// given text.
#[verifier::external_body]
pub(crate) fn io_error_other(msg: &'static str) -> (err: std::io::Error)
    ensures
        io_error_kind(err) == std::io::ErrorKind::Other,
        !io_error_wraps_another(err),
        io_error_payload(err) == Some(msg@),
{
    std::io::Error::other(msg)
}

/// Calls `std::io::Error::other` on a `std::io::Error`, which makes an error of kind `Other` that
/// wraps `inner`, and shows the text that `inner` was made from.
#[verifier::external_body]
fn io_error_wrap(inner: std::io::Error) -> (err: std::io::Error)
    ensures
        io_error_kind(err) == std::io::ErrorKind::Other,
        io_error_wraps_another(err),
        io_error_payload(err) == io_error_payload(inner),
{
    std::io::Error::other(inner)
}

impl From<MediaError> for std::io::Error {
    /// Converts a [`MediaError`] into a `std::io::Error`, preserving the I/O error kind so that
    /// callers matching on `std::io::ErrorKind` (e.g., `ErrorKind::UnexpectedEof`) continue to
    /// work. A generic message error is wrapped once more, so that it is not taken for the end of a
    /// bitstream when it is converted back.
    fn from(err: MediaError) -> (io: Self)
        ensures
            err.becomes(io),
    {
        match (err.kind, err.message) {
            (MediaErrorKind::Eof, Some(msg)) => {
                io_error_new(std::io::ErrorKind::UnexpectedEof, msg)
            },
            (MediaErrorKind::Eof, None) => io_error_from_kind(std::io::ErrorKind::UnexpectedEof),
            (MediaErrorKind::EndOfBitstream, Some(msg)) => io_error_other(msg),
            (MediaErrorKind::EndOfBitstream, None) => {
                io_error_other("unexpected end of bitstream")
            },
            (MediaErrorKind::Interrupted, _) => {
                io_error_from_kind(std::io::ErrorKind::Interrupted)
            },
            (MediaErrorKind::Message(msg), _) => io_error_wrap(io_error_other(msg)),
        }
    }
}

/// A `std::io::Error` is opaque, so that no value of it is named here: [`MediaError::becomes`] says
/// what the conversion makes.
impl FromSpecImpl<MediaError> for std::io::Error {
    open spec fn obeys_from_spec() -> bool {
        false
    }

    open spec fn from_spec(err: MediaError) -> Self {
        choose|io: std::io::Error| err.becomes(io)
    }
}

impl From<std::io::Error> for MediaError {
    /// Converts a `std::io::Error` into a [`MediaError`]. The source message is dropped since a
    /// `MediaError` cannot own an allocation.
    fn from(io: std::io::Error) -> (err: Self)
        ensures
            err.stands_for(io),
    {
        let kind = kind_of_io_error(&io);
        MediaError::from_io_parts(kind, unwrap_io_error(io).is_ok())
    }
}

impl FromSpecImpl<std::io::Error> for MediaError {
    open spec fn obeys_from_spec() -> bool {
        true
    }

    closed spec fn from_spec(io: std::io::Error) -> Self {
        MediaError {
            kind: MediaErrorKind::of_io(io_error_kind(io), io_error_wraps_another(io)),
            message: None,
        }
    }
}

/// Maps the kind of an `embedded_io` error to a [`MediaError`].
pub fn map_embedded_io_error(kind: embedded_io::ErrorKind) -> (err: MediaError)
    ensures
        err.is_plain(
            if kind is Interrupted {
                MediaErrorKind::Interrupted
            } else {
                MediaErrorKind::Message("embedded I/O error")
            },
        ),
{
    match kind {
        embedded_io::ErrorKind::Interrupted => MediaError::interrupted(),
        _ => MediaError::message("embedded I/O error"),
    }
}

/// An error that is converted into a `std::io::Error` and back keeps its kind, up to the text of a
/// generic message, which is dropped.
pub proof fn io_error_round_trip_keeps_kind(err: MediaError, io: std::io::Error, back: MediaError)
    requires
        err.becomes(io),
        back.stands_for(io),
    ensures
        err.spec_kind() is Message ==> back.is_plain(MediaErrorKind::Message("I/O error")),
        !(err.spec_kind() is Message) ==> back.is_plain(err.spec_kind()),
{
}

/// A `std::io::Error` that is converted into a [`MediaError`] and back keeps its kind, where the
/// kind is one that the reading stack depends on. Every other kind comes back as `Other`.
pub proof fn media_error_round_trip_keeps_kind(
    io: std::io::Error,
    err: MediaError,
    back: std::io::Error,
)
    requires
        err.stands_for(io),
        err.becomes(back),
    ensures
        (io_error_kind(io) is UnexpectedEof || io_error_kind(io) is Interrupted) ==> io_error_kind(
            back,
        ) == io_error_kind(io),
        !(io_error_kind(io) is UnexpectedEof) && !(io_error_kind(io) is Interrupted)
            ==> io_error_kind(back) is Other,
{
}

/// The end of a stream, and nothing else, becomes a `std::io::Error` of kind `UnexpectedEof`; an
/// interruption, and nothing else, one of kind `Interrupted`.
pub proof fn io_kinds_tell_errors_apart(err: MediaError, io: std::io::Error)
    requires
        err.becomes(io),
    ensures
        io_error_kind(io) is UnexpectedEof <==> err.spec_kind() is Eof,
        io_error_kind(io) is Interrupted <==> err.spec_kind() is Interrupted,
{
}

/// An I/O error ends a bitstream only where it is of kind `Other`, ends a stream only where it is of
/// kind `UnexpectedEof`, and interrupts only where it is of kind `Interrupted`. An I/O error of any
/// other kind is a generic one.
pub proof fn io_errors_are_generic_by_default(kind: std::io::ErrorKind, wraps: bool, err: MediaError)
    requires
        call_ensures(MediaError::from_io_parts, (kind, wraps), err),
    ensures
        err.spec_message() is None,
        err.spec_kind() is Eof <==> kind == std::io::ErrorKind::UnexpectedEof,
        err.spec_kind() is Interrupted <==> kind == std::io::ErrorKind::Interrupted,
        err.spec_kind() is EndOfBitstream <==> kind == std::io::ErrorKind::Other && !wraps,
        err.spec_kind() is Message ==> err.spec_kind() == MediaErrorKind::Message("I/O error"),
        kind != std::io::ErrorKind::UnexpectedEof && kind != std::io::ErrorKind::Interrupted && kind
            != std::io::ErrorKind::Other ==> err.spec_kind() is Message,
{
}

/// A converted `std::io::Error` is what the kind of the error asks for: an I/O error ends a bitstream
/// only where it is of kind `Other`, and an I/O error of a kind that the reading stack does not depend
/// on is a generic one.
pub proof fn only_other_io_errors_end_a_bitstream(io: std::io::Error, err: MediaError)
    requires
        call_ensures(<MediaError as From<std::io::Error>>::from, (io,), err),
    ensures
        err.spec_message() is None,
        err.spec_kind() is Eof <==> io_error_kind(io) == std::io::ErrorKind::UnexpectedEof,
        err.spec_kind() is Interrupted <==> io_error_kind(io) == std::io::ErrorKind::Interrupted,
        err.spec_kind() is EndOfBitstream <==> io_error_kind(io) == std::io::ErrorKind::Other
            && !io_error_wraps_another(io),
        err.spec_kind() is Message ==> err.spec_kind() == MediaErrorKind::Message("I/O error"),
        io_error_kind(io) != std::io::ErrorKind::UnexpectedEof && io_error_kind(io)
            != std::io::ErrorKind::Interrupted && io_error_kind(io) != std::io::ErrorKind::Other
            ==> err.spec_kind() is Message,
{
}

/// An error becomes an I/O error of the kind that stands for its own, with the message that it
/// carries: that of a generic error, or the additional one, or, for the end of a bitstream, the text of
/// the kind. Nothing else carries a text.
pub proof fn io_errors_carry_the_message(err: MediaError, io: std::io::Error)
    requires
        call_ensures(<std::io::Error as From<MediaError>>::from, (err,), io),
    ensures
        err.spec_kind() is Eof ==> io_error_kind(io) == std::io::ErrorKind::UnexpectedEof,
        err.spec_kind() is Interrupted ==> io_error_kind(io) == std::io::ErrorKind::Interrupted,
        err.spec_kind() is EndOfBitstream || err.spec_kind() is Message ==> io_error_kind(io)
            == std::io::ErrorKind::Other,
        err.spec_kind() is Message <==> io_error_wraps_another(io),
        err.spec_kind() matches MediaErrorKind::Message(msg) ==> io_error_payload(io) == Some(msg@),
        err.spec_kind() is Interrupted ==> io_error_payload(io) is None,
        err.spec_kind() is Eof || err.spec_kind() is EndOfBitstream ==> (err.spec_message() matches
            Some(msg) ==> io_error_payload(io) == Some(msg@)),
        err.spec_kind() is Eof && err.spec_message() is None ==> io_error_payload(io) is None,
        err.spec_kind() is EndOfBitstream && err.spec_message() is None ==> io_error_payload(io)
            == Some("unexpected end of bitstream"@),
{
}

/// An error that is converted into a `std::io::Error` and back keeps its kind, whatever it is, up to
/// the text of a generic message.
pub proof fn conversions_keep_the_kind(err: MediaError, io: std::io::Error, back: MediaError)
    requires
        call_ensures(<std::io::Error as From<MediaError>>::from, (err,), io),
        call_ensures(<MediaError as From<std::io::Error>>::from, (io,), back),
    ensures
        err.spec_kind() is Eof <==> back.spec_kind() is Eof,
        err.spec_kind() is Interrupted <==> back.spec_kind() is Interrupted,
        err.spec_kind() is EndOfBitstream <==> back.spec_kind() is EndOfBitstream,
        err.spec_kind() is Message <==> back.spec_kind() is Message,
{
}

/// An `embedded_io` error is an interruption where its kind says so, and a generic error otherwise.
pub proof fn embedded_errors_are_generic_by_default(kind: embedded_io::ErrorKind, err: MediaError)
    requires
        call_ensures(map_embedded_io_error, (kind,), err),
    ensures
        err.spec_message() is None,
        err.spec_kind() is Interrupted <==> kind == embedded_io::ErrorKind::Interrupted,
        kind != embedded_io::ErrorKind::Interrupted ==> err.spec_kind() == MediaErrorKind::Message(
            "embedded I/O error",
        ),
{
}

/// What is asked of an error that was made with a message gives that message back, and the error shows
/// as it.
pub proof fn messages_are_kept(
    msg: &'static str,
    err: MediaError,
    kind: MediaErrorKind,
    message: Option<&'static str>,
    text: &'static str,
)
    requires
        call_ensures(MediaError::kind, (&err,), kind),
        call_ensures(MediaError::as_message, (&err,), message),
        call_ensures(MediaError::to_text, (&err,), text),
    ensures
        call_ensures(MediaError::message, (msg,), err) ==> kind == MediaErrorKind::Message(msg)
            && message == Some(msg) && text@ == msg@,
        call_ensures(MediaError::eof_message, (msg,), err) ==> kind == MediaErrorKind::Eof && message
            == Some(msg) && text@ == msg@,
{
}

/// An error that was made without a message has the kind that it was made for, has no message, and
/// shows as the text of that kind.
pub proof fn plain_errors_show_their_kind(
    err: MediaError,
    kind: MediaErrorKind,
    message: Option<&'static str>,
    text: &'static str,
    kind_text: &'static str,
)
    requires
        call_ensures(MediaError::kind, (&err,), kind),
        call_ensures(MediaError::as_message, (&err,), message),
        call_ensures(MediaError::to_text, (&err,), text),
        call_ensures(MediaErrorKind::as_str, (&kind,), kind_text),
    ensures
        call_ensures(MediaError::eof, (), err) ==> kind == MediaErrorKind::Eof && message is None
            && text@ == "unexpected end of stream"@,
        call_ensures(MediaError::interrupted, (), err) ==> kind == MediaErrorKind::Interrupted
            && message is None && text@ == "I/O operation interrupted"@,
        call_ensures(MediaError::end_of_bitstream, (), err) ==> kind
            == MediaErrorKind::EndOfBitstream && message is None && text@
            == "unexpected end of bitstream"@,
        message is None ==> text@ == kind_text@,
        message matches Some(msg) ==> text@ == msg@,
        kind matches MediaErrorKind::Message(msg) ==> kind_text@ == msg@,
{
}

} // verus!
