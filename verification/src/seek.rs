//! Positions to seek to.

use embedded_io::SeekFrom as EmbeddedSeekFrom;
use vstd::prelude::*;
use vstd::std_specs::convert::FromSpecImpl;

verus! {

/// `SeekFrom` specifies how to seek to a position relative to the start, end, or current position
/// of a source.
#[derive(Clone, Copy, Debug, Eq, PartialEq)]
pub enum SeekFrom {
    /// Seek to an absolute position from the start of the source.
    Start(u64),
    /// Seek to a position relative to the end of the source.
    End(i64),
    /// Seek to a position relative to the current position of the source.
    Current(i64),
}

impl SeekFrom {
    /// The absolute position that is meant, in a source of `len` bytes that stands at `position`.
    pub open spec fn target(self, len: nat, position: nat) -> int {
        match self {
            SeekFrom::Start(pos) => pos as int,
            SeekFrom::End(offset) => len + offset,
            SeekFrom::Current(offset) => position + offset,
        }
    }

    /// The same position to seek to, as a `std::io::SeekFrom`.
    pub open spec fn to_std(self) -> std::io::SeekFrom {
        match self {
            SeekFrom::Start(pos) => std::io::SeekFrom::Start(pos),
            SeekFrom::End(pos) => std::io::SeekFrom::End(pos),
            SeekFrom::Current(pos) => std::io::SeekFrom::Current(pos),
        }
    }

    /// The position to seek to that a `std::io::SeekFrom` means.
    pub open spec fn of_std(pos: std::io::SeekFrom) -> SeekFrom {
        match pos {
            std::io::SeekFrom::Start(pos) => SeekFrom::Start(pos),
            std::io::SeekFrom::End(pos) => SeekFrom::End(pos),
            std::io::SeekFrom::Current(pos) => SeekFrom::Current(pos),
        }
    }

    /// The same position to seek to, as an `embedded_io::SeekFrom`.
    pub open spec fn to_embedded(self) -> EmbeddedSeekFrom {
        match self {
            SeekFrom::Start(pos) => EmbeddedSeekFrom::Start(pos),
            SeekFrom::End(pos) => EmbeddedSeekFrom::End(pos),
            SeekFrom::Current(pos) => EmbeddedSeekFrom::Current(pos),
        }
    }
}

/// `std::io::SeekFrom`, with its variants as they are.
#[verifier::external_type_specification]
pub struct ExStdSeekFrom(std::io::SeekFrom);

/// `embedded_io::SeekFrom`, with its variants as they are.
#[verifier::external_type_specification]
pub struct ExEmbeddedSeekFrom(EmbeddedSeekFrom);

impl From<SeekFrom> for std::io::SeekFrom {
    fn from(pos: SeekFrom) -> Self {
        match pos {
            SeekFrom::Start(pos) => std::io::SeekFrom::Start(pos),
            SeekFrom::End(pos) => std::io::SeekFrom::End(pos),
            SeekFrom::Current(pos) => std::io::SeekFrom::Current(pos),
        }
    }
}

impl FromSpecImpl<SeekFrom> for std::io::SeekFrom {
    open spec fn obeys_from_spec() -> bool {
        true
    }

    open spec fn from_spec(pos: SeekFrom) -> Self {
        pos.to_std()
    }
}

impl From<std::io::SeekFrom> for SeekFrom {
    fn from(pos: std::io::SeekFrom) -> Self {
        match pos {
            std::io::SeekFrom::Start(pos) => SeekFrom::Start(pos),
            std::io::SeekFrom::End(pos) => SeekFrom::End(pos),
            std::io::SeekFrom::Current(pos) => SeekFrom::Current(pos),
        }
    }
}

impl FromSpecImpl<std::io::SeekFrom> for SeekFrom {
    open spec fn obeys_from_spec() -> bool {
        true
    }

    open spec fn from_spec(pos: std::io::SeekFrom) -> Self {
        SeekFrom::of_std(pos)
    }
}

impl From<SeekFrom> for EmbeddedSeekFrom {
    fn from(pos: SeekFrom) -> Self {
        match pos {
            SeekFrom::Start(pos) => EmbeddedSeekFrom::Start(pos),
            SeekFrom::End(pos) => EmbeddedSeekFrom::End(pos),
            SeekFrom::Current(pos) => EmbeddedSeekFrom::Current(pos),
        }
    }
}

impl FromSpecImpl<SeekFrom> for EmbeddedSeekFrom {
    open spec fn obeys_from_spec() -> bool {
        true
    }

    open spec fn from_spec(pos: SeekFrom) -> Self {
        pos.to_embedded()
    }
}

/// The conversions between [`SeekFrom`] and `std::io::SeekFrom` undo each other.
pub proof fn std_seek_from_round_trip(pos: SeekFrom, std_pos: std::io::SeekFrom)
    ensures
        SeekFrom::of_std(pos.to_std()) == pos,
        SeekFrom::of_std(std_pos).to_std() == std_pos,
{
}

/// Different positions to seek to stay different when they are handed to an `embedded_io` source.
pub proof fn embedded_seek_from_is_injective(a: SeekFrom, b: SeekFrom)
    requires
        a.to_embedded() == b.to_embedded(),
    ensures
        a == b,
{
}

/// A position to seek to keeps its origin and its offset when it is converted into a
/// `std::io::SeekFrom`.
pub proof fn std_position_keeps_origin_and_offset(
    pos: SeekFrom,
    std_pos: std::io::SeekFrom,
    p: u64,
    d: i64,
)
    requires
        call_ensures(<std::io::SeekFrom as From<SeekFrom>>::from, (pos,), std_pos),
    ensures
        pos.to_std() == std_pos,
        pos == SeekFrom::Start(p) <==> std_pos == std::io::SeekFrom::Start(p),
        pos == SeekFrom::End(d) <==> std_pos == std::io::SeekFrom::End(d),
        pos == SeekFrom::Current(d) <==> std_pos == std::io::SeekFrom::Current(d),
{
}

/// A position to seek to keeps its origin and its offset when it is made from a `std::io::SeekFrom`.
pub proof fn position_keeps_origin_and_offset_of_std(
    std_pos: std::io::SeekFrom,
    pos: SeekFrom,
    p: u64,
    d: i64,
)
    requires
        call_ensures(<SeekFrom as From<std::io::SeekFrom>>::from, (std_pos,), pos),
    ensures
        SeekFrom::of_std(std_pos) == pos,
        pos == SeekFrom::Start(p) <==> std_pos == std::io::SeekFrom::Start(p),
        pos == SeekFrom::End(d) <==> std_pos == std::io::SeekFrom::End(d),
        pos == SeekFrom::Current(d) <==> std_pos == std::io::SeekFrom::Current(d),
{
}

/// A position to seek to keeps its origin and its offset when it is handed to an `embedded_io` source.
pub proof fn embedded_position_keeps_origin_and_offset(
    pos: SeekFrom,
    embedded: EmbeddedSeekFrom,
    p: u64,
    d: i64,
)
    requires
        call_ensures(<EmbeddedSeekFrom as From<SeekFrom>>::from, (pos,), embedded),
    ensures
        pos.to_embedded() == embedded,
        pos == SeekFrom::Start(p) <==> embedded == EmbeddedSeekFrom::Start(p),
        pos == SeekFrom::End(d) <==> embedded == EmbeddedSeekFrom::End(d),
        pos == SeekFrom::Current(d) <==> embedded == EmbeddedSeekFrom::Current(d),
{
}

/// A position to seek to means an offset from the start, from the end, or from where the source
/// stands.
pub proof fn targets_are_offsets(pos: SeekFrom, len: nat, position: nat, p: u64, d: i64)
    ensures
        pos == SeekFrom::Start(p) ==> pos.target(len, position) == p,
        pos == SeekFrom::End(d) ==> pos.target(len, position) - len == d,
        pos == SeekFrom::Current(d) ==> pos.target(len, position) - position == d,
{
}

} // verus!
