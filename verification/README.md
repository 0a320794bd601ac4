# media_io

Byte-level input for media streams: reading integers of standard widths in either byte order,
reading buffers of untrusted length, seeking within buffered data, vectored reads, and the error
type that all of this shares. The library is written in Verus, and its functions are proved against
their contracts.

- `src/` is the verified library. `read_bytes` holds the `ReadBytes` trait, `source` the
  `MediaSource` trait, `buffered` the traits of streams with buffered data or a known length,
  `error` the error type and its conversions. `stream`, `endian` and `chunk` are the models that
  the contracts speak of: a stream and its position, bytes as numbers, and how a large read is cut
  into chunks.
- `app/` connects the library with the I/O traits of `std` and `embedded_io`, and reads
  floating-point values.
- `tests/` runs the library.

A type that implements `ReadBytes`, `MediaSource`, `SeekBuffered` or `FiniteStream` says in the
specification functions of the trait what its stream is, and is verified against the contracts of the
methods. A type in ordinary Rust can leave these functions out, as those in `app/` and `tests/` do. It
is compiled, but it does not meet the contracts, and nothing that is proved through the trait holds of
it.
