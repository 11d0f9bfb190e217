# netlink-packet-xfrm

Encoding and decoding of the structures and messages of the Linux XFRM
(IPsec) netlink interface, written in Verus and verified.

Every fixed-layout structure (`Address`, `Id`, `Selector`, `UserSaInfo`,
`UserPolicyInfo`, ... ) has

* `spec_bytes`, its wire image, and `decodes`, what a byte sequence says of
  it, both as specifications;
* `parse`, which fails with `ParseError::BufferTooSmall` on a short input and
  otherwise returns the value that the input decodes to;
* `emit`, which writes the wire image over the start of a buffer and leaves
  the rest of it alone, and `buffer_len`, the length of the image;
* proofs that decoding an image gives the value back, that encoding a decoded
  value gives the input back with padding bytes zeroed, and that at most one
  value decodes from given bytes.

The structures with a trailing part (`Alg`, `SecurityCtx`, `ReplayEsn`) have
the same operations, the round-trip proof, and a proof that encoding a
decoded value gives the input back exactly. The messages, a fixed header
followed by netlink attributes, have the same operations and the round-trip
proof; their attribute lists decode by `nla::nlas_decode`, and re-encoding is
not claimed for them, since attribute padding on input need not be zero.

Byte order: multi-byte fields are little-endian, except those the kernel
keeps in network order (SPIs and ports), which are big-endian. Netlink
attributes following a message header are kept as their type and value
bytes (`Nla`); a caller decodes a value with the structure it holds.

Layout: `src/` is the verified library; `app/` adapts it to the
`Emitable`/`Parseable` traits and `DecodeError` of `netlink_packet_core` and
to `std::net` addresses; `tests/` exercises it on concrete bytes.
