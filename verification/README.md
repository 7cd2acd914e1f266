# shazamio_core

Shazam-compatible audio signatures: the binary wire encoding of detected
frequency peaks, its `data:audio/vnd.shazam.sig;base64,...` URI form, and the
request payload that carries it. The library under `src/` is verified with
Verus.

- `src/fingerprinting/signature_format.rs`: peaks, bands and the signature,
  the specification of the wire format, and the encoder.
- `src/fingerprinting/signature_laws.rs`: proofs about the format (header
  layout, four-byte alignment, and that the band chunks read back as the
  peaks they were built from).
- `src/fingerprinting/little_endian.rs`: little-endian integer bytes.
- `src/fingerprinting/communication.rs`: the request payload.
- `src/utils.rs`, `src/lib.rs`: the public signature type and the
  `Recognizer` around the fingerprint.
- `app/`: serde forms of the public types and the error as a
  `std::error::Error`.

CRC-32 comes from `crc32fast` and base64 from `base64`; their results are
named in the contracts rather than specified.
