# qubit_codec_text

Buffer-oriented Unicode and charset codecs — ASCII, Latin-1, UTF-8, UTF-16 and
UTF-32 — with explicit progress reporting and configurable malformed/unmappable
policies, verified with Verus.

## Layout

- `src/byte_order.rs` — big/little-endian reading and writing of 16- and 32-bit units.
- `src/charset/` — Unicode, UTF-8, UTF-16 and UTF-32 constants and classification helpers.
- `src/encoding/` — `Charset` and `TextEncoding` labels, label matching, `UnicodeBom` detection.
- `src/error/` — decoding and encoding errors with their kinds.
- `src/codec/` — the per-character `CharsetCodec`s, the buffered `CharsetDecoder`,
  `CharsetEncoder` and `CharsetConverter` (all `Coder`s), and the single-character
  `TextDecoder`/`TextEncoder` implementations.
- `tests/` — tests run against the compiled library.
- `app/` — `Display`, `Hash` and `std::error::Error` support for the label and error
  types, through equivalent types that convert to and from the library's.

## What is proved

Every public function carries a contract over mathematical models (sequences of units
and characters). Beyond the contracts, the library proves, among others:

- encoding a character and decoding it back gives the character, for every codec, and
  UTF-8 decoding agrees with `vstd`'s UTF-8 model;
- with the report policy, what an encoder writes decodes back to what it consumed;
- decoding resumes where it asked for more input, and encoding resumes where the output
  ran out, with the same result as one call over the whole buffer;
- a completed conversion equals decoding the whole input and encoding the result, and a
  conversion that runs out of output resumes, with its one pending character, exactly
  as one conversion into a larger output: no decoded character is lost;
- the predefined charsets have known identifiers, names, aliases and byte orders;
- the progress every coder reports counts exactly what it read and wrote.
