# eml_codec

A parser and printer for Internet messages (RFC 5322) and their MIME
headers (RFC 2045–2049), written in Verus: the behaviour of each function is
stated in its `requires` / `ensures` contract over mathematical models
(`Seq`, `Option`, views of the data types) and proved.

## Layout

- `src/text/` — the lexical layer: ASCII classes, whitespace and comments
  (FWS, CFWS), atoms, quoted strings, words, phrases and unstructured text,
  each parser a function on bytes with a spec function it is proved equal to.
- `src/header.rs` — header fields: framing of `name: body` lines, and the
  printing of a field through a `Formatter`.
- `src/imf/` — the Internet Message Format: mailboxes, addresses, groups,
  message identifiers, dates, trace fields, and `Imf`, the record of a
  message's header with the laws that relate adding a field to reading it.
- `src/mime/` — MIME headers: content types and their parameters, transfer
  encodings, charsets, and the records built from MIME fields.
- `src/message/`, `src/email.rs` — whole messages: header fields sorted into
  IMF and MIME fields, and the body that follows.
- `src/print.rs` — printing with line folding: the `Formatter` and `Print`
  traits, whose contracts say which bytes are written and which of them are
  folding whitespace; `LineFolder`, proved to fold lines only at folding
  whitespace, within the line limit where possible, as late as possible; and
  `Unfolded`, which keeps the bytes as written.
- `src/fragments/` — lower-level pieces: encoded words (RFC 2047), charset
  labels, multipart boundaries.
- `tests/` — tests on concrete inputs, run against the compiled library.
- `app/` — a small command-line program around the library.

Calls into `chrono`, `encoding_rs` and `base64` are made through a few
trusted wrappers whose contracts state what those crates document.
