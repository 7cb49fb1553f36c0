# pkg_tls

The verified core of a TLS 1.2/1.3 client bridge used by the MVL runtime,
built on rustls with the Mozilla root store from webpki-roots.

- `src/` (Verus): error classification (`classify.rs`), the per-handle
  error table (`errors.rs`), handle allocation (`handles.rs`), the bridge
  state machine for connect/read/write/close (`bridge.rs`), read
  accumulation under a 1 MiB cap (`reader.rs`), the framing of one HTTP/1.x
  response read byte by byte (`http.rs`), runtime string decoding
  (`mvl.rs`, `text.rs`) and the rustls configuration and session calls
  (`tls.rs`).
- `app/`: process-wide state, sockets and the rustls stream, and the
  Rust-ABI (`bridge.rs`) and C-ABI (`llvm.rs`) exports; the C-ABI layer is
  built with `--cfg mvl_backend="llvm"`.
- `tests/`: tests of the library on concrete values.
