# aeroshare

A relay for sharing files. Clients connect to a server over a WebSocket, tell it what they share,
and ask for each other's files or for the server's own. A file goes through the server as a stream:
whoever has it uploads over HTTP, whoever asked for it downloads.

- `src/` is the library, verified with Verus: the rules for paths, tokens and shared folders, the
  state of the relay and what every message and request does to it, the consoles, and how server
  and client are set up. `src/laws.rs` states what holds across several operations.
- `app/` holds the two programs, `aeroshare server` and `aeroshare client`: sockets, HTTP, JSON,
  the terminal and the file system.
- `tests/` runs the library on concrete values.

## What is trusted

Verus believes without proof what the doc comments of these functions say:

- `String::push` in `src/text.rs`,
- `main_separator` in `src/paths.rs`, around `std::path::MAIN_SEPARATOR`,
- `sample_alphanumeric` in `src/secrets.rs`, around rand,
- `new_uuid` in `src/secrets.rs`, around uuid,
- `read_header` and `write_header` in `src/secrets.rs`, around the `HeaderValue` of the http crate,
- `parse_u64` in `src/config.rs`, around `str::parse`; `parse_error` is the name for the words of its
  errors.

## Settings

The server reads `SERVER_TOKEN`, `SERVER_BIND`, `SERVER_SHARED_DIR`, `SERVER_DOWNLOAD_DIR`,
`MAX_STREAM_BYTES` and `STREAM_TTL_SECS`; the client reads `SERVER_TOKEN`, `SERVER_URL` and
`SHARED_DIR`. Without `SERVER_TOKEN` the server keeps its token in `server_token.txt`, and makes one
if there is none; the client reads `client_token.txt`.
