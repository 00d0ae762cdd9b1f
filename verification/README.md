# tn_file_upload

A gRPC and REST file upload/download service. The decisions of the service
live in a library verified with Verus (`src/`); the network, file system and
async plumbing live in `app/`.

## Library (`src/`)

- `config` — the configuration read from environment variables, with
  defaults and exact error messages; numbers are read by a verified decimal
  parser (`text`).
- `auth` — the shared-token check for gRPC metadata and REST headers,
  compared in constant time (`subtle`).
- `interceptor` — the request ID: the inbound `x-request-id`, or a fresh
  UUID v7 (`uuid`).
- `health` — the health flag and the status it implies.
- `digest` — streaming SHA-256 (`sha2`) rendered as lowercase hex (`hex`).
- `storage` — storage errors and metadata; `storage::local` holds the
  decisions of the local backend (file-name validation against path
  traversal, the size limit checked chunk by chunk, which records are
  visible, newest-first listings); `storage::uploads` holds the running
  checksum of every in-flight upload and evicts uploads left open too long;
  `storage::memory` is a store held in memory that runs the same decisions
  and states the whole lifecycle of an upload (create, append, finalize,
  abort, delete, eviction) with the laws that join them.
- `service` — storage errors as gRPC statuses, and the client-streaming
  upload protocol as a state machine.
- `rest` — storage errors as HTTP answers, download headers, the body limit,
  and the multipart upload protocol as a state machine.
- `driver` — the gRPC upload protocol run to its end over the in-memory
  store: it succeeds exactly on a complete upload within the size limit,
  answers with the size and SHA-256 of the uploaded bytes, and otherwise
  answers with the status of the first thing that went wrong and leaves
  nothing behind.

## Application (`app/`)

`app/main.rs` runs the gRPC server (tonic) and the REST API (axum); run under
a name ending in `client` it runs the command-line client instead. The
application drives the library's state machines, performs the file I/O, and
converts between the library's types and the wire and JSON forms.
