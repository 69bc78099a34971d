# tender-component

A host that runs WebAssembly components without ambient authority. The logic is a
verified library; the engine, the sockets and the files are used by the program
around it.

A component may import the functions of a closed set. Each import is bound to an
ability: what it may be used for, how many bytes and items, by when, and under
which audit id. A run is refused as a whole where an import is unknown, unbounded,
bound to another operation, or there twice.

The host runs in one of two ways.

- Under a line protocol it runs one component. Every call of an import is asked of
  the process at the other end, and the last line tells the result or the failure.
- With `--serve` it is resident: it listens on loopback, checks the bytes of its
  component against a pinned SHA-256 digest before it is ready, and answers calls
  itself, from loopback HTTP endpoints and an append-only log. What it grants comes
  from a pinned configuration. Every run that ends well is told in a receipt that is
  signed with Ed25519. Every call of a capability that is answered is recorded in it,
  in turn: a request of structured storage that meets a conflict as well as one that
  writes.

A failure has one sentence, and behind it what was told of its cause.

## Layout

- `src/` is the library. Each function states in its contract what it returns, and
  when it fails with which error; the promises that span several functions are
  stated as public proof functions.
  - `ability`, `run`, `value`: admission of imports, links, and the bridge between
    component values and JSON.
  - `protocol`, `http`, `endpoint`: the line protocol, requests to the host, and the
    host's own requests.
  - `effects`, `storage`, `transaction`: the session of a resident component, the log,
    and values that are replaced only by the version that a request names.
  - `config`, `resident`, `seal`: configuration, health, receipts, digests and
    signatures.
  - `json`, `text`, `number`, `clock`, `engine`, `error`: what the others stand on.
- `app/` is the program: argument handling, Wasmtime, TCP, files, and the messages that
  are read with serde.
- `tests/` run the library with the outside crates linked.

## What is not proved

JSON texts are read and written by `serde_json`, digests come from `sha2`, signatures
from `ed25519-dalek`, and hexadecimal text from `hex`. Each of these calls stands
behind one small function whose contract says what is relied on. So do the text of an
engine error, the words in which JSON, UTF-8 and hexadecimal text are refused, the
clock, and the test for an absolute path; nothing is said of these last two that depends
on the machine.
