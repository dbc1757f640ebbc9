# Bloom triad

Machine, Broker and Signer are three local services that talk over Unix sockets. `bloom_triad` is
the part of them that decides whether they believe each other, written in Verus and proved
against its contracts.

- `src/`: the verified library. It holds the closed wire formats and frames, signed envelopes and
  journal heads, the mutual challenge, admission quotas, trusted time, independently retained
  audit checkpoints, and what files, sockets and logs must look like before they are used.
- `app/`: ordinary Rust around the library: sockets, files, environment, locks, logs, and the
  copies of the library's types that serde reads.
- `tests/`: tests of the library, with the real outside crates linked.

Where the disk or a socket is needed, a value of the library says what to ask (`DiskAction`,
`BindAction`, the handshakes), `app/` performs it, and a verified function takes the answer.

What is trusted is what the outside crates do: `serde_json` and `serde_jcs` (`src/json.rs`,
`src/codec.rs`), `sha2` and `ed25519-dalek` (`src/crypto.rs`), `base64` (`src/base64url.rs`),
`hex` (`src/hex_text.rs`), `rand` (`src/hello.rs`), and a few functions of the standard library
(`src/text.rs`, `src/trusted_time.rs`, `src/store.rs`). Each such item says above itself what is
believed of it. Public proof functions named `law_*` state what holds of several functions
together; those in `src/directory_laws.rs` speak of whole appends and lookups against a checkpoint
directory.
