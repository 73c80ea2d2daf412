# enclave

Hardware-backed key handling, tamper-evident files and protected memory.

`src/` is the library. Its functions state their behaviour in contracts that
Verus proves. What it takes on trust are the calls into the cryptographic crates,
the random generators and `zeroize`; they stand in `crypto.rs`, `secret.rs`,
`text.rs` and `dpapi_store.rs`.

- `memory/`: guarded buffers and their states, the split master key, sealed
  secrets, shared buffers with the shutdown wipe, the memory pool with its slab
  and its cache of recently decrypted secrets.
- `dpapi_encrypt.rs`, `dpapi_store.rs`: ECIES encryption with keys on disk.
- `password_gate.rs`: the Windows password presence check.
- `integrity.rs`: files that are verified against a trust anchor in the secure
  store, with an HMAC sidecar for inspection.
- `auth.rs`, `capabilities.rs`, `plist.rs`, `config.rs`, `factory.rs`,
  `signing.rs`, `encryption.rs`: what handles may ask of a backend, and when.

The library does no input or output. Where an operation needs it, the library
names the next call and takes its outcome, and says what to do next. `app/`
performs the calls: operating-system memory, files, the Windows credential
dialog, and the state of the process. `tests/` runs the library.
