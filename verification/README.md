# wawona_relay

Wawona Relay runs Linux guests, OCI containers and WASI modules for Wawona.
This crate is its verified core, written in Verus.

- `src/` is the library. Every function in it has a contract that Verus checks:
  backend selection and guest policy (`relay_core`), the jitless AArch64 cores
  and their devices (`vm`), OCI layout and layer validation (`relay_oci`), the
  register-IR interpreter with its optimizer (`runtime`, `optimize`, `integer`),
  the WebAssembly frontend (`wasm`), the WASI plan (`relay_wasm`, `wasi`) and
  the benchmark gate (`bench`).
  Calls into wasmparser, tar, flate2, zstd, sha2 and ed25519-dalek go through
  small trusted wrappers. Their contracts name what the outside code returns.
- `app/` is the host side. It holds file, process and network I/O, the JSON
  encodings, the C ABI and the benchmark timing and charts. It hands plain
  values to the library and acts on what comes back.
- `tests/` holds the tests. They run against the real outside crates.
