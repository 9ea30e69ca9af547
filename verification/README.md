# navign

Navign is an indoor navigation system for shopping malls, transportation hubs, schools and
hospitals: it locates a phone among Bluetooth Low Energy beacons, plans routes within and
across areas, and opens doors through a signed challenge exchanged with the beacon.

This crate is its core, written in Verus: the functions in `src/` carry contracts that the
verifier proves, except the small trusted wrappers around outside crates, whose contracts are
believed; the laws that hold across functions stand there as proof functions.

## Layout

- `src/ble/`, `src/blufi.rs`, `src/unlocker/` — the byte protocols spoken with beacons:
  packets, flags, nonces, challenges and proofs, each with its encoder, its decoder and the
  laws that one undoes the other.
- `src/crypto.rs`, `src/wire.rs`, `src/handshake.rs` — hashing, signatures, base64, postcard
  and the sealed key announcement, called through the `sha2`, `p256`, `base64`, `postcard`,
  `aes-gcm` and `rsa` crates behind small trusted wrappers whose contracts name what they
  return.
- `src/pathfinding/` — grid neighbours and A* inside one area, the search across areas and the
  legs of a route, triangle adjacency of a mesh, and the reading of WKT polygon text.
- `src/schema/`, `src/client/` — the records exchanged with the server, their names and
  formats, the merchant search query, and the client's rules for scans, logins and routes.
- `tests/` — the scenarios, run against the compiled library with the real outside crates.
- `app/` — what runs around the library: floating-point geometry (`geo`, `earcutr`, `wkt`),
  the SVG map, the handshake payload, and `serde` copies of the records.
