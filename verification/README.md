# qzone_sync

End-to-end encrypted synchronisation of recovery records between two desktop
devices, through a relay that stores ciphertext only. The library is written
in Verus: every decision of the relay and of the desktop client is an
executable function with a contract that Verus proves.

## Layout

- `src/` — the verified library.
  - `text.rs` — trimming, decimal and hexadecimal text, integer parsing.
  - `codec.rs` — Base64, UUID forms, JSON string text, URL parts,
    upper-casing and the UTC range (the outside crates behind small trusted
    wrappers).
  - `crypto.rs` — SHA-256, X25519 and XChaCha20-Poly1305 wrappers, HKDF and
    HMAC stated over SHA-256, the system random source, and the AEAD model
    that the proofs use.
  - `clock.rs` — the wall clock, read without panicking.
  - `credentials.rs` — what the credential store's answers mean.
  - `model.rs` — the records exchanged with the front end and the relay.
  - `channel.rs` — key derivation, sealing and opening of records.
  - `evidence.rs` — encrypting a batch of recovery evidence.
  - `client.rs` — endpoint, registration, pairing and transport decisions of
    the desktop client.
  - `relay.rs` — the relay's checks: tokens, pairings, uploads, conflicts,
    cursors and download pages.
  - `laws.rs` — properties that span several functions (a sealed record opens
    for its peer whatever the two key versions, re-uploading a taken batch
    changes nothing, cursors round-trip, repeated pulls list every change once
    and in order, what is pulled is what was pushed, and more).
- `tests/` — tests of the library on concrete values, with the real outside
  crates linked.
- `app/` — the relay server (axum, PostgreSQL through sqlx) and the desktop
  client's commands (credential store, HTTP), which read and send and leave
  every decision to the library.
