# decentralized_im

The core of a device-centred, end-to-end encrypted instant messenger and of
its relay server, verified with Verus.

## Layout

- `src/` — the verified library.
  - `crypto.rs`: Ed25519, X25519 + HKDF-SHA256, AES-256-GCM, SHA-256, BLAKE3
    and Argon2id behind trusted wrappers, and the verified functions on top
    (round trips of encryption, signatures that verify, agreeing session keys).
  - `mnemonic.rs`: the 32-word backup of a private key, with its round trip.
  - `identity.rs`: the identity manager (key generation, encrypted storage,
    passphrase unlock, backup and restore) and the identity commands.
  - `session.rs`: the key-agreement state machine of a one-to-one session
    and its bounded plaintext queue.
  - `message.rs`, `contact.rs`, `db.rs`, `sort.rs`: signed messages, chat
    history merged by time, contacts with encrypted nicknames and presence
    ordering, the stable sort they rest on, and the store's records.
  - `relay.rs`: the relay client's connection state and the decisions around
    it (addresses, frames to send, what a received frame does).
  - `relay_hub.rs`: the relay server's routing core (who is online, the
    seven-day message cache, what each frame and keeper round delivers).
  - `text.rs`, `codec.rs`, `error.rs`: string helpers, Base64 and URL
    encoding, and the error type.
- `tests/` — tests run against the compiled library.
- `app/` — the program around the library: the relay server (axum), the
  SQLite store, the relay socket client and the commands a user interface
  calls.
