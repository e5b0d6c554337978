# nivalis

A typestate-driven implementation of the
[Noise Protocol Framework](https://noiseprotocol.org/noise.html) (revision 34),
written in Verus: the handshake, symmetric-state and transport logic carry
`requires`/`ensures` contracts that Verus proves.

## Layout

- `src/patterns`: the handshake patterns (one-way, interactive and their
  PSK variants), the roles, and what each pattern and role requires.
- `src/crypto`: the Noise `HASH` functions (SHA-256, SHA-512, BLAKE2s,
  BLAKE2b) with HMAC and HKDF, the AEAD ciphers (AES-256-GCM,
  ChaCha20-Poly1305) and the DH functions (X25519, X448). The primitives
  themselves come from the RustCrypto and dalek crates, through small
  wrappers whose contracts are trusted; everything around them is proved.
- `src/state`: `CipherState`, `SymmetricState`, `HandshakeState` and
  `TransportState`, each specified over a mathematical view, and the laws
  that tie the two parties of a handshake together (`state::agreement`).
- `src/builder.rs`: the typestate builder; `build` requires every key that
  the pattern and role need and then always succeeds.
- `app/`: `Display` and `std::error::Error` for copies of the error types.
- `tests/`: known-answer tests for the primitives and end-to-end handshakes.

## What is proved

- Every step of `WriteMessage` and `ReadMessage`, token by token, against a
  specification of the Noise state machine, including every error and the
  content of the message and payload buffers. A call out of turn, or after
  the last message, is refused and changes nothing.
- Two parties initialized for the same pattern start as peers
  (`lemma_initialize_peers`); each message written by the party whose turn
  it is is accepted by its peer, delivers the payload and leaves both with
  the same handshake hash and chaining key; the last message gives both the
  same handshake hash and paired transport states (`lemma_handshake_step`,
  `lemma_message_agreement`).
- Every supported pattern only combines, in a DH, keys that the reader
  already knows (`Pattern::lemma_keys_flow`), has one to three messages,
  names each pre-message key at most once, and lets each party send `e`
  and `s` at most once (`Pattern::lemma_shape`).
- `Initialize` succeeds exactly when every key that the pre-messages name
  is set, and otherwise reports a missing key (`lemma_initialize_result`).
- Two initialized parties go through the first message together
  (`lemma_first_message`), and each further message is one more
  `lemma_handshake_step`.
- What a cipher state encrypts, the peer's cipher state decrypts, and both
  advance alike (`lemma_cipher_state_roundtrip`, `lemma_transport_roundtrip`).
- After the last message every further message is refused
  (`lemma_finished_after_complete`). A message is written or read only on
  its party's turn, moves the handshake to the next message, and completes
  it exactly at the last message (`lemma_write_progress`,
  `lemma_read_progress`).
- The length of every message written: the bytes of its tokens, the
  payload, and the 16-byte tags of what is encrypted (`lemma_message_len`).
- A writer whose ephemeral keypair is set writes the same bytes whatever
  the random number generator returns (`lemma_write_ignores_fresh`), and a
  message that sends `e` before any other byte starts with the public key
  of that keypair (`lemma_message_starts_with_ephemeral`). The bytes written
  never exceed the message buffer (`write_message`'s contract).
- Rekeying rotates the key held; without a key it fails and changes
  nothing (`CipherState::rekey`).

## What these laws assume

The agreement and roundtrip laws are proved from two properties of the
primitives, which they take as premises:

- `aead_opens_sealed`: the AEAD decrypts, under the same key, nonce and
  associated data, what it encrypted, and adds a 16-byte tag. It is proved
  for AES-256-GCM and ChaCha20-Poly1305 (`lemma_aesgcm_opens_sealed`,
  `lemma_chachapoly_opens_sealed`) from what their wrappers state: the
  ciphertext is the plaintext XOR-ed with a keystream of the key and nonce,
  followed by a tag of the key, nonce, associated data and ciphertext.
- `keys_agree` (part of `peers`) and `fresh_agrees`: the keypairs of the
  two parties, and the ephemeral keypair a writer generates, agree on their
  DH secrets: the secret of one private key with the other's public key is
  the secret of the other private key with the first public key. `DH::dh`
  states this of the keypairs of every call whose public keys are derived
  from their private keys and accepted by the function, and
  `lemma_pair_agrees` derives it from `dh_agrees`, the same property for
  all keys at once; a statement about all keys would be an axiom, so the
  laws keep the agreement of the keys at hand as a premise.

An X448 keypair from `generate_keypair` has as public key the product of the
unclamped scalar with the generator, while `dh` clamps the scalar: such
keypairs do not agree, and a handshake with them fails, as the tests show.
