# p2pchat

A peer-to-peer, end-to-end encrypted chat for two people. The library is
verified with Verus; a thin program around it does the input and output.

## Library (`src/`)

- `message`: length-prefixed frames and the messages in them.
- `crypto`: the Noise XX handshake and who does what in it.
- `ratchet`: the Double Ratchet that seals each message under a key of its own.
- `exchange`: what holds of messages that cross on their way.
- `session`: how a session starts and what its message loop does.
- `identity`: the Ed25519 identity and its passphrase-protected file.
- `transport`: peer addresses and the tickets that carry them.
- `storage`: contacts, messages and sessions, and the rows they are stored in.
- `config`, `cli`, `ui`: paths, the command line and the window.
- `primitives`: the cryptographic functions, each computed by a crate of its own.
- `bytes`, `text`: byte strings and texts.

What the library states of itself as a whole stands in public proof functions:
that frames and messages read back as they were written, that a handshake
finishes on both sides, that the two sessions it leads to deliver what is sent in
either direction, also where messages cross on their way, as long as no end moves
to a new key while one is on its way to it, that an identity file opens to the
seed that was sealed, that stored records and tickets read back.

What is computed by other crates is trusted. Each such function has a wrapper
whose comment says what is claimed of it.

## Program (`app/`)

- `p2pchat` launches the window.
- `p2pchat init` makes an identity and shows its node id and a QR code.
- `p2pchat doctor` inspects the identity file and tests the transport.

`app/` also holds the SQLite store, the iroh endpoint and the async loops that
read, write and wait on behalf of the library.
