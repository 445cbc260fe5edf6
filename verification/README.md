# Loom

Loom is a local-first, serverless messenger. Nodes find each other on the local
network, exchange identities as short tokens, and talk over direct connections,
end-to-end encrypted with a double ratchet.

The library under `src/` holds the engine's logic, verified with Verus. It does no
input or output: callers hand it plain values and carry out what it decides.

| module | what it is |
| --- | --- |
| `token` | the text of an identity: keys and a checksum in Base32 |
| `crypto`, `ratchet` | key derivation, authenticated encryption, the double ratchet |
| `protocol`, `json` | handshake and chat messages, and their JSON |
| `handshake`, `chat` | starting a conversation, sealing and reading messages |
| `network` | frames, service names, known peers, the steps of sending |
| `storage`, `engine`, `profile` | records, the host's operations, databases per profile |
| `table`, `bytes` | a lookup table and helpers on byte strings |
| `primitives`, `encoding` | the outside crates, each call behind a contract |
| `conversation`, `burst`, `dialogue`, `delivery` | laws: what is sent is what is read |
| `wire_form`, `saved_form` | laws: the JSON forms lose nothing |

`tests/` runs the library, whole conversations between nodes in memory included.
`app/` is the program around it: the database, the sockets, service discovery and
the desktop shell.
