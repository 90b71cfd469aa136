# nuvo

A small client/server messaging protocol: a sender presents a password in a
HELLO frame, the receiver answers with an ACCEPT carrying a fresh session
token or a REJECT, and both sides then exchange DATA frames under that token.

`src/` is the verified protocol (Verus): the wire format and its encoders
(`wire`), incremental decoders that say how many bytes they need next
(`decode`), the receiver's answer to a HELLO (`handshake`), the builders and
session state (`session`), and the proved round-trip and session properties
(`laws`). `app/` is the Tokio TCP transport around it, async and blocking.
