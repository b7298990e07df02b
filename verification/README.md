# orb-relay-client

A client for `orb-relay`, with its logic verified by Verus.

- `src/` is the verified library:
  - `amount.rs`: finite or unbounded limits (`Amount`) and their order.
  - `messages.rs`: the relay protocol's messages and their views.
  - `client.rs`: client options, outgoing messages and the relay payloads,
    replies and connect requests built from them.
  - `actor.rs`: the actor's decisions as a state machine over pending
    acknowledgements and replies (`State::handle_msg`, specified by `step`),
    the handshake and stream readers, the reconnection policy, and the laws
    that hold of them.
  - `app_data.rs`: the BLAKE3 authentication of app data in the current
    length-prefixed format and the legacy one.
- `app/` runs the actor: tokio tasks, flume channels, timers and the gRPC
  stream, performing the actions that the library decides.
- `tests/` exercises the library on concrete values.
