# eventstore

Client-side logic of an EventStore client, verified with Verus.

- `src/` is the verified library:
  - `types.rs`: settings, retry strategies, expected versions, addresses,
    endpoints, gossip seeds, cluster settings and events;
  - `position.rs`: positions in the transaction file and their order;
  - `credentials.rs`: credentials and their length-prefixed framing;
  - `metadata.rs`: stream metadata, access control lists and custom
    properties;
  - `messages.rs`: the read request and read response of the streams service;
  - `commands.rs`: the stream read command and the conversion of the server's
    answers into events;
  - `discovery.rs`: which gossip seeds to ask and which node to connect to;
  - `registry.rs`: the registry of requests waiting for an answer, as a state
    machine whose steps the caller performs;
  - `messaging.rs`: the messages that drive a connection;
  - `external.rs`: the calls into `uuid`, `rand`, `vec1`, `bytes` and
    `std::time`, each with the contract the library relies on.
- `app/` holds the networking: the gRPC services and their clients (`tonic`,
  `prost`), gossip over HTTP (`reqwest`, `serde`), name resolution, and the
  driver that performs the registry's steps.
- `tests/` exercises the library.
