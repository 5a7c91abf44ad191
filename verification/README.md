# o3k-network

The networking service of a small cloud, as a library whose behaviour is stated in contracts and
proved with Verus: node plans, the record of what a host owns, the fabric between hosts, public
addresses, and the service that keeps networks, subnets, ports, gateways and policies in a store.

## How it works

No function of the library touches the host. An operation is given the replies that are known so
far and asks for one thing more: a command to run, a record to make durable, a call of the store.
It is run again with one reply more until it ends. Its contract says, for every list of replies,
what it asks for and how it ends.

- A `Session` carries the operations on a host; what they ask for is an `Effect`.
- A `NetworkService` carries the requests to the service; what they ask for is a `StoreCall`.

A function named `..._run` in a contract is the whole course of an operation, as a function of the
state before it and of the replies.

## Layout

- `src/text.rs`, `render.rs`, `order.rs`, `path.rs`, `ipv4.rs`, `identity.rs`, `digest.rs`,
  `json.rs`: texts, numbers, addresses, identifiers, digests and encodings.
- `src/model.rs`, `table.rs`: values with a view, and lists in the order of a key.
- `src/session.rs`: effects and replies.
- `src/domain.rs`, `src/plan/`: intents, and the compilation, order, encoding, fingerprint and
  admission of node plans.
- `src/host/`: bridges, gateways and tap devices of one host, and the record of their ownership.
- `src/fabric/`: namespaces, tunnels, policies and public addresses between hosts.
- `src/public_realization.rs`: public addresses on the uplink of one host.
- `src/service/`: requests of clients, and what they do to the store.
- `app/`: commands, files, the clock, and the store behind the library.
- `tests/`: the library against simulated hosts and a store in memory.

The files named `laws.rs`, and the public proof functions of the other modules, state what holds
across operations: that nothing foreign is touched, that a record is durable before anything is
changed, that records stay sound, that a quota is settled however a request ends.
