# verwalter

The verified core of a cluster configuration daemon. Nodes elect a leader;
the leader computes a schedule of which roles run where; every node fetches
the leader's schedule and renders the configuration of its own roles.

The library in `src/` is written in Verus: each public function carries a
contract, and the properties that tie several functions together are stated
and proved as public proof functions.

## Layout

- `src/id.rs`, `src/id_collections.rs`: node ids, their hexadecimal form,
  and sets and maps keyed by id.
- `src/json.rs`: JSON values, their compact JSON text, and objects read and
  written as ordered maps.
- `src/schedule.rs`: schedules and their validation against the hash of
  their data's JSON text.
- `src/compat.rs`: merging variable maps, computing the variables every
  role of a node is rendered with, and the query engine's steps on a new
  schedule or a forced rerender.
- `src/elect.rs`, `src/shared.rs`: election packets and state, and the state
  the threads of a node share (schedules, leader cookies, errors, what a
  run of the scheduler publishes).
- `src/fetch.rs`, `src/prefetch.rs`, `src/refetch.rs`: the state machines
  that fetch schedules from the leader, collect the peers' schedules on a new
  leader, and decide which waiting schedules to download again and from where.
- `src/peers.rs`, `src/failures.rs`, `src/network.rs`: the peer list,
  failing addresses, and what each election action sends to whom.
- `src/status.rs`, `src/disk.rs`: the status page's summary, how the API
  answers its routes, and how files on disk are answered.
- `src/routing.rs`: routing of HTTP request paths.
- `src/apply.rs`, `src/render.rs`, `src/indexed_log.rs`: applying a
  schedule (renderer command line, change log, backup retention, the outcome
  of each role's run) and the deployment logs (segments and rotation).
- `src/text.rs`, `src/time_util.rs`: string and time helpers.
- `tests/`: tests of the library on concrete values.
- `app/`: a small command-line program around the library: reading schedule
  files, routing paths as they come from HTTP requests, and decoding
  election packets.
