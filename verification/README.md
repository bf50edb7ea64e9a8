# bun

The decisions of a cluster node's agent, as a verified library.

An agent runs on every node of a small cluster. It supervises workloads,
answers an HTTP API, keeps journals of what it has published, and reports what
the node can do. This crate holds what the agent decides; the functions in
`src/` have contracts that are proved with Verus.

## Layout

- `src/` is the library.
  - `health`, `gpu`, `events`, `disk_pressure`, `diagnostics`, `capabilities`:
    the node itself: when to probe, what hardware there is, what happened, what
    to prune, what to report.
  - `consumer_owners`, `discovery_owners`, `egress_owners`: journals of
    ownership, which changes of them are lawful, and how they recover.
  - `batch`, `build_runner`: jobs and image builds, from submission to outcome.
  - `access`, `policy`, `reply` and `api`: who may do what, and how each request
    is answered or passed on.
  - `text`, `codec`, `clock`, `ordered_map`, `sorting`, `value`: what the others
    are made of.
- `tests/` runs the library on concrete values.
- `app/` is the edge in ordinary Rust: HTTP, files, processes and peers.

## What is trusted

A few small functions call other crates, and their contracts are taken as
given: hexadecimal and base64 text (`hex`, `base64`), SHA-256 and random bytes
(`ring`), X.509 certificates (`x509-parser`), the live feed of events (`tokio`),
and, of the standard library, the system clock, a text in quotes and
`String::push`. Each says above its contract what it relies on.
