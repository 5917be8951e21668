# grass

The decision-making core of the GRASS simulation framework, written in Verus
and verified: every function in `src/` carries a contract, and the laws the
framework relies on are stated and proved as public proof functions.

## Layout

- `src/` — the verified library.
  - `topology`, `bootstrap`, `comm`, `runner`: MPI role topologies, rank assignment,
    the communicator-split lifecycle, the bootstrap of a run and the
    placement of a coupled pair of roles.
  - `codec`, `wire`, `transport`, `role_exchange`, `routed`: byte formats of
    coupled runs, their round trips, transports and collective exchanges.
  - `remote`, `store`, `multi`, `physics`, `port`: orchestration of sub-Apps and
    remote mirrors over a store of wire-typed resources, with their
    coherence and lifecycle invariants.
  - `plugin`, `run`, `setup`, `sync`, `outer_iter`: plugin registration
    contracts, plugin groups, multi-stage run control and schedule bookkeeping.
  - `config`, `config_tree`, `dump`, `derive_rules`, `text`: configuration
    input, TOML text parsed into a plain tree, the merges of sub-App and stage configurations, per-frame
    output paths, the rules the framework's derives apply, and text helpers.
- `tests/` — executable tests of the library.
- `app/` — the unverified edge: typed TOML sections through serde, files,
  the command line, MPI, threads, caught panics and floating-point data. It hands plain values to the library and
  acts on what the library decides.

Outside crates are reached from `src/` only through small trusted items whose
contracts are stated next to them (`heck` for case conversion, `toml` for
parsing, parts of `std` that vstd does not specify).
