# component_mgr

The engine that manages the components of a vehicle computer: it takes signed
updates, writes them to one of two banks, puts them on trial, commits them or
rolls them back, and tells the diagnostic side what is installed, how it runs and
what it logs. What the engine decides is proved in Verus.

The engine decides and does not act. An operation that touches a disk, the
non-volatile store, a security module or a virtual machine is a conversation: the
engine is told an event and answers with the next action. The loops that perform
the actions are ordinary Rust.

- `src/backend/` is the engine of one component: uploads, installs, finalizing,
  activation, the administrative state, values, parameters, operations.
- `src/bank_provider.rs`, `src/partition_bank_provider.rs` and `src/bank_seed.rs`
  are the banks: preparing, seeding, sealing and switching them.
- `src/logs/` reads host log files page by page, those of a guest through its
  agent, and dumps, and finds an entry again by its id.
- `src/lifecycle.rs` tells how a guest runs; `src/component_adapter.rs`,
  `src/install_router_diag.rs`, `src/app_install_router.rs` and
  `src/dispatcher.rs` stand between the engine and the machine.
- `src/outside.rs` and `src/json.rs` hold everything that is believed of other
  crates. Nothing else is believed.
- Public proof functions whose names begin with `law_` state what holds across
  operations.
- `app/` wires the engine to files, sockets and the store.
