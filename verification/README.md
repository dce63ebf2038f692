# caravan

A planner for caravans: chains of dependent pull requests that land one after
the other. The library under `src/` is written in Verus. It reads documents of
the provider, derives the fleet of caravans, decides which mutations are safe,
and follows native stacks through create, add, unstack, merge, landing and
reshape. Every function states what it returns or changes, and Verus proves it.

- `src/model.rs`, `src/text.rs`, `src/json.rs`: values, texts and JSON trees.
- `src/command.rs`: commands, their answers, and the runner seam.
- `src/graph.rs`, `src/graph/`: the fleet, its problems, compatibility proofs and
  the reuse of prepared revisions. `laws.rs`, `fleet_laws.rs`, `order_laws.rs`
  and `analysis_laws.rs` state what holds of every fleet and every analysis.
- `src/required_runs.rs`: required checks and the lineage of runs.
- `src/github.rs`, `src/github/`: discovery, guarded mutations and native stacks.
  `one_write.rs` holds the steps of an operation of one write and their laws;
  `write_laws.rs` states where nothing is written.
- `app/`: subprocesses, the process-wide cache and the current directory.

Provider calls go through a `CommandRunner`. A method that makes calls states,
for every answer the runner may give, what the method returns; the decisions
between the calls are functions of their own on plain values. A runner says
which commands it may be handed, and each method requires no more than it runs:
reads, and a write only once fresh facts allow it. What is read after a write is
read through `After`, which exists only once that write was answered. In the same
way a `CompatibilityChecker` says which questions it may be asked.

JSON is parsed and written by `serde_json`. What the library believes of it is
stated in `src/json.rs`.
