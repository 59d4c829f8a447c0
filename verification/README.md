# edge_orchestrator

A verified library for a small edge-cloud cluster, and the programs around it.

Nodes find each other over libp2p, replicate registrations and role assignments
with Raft, keep content-addressed objects, and run projects in virtual machines.
An agent scans a workspace, plans how to build and run it, submits it to a node and
analyzes the result.

Everything that decides, computes, parses or formats stands in `src/` and is proved
with Verus. What touches sockets, files, clocks, threads or other crates' traits
stands in `app/`.

## Layout of `src/`

| Module | What it holds |
|---|---|
| `types`, `traits`, `error` | descriptors, tasks, results, errors |
| `text`, `paths`, `table`, `maps`, `dump` | texts, paths, small tables, sums over maps, values shown for debugging |
| `storage` | hashing, the object store, which objects are still referred to, tree differences, packs |
| `raft` | the replicated state, the stored form of log entries, the log in the object store, one round of consensus work |
| `orchestration` | topologies and their node selectors, failover of roles, task routing, health reports |
| `p2p` | frames, commands, events, the swarm's reactions |
| `sandbox` | machine pools, the machine worker, one project in one machine, Wasm limits |
| `node` | configuration, startup, the event monitor, blob fetching, project tasks |
| `ipc` | JSON-RPC methods, the socket server |
| `agent` | workspace scan, planning, model prompts, the session |
| `outside` | the calls into other crates, each with the contract it is used under |

## How it is stated

Each type has a view over mathematical values, and each function says what its
result or its new state is over those views. Work that alternates between decisions
and input or output is a state machine: it returns the action to carry out and takes
what came of it. Laws that hold of several functions together are public proof
functions, next to the functions they speak of.

## Layout of `app/`

`main.rs` starts a node (`node`) or an agent session (`run`). `p2p.rs` drives
libp2p, `consensus.rs` the Raft crate, `machine.rs` the virtual machines,
`engine.rs` the Wasm engine, `store.rs` the object store's files, `ipc.rs` the
socket. `wire.rs` holds the serialized forms.
