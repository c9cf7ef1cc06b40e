# ddp_router

The decisions of a router that keeps the documents of MongoDB queries up to date for its clients,
verified with Verus.

- `src/cursor/` holds the documents of a cursor: how each event of a change stream changes them,
  what the mergeboxes are told, and how the documents are fetched while events keep coming in.
- `src/watcher.rs`, `src/stream_task.rs`, `src/checkpoint.rs` and `src/recovery.rs` hold the change
  streams: one per collection, opened at an operation time and opened again where they left off.
- `src/cursor/laws.rs`, `src/cursor/replay_laws.rs` and `src/stream_laws.rs` state and prove what
  holds across calls.
- `src/json.rs` and `src/mongo.rs` declare what is taken from `serde_json`, `bson` and `mongodb`.
- `app/` runs the decisions against MongoDB.

Each state machine hands out one action at a time and takes back what came of it, so that nothing in
the library waits. The parts of the router that it does not hold are taken as data: whether a query
matches a document and how two documents sort come in with the document, and what is to be shown
goes out as a list of effects.
