# agentfs_core

The core of a filesystem for agents that lives in one SQLite database, with an overlay over a
read-only directory. The library holds the rules; the program around it holds the connections,
the tasks and the files of the host.

## The library

- `path`, `text`, `numbers`, `text_order`, `text_map`: paths and texts.
- `stats`, `tables`, `sql`, `caches`: inodes, the rows of the database, and what is cached of
  them.
- `namespace`, `removal`, `unlink`, `rename`, `attrs`, `lookup`: the operations on names and
  attributes, as changes of rows that a caller runs in one transaction. `namespace_laws` and
  `rename_laws` show that they keep the tables sound and the caches coherent.
- `ranges`, `pending`, `batcher_state`, `batcher`, `drain`, `drain_steps`, `file`: writes that
  wait in memory, reads that see them, and their commit. `batcher_laws` shows that no write is
  lost from sight.
- `whiteouts`, `overlay_maps`, `overlay`, `overlay_lookup`, `overlay_list`, `overlay_create`,
  `overlay_remove`, `overlay_rename`, `copy_up`, `copy_steps`, `partial`: the overlay.
- `schema`: versions, migrations and integrity checks of the database, and that an upgrade leaves
  the contents alone.
- `semantics`: permissions, open handles and the durability of acknowledged writes.
- `telemetry`, `toolcalls`, `options`, `pool`, `mounts`, `config`: what surrounds the filesystem.

An operation that has to ask the database or a layer in between is a value with a question and a
`step` that takes the answer. The caller asks, and the contract of `step` says what follows from
each answer.

What the library takes on trust is marked where it stands: calls into `lru`, `smallvec`,
`serde_json` and `libc`, and a few functions of the standard library.

## The program

`app/` runs the questions and statements of the library on `turso` connections, commits pending
writes in a task, and reads the mount table. Whoever embeds it supplies the storage of file
contents and the base filesystem.
