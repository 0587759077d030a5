# futurecommander

A file manager that plays every change on a virtual layer first: copies,
moves, removals and creations are shown as if they were done, queued, and
written to the disk only when the user applies them.

The library is verified with Verus; its contracts state what each operation
does to the model of the file systems.

- `path`: paths as components, parsing, joining, normalisation.
- `representation`: the deltas of added and removed nodes.
- `disk`: the model of the real file system.
- `virt`: the virtual file system over the real one.
- `atomic`, `operation`: the elementary writes and their transactions.
- `capability`: capabilities and the guards that grant them.
- `event`: copy, move, remove and create events, turned into writes.
- `container`: the session, its queue of events and their replay.
- `command`, `shell`, `message`: the shell's commands and their texts.
- `tui`: the cells of the terminal interface.
- `laws`: properties that relate several operations.
- `walks`: the depth given to the recursive walks of the events is enough,
  on the real file system and on the virtual one.

`app/` holds the interactive shell: it reads the disk, runs the commands and
writes the applied changes.

## How collections are kept

A delta keeps its parents and its nodes in two vectors, the children of a
directory are a vector, and the registrar guard keeps its decisions in a
vector, where a map keyed by path and a set would be the obvious choice.
Verus specifies std's `HashMap`, `HashSet` and `BTreeMap`, but their
contracts only speak of the contents when the key's equality, hashing and
order are known to Verus. A path is a struct holding strings; its `Eq`,
`Hash` and `Ord` would be derived impls that Verus does not read, so over
such keys those contracts prove nothing about what is stored. The vectors
are plain values whose contents Verus sees, and what the map and the set
gave is stated as an invariant of each type (`wf`): no path is a key twice,
no identity is stored twice, and a lookup finds the one entry of a path.
