# ttipc

The decision logic of a type-safe Tauri IPC layer, verified with Verus: what
a `#[procedures]` trait, a `#[derive(Event)]` or a `#[derive(Error)]` expands
to (and which inputs they reject, with which message), how merged procedure
sets route a call, how a dispatched call settles, how payloads are held to
their JSON Schema contracts, and the decisions of the TauRPC migration
codemod (attribute rewriting, de-async, event lifting, mount rewriting,
surgical splicing, the follow-up header).

- `src/` is the verified library. Syntax is read into plain shapes (a
  method's parameters, an attribute's arguments, a mount expression), and
  each function states in its contract what it decides for every input. What
  the outside crates decide (whether `syn` parses a source, whether
  `jsonschema` compiles a schema and accepts a payload) is named as a
  function of the texts involved, and the library's contracts are stated over
  those names.
- `app/` is the unverified shell around it: the command line, file and git
  I/O, and the `syn`/`quote` glue that reads syntax trees into the library's
  shapes, rewrites the trees as the library plans, and writes its plans back
  out as tokens.
- `tests/` runs the library on concrete inputs.
