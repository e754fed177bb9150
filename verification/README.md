# focal_node

The decisions of a Focal node, written and proved in Verus: deployment plans
and their application, rendered deployment assets, evidence custody and its
repair, the bootstrap of the cluster's directory, and the fleet of replicated
sessions.

- `src/` is the library. Every function states what it returns; laws that span
  functions stand beside them as proof functions.
- `tests/` runs it on concrete values.
- `app/` is the ordinary Rust around it: files, clocks, transports and threads
  perform what the library decides and hand back what came of it.
