# hudi scan-spec report

A verified library that renders a versioned scan-spec tree (column specs with optional
filters and nested children) into the `[SCANSPEC-FFI]` text block that a C++ test harness
greps, and that rejects any layout version but the current one.

- `src/model.rs`: the tree.
- `src/text.rs`: decimal numbers, booleans, indentation and lists as `{}` / `{:?}` write them.
- `src/render.rs`: the lines of the block, as spec functions and as verified code; the
  version check; the error messages.
- `src/laws.rs`: proved laws (every line is tagged and indented by its level, the block is
  framed by `BEGIN` and `END`, rendering deeper changes only the indentation, and a tree
  renders one line per spec node and per filter, in preorder).
- `app/lib.rs`: reading the JSON with serde into copies of the types, and writing the block
  to stderr.
