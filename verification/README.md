# gui

The bookkeeping of a retained-mode GUI, verified with Verus: which style
attributes of each node are dirty and must be recomputed, how visibility and
the enable flag flow down the node tree, how classes apply and reset
attributes, and what the renderer must redo (render-context marks, program
rebuilds, will-change transforms, render items).

Layout:

- `src/` — the library, every function proved against its contract:
  - `style_type`: the attribute flags, in three 64-bit groups;
  - `style_mark`: per-node style marks, the dirty list and the listeners that mark it;
  - `idtree`: the node tree (parent, layer, children) and its well-formedness;
  - `show`: visibility and enable propagation;
  - `class`: class sheets, applying and resetting class attributes;
  - `context_mark`, `render_dirty`, `render_matrix`, `will_change`, `items`: renderer bookkeeping;
  - `charblock`, `clip`, `res_release`, `style_version`, `id_set`: small helpers.
- `tests/` — tests on concrete values, run against the compiled library.
- `app/` — the float-valued inputs (opacity, blur radius, viewport size) turned
  into the plain values the library decides on.

The original engine kept some of this state in collections of outside crates
(a hash set of node ids, a vector map keyed by id, a bit array of
render-context flags) and drew with an outside rendering stack; none of those
crates is available here. The library holds the same state in `Vec`s, with
the invariants the collections gave (a node id is listed at most once), and
leaves the drawing to its caller.
