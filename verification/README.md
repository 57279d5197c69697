# woodforge

The core of a woodworking design tool: boards arranged in a scene, the joints
between them, an undo/redo history, cut lists, material lists, build plans,
lumber prices and project files.

## Layout

- `src/` — the library, written in Verus and verified. Every public function
  states what it returns or changes in its `requires`/`ensures`; laws that
  relate several functions are public proof functions (`lemma_*`).
  Values that the library only carries but never computes with (lengths,
  positions, prices) are held as IEEE-754 bit patterns.
  - `ids`: node identifiers (random UUIDs and their text).
  - `scene`: the scene graph — nodes, parents, meshes, removal of subtrees.
  - `joinery`: joint types, their catalogue data, and the joint store.
  - `history`: operations, their inverses, and the bounded undo/redo stacks.
  - `components`, `output`, `instructions`, `materials`: connected
    assemblies, the cut list, the build plan, and the material list's grouping.
  - `cost`: stock prices per board foot with user overrides; hardware needs.
    The prices are keyed by species id, a `String`. vstd specifies the
    contents of a `HashMap` only for keys that obey its key model (integers,
    `bool` and boxes of them), so a `HashMap<String, _>` would leave every
    lookup unproved; the prices are therefore a `Vec` whose ids are kept
    distinct by a type invariant, and the contracts speak of the map it
    stands for (`PriceDatabase::prices`).
  - `lumber`: the stock lumber catalogue.
  - `project`: saved projects, their validation and time stamps.
  - `units`: unit systems, fraction reduction, and how a dimension text is
    laid out.
  - `species`: workability, and finding a species by id or by name.
  - `text`: character-level helpers the rest is built on.
- `app/` — ordinary Rust around the library: the WebAssembly interface, the
  renderer, and everything computed in floating point (meshes, joint
  geometry, structural formulas, cut optimisation, costs, formatting).
- `tests/` — tests of the library.
