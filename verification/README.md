# facet_generate

Generates Swift, Kotlin and Java source code from a registry of type definitions
(structs, enums and the formats of their fields), optionally with serialization
code for the Bincode and JSON encodings.

The library under `src/` is written in Verus. Each emitter states, as a function
of the registry and the configuration, the exact text it writes, and proves its
code against that statement.

- `reflection/`: the model of formats and registries, and renaming of the type
  names inside them.
- `generation/module.rs`: splitting a registry into one module per namespace,
  with the external definitions of each module.
- `generation/indent.rs`: the indentation-aware writer and its model.
- `generation/java`, `kotlin`, `swift`, `swift2`: the emitters, generators and
  installers of each language. Every emitter proves that a definition closes
  every block it opens.
- `util/`: sorted maps, maps keyed by paths, and text functions.
- `case.rs`, `text_wrap.rs`: the calls into `heck`, `textwrap` and std's case
  mapping that the emitters rely on.

`app/` holds what the library leaves to its caller: writing sources, manifests
and runtimes to disk, and serde-enabled copies of the configuration types.
