# twin4rust

A source file under `src/` should have a test file mirroring it under `tests/`:

```text
src/<path>/<name>.rs   ->   tests/<path>/<name>_tests.rs
```

`cargo twin4rust` lists the files of a package that lack their mirror and
exits with 1 when any does. Entry points (`src/lib.rs`, `src/main.rs`,
`build.rs`, files directly under `src/bin/`), every `mod.rs`, files that only
define types, traits, constants or statics, single-type files whose only
behaviour is a trivial `new`, humble adapters, and the `src/` tree of a
package named `*-validation` are left out.

## Layout

- `src/` is the library, verified with Verus: the mirror rule, the
  classification of a file's top-level items, the choice of source roots, the
  selection of packages, the report and its order, and the workspace checks
  that delegate to other cargo tools (their arguments, their verdicts, and
  the reading of the CRAP report). The contracts and the proved properties
  are stated over spec functions next to the code they describe.
- `app/` is the binary: it reads the command line with clap, asks cargo for
  the workspace's metadata, walks and reads the source trees, launches
  processes, and hands every result to the library.
- `tests/` runs the library on concrete inputs.
