# kome

The verified core of the Kome toolchain, written in Verus.

- `src/ast.rs`, `src/semantics.rs`: the parts of parsed modules and of name
  resolution that the toolchain reads, with their mathematical models.
- `src/stdlib.rs`: finding the standard library, locating its modules, the
  breadth-first walk over the modules an application imports, and merging
  them with the application.
- `src/lsp/definition.rs`, `src/kome_lsp/definition.rs`: the decisions of go
  to definition for the two language server front ends.
- `src/paths.rs`: `std::path` operations, named in contracts.
- `src/platform.rs`: the argument check of the `core.write_line` native.
- `app/`: the language server itself (tower-lsp), and the file system,
  environment, parsing and resolution around the library.
