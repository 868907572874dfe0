# cairo_lang

Verified pieces of a Cairo toolchain, written in Verus.

- `src/diagnostics.rs`: a diagnostics reporter that ignores diagnostics, hands them to a
  callback, or appends them to a string, and the check that collects the diagnostics of a
  compilation database (crates, their main module files and their modules' syntax, semantic
  and lowering diagnostics) in a fixed order.
- `src/key_fields.rs`: which child of a syntax node is its indexing key.
- `src/semantic.rs`: the semantic model of variables and their modifiers.
- `src/compiler.rs`: the structural check of a Sierra invocation against its library
  function, and the layout of CASM code statement by statement (instructions, statement
  offsets, relocations).
- `src/languageserver.rs`: the decisions of the language server (positions, published
  diagnostics, document changes, edit answers, completions).
- `app/`: what is not verified: printing to standard error, error messages, the language
  server's protocol plumbing over `tower-lsp`, and the compilation loop that calls the
  program-specific compilation steps.
