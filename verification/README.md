# Grease

Grease is a small scripting language: indentation-structured source is lexed,
parsed, linted and compiled to bytecode for a stack machine.

## Layout

- `src/` — the library, verified with Verus. Each public function states in its
  contract what it returns or changes, over spec functions and views.
  - `lexer`, `token`, `parser`, `ast`: source text to syntax tree (the grammar is
    written as spec functions; the parser is proved to follow them).
  - `linter`, `compiler`, `bytecode`: diagnostics, code generation, the
    instruction set and its disassembly.
  - `grease`: the pipeline from source text to lint results and chunks.
  - `webassembly`, `leb128`, `jit`: WebAssembly encoding and the JIT's code cache.
  - `lsp_workspace`: documents, symbols, definitions, completions and hover text
    for the language server.
  - `module_loader`, `module_errors`, `version_compat`, `module_communication`:
    optional modules, their errors, version checks and message channels.
  - `package`, `package_manager`, `performance`, `native_system`, `ui`: package
    tables, the package command line's decisions, optimisation passes, process
    results, themes, benchmarks and the browser UI's scripts.
  - Laws that relate several functions are public proof functions named `law_*`.
- `tests/` — tests of the library on concrete values.
- `app/` — the program around the library: the command line, the virtual machine
  (its numbers are floating point), the REPL, the language server adapter, and
  the file, process and clock work that the library leaves to its caller.
