# xcx

The verified core of the XCX language tool chain, written in Verus.

- `src/` — the library, every function proved against its contract:
  - `model` — bytecode instructions, trace instructions, type tags and the
    constant-pool facts that the analyses read;
  - `locals`, `init`, `ints`, `nonptr`, `maybeptr`, `types` — the analyses that
    the JIT compiler runs over a chunk or a trace before code generation
    (registers and globals used, registers read before written, integer-only
    globals, boolean arrays, registers that never hold pointers, registers that
    may hold pointers at each instruction, and per-instruction register types);
  - `regset` — register sets as flag arrays;
  - `regfacts`, `nanbox`, `cond` — what code generation consults: register
    facts and reference-count decisions, the quiet-NaN value packing, and
    comparison condition codes;
  - `editor`, `highlight`, `repl`, `text`, `cli` — the interactive mode's
    multi-line editor, syntax highlighting and command handling, and the
    reading of the command line.
- `tests/` — tests on concrete values.
- `app/` — the `xcx` program: terminal input and output, the REPL loop, and the
  calls into the language's compiler and VM to run programs.
