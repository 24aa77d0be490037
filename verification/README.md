# brainsick

A compiler for a small subset of Visual Basic (`bscc`), with its front end
and its decisions verified in Verus.

- `src/` is the verified library:
  - `syntax`: the syntax kinds, the lexer (`lex`), a lossless concrete
    syntax tree (`tree`), the error-recovering parser (`parse`) and the typed
    view of a file (`ast`). The lexer and the parser are proved against
    grammars written as spec functions, and both are proved lossless: the
    tokens' texts, and the tree's text, are the source text.
  - `hir`: lowering a parsed file.
  - `ty`: the runtime's value types (UTF-16 strings, integers, booleans,
    variants) and procedure signatures.
  - `stdlib`: conversions and the signatures of the runtime's procedures.
  - `argparse`: the command line.
  - `link`: the linker and its arguments for each supported target.
  - `codegen`: the platform decisions of code generation.
- `app/` is the driver: reading files, LLVM code generation through inkwell,
  running the linker, and the runtime's message box on each platform.
- `tests/` runs the library on concrete inputs.
