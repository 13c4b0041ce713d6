# fog

Parts of the Fog compiler as a verified library: the tokenizer, the token
stream that a parser reads through, the delimiter and statement-pattern
searches, number literal typing and resizing, error reports, compiler
instructions, the expression parser (expressions, variable expressions,
calls and array literals), the parsers of a function's generics, of its
argument list and of import statements, and the dependency checks, each
with a contract proved by Verus. Statements, function bodies, types and the
code generator are not part of it.

- `src/` is the library.
- `tests/` runs the library on concrete inputs.
- `app/` is the command-line program around it: argument parsing, file I/O
  and the serde copies of the configuration and manifest files.
