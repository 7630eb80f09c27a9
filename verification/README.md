# chef

A bytecode interpreter in the style of *Crafting Interpreters*, whose
library is verified with Verus.

The crate holds two dialects that share values, errors and constants:

- `src/lox/`: the object-oriented dialect. A scanner (`scanner.rs`), a
  single-pass compiler from source text to operations (`compiler.rs`, with
  the operator table in `precedence.rs`), chunks of operations (`chunk.rs`),
  compiled functions (`objects.rs`) and a virtual machine that runs a chunk
  one operation at a time (`vm.rs`).
- `src/` at the top: the recipe dialect's scanner (`scanner.rs`), operator
  table (`rules.rs`), byte code (`chunk.rs`), functions (`function.rs`),
  native functions (`native_functions.rs`) and its virtual machine (`vm.rs`).
- Shared: values (`value.rs`, numbers held as IEEE-754 bit patterns),
  errors and their messages (`error.rs`), limits (`common.rs`), the string
  hash (`strings.rs`), and byte-level facts about source text (`lexical.rs`).

The machines never compute with floating point themselves: an arithmetic
step hands the two operands back to the driver, which pushes the result.
Number literals are likewise given to the compiler as a table from their
text to their bit pattern.

`app/` is the program around the library: the REPL and file runner, the
floating-point work, printing, and the garbage-collected heap objects.

Run a script with `chef <file>`; with no argument `chef` starts a REPL. The
environment variables `CHEF_DEBUG_CODE` and `CHEF_DEBUG_TRACE` print the
compiled chunk and each operation as it runs.
