# rjavavm

A small Java virtual machine whose core is verified with Verus: it decodes class
files, builds classes from them, and interprets a subset of JVM bytecode.

## Layout

- `src/loader/` — the class-file format: constant pool, fields, methods and
  attributes, each decoder proved against a specification of the bytes it reads; the
  text listing of a class; class names turned into file names and class paths split
  into entries.
- `src/vm/` — the interpreter: instructions and their decoding, operand stacks,
  frames and local variables, the reference manager, the method area, the heap of
  objects and arrays, and a thread whose single step is specified as a function from
  state to state.
- `src/text.rs` — decimal and hexadecimal notation and numbered lists, with their
  specifications, shared by the listings.
- `app/` — the command line: looking class files up and reading them, printing, and
  the loop that steps a thread until it finishes, loading each class a step asks for.
- `tests/` — tests of the library on concrete class files and bytecode.

## Usage

`rjavavm --print test/Hello.class`

`rjavavm --run Hello`

`rjavavm --run Hello --trace-ops`
