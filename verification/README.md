# dioptase

A small Java virtual machine whose core is verified with Verus.

## Layout

- `src/class/` reads class files: a byte reader, the constant pool,
  attributes (code, exception tables, stack map frames), fields, methods and
  the class file itself. Each reader is specified by a function on bytes
  (`sp_*`) that says what it gives back and where it stops, or which
  `ClassFormatError` it reports.
- `src/vm/` is the runtime: values, frames, the heap, threads, runtime
  classes, fields and methods, the class path (in memory), the opcodes and
  their decoding, and the virtual machine with its interpreter. The
  interpreter's `step` states what each instruction does: exactly for the
  instructions that work on their frame alone (`local_step`), and for the
  field, array, constant, object-creation, invocation and return
  instructions through `op_done` and `return_done`.
- `src/native/` holds the native methods the virtual machine provides and
  the registry that finds them by class, name and descriptor.
- `src/text.rs` has the string helpers the library needs.
- `app/` is the command-line program: argument parsing, reading directories
  and `.jar` files into a class path, the host's floating-point arithmetic,
  and error messages.

The library does no floating-point arithmetic itself: the `float`
instructions call a `FloatArithmetic` that the program supplies.

Outside crates the library calls, behind trusted wrappers:
`simd_cesu8` (modified UTF-8 in constant pools) and `jdescriptor` (field and
method descriptors).
