# qjs_regjit

A register-based execution tier for QuickJS bytecode, verified with Verus.

- `src/compiler.rs`: stack bytecode to three-address register instructions;
  `src/compile_parts.rs` shows that it works instruction by instruction.
- `src/jit.rs`: x86-64 code for register instructions; `counted_loop.rs`,
  `branchy_loop.rs`, `modsum.rs` and `hash_loop.rs` recognise a few loops and
  fold them into constants or tight native loops; `number.rs` encodes JS
  numbers as returned by native code.
- `src/vm.rs`, `src/value.rs`: the register interpreter, one step at a time,
  over JS values as plain data; `src/vm_run.rs` describes whole runs.
- `src/stack_interp.rs`, `src/stack_run.rs`: the fast path of the stack
  interpreter and its runs.
- `src/counted_run.rs`, `src/branchy_run.rs`, `src/stack_run.rs`: proofs
  that folded loops and register code return what the interpreters return.
- `src/register_interpreter.rs`: when to hand a function back to the C
  interpreter, and the order in which the tier tries its strategies.
- `app/`: the `qjs` command and the host side (executable memory, the
  QuickJS entry points, reference counts, float64 arithmetic).
