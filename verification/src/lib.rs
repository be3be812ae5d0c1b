//! A register-based execution tier for QuickJS bytecode: a compiler from
//! QuickJS stack bytecode to three-address register instructions, a register
//! interpreter, the stack interpreter's fast path, and an x86-64 code
//! generator for register instructions that folds a few recognised loops
//! into constants. Proofs relate the tiers: folded loops and register code
//! return what the interpreters return.
use vstd::prelude::*;

pub mod bytes;
pub mod compiler;
pub mod compile_parts;
pub mod number;
pub mod jit;
pub mod hash_loop;
pub mod counted_loop;
pub mod modsum;
pub mod branchy_loop;
pub mod register_interpreter;
pub mod value;
pub mod vm;
pub mod vm_laws;
pub mod stack_interp;
pub mod vm_run;
pub mod counted_run;
pub mod branchy_run;
pub mod stack_run;

verus! {

} // verus!
