//! Decisions of the register tier that do not touch JS values: when to
//! give a function back to the C interpreter, and the order in which the
//! tier tries cached native code, fresh native code and the register
//! interpreter.
use vstd::prelude::*;

use crate::compiler::{
    RegInstruction, OP_REG_ADD, OP_REG_BIT_AND, OP_REG_BIT_OR, OP_REG_BIT_XOR, OP_REG_GT, OP_REG_GTE,
    OP_REG_JMP, OP_REG_LT, OP_REG_LTE, OP_REG_MOD, OP_REG_MUL, OP_REG_SAR, OP_REG_SHL, OP_REG_SHR,
    OP_REG_STRICT_EQ, OP_REG_SUB,
};
use crate::jit::native_supported;
use crate::vm::is_binary_op;

verus! {

/// An instruction that jumps to a target inside the code: a loop.
pub open spec fn is_backward_jump(bc: Seq<RegInstruction>, i: int) -> bool {
    bc[i].op == OP_REG_JMP && bc[i].src1 < bc.len()
}

/// Arithmetic that the register interpreter handles only partly natively.
pub open spec fn is_advanced_arithmetic(op: u8) -> bool {
    op == OP_REG_MUL || op == OP_REG_SUB || op == OP_REG_MOD || op == OP_REG_SHL || op == OP_REG_SAR
        || op == OP_REG_SHR || op == OP_REG_BIT_AND || op == OP_REG_BIT_XOR || op == OP_REG_BIT_OR
        || op == OP_REG_STRICT_EQ
}

/// Whether, after native compilation failed, the C interpreter should run the
/// function rather than the register interpreter: exactly when the code has a
/// loop (a jump to a target inside it) and some advanced arithmetic.
pub fn should_fallback_to_c_after_native_miss(bytecode: &[RegInstruction]) -> (r: bool)
    ensures
        r == ((exists|i: int| 0 <= i < bytecode@.len() && #[trigger] is_backward_jump(bytecode@, i))
            && (exists|i: int| 0 <= i < bytecode@.len() && is_advanced_arithmetic(#[trigger] bytecode@[i].op))),
{
    let n = bytecode.len();
    let mut has_loop = false;
    let mut has_advanced_arithmetic = false;
    let mut i: usize = 0;
    while i < n
        invariant
            n == bytecode@.len(),
            i <= n,
            has_loop == (exists|k: int| 0 <= k < i && #[trigger] is_backward_jump(bytecode@, k)),
            has_advanced_arithmetic == (exists|k: int|
                0 <= k < i && is_advanced_arithmetic(#[trigger] bytecode@[k].op)),
        decreases n - i,
    {
        let inst = bytecode[i];
        if inst.op == OP_REG_JMP && (inst.src1 as usize) < n {
            has_loop = true;
        }
        let op = inst.op;
        if op == OP_REG_MUL || op == OP_REG_SUB || op == OP_REG_MOD || op == OP_REG_SHL || op
            == OP_REG_SAR || op == OP_REG_SHR || op == OP_REG_BIT_AND || op == OP_REG_BIT_XOR || op
            == OP_REG_BIT_OR || op == OP_REG_STRICT_EQ {
            has_advanced_arithmetic = true;
        }
        proof {
            assert(is_backward_jump(bytecode@, i as int) ==> (exists|k: int|
                0 <= k < i + 1 && #[trigger] is_backward_jump(bytecode@, k)));
            assert(is_advanced_arithmetic(bytecode@[i as int].op) ==> (exists|k: int|
                0 <= k < i + 1 && is_advanced_arithmetic(#[trigger] bytecode@[k].op)));
        }
        i = i + 1;
    }
    has_loop && has_advanced_arithmetic
}

/// Law: the advanced arithmetic is exactly the binary operators that the
/// generic native code generator does not compile: `*`, `-`, `%`, `<<`,
/// `>>`, `>>>`, `&`, `^`, `|` and `===`, and not `+` or the comparisons.
pub proof fn lemma_advanced_arithmetic_opcodes(op: u8)
    ensures
        is_advanced_arithmetic(op) <==> (is_binary_op(op) && !native_supported(op)),
        is_advanced_arithmetic(OP_REG_MUL),
        is_advanced_arithmetic(OP_REG_SUB),
        is_advanced_arithmetic(OP_REG_MOD),
        is_advanced_arithmetic(OP_REG_SHL),
        is_advanced_arithmetic(OP_REG_SAR),
        is_advanced_arithmetic(OP_REG_SHR),
        is_advanced_arithmetic(OP_REG_BIT_AND),
        is_advanced_arithmetic(OP_REG_BIT_XOR),
        is_advanced_arithmetic(OP_REG_BIT_OR),
        is_advanced_arithmetic(OP_REG_STRICT_EQ),
        !is_advanced_arithmetic(OP_REG_ADD),
        !is_advanced_arithmetic(OP_REG_LT),
        !is_advanced_arithmetic(OP_REG_LTE),
        !is_advanced_arithmetic(OP_REG_GT),
        !is_advanced_arithmetic(OP_REG_GTE),
{
}

/// Law: after a native miss, the function goes back to the C interpreter
/// exactly when its code has a loop and some binary operator that generic
/// native code does not compile; code with a loop and, say, a `%` goes back.
pub proof fn lemma_fallback_on_loops_with_uncompiled_operators(bc: Seq<RegInstruction>, i: int, j: int)
    ensures
        ((exists|k: int| 0 <= k < bc.len() && #[trigger] is_backward_jump(bc, k)) && (exists|k: int|
            0 <= k < bc.len() && is_advanced_arithmetic(#[trigger] bc[k].op))) <==> ((exists|k: int|
            0 <= k < bc.len() && #[trigger] is_backward_jump(bc, k)) && (exists|k: int|
            0 <= k < bc.len() && is_binary_op(#[trigger] bc[k].op) && !native_supported(bc[k].op))),
        (0 <= i < bc.len() && is_backward_jump(bc, i) && 0 <= j < bc.len() && bc[j].op == OP_REG_MOD) ==> (
        (exists|k: int| 0 <= k < bc.len() && #[trigger] is_backward_jump(bc, k)) && (exists|k: int|
            0 <= k < bc.len() && is_advanced_arithmetic(#[trigger] bc[k].op))),
{
    if 0 <= i < bc.len() && is_backward_jump(bc, i) && 0 <= j < bc.len() && bc[j].op == OP_REG_MOD {
        assert(is_advanced_arithmetic(bc[j].op));
    }
    assert forall|k: int| 0 <= k < bc.len() implies is_advanced_arithmetic(#[trigger] bc[k].op) == (is_binary_op(
        bc[k].op,
    ) && !native_supported(bc[k].op)) by {
        lemma_advanced_arithmetic_opcodes(bc[k].op);
    }
}

/// The most entries that the cache of native code holds.
pub const NATIVE_CACHE_LIMIT: usize = 4096;

/// Where the register tier stands while it runs one function.
#[derive(Debug, Copy, Clone, PartialEq, Eq, Structural)]
pub enum TierStage {
    /// Nothing done yet.
    Start,
    /// The host looks the function up in its cache of native code.
    Lookup,
    /// Native code from the cache runs.
    CachedRun,
    /// The stack code is compiled to register code; `native` when native
    /// compilation follows.
    RegisterCompile { native: bool },
    /// The register code is compiled to native code.
    NativeCompile,
    /// Freshly compiled native code runs.
    FreshRun,
    /// The outcome is settled.
    Finished,
}

/// What the host reports to the register tier.
#[derive(Debug, Copy, Clone, PartialEq, Eq, Structural)]
pub enum TierEvent {
    /// The run begins; `native` when the host can run generated code.
    Begin { native: bool },
    /// The cache holds native code for the function (`hit`) or not.
    CacheLookup { hit: bool },
    /// Native code returned; `bailed` when it returned `uninitialized`.
    NativeReturned { bailed: bool },
    /// Register compilation succeeded (`ok`) or failed.
    RegisterCompiled { ok: bool },
    /// Native compilation succeeded (`ok`) or failed; `fallback_to_c` is
    /// `should_fallback_to_c_after_native_miss` of the register code, and
    /// `cache_len` the number of entries in the cache.
    NativeCompiled { ok: bool, fallback_to_c: bool, cache_len: usize },
}

/// What the host does next.
#[derive(Debug, Copy, Clone, PartialEq, Eq, Structural)]
pub enum TierAction {
    /// Look the function up in the cache of native code.
    LookUpCache,
    /// Run the cached native code.
    RunCachedNative,
    /// Compile the stack code to register code, first dropping the
    /// function's cache entry when `evict`.
    CompileRegister { evict: bool },
    /// Compile the register code to native code.
    CompileNative,
    /// Run the fresh native code, first adding it to the cache when `cache`.
    RunNative { cache: bool },
    /// Run the register interpreter and return its value, first dropping
    /// the function's cache entry when `evict`.
    RunInterpreter { evict: bool },
    /// Return the value that the native code returned.
    ReturnNativeResult,
    /// Return `uninitialized`: the C interpreter runs the function.
    ReturnUninitialized,
}

/// The register tier's next stage and action after `event` in `stage`.
pub open spec fn spec_tier_step(stage: TierStage, event: TierEvent) -> (TierStage, TierAction) {
    match (stage, event) {
        (TierStage::Start, TierEvent::Begin { native }) => if native {
            (TierStage::Lookup, TierAction::LookUpCache)
        } else {
            (TierStage::RegisterCompile { native: false }, TierAction::CompileRegister { evict: false })
        },
        (TierStage::Lookup, TierEvent::CacheLookup { hit }) => if hit {
            (TierStage::CachedRun, TierAction::RunCachedNative)
        } else {
            (TierStage::RegisterCompile { native: true }, TierAction::CompileRegister { evict: false })
        },
        (TierStage::CachedRun, TierEvent::NativeReturned { bailed }) => if bailed {
            (TierStage::RegisterCompile { native: true }, TierAction::CompileRegister { evict: true })
        } else {
            (TierStage::Finished, TierAction::ReturnNativeResult)
        },
        (TierStage::RegisterCompile { native }, TierEvent::RegisterCompiled { ok }) => if !ok {
            (TierStage::Finished, TierAction::ReturnUninitialized)
        } else if native {
            (TierStage::NativeCompile, TierAction::CompileNative)
        } else {
            (TierStage::Finished, TierAction::RunInterpreter { evict: false })
        },
        (TierStage::NativeCompile, TierEvent::NativeCompiled { ok, fallback_to_c, cache_len }) => if ok {
            (TierStage::FreshRun, TierAction::RunNative { cache: cache_len < NATIVE_CACHE_LIMIT })
        } else if fallback_to_c {
            (TierStage::Finished, TierAction::ReturnUninitialized)
        } else {
            (TierStage::Finished, TierAction::RunInterpreter { evict: false })
        },
        (TierStage::FreshRun, TierEvent::NativeReturned { bailed }) => if bailed {
            (TierStage::Finished, TierAction::RunInterpreter { evict: true })
        } else {
            (TierStage::Finished, TierAction::ReturnNativeResult)
        },
        _ => (TierStage::Finished, TierAction::ReturnUninitialized),
    }
}

/// The register tier's next stage and action after `event` in `stage`
/// (see `spec_tier_step`). A report that does not fit the stage settles the
/// run by handing the function to the C interpreter.
pub fn tier_step(stage: TierStage, event: TierEvent) -> (r: (TierStage, TierAction))
    ensures
        r == spec_tier_step(stage, event),
{
    match (stage, event) {
        (TierStage::Start, TierEvent::Begin { native }) => if native {
            (TierStage::Lookup, TierAction::LookUpCache)
        } else {
            (TierStage::RegisterCompile { native: false }, TierAction::CompileRegister { evict: false })
        },
        (TierStage::Lookup, TierEvent::CacheLookup { hit }) => if hit {
            (TierStage::CachedRun, TierAction::RunCachedNative)
        } else {
            (TierStage::RegisterCompile { native: true }, TierAction::CompileRegister { evict: false })
        },
        (TierStage::CachedRun, TierEvent::NativeReturned { bailed }) => if bailed {
            (TierStage::RegisterCompile { native: true }, TierAction::CompileRegister { evict: true })
        } else {
            (TierStage::Finished, TierAction::ReturnNativeResult)
        },
        (TierStage::RegisterCompile { native }, TierEvent::RegisterCompiled { ok }) => if !ok {
            (TierStage::Finished, TierAction::ReturnUninitialized)
        } else if native {
            (TierStage::NativeCompile, TierAction::CompileNative)
        } else {
            (TierStage::Finished, TierAction::RunInterpreter { evict: false })
        },
        (TierStage::NativeCompile, TierEvent::NativeCompiled { ok, fallback_to_c, cache_len }) => if ok {
            (TierStage::FreshRun, TierAction::RunNative { cache: cache_len < NATIVE_CACHE_LIMIT })
        } else if fallback_to_c {
            (TierStage::Finished, TierAction::ReturnUninitialized)
        } else {
            (TierStage::Finished, TierAction::RunInterpreter { evict: false })
        },
        (TierStage::FreshRun, TierEvent::NativeReturned { bailed }) => if bailed {
            (TierStage::Finished, TierAction::RunInterpreter { evict: true })
        } else {
            (TierStage::Finished, TierAction::ReturnNativeResult)
        },
        _ => (TierStage::Finished, TierAction::ReturnUninitialized),
    }
}

/// How far a run is from being settled.
pub open spec fn tier_rank(stage: TierStage) -> nat {
    match stage {
        TierStage::Start => 6,
        TierStage::Lookup => 5,
        TierStage::CachedRun => 4,
        TierStage::RegisterCompile { .. } => 3,
        TierStage::NativeCompile => 2,
        TierStage::FreshRun => 1,
        TierStage::Finished => 0,
    }
}

/// Law: the register tier settles. Every report moves an unsettled run to a
/// later stage, so that a run settles after at most six reports, and a
/// settled run's action is to return a value or to run the register
/// interpreter (which returns one).
pub proof fn lemma_tier_settles(stage: TierStage, event: TierEvent)
    requires
        stage != TierStage::Finished,
    ensures
        tier_rank(spec_tier_step(stage, event).0) < tier_rank(stage),
        spec_tier_step(stage, event).0 == TierStage::Finished ==> (spec_tier_step(stage, event).1
            == TierAction::ReturnNativeResult || spec_tier_step(stage, event).1 == TierAction::ReturnUninitialized
            || spec_tier_step(stage, event).1 is RunInterpreter),
{
}

/// Law: what the tier's actions rest on. Fresh code joins the cache only
/// while the cache has room for it; the native result is returned only
/// after native code returned without bailing; and the register interpreter
/// runs only on register code that compiled (after a successful register
/// compilation, or at the native stages that follow one).
pub proof fn lemma_tier_actions_justified(stage: TierStage, event: TierEvent)
    ensures
        spec_tier_step(stage, event).1 == (TierAction::RunNative { cache: true }) ==> (event matches TierEvent::NativeCompiled {
            cache_len,
            ..
        } && cache_len + 1 <= NATIVE_CACHE_LIMIT),
        spec_tier_step(stage, event).1 == TierAction::ReturnNativeResult ==> event == (TierEvent::NativeReturned {
            bailed: false,
        }),
        spec_tier_step(stage, event).1 is RunInterpreter ==> (event == (TierEvent::RegisterCompiled { ok: true })
            || stage == TierStage::NativeCompile || stage == TierStage::FreshRun),
{
}

} // verus!
