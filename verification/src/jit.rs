//! x86-64 code generation for register instructions.
//!
//! The generated function follows the System V ABI with the arguments
//! `(ctx, regs, var_buf, cpool)`; register `r` of the register file lives at
//! `regs + 16 * r` (payload, then tag), local `l` at `var_buf + 16 * l`.
//! The function returns a JS value in `rax:rdx`. A bailout returns the
//! `uninitialized` tag (4) with `eax` holding `4 * index + check` of the
//! instruction whose check failed.
use vstd::prelude::*;

use crate::branchy_loop::{compile_branchy_modulo_loop, spec_branchy_loop};
use crate::bytes::{as_signed32, le16, le32, le32_bytes, push_all, push_le32, wrap32};
use crate::counted_loop::{compile_constant_counted_loop, spec_counted_loop};
use crate::hash_loop::{compile_bitwise_hash_loop, spec_hash_loop};
use crate::compiler::{
    spec_step, RegInstruction, OP_PUSH_I32, OP_REG_ADD, OP_REG_GT, OP_REG_GTE, OP_REG_IF_FALSE, OP_REG_IF_TRUE, OP_REG_JMP,
    OP_REG_LOAD_LOC, OP_REG_LT, OP_REG_LTE, OP_REG_MOV, OP_REG_PUSH_I32, OP_REG_RETURN,
    OP_REG_RETURN_UNDEF, OP_REG_SET_LOC, OP_REG_STORE_LOC,
};

verus! {

/// Native code produced for a sequence of register instructions, ready to be
/// placed in executable memory.
#[derive(Debug)]
pub struct JitBuffer {
    code: Vec<u8>,
}

impl View for JitBuffer {
    type V = Seq<u8>;

    closed spec fn view(&self) -> Seq<u8> {
        self.code@
    }
}

impl JitBuffer {
    /// The bytes at the buffer's entry point, in order.
    pub fn ptr(&self) -> (r: &[u8])
        ensures
            r@ == self@,
    {
        self.code.as_slice()
    }
}

/// The 32-bit immediate that an instruction carries in `src1` (low half) and
/// `src2` (high half), read as two's complement.
pub open spec fn spec_reg_i32(inst: RegInstruction) -> int {
    as_signed32(inst.src1 + 65536 * inst.src2)
}

/// The 32-bit immediate of `inst`.
pub fn reg_i32(inst: &RegInstruction) -> (r: i32)
    ensures
        r as int == spec_reg_i32(*inst),
{
    let a = inst.src1;
    let b = inst.src2;
    let r = (a as i32) | ((b as i32) << 16);
    let x: u32 = a as u32 + (b as u32) * 65536;
    assert(r == x as i32) by (bit_vector)
        requires
            r == (a as i32) | ((b as i32) << 16),
            x == a as u32 + (b as u32) * 65536,
    ;
    assert((x < 0x8000_0000 ==> x as i32 == x) && (x >= 0x8000_0000 ==> x as i32 == x - 0x1_0000_0000))
        by (bit_vector);
    r
}

/// Whether the counted-loop condition `i <op> limit` holds.
pub open spec fn loop_cond(cond_op: u8, i: int, limit: int) -> bool {
    if cond_op == OP_REG_LT {
        i < limit
    } else if cond_op == OP_REG_LTE {
        i <= limit
    } else if cond_op == OP_REG_GT {
        i > limit
    } else {
        i >= limit
    }
}

/// How many times `for (i = init; i <op> limit; i += step)` runs its body,
/// when the step moves `i` towards the exit (an increasing step for `<`, `<=`,
/// a decreasing one for `>`, `>=`); `None` for any other combination.
pub open spec fn spec_counted_iterations(init: int, limit: int, step: int, cond_op: u8) -> Option<int> {
    if step == 0 {
        None
    } else if cond_op == OP_REG_LT && step > 0 {
        Some(if init >= limit { 0 } else { (limit - init + step - 1) / step })
    } else if cond_op == OP_REG_LTE && step > 0 {
        Some(if init > limit { 0 } else { (limit - init + step) / step })
    } else if cond_op == OP_REG_GT && step < 0 {
        Some(if init <= limit { 0 } else { (init - limit - step - 1) / (-step) })
    } else if cond_op == OP_REG_GTE && step < 0 {
        Some(if init < limit { 0 } else { (init - limit - step) / (-step) })
    } else {
        None
    }
}

/// The number of iterations of a counted loop (see `spec_counted_iterations`).
pub fn checked_counted_iterations(init: i32, limit: i32, step: i32, cond_op: u8) -> (r: Option<i64>)
    ensures
        r matches Some(n) ==> spec_counted_iterations(init as int, limit as int, step as int, cond_op)
            == Some(n as int),
        r is None ==> spec_counted_iterations(init as int, limit as int, step as int, cond_op) is None,
{
    if step == 0 {
        return None;
    }
    let init = init as i64;
    let limit = limit as i64;
    let step = step as i64;
    if cond_op == OP_REG_LT && step > 0 {
        if init >= limit {
            Some(0)
        } else {
            Some((limit - init + step - 1) / step)
        }
    } else if cond_op == OP_REG_LTE && step > 0 {
        if init > limit {
            Some(0)
        } else {
            Some((limit - init + step) / step)
        }
    } else if cond_op == OP_REG_GT && step < 0 {
        let abs_step = -step;
        if init <= limit {
            Some(0)
        } else {
            Some((init - limit + abs_step - 1) / abs_step)
        }
    } else if cond_op == OP_REG_GTE && step < 0 {
        let abs_step = -step;
        if init < limit {
            Some(0)
        } else {
            Some((init - limit + abs_step) / abs_step)
        }
    } else {
        None
    }
}

/// Law: the iteration count is exact. When it is defined, the loop condition
/// holds for the induction values of the first `n` iterations and fails for
/// the value after them.
pub proof fn lemma_counted_iterations_exact(init: int, limit: int, step: int, cond_op: u8, n: int)
    requires
        spec_counted_iterations(init, limit, step, cond_op) == Some(n),
    ensures
        n >= 0,
        forall|k: int| 0 <= k < n ==> #[trigger] loop_cond(cond_op, init + k * step, limit),
        !loop_cond(cond_op, init + n * step, limit),
{
    if step > 0 {
        let d = if cond_op == OP_REG_LT { limit - init } else { limit - init + 1 };
        // n is the least k with init + k * step >= init + d.
        if d <= 0 {
            assert(n == 0);
        } else {
            assert(n == (d + step - 1) / step);
            lemma_ceil_div(d, step);
        }
        assert forall|k: int| 0 <= k < n implies #[trigger] loop_cond(cond_op, init + k * step, limit) by {
            assert(k * step <= (n - 1) * step) by (nonlinear_arith)
                requires
                    k <= n - 1,
                    step > 0,
            ;
        }
    } else {
        let s = -step;
        let d = if cond_op == OP_REG_GT { init - limit } else { init - limit + 1 };
        if d <= 0 {
            assert(n == 0);
        } else {
            assert(n == (d + s - 1) / s);
            lemma_ceil_div(d, s);
        }
        assert(n * step == -(n * s)) by (nonlinear_arith)
            requires
                s == -step,
        ;
        assert forall|k: int| 0 <= k < n implies #[trigger] loop_cond(cond_op, init + k * step, limit) by {
            assert(k * s <= (n - 1) * s) by (nonlinear_arith)
                requires
                    k <= n - 1,
                    s > 0,
            ;
            assert(k * step == -(k * s)) by (nonlinear_arith)
                requires
                    s == -step,
            ;
        }
    }
}

/// `(d + s - 1) / s` is the least `n` with `n * s >= d`.
proof fn lemma_ceil_div(d: int, s: int)
    requires
        d > 0,
        s > 0,
    ensures
        ((d + s - 1) / s) * s >= d,
        ((d + s - 1) / s - 1) * s < d,
        (d + s - 1) / s >= 1,
{
    let n = (d + s - 1) / s;
    let r = (d + s - 1) % s;
    assert(n * s + r == d + s - 1 && 0 <= r < s) by (nonlinear_arith)
        requires
            n == (d + s - 1) / s,
            r == (d + s - 1) % s,
            s > 0,
    ;
    assert(n >= 1) by (nonlinear_arith)
        requires
            n * s + r == d + s - 1,
            0 <= r < s,
            d > 0,
            s > 0,
    ;
    assert((n - 1) * s == n * s - s) by (nonlinear_arith);
}

// ---------------------------------------------------------------------------
// Generic code generation
// ---------------------------------------------------------------------------

/// `b0 b1 b2` followed by the four bytes of the 32-bit pattern `u`.
pub open spec fn op_u32(b0: u8, b1: u8, b2: u8, u: int) -> Seq<u8> {
    seq![b0, b1, b2] + le32_bytes(u)
}

/// A conditional skip over a bailout path, placed at `pos`: when the check
/// fails, `eax` gets `idx` and control jumps to the bailout block at `bailout`.
pub open spec fn bail_code(cond: u8, idx: int, pos: int, bailout: int) -> Seq<u8> {
    seq![cond, 10u8, 0xb8u8] + le32_bytes(idx) + seq![0xe9u8] + le32_bytes(wrap32(bailout - (pos + 12)))
}

/// Check that the tag at `regs + disp + 8` is `tag`.
pub open spec fn tag_check(disp: int, tag: u8) -> Seq<u8> {
    op_u32(0x48, 0x83, 0xbe, disp + 8) + seq![tag]
}

/// The number of code bytes of each supported register instruction.
pub open spec fn native_len(inst: RegInstruction) -> int {
    native_len_op(inst.op)
}

/// The number of code bytes for a supported opcode.
pub open spec fn native_len_op(op: u8) -> int {
    if op == OP_REG_PUSH_I32 {
        22
    } else if op == OP_REG_LOAD_LOC || op == OP_REG_STORE_LOC || op == OP_REG_SET_LOC || op
        == OP_REG_MOV {
        28
    } else if op == OP_REG_ADD {
        86
    } else if op == OP_REG_LT || op == OP_REG_LTE || op == OP_REG_GT || op == OP_REG_GTE {
        80
    } else if op == OP_REG_JMP {
        5
    } else if op == OP_REG_IF_FALSE || op == OP_REG_IF_TRUE {
        37
    } else if op == OP_REG_RETURN || op == OP_REG_RETURN_UNDEF {
        15
    } else {
        0
    }
}

/// The register opcodes that the generic code generator handles.
pub open spec fn native_supported(op: u8) -> bool {
    op == OP_REG_PUSH_I32 || op == OP_REG_LOAD_LOC || op == OP_REG_STORE_LOC || op == OP_REG_SET_LOC
        || op == OP_REG_MOV || op == OP_REG_ADD || op == OP_REG_LT || op == OP_REG_LTE || op
        == OP_REG_GT || op == OP_REG_GTE || op == OP_REG_JMP || op == OP_REG_IF_FALSE || op
        == OP_REG_IF_TRUE || op == OP_REG_RETURN || op == OP_REG_RETURN_UNDEF
}

pub const PROLOGUE_LEN: usize = 6;

/// Prologue: `mov r8, rdx` (var_buf) and `mov r9, rcx` (cpool).
pub open spec fn prologue() -> Seq<u8> {
    seq![0x49u8, 0x89, 0xd0, 0x49, 0x89, 0xc9]
}

/// Bailout block: return the `uninitialized` tag with `eax` as the payload.
pub open spec fn epilogue() -> Seq<u8> {
    seq![0x48u8, 0xc7, 0xc2, 4, 0, 0, 0, 0xc3]
}

/// The code offset at which instruction `i` starts.
pub open spec fn inst_offset(bc: Seq<RegInstruction>, i: int) -> int
    decreases i,
{
    if i <= 0 {
        PROLOGUE_LEN as int
    } else {
        inst_offset(bc, i - 1) + native_len(bc[i - 1])
    }
}

/// The code offset of the bailout block, right after the last instruction.
pub open spec fn bailout_pos(bc: Seq<RegInstruction>) -> int {
    inst_offset(bc, bc.len() as int)
}

/// Where a jump to instruction index `t` lands: that instruction, or the
/// bailout block for an index past the end.
pub open spec fn jump_target(bc: Seq<RegInstruction>, t: int) -> int {
    if t >= bc.len() {
        bailout_pos(bc)
    } else {
        inst_offset(bc, t)
    }
}

/// Code that copies a 16-byte value: two loads (`l0`, `l1`) from `src` and
/// two stores (`s0`, `s1`) to `dst`.
pub open spec fn move_code(l: (u8, u8, u8), l1: (u8, u8, u8), st: (u8, u8, u8), st1: (u8, u8, u8), src: int, dst: int) -> Seq<u8> {
    op_u32(l.0, l.1, l.2, src) + op_u32(l1.0, l1.1, l1.2, src + 8) + op_u32(st.0, st.1, st.2, dst)
        + op_u32(st1.0, st1.1, st1.2, dst + 8)
}

/// `regs[dst] = int32(imm)`.
pub open spec fn push_i32_code(d: int, imm: int) -> Seq<u8> {
    op_u32(0x48, 0xc7, 0x86, d) + le32_bytes(imm) + op_u32(0x48, 0xc7, 0x86, d + 8) + le32_bytes(0)
}

/// Both operands checked to be `int32` (bailing out otherwise), then loaded
/// into `eax` and `ecx`.
pub open spec fn int_operands_code(i: int, s: int, bo: int, d1: int, d2: int) -> Seq<u8> {
    tag_check(d1, 0) + bail_code(0x74, 4 * i, s + 8, bo) + tag_check(d2, 0) + bail_code(
        0x74,
        4 * i + 1,
        s + 28,
        bo,
    ) + op_u32(0x48, 0x8b, 0x86, d1) + op_u32(0x48, 0x8b, 0x8e, d2)
}

/// `regs[dst] = regs[src1] + regs[src2]` on `int32`, bailing out on overflow.
pub open spec fn add_code(i: int, s: int, bo: int, d: int, d1: int, d2: int) -> Seq<u8> {
    int_operands_code(i, s, bo, d1, d2) + seq![0x01u8, 0xc8] + bail_code(0x71, 4 * i + 2, s + 56, bo)
        + op_u32(0x48, 0x89, 0x86, d) + op_u32(0x48, 0xc7, 0x86, d + 8) + le32_bytes(0)
}

/// The `setcc` opcode byte of a comparison.
pub open spec fn setcc_byte(op: u8) -> u8 {
    if op == OP_REG_LT {
        0x9c
    } else if op == OP_REG_LTE {
        0x9e
    } else if op == OP_REG_GT {
        0x9f
    } else {
        0x9d
    }
}

/// `regs[dst] = bool(regs[src1] <op> regs[src2])` on `int32`.
pub open spec fn compare_code(op: u8, i: int, s: int, bo: int, d: int, d1: int, d2: int) -> Seq<u8> {
    int_operands_code(i, s, bo, d1, d2) + seq![0x39u8, 0xc8, 0x0f, setcc_byte(op), 0xc0, 0x0f, 0xb6, 0xc0]
        + op_u32(0x48, 0x89, 0x86, d) + op_u32(0x48, 0xc7, 0x86, d + 8) + le32_bytes(1)
}

/// A jump to `target` from the instruction at `s`.
pub open spec fn jmp_code(s: int, target: int) -> Seq<u8> {
    seq![0xe9u8] + le32_bytes(wrap32(target - (s + 5)))
}

/// A branch on the boolean in `regs[dst]` (bailing out when it is not a boolean).
pub open spec fn if_code(op: u8, i: int, s: int, bo: int, d: int, target: int) -> Seq<u8> {
    tag_check(d, 1) + bail_code(0x74, 4 * i, s + 8, bo) + op_u32(0x48, 0x8b, 0x86, d) + seq![
        0x48u8,
        0x83,
        0xf8,
        0,
        0x0f,
        if op == OP_REG_IF_FALSE { 0x84u8 } else { 0x85u8 },
    ] + le32_bytes(wrap32(target - (s + 37)))
}

/// Return `regs[dst]`.
pub open spec fn return_code(d: int) -> Seq<u8> {
    op_u32(0x48, 0x8b, 0x86, d) + op_u32(0x48, 0x8b, 0x96, d + 8) + seq![0xc3u8]
}

/// Return `undefined`.
pub open spec fn return_undef_code() -> Seq<u8> {
    seq![0x48u8, 0xc7, 0xc0, 0, 0, 0, 0, 0x48, 0xc7, 0xc2, 3, 0, 0, 0, 0xc3]
}

/// The code of instruction `i` of `bc`.
#[verifier::opaque]
pub open spec fn inst_code(bc: Seq<RegInstruction>, i: int) -> Seq<u8> {
    let inst = bc[i];
    let s = inst_offset(bc, i);
    let bo = bailout_pos(bc);
    let d = inst.dst * 16;
    let d1 = inst.src1 * 16;
    let d2 = inst.src2 * 16;
    let op = inst.op;
    if op == OP_REG_PUSH_I32 {
        push_i32_code(d, inst.src1 + 65536 * inst.src2)
    } else if op == OP_REG_LOAD_LOC {
        move_code((0x49, 0x8b, 0x80), (0x49, 0x8b, 0x90), (0x48, 0x89, 0x86), (0x48, 0x89, 0x96), d1, d)
    } else if op == OP_REG_STORE_LOC || op == OP_REG_SET_LOC {
        move_code((0x48, 0x8b, 0x86), (0x48, 0x8b, 0x96), (0x49, 0x89, 0x80), (0x49, 0x89, 0x90), d1, d)
    } else if op == OP_REG_MOV {
        move_code((0x48, 0x8b, 0x86), (0x48, 0x8b, 0x96), (0x48, 0x89, 0x86), (0x48, 0x89, 0x96), d1, d)
    } else if op == OP_REG_ADD {
        add_code(i, s, bo, d, d1, d2)
    } else if op == OP_REG_LT || op == OP_REG_LTE || op == OP_REG_GT || op == OP_REG_GTE {
        compare_code(op, i, s, bo, d, d1, d2)
    } else if op == OP_REG_JMP {
        jmp_code(s, jump_target(bc, inst.src1 as int))
    } else if op == OP_REG_IF_FALSE || op == OP_REG_IF_TRUE {
        if_code(op, i, s, bo, d, jump_target(bc, inst.src1 as int))
    } else if op == OP_REG_RETURN {
        return_code(d)
    } else {
        return_undef_code()
    }
}

/// The prologue followed by the code of the first `n` instructions.
pub open spec fn emitted(bc: Seq<RegInstruction>, n: int) -> Seq<u8>
    decreases n,
{
    if n <= 0 {
        prologue()
    } else {
        emitted(bc, n - 1) + inst_code(bc, n - 1)
    }
}

/// The generic translation of `bc`: the prologue, the code of every
/// instruction in order, then the bailout block; `None` when some
/// instruction has an opcode that the generator does not handle.
pub open spec fn spec_generic_code(bc: Seq<RegInstruction>) -> Option<Seq<u8>> {
    if forall|i: int| 0 <= i < bc.len() ==> native_supported(#[trigger] bc[i].op) {
        Some(emitted(bc, bc.len() as int) + epilogue())
    } else {
        None
    }
}

/// The 32-bit pattern of the displacement `target - next` (wrapping).
fn disp32(target: usize, next: usize) -> (r: u32)
    ensures
        r as int == wrap32(target - next),
{
    let t = target as u64;
    let n = next as u64;
    if t >= n {
        ((t - n) % 0x1_0000_0000) as u32
    } else {
        let d = (n - t) % 0x1_0000_0000;
        proof {
            lemma_wrap32_neg((n - t) as int);
        }
        if d == 0 {
            0
        } else {
            (0x1_0000_0000 - d) as u32
        }
    }
}

proof fn lemma_wrap32_neg(m: int)
    requires
        m > 0,
    ensures
        m % 0x1_0000_0000 == 0 ==> wrap32(-m) == 0,
        m % 0x1_0000_0000 != 0 ==> wrap32(-m) == 0x1_0000_0000 - m % 0x1_0000_0000,
{
    let q = m / 0x1_0000_0000;
    let r = m % 0x1_0000_0000;
    assert(m == q * 0x1_0000_0000 + r && 0 <= r < 0x1_0000_0000) by (nonlinear_arith)
        requires
            q == m / 0x1_0000_0000,
            r == m % 0x1_0000_0000,
    ;
    if r == 0 {
        assert((-m) % 0x1_0000_0000 == 0) by (nonlinear_arith)
            requires
                m == q * 0x1_0000_0000,
        ;
    } else {
        assert((-m) % 0x1_0000_0000 == 0x1_0000_0000 - r) by (nonlinear_arith)
            requires
                -m == (-q - 1) * 0x1_0000_0000 + (0x1_0000_0000 - r),
                0 < r < 0x1_0000_0000,
        ;
    }
}

/// Appends `b0 b1 b2` and the four bytes of `u`.
fn emit_op_u32(code: &mut Vec<u8>, b0: u8, b1: u8, b2: u8, u: u32)
    ensures
        final(code)@ == old(code)@ + op_u32(b0, b1, b2, u as int),
{
    code.push(b0);
    code.push(b1);
    code.push(b2);
    push_le32(code, u);
    assert(final(code)@ =~= old(code)@ + op_u32(b0, b1, b2, u as int));
}

/// Appends a bailout check at the end of `code`.
fn emit_bailout(code: &mut Vec<u8>, cond: u8, idx: u32, bailout: usize)
    requires
        old(code)@.len() + 12 <= bailout,
    ensures
        final(code)@ == old(code)@ + bail_code(cond, idx as int, old(code)@.len() as int, bailout as int),
{
    let pos = code.len();
    code.push(cond);
    code.push(10);
    // mov eax, idx
    code.push(0xb8);
    push_le32(code, idx);
    // jmp bailout
    code.push(0xe9);
    let d = disp32(bailout, pos + 12);
    push_le32(code, d);
    assert(final(code)@ =~= old(code)@ + bail_code(cond, idx as int, pos as int, bailout as int));
}

/// Appends a tag check for the register at displacement `disp`.
fn emit_tag_check(code: &mut Vec<u8>, disp: u32, tag: u8)
    requires
        disp <= 0x10_0000,
    ensures
        final(code)@ == old(code)@ + tag_check(disp as int, tag),
{
    emit_op_u32(code, 0x48, 0x83, 0xbe, disp + 8);
    code.push(tag);
    assert(final(code)@ =~= old(code)@ + tag_check(disp as int, tag));
}

proof fn lemma_inst_offset_mono(bc: Seq<RegInstruction>, i: int, j: int)
    requires
        0 <= i <= j <= bc.len(),
    ensures
        inst_offset(bc, i) <= inst_offset(bc, j),
        inst_offset(bc, j) <= inst_offset(bc, i) + 86 * (j - i),
    decreases j - i,
{
    if i < j {
        lemma_inst_offset_mono(bc, i, j - 1);
    }
}

proof fn lemma_emitted_len(bc: Seq<RegInstruction>, n: int)
    requires
        0 <= n <= bc.len(),
        forall|i: int| 0 <= i < bc.len() ==> native_supported(#[trigger] bc[i].op),
    ensures
        emitted(bc, n).len() == inst_offset(bc, n),
    decreases n,
{
    if n > 0 {
        lemma_emitted_len(bc, n - 1);
        assert(native_supported(bc[n - 1].op));
        lemma_inst_code_len(bc, n - 1);
    }
}

proof fn lemma_inst_code_len(bc: Seq<RegInstruction>, i: int)
    requires
        0 <= i < bc.len(),
        native_supported(bc[i].op),
    ensures
        inst_code(bc, i).len() == native_len(bc[i]),
{
    reveal(inst_code);
}

fn emit_move(
    code: &mut Vec<u8>,
    l: (u8, u8, u8),
    l1: (u8, u8, u8),
    st: (u8, u8, u8),
    st1: (u8, u8, u8),
    src: u32,
    dst: u32,
)
    requires
        src <= 0x10_0000,
        dst <= 0x10_0000,
    ensures
        final(code)@ == old(code)@ + move_code(l, l1, st, st1, src as int, dst as int),
{
    emit_op_u32(code, l.0, l.1, l.2, src);
    emit_op_u32(code, l1.0, l1.1, l1.2, src + 8);
    emit_op_u32(code, st.0, st.1, st.2, dst);
    emit_op_u32(code, st1.0, st1.1, st1.2, dst + 8);
    assert(final(code)@ =~= old(code)@ + move_code(l, l1, st, st1, src as int, dst as int));
}

fn emit_push_i32(code: &mut Vec<u8>, d: u32, imm: u32)
    requires
        d <= 0x10_0000,
    ensures
        final(code)@ == old(code)@ + push_i32_code(d as int, imm as int),
{
    // mov qword ptr [rsi + d], imm32 ; mov qword ptr [rsi + d + 8], JS_TAG_INT
    emit_op_u32(code, 0x48, 0xc7, 0x86, d);
    push_le32(code, imm);
    emit_op_u32(code, 0x48, 0xc7, 0x86, d + 8);
    push_le32(code, 0);
    assert(final(code)@ =~= old(code)@ + push_i32_code(d as int, imm as int));
}

fn emit_int_operands(code: &mut Vec<u8>, i: u32, bo: usize, d1: u32, d2: u32)
    requires
        i <= 0x3fff_ffff,
        d1 <= 0x10_0000,
        d2 <= 0x10_0000,
        old(code)@.len() + 40 <= bo,
    ensures
        final(code)@ == old(code)@ + int_operands_code(i as int, old(code)@.len() as int, bo as int, d1 as int, d2 as int),
{
    let ghost s = old(code)@.len() as int;
    emit_tag_check(code, d1, 0);
    emit_bailout(code, 0x74, i * 4, bo);
    emit_tag_check(code, d2, 0);
    emit_bailout(code, 0x74, i * 4 + 1, bo);
    emit_op_u32(code, 0x48, 0x8b, 0x86, d1);
    emit_op_u32(code, 0x48, 0x8b, 0x8e, d2);
    assert(final(code)@ =~= old(code)@ + int_operands_code(i as int, s, bo as int, d1 as int, d2 as int));
}

fn emit_add(code: &mut Vec<u8>, i: u32, bo: usize, d: u32, d1: u32, d2: u32)
    requires
        i <= 0x3fff_ffff,
        d <= 0x10_0000,
        d1 <= 0x10_0000,
        d2 <= 0x10_0000,
        old(code)@.len() + 86 <= bo,
    ensures
        final(code)@ == old(code)@ + add_code(i as int, old(code)@.len() as int, bo as int, d as int, d1 as int, d2 as int),
{
    let ghost s = old(code)@.len() as int;
    emit_int_operands(code, i, bo, d1, d2);
    // add eax, ecx ; jo bailout
    code.push(0x01);
    code.push(0xc8);
    emit_bailout(code, 0x71, i * 4 + 2, bo);
    emit_op_u32(code, 0x48, 0x89, 0x86, d);
    emit_op_u32(code, 0x48, 0xc7, 0x86, d + 8);
    push_le32(code, 0);
    assert(final(code)@ =~= old(code)@ + add_code(i as int, s, bo as int, d as int, d1 as int, d2 as int));
}

fn emit_compare(code: &mut Vec<u8>, op: u8, i: u32, bo: usize, d: u32, d1: u32, d2: u32)
    requires
        i <= 0x3fff_ffff,
        d <= 0x10_0000,
        d1 <= 0x10_0000,
        d2 <= 0x10_0000,
        old(code)@.len() + 80 <= bo,
    ensures
        final(code)@ == old(code)@ + compare_code(op, i as int, old(code)@.len() as int, bo as int, d as int, d1 as int, d2 as int),
{
    let ghost s = old(code)@.len() as int;
    emit_int_operands(code, i, bo, d1, d2);
    let setcc: u8 = if op == OP_REG_LT {
        0x9c
    } else if op == OP_REG_LTE {
        0x9e
    } else if op == OP_REG_GT {
        0x9f
    } else {
        0x9d
    };
    // compare eax with ecx ; setcc al ; movzx eax, al
    push_all(code, &[0x39, 0xc8, 0x0f, setcc, 0xc0, 0x0f, 0xb6, 0xc0]);
    emit_op_u32(code, 0x48, 0x89, 0x86, d);
    // tag JS_TAG_BOOL
    emit_op_u32(code, 0x48, 0xc7, 0x86, d + 8);
    push_le32(code, 1);
    assert(final(code)@ =~= old(code)@ + compare_code(op, i as int, s, bo as int, d as int, d1 as int, d2 as int));
}

fn emit_jmp(code: &mut Vec<u8>, target: usize)
    requires
        old(code)@.len() + 5 <= usize::MAX,
    ensures
        final(code)@ == old(code)@ + jmp_code(old(code)@.len() as int, target as int),
{
    let pos = code.len();
    code.push(0xe9);
    let disp = disp32(target, pos + 5);
    push_le32(code, disp);
    assert(final(code)@ =~= old(code)@ + jmp_code(pos as int, target as int));
}

fn emit_if(code: &mut Vec<u8>, op: u8, i: u32, bo: usize, d: u32, target: usize)
    requires
        i <= 0x3fff_ffff,
        d <= 0x10_0000,
        old(code)@.len() + 37 <= bo,
    ensures
        final(code)@ == old(code)@ + if_code(op, i as int, old(code)@.len() as int, bo as int, d as int, target as int),
{
    let pos = code.len();
    emit_tag_check(code, d, 1);
    emit_bailout(code, 0x74, i * 4, bo);
    emit_op_u32(code, 0x48, 0x8b, 0x86, d);
    let cc: u8 = if op == OP_REG_IF_FALSE { 0x84 } else { 0x85 };
    // compare rax with 0 ; je/jne target
    push_all(code, &[0x48, 0x83, 0xf8, 0, 0x0f, cc]);
    let disp = disp32(target, pos + 37);
    push_le32(code, disp);
    assert(final(code)@ =~= old(code)@ + if_code(op, i as int, pos as int, bo as int, d as int, target as int));
}

/// Appends the code of instruction `i` of `bc`.
fn emit_inst(
    code: &mut Vec<u8>,
    bc: &[RegInstruction],
    i: usize,
    offsets: &Vec<usize>,
    bailout: usize,
)
    requires
        i < bc@.len() <= 0x3fff_ffff,
        native_supported(bc@[i as int].op),
        old(code)@.len() == inst_offset(bc@, i as int),
        offsets@.len() == bc@.len(),
        forall|k: int| 0 <= k < bc@.len() ==> #[trigger] offsets@[k] == inst_offset(bc@, k),
        bailout == bailout_pos(bc@),
        inst_offset(bc@, i as int) + native_len(bc@[i as int]) <= bailout,
    ensures
        final(code)@ == old(code)@ + inst_code(bc@, i as int),
{
    reveal(inst_code);
    let inst = bc[i];
    let op = inst.op;
    let d: u32 = (inst.dst as u32) * 16;
    let d1: u32 = (inst.src1 as u32) * 16;
    let d2: u32 = (inst.src2 as u32) * 16;
    let iu: u32 = i as u32;
    if op == OP_REG_PUSH_I32 {
        emit_push_i32(code, d, (inst.src1 as u32) + (inst.src2 as u32) * 65536);
    } else if op == OP_REG_LOAD_LOC {
        emit_move(code, (0x49, 0x8b, 0x80), (0x49, 0x8b, 0x90), (0x48, 0x89, 0x86), (0x48, 0x89, 0x96), d1, d);
    } else if op == OP_REG_STORE_LOC || op == OP_REG_SET_LOC {
        emit_move(code, (0x48, 0x8b, 0x86), (0x48, 0x8b, 0x96), (0x49, 0x89, 0x80), (0x49, 0x89, 0x90), d1, d);
    } else if op == OP_REG_MOV {
        emit_move(code, (0x48, 0x8b, 0x86), (0x48, 0x8b, 0x96), (0x48, 0x89, 0x86), (0x48, 0x89, 0x96), d1, d);
    } else if op == OP_REG_ADD {
        emit_add(code, iu, bailout, d, d1, d2);
    } else if op == OP_REG_LT || op == OP_REG_LTE || op == OP_REG_GT || op == OP_REG_GTE {
        emit_compare(code, op, iu, bailout, d, d1, d2);
    } else if op == OP_REG_JMP {
        let t = inst.src1 as usize;
        let target = if t >= offsets.len() { bailout } else { offsets[t] };
        emit_jmp(code, target);
    } else if op == OP_REG_IF_FALSE || op == OP_REG_IF_TRUE {
        let t = inst.src1 as usize;
        let target = if t >= offsets.len() { bailout } else { offsets[t] };
        emit_if(code, op, iu, bailout, d, target);
    } else if op == OP_REG_RETURN {
        emit_op_u32(code, 0x48, 0x8b, 0x86, d);
        emit_op_u32(code, 0x48, 0x8b, 0x96, d + 8);
        code.push(0xc3);
        assert(final(code)@ =~= old(code)@ + return_code(d as int));
    } else {
        push_all(code, &[0x48, 0xc7, 0xc0, 0, 0, 0, 0, 0x48, 0xc7, 0xc2, 3, 0, 0, 0, 0xc3]);
        assert(final(code)@ =~= old(code)@ + return_undef_code());
    }
}

/// The generic native code for `bc`, or `None` when some instruction is not
/// supported.
fn compile_generic(bytecode: &[RegInstruction]) -> (r: Option<Vec<u8>>)
    requires
        bytecode@.len() <= 0x3fff_ffff,
        86 * bytecode@.len() + 14 <= usize::MAX,
    ensures
        r matches Some(c) ==> spec_generic_code(bytecode@) == Some(c@),
        r is None ==> spec_generic_code(bytecode@) is None,
{
    let ghost bc = bytecode@;
    let n = bytecode.len();
    // First pass: the offset of every instruction.
    let mut offsets: Vec<usize> = Vec::with_capacity(n);
    let mut pos: usize = PROLOGUE_LEN;
    let mut i: usize = 0;
    while i < n
        invariant
            n == bc.len(),
            bc == bytecode@,
            86 * n + 14 <= usize::MAX,
            i <= n,
            offsets@.len() == i,
            forall|k: int| 0 <= k < i ==> #[trigger] offsets@[k] == inst_offset(bc, k),
            forall|k: int| 0 <= k < i ==> native_supported(#[trigger] bc[k].op),
            pos == inst_offset(bc, i as int),
            pos <= 6 + 86 * i,
        decreases n - i,
    {
        let inst = bytecode[i];
        if !is_native_supported(inst.op) {
            return None;
        }
        offsets.push(pos);
        pos = pos + native_inst_len(inst.op);
        i = i + 1;
    }
    let bailout = pos;
    proof {
        lemma_inst_offset_mono(bc, 0, n as int);
    }
    // Second pass: the code, with every displacement known.
    let mut code: Vec<u8> = Vec::new();
    push_all(&mut code, &[0x49, 0x89, 0xd0, 0x49, 0x89, 0xc9]);
    assert(code@ =~= prologue());
    let mut i: usize = 0;
    while i < n
        invariant
            n == bc.len() <= 0x3fff_ffff,
            bc == bytecode@,
            i <= n,
            offsets@.len() == n,
            forall|k: int| 0 <= k < n ==> #[trigger] offsets@[k] == inst_offset(bc, k),
            forall|k: int| 0 <= k < n ==> native_supported(#[trigger] bc[k].op),
            bailout == bailout_pos(bc),
            code@ == emitted(bc, i as int),
        decreases n - i,
    {
        proof {
            lemma_emitted_len(bc, i as int);
            lemma_inst_offset_mono(bc, i as int + 1, n as int);
        }
        emit_inst(&mut code, bytecode, i, &offsets, bailout);
        i = i + 1;
    }
    // Bailout block.
    push_all(&mut code, &[0x48, 0xc7, 0xc2, 4, 0, 0, 0, 0xc3]);
    Some(code)
}

fn is_native_supported(op: u8) -> (r: bool)
    ensures
        r == native_supported(op),
{
    op == OP_REG_PUSH_I32 || op == OP_REG_LOAD_LOC || op == OP_REG_STORE_LOC || op == OP_REG_SET_LOC
        || op == OP_REG_MOV || op == OP_REG_ADD || op == OP_REG_LT || op == OP_REG_LTE || op
        == OP_REG_GT || op == OP_REG_GTE || op == OP_REG_JMP || op == OP_REG_IF_FALSE || op
        == OP_REG_IF_TRUE || op == OP_REG_RETURN || op == OP_REG_RETURN_UNDEF
}

fn native_inst_len(op: u8) -> (r: usize)
    ensures
        r == native_len_op(op),
        r <= 86,
{
    if op == OP_REG_PUSH_I32 {
        22
    } else if op == OP_REG_LOAD_LOC || op == OP_REG_STORE_LOC || op == OP_REG_SET_LOC || op
        == OP_REG_MOV {
        28
    } else if op == OP_REG_ADD {
        86
    } else if op == OP_REG_LT || op == OP_REG_LTE || op == OP_REG_GT || op == OP_REG_GTE {
        80
    } else if op == OP_REG_JMP {
        5
    } else if op == OP_REG_IF_FALSE || op == OP_REG_IF_TRUE {
        37
    } else if op == OP_REG_RETURN || op == OP_REG_RETURN_UNDEF {
        15
    } else {
        0
    }
}

/// The native code for `bc`: a folded or specialised loop when `bc` is one
/// of the recognised loops (tried in the order counted accumulator loop,
/// branchy modulo loop, bitwise hash loop), otherwise the generic code.
pub open spec fn spec_compile_to_native(bc: Seq<RegInstruction>) -> Option<Seq<u8>> {
    if spec_counted_loop(bc) is Some {
        spec_counted_loop(bc)
    } else if spec_branchy_loop(bc) is Some {
        spec_branchy_loop(bc)
    } else if spec_hash_loop(bc) is Some {
        spec_hash_loop(bc)
    } else {
        spec_generic_code(bc)
    }
}

/// Compiles register instructions to x86-64 machine code.
///
/// Fails with "Unsupported register opcode for native compilation" exactly
/// when no loop is recognised and some instruction has an opcode that the
/// generic generator does not handle.
pub fn compile_to_native(bytecode: &[RegInstruction]) -> (r: Result<JitBuffer, &'static str>)
    requires
        bytecode@.len() <= 0x3fff_ffff,
        86 * bytecode@.len() + 14 <= usize::MAX,
    ensures
        r is Ok <==> spec_compile_to_native(bytecode@) is Some,
        r matches Ok(buf) ==> spec_compile_to_native(bytecode@) == Some(buf@),
        r matches Err(e) ==> e@ == "Unsupported register opcode for native compilation"@,
{
    if let Some(code) = compile_constant_counted_loop(bytecode) {
        return Ok(JitBuffer { code });
    }
    if let Some(code) = compile_branchy_modulo_loop(bytecode) {
        return Ok(JitBuffer { code });
    }
    if let Some(code) = compile_bitwise_hash_loop(bytecode) {
        return Ok(JitBuffer { code });
    }
    match compile_generic(bytecode) {
        Some(code) => Ok(JitBuffer { code }),
        None => Err("Unsupported register opcode for native compilation"),
    }
}

/// Law: an immediate survives translation. The `int32` that a QuickJS
/// `push_i32` carries in its four operand bytes is the immediate that the
/// code generator reads back from the register instruction made for it.
pub proof fn lemma_push_i32_immediate_roundtrip(bc: Seq<u8>, pc: int, h: int)
    requires
        0 <= pc < bc.len(),
        bc[pc] == OP_PUSH_I32,
        spec_step(bc, pc, h) is Ok,
    ensures
        spec_reg_i32(spec_step(bc, pc, h)->Ok_0.0) == as_signed32(
            le32(bc[pc + 1], bc[pc + 2], bc[pc + 3], bc[pc + 4]),
        ),
{
    let inst = spec_step(bc, pc, h)->Ok_0.0;
    assert(inst.src1 == le16(bc[pc + 1], bc[pc + 2]));
    assert(inst.src2 == le16(bc[pc + 3], bc[pc + 4]));
}

proof fn lemma_emitted_prefix(bc: Seq<RegInstruction>, n: int, i: int)
    requires
        0 <= i < n <= bc.len(),
        forall|k: int| 0 <= k < bc.len() ==> native_supported(#[trigger] bc[k].op),
    ensures
        emitted(bc, n).subrange(inst_offset(bc, i), inst_offset(bc, i + 1)) == inst_code(bc, i),
    decreases n,
{
    lemma_emitted_len(bc, n - 1);
    lemma_inst_code_len(bc, n - 1);
    lemma_inst_offset_mono(bc, 0, i);
    lemma_inst_offset_mono(bc, i, i + 1);
    if i == n - 1 {
        assert(emitted(bc, n).subrange(inst_offset(bc, i), inst_offset(bc, i + 1)) =~= inst_code(bc, i));
    } else {
        lemma_emitted_prefix(bc, n - 1, i);
        lemma_inst_offset_mono(bc, i + 1, n - 1);
        assert(emitted(bc, n).subrange(inst_offset(bc, i), inst_offset(bc, i + 1)) =~= emitted(
            bc,
            n - 1,
        ).subrange(inst_offset(bc, i), inst_offset(bc, i + 1)));
    }
}

/// Law: the layout of generic code. The code is the prologue, then the code
/// of each instruction `i` in the bytes `inst_offset(i)..inst_offset(i + 1)`,
/// then the bailout block at `bailout_pos`; so every jump and bailout
/// displacement, taken from the end of its field, lands on the first byte of
/// its target instruction or of the bailout block.
pub proof fn lemma_generic_layout(bc: Seq<RegInstruction>, c: Seq<u8>)
    requires
        spec_generic_code(bc) == Some(c),
    ensures
        c.len() == bailout_pos(bc) + 8,
        c.subrange(0, PROLOGUE_LEN as int) == prologue(),
        forall|i: int|
            0 <= i < bc.len() ==> #[trigger] c.subrange(inst_offset(bc, i), inst_offset(bc, i + 1))
                == inst_code(bc, i),
        c.subrange(bailout_pos(bc), bailout_pos(bc) + 8) == epilogue(),
{
    let n = bc.len() as int;
    lemma_emitted_len(bc, n);
    assert forall|i: int| 0 <= i < bc.len() implies #[trigger] c.subrange(
        inst_offset(bc, i),
        inst_offset(bc, i + 1),
    ) == inst_code(bc, i) by {
        lemma_emitted_prefix(bc, n, i);
        lemma_inst_offset_mono(bc, i + 1, n);
        lemma_inst_offset_mono(bc, 0, i);
        lemma_inst_offset_mono(bc, i, i + 1);
        assert(c.subrange(inst_offset(bc, i), inst_offset(bc, i + 1)) =~= emitted(bc, n).subrange(
            inst_offset(bc, i),
            inst_offset(bc, i + 1),
        ));
    }
    lemma_emitted_prologue(bc, n);
    lemma_inst_offset_mono(bc, 0, n);
    assert(c.subrange(0, PROLOGUE_LEN as int) =~= emitted(bc, n).subrange(0, PROLOGUE_LEN as int));
    assert(c.subrange(bailout_pos(bc), bailout_pos(bc) + 8) =~= epilogue());
}

proof fn lemma_emitted_prologue(bc: Seq<RegInstruction>, n: int)
    requires
        0 <= n <= bc.len(),
    ensures
        emitted(bc, n).len() >= 6,
        emitted(bc, n).subrange(0, 6) == prologue(),
    decreases n,
{
    if n > 0 {
        lemma_emitted_prologue(bc, n - 1);
        assert(emitted(bc, n).subrange(0, 6) =~= emitted(bc, n - 1).subrange(0, 6));
    } else {
        assert(emitted(bc, n).subrange(0, 6) =~= prologue());
    }
}

} // verus!
