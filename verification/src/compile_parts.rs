//! The register compiler works instruction by instruction: two pieces of
//! stack code compile, one after the other, to the two pieces of register
//! code, with the jumps of the second piece moved past the first.
use vstd::prelude::*;

use crate::compiler::{
    is_stack_jump, jump_offset, lemma_prepend_assoc, prepend, resolve_target, spec_compile, spec_jump_step,
    spec_step, spec_translate, stack_op_len, RegInstruction, OP_GOTO, OP_GOTO16, OP_GOTO8, OP_IF_FALSE,
    OP_IF_FALSE8, OP_IF_TRUE, OP_IF_TRUE8, OP_REG_IF_FALSE, OP_REG_IF_TRUE, OP_REG_JMP,
};

verus! {

/// The stack height after the stack code of `bc` from `pc`, started at
/// height `h`, as far as it compiles.
pub open spec fn spec_end_height(bc: Seq<u8>, pc: int, h: int) -> int
    decreases bc.len() - pc,
{
    if pc < 0 || pc >= bc.len() {
        h
    } else {
        match spec_step(bc, pc, h) {
            Err(e) => h,
            Ok((i, next_pc, next_h)) => {
                proof {
                    crate::compiler::lemma_step_advances(bc, pc, h);
                }
                spec_end_height(bc, next_pc, next_h)
            },
        }
    }
}

/// Whether `op` is a register jump.
pub open spec fn is_reg_jump(op: u8) -> bool {
    op == OP_REG_JMP || op == OP_REG_IF_FALSE || op == OP_REG_IF_TRUE
}

/// `i` with its jump target moved `m` instructions on.
pub open spec fn shift_inst(i: RegInstruction, m: int) -> RegInstruction {
    if is_reg_jump(i.op) {
        RegInstruction { src1: (i.src1 + m) as u16, ..i }
    } else {
        i
    }
}

/// `y` with every jump target moved `m` instructions on.
pub open spec fn shift_jumps(y: Seq<RegInstruction>, m: int) -> Seq<RegInstruction> {
    Seq::new(y.len(), |j: int| shift_inst(y[j], m))
}

/// The targets of the jumps in `y`, moved `m` on, fit in 16 bits.
pub open spec fn shifted_targets_fit(y: Seq<RegInstruction>, m: int) -> bool {
    forall|j: int| 0 <= j < y.len() && is_reg_jump(#[trigger] y[j].op) ==> y[j].src1 + m <= 65535
}

/// A translated instruction at `pc` takes `stack_op_len` bytes, within the code.
proof fn lemma_step_len(bc: Seq<u8>, pc: int, h: int)
    requires
        0 <= pc < bc.len(),
        spec_step(bc, pc, h) is Ok,
    ensures
        spec_step(bc, pc, h)->Ok_0.1 == pc + stack_op_len(bc[pc]),
        pc + stack_op_len(bc[pc]) <= bc.len(),
{
    reveal(spec_jump_step);
}

/// A boundary walk that finds `t` in `a` finds it in `a + b`.
proof fn lemma_resolve_prefix(a: Seq<u8>, b: Seq<u8>, pos: int, k: int, t: int)
    requires
        resolve_target(a, pos, k, t).is_some(),
    ensures
        resolve_target(a + b, pos, k, t) == resolve_target(a, pos, k, t),
    decreases a.len() + 5 - pos,
{
    if pos == t && 0 <= pos <= a.len() {
    } else {
        assert((a + b)[pos] == a[pos]);
        lemma_resolve_prefix(a, b, pos + stack_op_len(a[pos]), k + 1, t);
    }
}

/// In `a + b`, the walk from a boundary of `a` that reaches the end of `a`
/// after `m` instructions goes on from there.
proof fn lemma_resolve_through(a: Seq<u8>, b: Seq<u8>, pos: int, k: int, m: int, t: int)
    requires
        resolve_target(a, pos, k, a.len() as int) == Some(m),
        t >= a.len(),
    ensures
        resolve_target(a + b, pos, k, t) == resolve_target(a + b, a.len() as int, m, t),
    decreases a.len() + 5 - pos,
{
    if pos == a.len() {
    } else {
        assert((a + b)[pos] == a[pos]);
        lemma_resolve_through(a, b, pos + stack_op_len(a[pos]), k + 1, m, t);
    }
}

/// A boundary walk in `b` is the walk in `a + b` moved by `a`.
proof fn lemma_resolve_suffix(a: Seq<u8>, b: Seq<u8>, q: int, k: int, m: int, t: int)
    requires
        resolve_target(b, q, k, t).is_some(),
    ensures
        resolve_target(a + b, a.len() + q, k + m, a.len() + t) == Some(resolve_target(b, q, k, t).unwrap() + m),
    decreases b.len() + 5 - q,
{
    if q == t && 0 <= q <= b.len() {
    } else {
        assert((a + b)[a.len() + q] == b[q]);
        lemma_resolve_suffix(a, b, q + stack_op_len(b[q]), k + 1, m, t);
    }
}

/// Translating `a` from a boundary reaches its end after as many
/// instructions as it gives.
proof fn lemma_translate_walk(a: Seq<u8>, pc: int, h: int, k: int)
    requires
        0 <= pc <= a.len(),
        spec_translate(a, pc, h) is Ok,
    ensures
        resolve_target(a, pc, k, a.len() as int) == Some(k + spec_translate(a, pc, h)->Ok_0.len()),
    decreases a.len() - pc,
{
    if pc < a.len() {
        lemma_step_len(a, pc, h);
        let (i, np, nh) = spec_step(a, pc, h)->Ok_0;
        let t = spec_translate(a, np, nh);
        assert(spec_translate(a, pc, h) == prepend(seq![i], t));
        lemma_translate_walk(a, np, nh, k + 1);
    }
}

/// A boundary walk from `pos` finds only targets at or after `pos`.
proof fn lemma_resolve_after(bc: Seq<u8>, pos: int, k: int, t: int)
    requires
        resolve_target(bc, pos, k, t).is_some(),
    ensures
        pos <= t,
        resolve_target(bc, pos, k, t).unwrap() >= k,
    decreases bc.len() + 5 - pos,
{
    if !(pos == t && 0 <= pos <= bc.len()) {
        lemma_resolve_after(bc, pos + stack_op_len(bc[pos]), k + 1, t);
    }
}

/// An instruction of `a` translates alike in `a + b`.
proof fn lemma_step_prefix(a: Seq<u8>, b: Seq<u8>, pc: int, h: int)
    requires
        0 <= pc < a.len(),
        spec_step(a, pc, h) is Ok,
    ensures
        spec_step(a + b, pc, h) == spec_step(a, pc, h),
{
    reveal(spec_jump_step);
    lemma_step_len(a, pc, h);
    let ab = a + b;
    assert forall|j: int| pc <= j < pc + stack_op_len(a[pc]) implies #[trigger] ab[j] == a[j] by {}
    assert(ab[pc] == a[pc]);
    if is_stack_jump(a[pc]) {
        let t = pc + 1 + jump_offset(a, pc);
        assert(jump_offset(ab, pc) == jump_offset(a, pc));
        lemma_resolve_prefix(a, b, 0, 0, t);
    }
}

/// An instruction of `b` translates in `a + b` to the same instruction,
/// with a jump target moved past the `m` instructions of `a`.
proof fn lemma_step_suffix(a: Seq<u8>, b: Seq<u8>, q: int, h: int, m: int)
    requires
        0 <= q < b.len(),
        spec_step(b, q, h) is Ok,
        resolve_target(a, 0, 0, a.len() as int) == Some(m),
        is_reg_jump(spec_step(b, q, h)->Ok_0.0.op) ==> spec_step(b, q, h)->Ok_0.0.src1 + m <= 65535,
    ensures
        spec_step(a + b, a.len() + q, h) == Ok::<(RegInstruction, int, int), Seq<char>>(
            (
                shift_inst(spec_step(b, q, h)->Ok_0.0, m),
                a.len() + spec_step(b, q, h)->Ok_0.1,
                spec_step(b, q, h)->Ok_0.2,
            ),
        ),
{
    reveal(spec_jump_step);
    lemma_step_len(b, q, h);
    let ab = a + b;
    let p = a.len() + q;
    assert forall|j: int| q <= j < q + stack_op_len(b[q]) implies #[trigger] ab[a.len() + j] == b[j] by {}
    assert(ab[p] == b[q]);
    if is_stack_jump(b[q]) {
        let t = q + 1 + jump_offset(b, q);
        assert(jump_offset(ab, p) == jump_offset(b, q));
        let k = resolve_target(b, 0, 0, t).unwrap();
        lemma_resolve_after(b, 0, 0, t);
        lemma_resolve_through(a, b, 0, 0, m, a.len() + t);
        lemma_resolve_suffix(a, b, 0, 0, m, t);
        assert(p + 1 + jump_offset(ab, p) == a.len() + t);
        assert(resolve_target(ab, 0, 0, a.len() + t) == Some(k + m));
        let i = spec_step(b, q, h)->Ok_0.0;
        assert(i.src1 == k);
    } else {
        assert(!is_reg_jump(spec_step(b, q, h)->Ok_0.0.op));
    }
}

/// Translating `a + b` from a boundary of `a` gives the rest of `a`'s
/// translation, then the translation of `a + b` from the end of `a`.
proof fn lemma_translate_prefix(a: Seq<u8>, b: Seq<u8>, pc: int, h: int)
    requires
        0 <= pc <= a.len(),
        spec_translate(a, pc, h) is Ok,
    ensures
        spec_translate(a + b, pc, h) == prepend(
            spec_translate(a, pc, h)->Ok_0,
            spec_translate(a + b, a.len() as int, spec_end_height(a, pc, h)),
        ),
    decreases a.len() - pc,
{
    if pc == a.len() {
        let r = spec_translate(a + b, pc, h);
        match r {
            Ok(s) => {
                assert(Seq::<RegInstruction>::empty() + s =~= s);
            },
            Err(e) => {},
        }
    } else {
        lemma_step_len(a, pc, h);
        lemma_step_prefix(a, b, pc, h);
        let (i, np, nh) = spec_step(a, pc, h)->Ok_0;
        assert(spec_translate(a, pc, h) == prepend(seq![i], spec_translate(a, np, nh)));
        lemma_translate_prefix(a, b, np, nh);
        let rest = spec_translate(a + b, a.len() as int, spec_end_height(a, np, nh));
        lemma_prepend_assoc(seq![i], spec_translate(a, np, nh)->Ok_0, rest);
    }
}

/// Translating `a + b` from the boundary `a.len() + q` gives the translation
/// of `b` from `q`, with its jump targets moved past the `m` instructions of
/// `a`.
proof fn lemma_translate_suffix(a: Seq<u8>, b: Seq<u8>, q: int, h: int, m: int)
    requires
        0 <= q,
        spec_translate(b, q, h) is Ok,
        resolve_target(a, 0, 0, a.len() as int) == Some(m),
        shifted_targets_fit(spec_translate(b, q, h)->Ok_0, m),
    ensures
        spec_translate(a + b, a.len() + q, h) == Ok::<Seq<RegInstruction>, Seq<char>>(
            shift_jumps(spec_translate(b, q, h)->Ok_0, m),
        ),
    decreases b.len() - q,
{
    let ys = spec_translate(b, q, h)->Ok_0;
    if q >= b.len() {
        assert(shift_jumps(ys, m) =~= Seq::<RegInstruction>::empty());
    } else {
        lemma_step_len(b, q, h);
        let (i, np, nh) = spec_step(b, q, h)->Ok_0;
        let t = spec_translate(b, np, nh);
        assert(spec_translate(b, q, h) == prepend(seq![i], t));
        let ts = t->Ok_0;
        assert(ys == seq![i] + ts);
        assert(ys[0] == i);
        assert(is_reg_jump(ys[0].op) ==> ys[0].src1 + m <= 65535);
        assert forall|j: int| 0 <= j < ts.len() && is_reg_jump(#[trigger] ts[j].op) implies ts[j].src1 + m <= 65535 by {
            assert(ys[j + 1] == ts[j]);
        }
        lemma_step_suffix(a, b, q, h, m);
        lemma_translate_suffix(a, b, np, nh, m);
        assert(seq![shift_inst(i, m)] + shift_jumps(ts, m) =~= shift_jumps(ys, m));
    }
}

/// Law: the register compiler works instruction by instruction. When two
/// pieces of stack code compile, and the first leaves the stack empty, their
/// concatenation compiles to the first piece's register code followed by the
/// second's, whose jump targets move on by the length of the first (while
/// they fit the 16-bit operand).
pub proof fn lemma_compile_concat(a: Seq<u8>, b: Seq<u8>)
    requires
        spec_compile(a) is Ok,
        spec_compile(b) is Ok,
        spec_end_height(a, 0, 0) == 0,
        shifted_targets_fit(spec_compile(b)->Ok_0, spec_compile(a)->Ok_0.len() as int),
    ensures
        spec_compile(a + b) == Ok::<Seq<RegInstruction>, Seq<char>>(
            spec_compile(a)->Ok_0 + shift_jumps(spec_compile(b)->Ok_0, spec_compile(a)->Ok_0.len() as int),
        ),
{
    let x = spec_compile(a)->Ok_0;
    let y = spec_compile(b)->Ok_0;
    let m = x.len() as int;
    lemma_translate_walk(a, 0, 0, 0);
    lemma_translate_prefix(a, b, 0, 0);
    lemma_translate_suffix(a, b, 0, 0, m);
    assert(a.len() + 0 == a.len());
}

/// The byte at which instruction `k` of `bc` starts, walking from byte 0.
pub open spec fn boundary(bc: Seq<u8>, k: nat) -> int
    decreases k,
{
    if k == 0 {
        0
    } else {
        let p = boundary(bc, (k - 1) as nat);
        p + stack_op_len(bc[p])
    }
}

proof fn lemma_resolve_is_boundary(bc: Seq<u8>, pos: int, j: nat, t: int)
    requires
        pos == boundary(bc, j),
        resolve_target(bc, pos, j as int, t).is_some(),
    ensures
        resolve_target(bc, pos, j as int, t).unwrap() >= j,
        boundary(bc, resolve_target(bc, pos, j as int, t).unwrap() as nat) == t,
    decreases bc.len() + 5 - pos,
{
    if !(pos == t && 0 <= pos <= bc.len()) {
        assert(boundary(bc, j + 1) == pos + stack_op_len(bc[pos]));
        lemma_resolve_is_boundary(bc, pos + stack_op_len(bc[pos]), j + 1, t);
    }
}

/// Law: a compiled jump names the instruction at `pc + 1 + offset`. For a
/// QuickJS jump at byte `pc` that compiles, the register jump's target index
/// is the instruction that starts at byte `pc + 1 + offset`, counting
/// instruction boundaries from the start of the code; a conditional jump
/// tests the value on top of the stack, and `if_true` jumps on true where
/// `if_false` jumps on false.
pub proof fn lemma_jump_target(bc: Seq<u8>, pc: int, h: int)
    requires
        0 <= pc < bc.len(),
        is_stack_jump(bc[pc]),
        spec_step(bc, pc, h) is Ok,
    ensures
        boundary(bc, spec_step(bc, pc, h)->Ok_0.0.src1 as nat) == pc + 1 + jump_offset(bc, pc),
        bc[pc] == OP_GOTO || bc[pc] == OP_GOTO8 || bc[pc] == OP_GOTO16 ==> spec_step(bc, pc, h)->Ok_0.0.op
            == OP_REG_JMP,
        bc[pc] == OP_IF_TRUE || bc[pc] == OP_IF_TRUE8 ==> spec_step(bc, pc, h)->Ok_0.0.op == OP_REG_IF_TRUE
            && spec_step(bc, pc, h)->Ok_0.0.dst == (h - 1) % 256,
        bc[pc] == OP_IF_FALSE || bc[pc] == OP_IF_FALSE8 ==> spec_step(bc, pc, h)->Ok_0.0.op == OP_REG_IF_FALSE
            && spec_step(bc, pc, h)->Ok_0.0.dst == (h - 1) % 256,
{
    reveal(spec_jump_step);
    let t = pc + 1 + jump_offset(bc, pc);
    lemma_resolve_is_boundary(bc, 0, 0, t);
    lemma_resolve_after(bc, 0, 0, t);
}

} // verus!
