//! Whole runs of the register interpreter against a host that holds the
//! function's locals and constant pool: the host answers `LoadLocal`,
//! `StoreLocal` and `LoadConst` from them, and reference counts do not change
//! any value. A run that needs float64 arithmetic from its host is left
//! undetermined.
use vstd::prelude::*;

use crate::compiler::{
    RegInstruction, OP_REG_ADD, OP_REG_BIT_AND, OP_REG_DROP, OP_REG_GT, OP_REG_GTE, OP_REG_IF_FALSE,
    OP_REG_IF_TRUE, OP_REG_JMP, OP_REG_LOAD_LOC, OP_REG_LT, OP_REG_LTE, OP_REG_MOD, OP_REG_MOV, OP_REG_MUL,
    OP_REG_NULL, OP_REG_PUSH_CONST, OP_REG_PUSH_FALSE, OP_REG_PUSH_I32, OP_REG_PUSH_TRUE, OP_REG_RETURN,
    OP_REG_RETURN_UNDEF, OP_REG_SET_LOC, OP_REG_STORE_LOC, OP_REG_STRICT_EQ, OP_REG_SUB, OP_REG_UNDEFINED,
};
use crate::jit::{loop_cond, spec_reg_i32};
use crate::value::{payload_i32, tagged_i32, undefined_val, uninitialized_val, JsVal, JS_TAG_BOOL, JS_TAG_INT, JS_TAG_NULL};
use crate::vm::{bool_val, int_val, spec_vm_step, VmAction};

verus! {

/// The value that a run returns within `fuel` steps, from registers `regs`,
/// locals `locals` and constants `consts` at instruction `pc`; `None` when
/// the run takes more steps, reads a local or a constant that is missing, or
/// asks its host for float64 arithmetic.
pub open spec fn spec_run(
    regs: Seq<JsVal>,
    locals: Seq<JsVal>,
    consts: Seq<JsVal>,
    pc: int,
    bc: Seq<RegInstruction>,
    fuel: nat,
) -> Option<JsVal>
    decreases fuel,
{
    if fuel == 0 {
        None
    } else {
        let (r, p, a) = spec_vm_step(regs, pc, bc);
        let f = (fuel - 1) as nat;
        match a {
            VmAction::Continue => spec_run(r, locals, consts, p, bc, f),
            VmAction::Retain { .. } => spec_run(r, locals, consts, p, bc, f),
            VmAction::Release { .. } => spec_run(r, locals, consts, p, bc, f),
            VmAction::LoadLocal { dst, index } => if index < locals.len() {
                spec_run(r.update(dst as int, locals[index as int]), locals, consts, p, bc, f)
            } else {
                None
            },
            VmAction::StoreLocal { index, value, retain } => if index < locals.len() {
                spec_run(r, locals.update(index as int, value), consts, p, bc, f)
            } else {
                None
            },
            VmAction::LoadConst { dst, index } => if index < consts.len() {
                spec_run(r.update(dst as int, consts[index as int]), locals, consts, p, bc, f)
            } else {
                None
            },
            VmAction::Finish { result, skip } => Some(result),
            _ => None,
        }
    }
}

/// An `int32` value reads back as itself.
pub proof fn lemma_int_val_payload(x: int)
    requires
        -0x8000_0000 <= x <= 0x7fff_ffff,
    ensures
        payload_i32(int_val(x)) == x,
        int_val(x).tag == JS_TAG_INT,
{
}

/// A boolean reads back as 1 or 0.
pub proof fn lemma_bool_val_payload(b: bool)
    ensures
        payload_i32(bool_val(b)) == (if b { 1int } else { 0int }),
        bool_val(b).tag == JS_TAG_BOOL,
{
}

/// `push_i32`: the register receives the immediate.
pub proof fn lemma_run_push(
    regs: Seq<JsVal>,
    locals: Seq<JsVal>,
    consts: Seq<JsVal>,
    pc: int,
    bc: Seq<RegInstruction>,
    f: nat,
)
    requires
        0 <= pc < bc.len(),
        bc[pc].op == OP_REG_PUSH_I32,
    ensures
        spec_run(regs, locals, consts, pc, bc, f + 1) == spec_run(
            regs.update(bc[pc].dst as int, int_val(spec_reg_i32(bc[pc]))),
            locals,
            consts,
            pc + 1,
            bc,
            f,
        ),
{
}

/// `load_loc`: the register receives the local.
pub proof fn lemma_run_load(
    regs: Seq<JsVal>,
    locals: Seq<JsVal>,
    consts: Seq<JsVal>,
    pc: int,
    bc: Seq<RegInstruction>,
    f: nat,
)
    requires
        0 <= pc < bc.len(),
        bc[pc].op == OP_REG_LOAD_LOC,
        bc[pc].src1 < locals.len(),
    ensures
        spec_run(regs, locals, consts, pc, bc, f + 1) == spec_run(
            regs.update(bc[pc].dst as int, locals[bc[pc].src1 as int]),
            locals,
            consts,
            pc + 1,
            bc,
            f,
        ),
{
}

/// `store_loc`: the local receives the register.
pub proof fn lemma_run_store(
    regs: Seq<JsVal>,
    locals: Seq<JsVal>,
    consts: Seq<JsVal>,
    pc: int,
    bc: Seq<RegInstruction>,
    f: nat,
)
    requires
        0 <= pc < bc.len(),
        bc[pc].op == OP_REG_STORE_LOC,
        bc[pc].dst < locals.len(),
    ensures
        spec_run(regs, locals, consts, pc, bc, f + 1) == spec_run(
            regs,
            locals.update(bc[pc].dst as int, regs[bc[pc].src1 as int]),
            consts,
            pc + 1,
            bc,
            f,
        ),
{
}

/// An `add` or `mul` of two `int32` values whose result stays an `int32`.
pub proof fn lemma_run_arith(
    regs: Seq<JsVal>,
    locals: Seq<JsVal>,
    consts: Seq<JsVal>,
    pc: int,
    bc: Seq<RegInstruction>,
    f: nat,
    x: int,
    y: int,
)
    requires
        0 <= pc < bc.len(),
        bc[pc].op == OP_REG_ADD || bc[pc].op == OP_REG_MUL,
        regs[bc[pc].src1 as int] == int_val(x),
        regs[bc[pc].src2 as int] == int_val(y),
        -0x8000_0000 <= x <= 0x7fff_ffff,
        -0x8000_0000 <= y <= 0x7fff_ffff,
        -0x8000_0000 <= (if bc[pc].op == OP_REG_ADD { x + y } else { x * y }) <= 0x7fff_ffff,
    ensures
        spec_run(regs, locals, consts, pc, bc, f + 1) == spec_run(
            regs.update(bc[pc].dst as int, int_val(if bc[pc].op == OP_REG_ADD { x + y } else { x * y })),
            locals,
            consts,
            pc + 1,
            bc,
            f,
        ),
{
    lemma_int_val_payload(x);
    lemma_int_val_payload(y);
}

/// A `sub` of two `int32` values whose difference stays an `int32`.
pub proof fn lemma_run_sub(
    regs: Seq<JsVal>,
    locals: Seq<JsVal>,
    consts: Seq<JsVal>,
    pc: int,
    bc: Seq<RegInstruction>,
    f: nat,
    x: int,
    y: int,
)
    requires
        0 <= pc < bc.len(),
        bc[pc].op == OP_REG_SUB,
        regs[bc[pc].src1 as int] == int_val(x),
        regs[bc[pc].src2 as int] == int_val(y),
        -0x8000_0000 <= x <= 0x7fff_ffff,
        -0x8000_0000 <= y <= 0x7fff_ffff,
        -0x8000_0000 <= x - y <= 0x7fff_ffff,
    ensures
        spec_run(regs, locals, consts, pc, bc, f + 1) == spec_run(
            regs.update(bc[pc].dst as int, int_val(x - y)),
            locals,
            consts,
            pc + 1,
            bc,
            f,
        ),
{
    lemma_int_val_payload(x);
    lemma_int_val_payload(y);
}

/// A `mod` of a non-negative `int32` by a positive one.
pub proof fn lemma_run_mod(
    regs: Seq<JsVal>,
    locals: Seq<JsVal>,
    consts: Seq<JsVal>,
    pc: int,
    bc: Seq<RegInstruction>,
    f: nat,
    x: int,
    y: int,
)
    requires
        0 <= pc < bc.len(),
        bc[pc].op == OP_REG_MOD,
        regs[bc[pc].src1 as int] == int_val(x),
        regs[bc[pc].src2 as int] == int_val(y),
        0 <= x <= 0x7fff_ffff,
        0 < y <= 0x7fff_ffff,
    ensures
        spec_run(regs, locals, consts, pc, bc, f + 1) == spec_run(
            regs.update(bc[pc].dst as int, int_val(x % y)),
            locals,
            consts,
            pc + 1,
            bc,
            f,
        ),
{
    lemma_int_val_payload(x);
    lemma_int_val_payload(y);
}

/// `===` of two `int32` values.
pub proof fn lemma_run_strict_eq(
    regs: Seq<JsVal>,
    locals: Seq<JsVal>,
    consts: Seq<JsVal>,
    pc: int,
    bc: Seq<RegInstruction>,
    f: nat,
    x: int,
    y: int,
)
    requires
        0 <= pc < bc.len(),
        bc[pc].op == OP_REG_STRICT_EQ,
        regs[bc[pc].src1 as int] == int_val(x),
        regs[bc[pc].src2 as int] == int_val(y),
        -0x8000_0000 <= x <= 0x7fff_ffff,
        -0x8000_0000 <= y <= 0x7fff_ffff,
    ensures
        spec_run(regs, locals, consts, pc, bc, f + 1) == spec_run(
            regs.update(bc[pc].dst as int, bool_val(x == y)),
            locals,
            consts,
            pc + 1,
            bc,
            f,
        ),
{
    lemma_int_val_payload(x);
    lemma_int_val_payload(y);
}

/// `&` of a non-negative `int32` and 15: its low four bits.
pub proof fn lemma_run_and15(
    regs: Seq<JsVal>,
    locals: Seq<JsVal>,
    consts: Seq<JsVal>,
    pc: int,
    bc: Seq<RegInstruction>,
    f: nat,
    x: int,
)
    requires
        0 <= pc < bc.len(),
        bc[pc].op == OP_REG_BIT_AND,
        regs[bc[pc].src1 as int] == int_val(x),
        regs[bc[pc].src2 as int] == int_val(15),
        0 <= x <= 0x7fff_ffff,
    ensures
        spec_run(regs, locals, consts, pc, bc, f + 1) == spec_run(
            regs.update(bc[pc].dst as int, int_val(x % 16)),
            locals,
            consts,
            pc + 1,
            bc,
            f,
        ),
{
    lemma_int_val_payload(x);
    lemma_int_val_payload(15);
    let xi = x as i32;
    assert(xi >= 0 ==> (xi & 15i32) as int == xi % 16) by (bit_vector);
}

/// A comparison of two `int32` values.
pub proof fn lemma_run_compare(
    regs: Seq<JsVal>,
    locals: Seq<JsVal>,
    consts: Seq<JsVal>,
    pc: int,
    bc: Seq<RegInstruction>,
    f: nat,
    x: int,
    y: int,
)
    requires
        0 <= pc < bc.len(),
        bc[pc].op == OP_REG_LT || bc[pc].op == OP_REG_LTE || bc[pc].op == OP_REG_GT || bc[pc].op == OP_REG_GTE,
        regs[bc[pc].src1 as int] == int_val(x),
        regs[bc[pc].src2 as int] == int_val(y),
        -0x8000_0000 <= x <= 0x7fff_ffff,
        -0x8000_0000 <= y <= 0x7fff_ffff,
    ensures
        spec_run(regs, locals, consts, pc, bc, f + 1) == spec_run(
            regs.update(bc[pc].dst as int, bool_val(loop_cond(bc[pc].op, x, y))),
            locals,
            consts,
            pc + 1,
            bc,
            f,
        ),
{
    lemma_int_val_payload(x);
    lemma_int_val_payload(y);
}

/// `if_false` on a boolean register.
pub proof fn lemma_run_if_false(
    regs: Seq<JsVal>,
    locals: Seq<JsVal>,
    consts: Seq<JsVal>,
    pc: int,
    bc: Seq<RegInstruction>,
    f: nat,
    b: bool,
)
    requires
        0 <= pc < bc.len(),
        bc[pc].op == OP_REG_IF_FALSE,
        regs[bc[pc].dst as int] == bool_val(b),
    ensures
        spec_run(regs, locals, consts, pc, bc, f + 1) == spec_run(
            regs,
            locals,
            consts,
            if b { pc + 1 } else { bc[pc].src1 as int },
            bc,
            f,
        ),
{
    lemma_bool_val_payload(b);
}

/// `jmp`: the run goes on at the target.
pub proof fn lemma_run_jmp(
    regs: Seq<JsVal>,
    locals: Seq<JsVal>,
    consts: Seq<JsVal>,
    pc: int,
    bc: Seq<RegInstruction>,
    f: nat,
)
    requires
        0 <= pc < bc.len(),
        bc[pc].op == OP_REG_JMP,
    ensures
        spec_run(regs, locals, consts, pc, bc, f + 1) == spec_run(regs, locals, consts, bc[pc].src1 as int, bc, f),
{
}

/// `return`: the run returns the register.
pub proof fn lemma_run_return(
    regs: Seq<JsVal>,
    locals: Seq<JsVal>,
    consts: Seq<JsVal>,
    pc: int,
    bc: Seq<RegInstruction>,
    f: nat,
)
    requires
        0 <= pc < bc.len(),
        bc[pc].op == OP_REG_RETURN,
    ensures
        spec_run(regs, locals, consts, pc, bc, f + 1) == Some(regs[bc[pc].dst as int]),
{
}

/// `if_true` on a boolean register: the run jumps when it holds true and
/// goes on with the next instruction when it holds false.
pub proof fn lemma_run_if_true(
    regs: Seq<JsVal>,
    locals: Seq<JsVal>,
    consts: Seq<JsVal>,
    pc: int,
    bc: Seq<RegInstruction>,
    f: nat,
    b: bool,
)
    requires
        0 <= pc < bc.len(),
        bc[pc].op == OP_REG_IF_TRUE,
        regs[bc[pc].dst as int] == bool_val(b),
    ensures
        spec_run(regs, locals, consts, pc, bc, f + 1) == spec_run(
            regs,
            locals,
            consts,
            if b { bc[pc].src1 as int } else { pc + 1 },
            bc,
            f,
        ),
{
    lemma_bool_val_payload(b);
}

/// Law: `if_true` and `if_false` are mirrors. On the same boolean register
/// one jumps exactly when the other goes on, and a condition that is not a
/// boolean stops the run with `uninitialized`.
pub proof fn lemma_branches_mirror(regs: Seq<JsVal>, pc: int, bc: Seq<RegInstruction>, c: JsVal)
    requires
        0 <= pc < bc.len(),
        bc[pc].op == OP_REG_IF_TRUE || bc[pc].op == OP_REG_IF_FALSE,
        regs[bc[pc].dst as int] == c,
    ensures
        c.tag == JS_TAG_BOOL ==> spec_vm_step(regs, pc, bc).1 == (if (payload_i32(c) != 0) == (bc[pc].op
            == OP_REG_IF_TRUE) {
            bc[pc].src1 as int
        } else {
            pc + 1
        }),
        c.tag == JS_TAG_BOOL ==> spec_vm_step(regs, pc, bc).2 == VmAction::Continue,
        c.tag != JS_TAG_BOOL ==> spec_vm_step(regs, pc, bc).2 == (VmAction::Finish {
            result: uninitialized_val(),
            skip: None,
        }),
        spec_vm_step(regs, pc, bc).0 == regs,
{
}

/// The literal pushes: `undefined`, `null`, `false` and `true`.
pub proof fn lemma_run_literal(
    regs: Seq<JsVal>,
    locals: Seq<JsVal>,
    consts: Seq<JsVal>,
    pc: int,
    bc: Seq<RegInstruction>,
    f: nat,
)
    requires
        0 <= pc < bc.len(),
        bc[pc].op == OP_REG_UNDEFINED || bc[pc].op == OP_REG_NULL || bc[pc].op == OP_REG_PUSH_FALSE
            || bc[pc].op == OP_REG_PUSH_TRUE,
    ensures
        spec_run(regs, locals, consts, pc, bc, f + 1) == spec_run(
            regs.update(
                bc[pc].dst as int,
                if bc[pc].op == OP_REG_UNDEFINED {
                    undefined_val()
                } else if bc[pc].op == OP_REG_NULL {
                    tagged_i32(JS_TAG_NULL, 0)
                } else {
                    bool_val(bc[pc].op == OP_REG_PUSH_TRUE)
                },
            ),
            locals,
            consts,
            pc + 1,
            bc,
            f,
        ),
{
}

/// `mov`: the destination receives the source register.
pub proof fn lemma_run_mov(
    regs: Seq<JsVal>,
    locals: Seq<JsVal>,
    consts: Seq<JsVal>,
    pc: int,
    bc: Seq<RegInstruction>,
    f: nat,
)
    requires
        0 <= pc < bc.len(),
        bc[pc].op == OP_REG_MOV,
    ensures
        spec_run(regs, locals, consts, pc, bc, f + 1) == spec_run(
            regs.update(bc[pc].dst as int, regs[bc[pc].src1 as int]),
            locals,
            consts,
            pc + 1,
            bc,
            f,
        ),
{
}

/// `drop`: no register, local or constant changes.
pub proof fn lemma_run_drop(
    regs: Seq<JsVal>,
    locals: Seq<JsVal>,
    consts: Seq<JsVal>,
    pc: int,
    bc: Seq<RegInstruction>,
    f: nat,
)
    requires
        0 <= pc < bc.len(),
        bc[pc].op == OP_REG_DROP,
    ensures
        spec_run(regs, locals, consts, pc, bc, f + 1) == spec_run(regs, locals, consts, pc + 1, bc, f),
{
}

/// `push_const`: the register receives the constant.
pub proof fn lemma_run_push_const(
    regs: Seq<JsVal>,
    locals: Seq<JsVal>,
    consts: Seq<JsVal>,
    pc: int,
    bc: Seq<RegInstruction>,
    f: nat,
)
    requires
        0 <= pc < bc.len(),
        bc[pc].op == OP_REG_PUSH_CONST,
        bc[pc].src1 < consts.len(),
    ensures
        spec_run(regs, locals, consts, pc, bc, f + 1) == spec_run(
            regs.update(bc[pc].dst as int, consts[bc[pc].src1 as int]),
            locals,
            consts,
            pc + 1,
            bc,
            f,
        ),
{
}

/// `set_loc`: the local receives the register, which keeps its value.
pub proof fn lemma_run_set_loc(
    regs: Seq<JsVal>,
    locals: Seq<JsVal>,
    consts: Seq<JsVal>,
    pc: int,
    bc: Seq<RegInstruction>,
    f: nat,
)
    requires
        0 <= pc < bc.len(),
        bc[pc].op == OP_REG_SET_LOC,
        bc[pc].dst < locals.len(),
    ensures
        spec_run(regs, locals, consts, pc, bc, f + 1) == spec_run(
            regs,
            locals.update(bc[pc].dst as int, regs[bc[pc].src1 as int]),
            consts,
            pc + 1,
            bc,
            f,
        ),
{
}

/// `return_undef`: the run returns `undefined`.
pub proof fn lemma_run_return_undef(
    regs: Seq<JsVal>,
    locals: Seq<JsVal>,
    consts: Seq<JsVal>,
    pc: int,
    bc: Seq<RegInstruction>,
    f: nat,
)
    requires
        0 <= pc < bc.len(),
        bc[pc].op == OP_REG_RETURN_UNDEF,
    ensures
        spec_run(regs, locals, consts, pc, bc, f + 1) == Some(undefined_val()),
{
}

/// Running past the last instruction stops with `uninitialized`.
pub proof fn lemma_run_past_end(
    regs: Seq<JsVal>,
    locals: Seq<JsVal>,
    consts: Seq<JsVal>,
    pc: int,
    bc: Seq<RegInstruction>,
    f: nat,
)
    requires
        pc >= bc.len(),
    ensures
        spec_run(regs, locals, consts, pc, bc, f + 1) == Some(uninitialized_val()),
{
}

} // verus!
