//! Whole runs of the stack interpreter's fast path, and what the register
//! code made of the same stack code computes: the same value.
use vstd::prelude::*;

use crate::bytes::wrap32;
use crate::compiler::{
    lemma_step_advances, prepend, spec_compile, spec_step, spec_translate, RegInstruction, OP_ADD, OP_DROP, OP_DUP, OP_GET_LOC,
    OP_NULL, OP_PUSH_CONST, OP_PUSH_FALSE, OP_PUSH_I32, OP_PUSH_TRUE, OP_PUT_LOC, OP_RETURN, OP_RETURN_UNDEF,
    OP_UNDEFINED,
};
use crate::jit::{lemma_push_i32_immediate_roundtrip, spec_reg_i32};
use crate::stack_interp::{spec_fast_add, spec_operand_len, spec_stack_action, StackAction};
use crate::value::{undefined_val, JsVal, JS_TAG_INT};
use crate::vm::{int_val, NUM_REGS};
use crate::vm_run::spec_run;

verus! {

/// `v` with `s` stored as the `int32` in the low half of its payload (what
/// the fast path's host does to the slot that receives a sum).
pub open spec fn with_int32(v: JsVal, s: int) -> JsVal {
    JsVal { tag: v.tag, payload: (v.payload - v.payload % 0x1_0000_0000 + wrap32(s)) as u64 }
}

/// The value that the fast path returns within `fuel` instructions, from
/// stack `stack` at byte `pc` of `bc`, against locals `locals` and
/// constants `consts`; `None` when it bails, runs out of code or fuel, or
/// touches a stack slot, local or constant that is missing.
pub open spec fn spec_run_stack(
    stack: Seq<JsVal>,
    locals: Seq<JsVal>,
    consts: Seq<JsVal>,
    pc: int,
    bc: Seq<u8>,
    fuel: nat,
) -> Option<JsVal>
    decreases fuel,
{
    if fuel == 0 || pc < 0 || pc >= bc.len() || pc + 1 + spec_operand_len(bc[pc]) > bc.len() {
        None
    } else {
        let next = pc + 1 + spec_operand_len(bc[pc]);
        let f = (fuel - 1) as nat;
        let h = stack.len() as int;
        match spec_stack_action(bc[pc], bc.subrange(pc + 1, next)) {
            StackAction::Push { value } => spec_run_stack(stack.push(value), locals, consts, next, bc, f),
            StackAction::PushConst { index } => if index < consts.len() {
                spec_run_stack(stack.push(consts[index as int]), locals, consts, next, bc, f)
            } else {
                None
            },
            StackAction::PushLocal { index } => if index < locals.len() {
                spec_run_stack(stack.push(locals[index as int]), locals, consts, next, bc, f)
            } else {
                None
            },
            StackAction::Dup => if h > 0 {
                spec_run_stack(stack.push(stack[h - 1]), locals, consts, next, bc, f)
            } else {
                None
            },
            StackAction::Drop => if h > 0 {
                spec_run_stack(stack.drop_last(), locals, consts, next, bc, f)
            } else {
                None
            },
            StackAction::PutLocal { index } => if h > 0 && index < locals.len() {
                spec_run_stack(stack.drop_last(), locals.update(index as int, stack[h - 1]), consts, next, bc, f)
            } else {
                None
            },
            StackAction::Add => if h >= 2 {
                match spec_fast_add(stack[h - 2], stack[h - 1]) {
                    Some(s) => spec_run_stack(
                        stack.drop_last().update(h - 2, with_int32(stack[h - 2], s)),
                        locals,
                        consts,
                        next,
                        bc,
                        f,
                    ),
                    None => None,
                }
            } else {
                None
            },
            StackAction::Return => if h > 0 {
                Some(stack[h - 1])
            } else {
                None
            },
            StackAction::ReturnUndef => Some(undefined_val()),
            StackAction::Bail => None,
        }
    }
}

/// An `int32` value keeps its upper payload half clear.
pub open spec fn canonical(v: JsVal) -> bool {
    v.tag == JS_TAG_INT ==> v.payload < 0x1_0000_0000
}

pub open spec fn all_canonical(s: Seq<JsVal>) -> bool {
    forall|j: int| 0 <= j < s.len() ==> canonical(#[trigger] s[j])
}

/// As the register compiler walks `bc` from `pc` at height `h`, the stack never holds
/// more than 256 values, every `put_loc` names a local below 256 and every
/// `push_const` a constant below 65536: the register code names locals in a
/// byte, constants in 16 bits and stack slots in 256 registers.
pub open spec fn translation_fits(bc: Seq<u8>, pc: int, h: int) -> bool
    decreases bc.len() - pc,
{
    if pc < 0 || pc >= bc.len() {
        true
    } else {
        match spec_step(bc, pc, h) {
            Err(e) => true,
            Ok((inst, next_pc, next_h)) => {
                proof {
                    lemma_step_advances(bc, pc, h);
                }
                &&& next_h <= 256
                &&& bc[pc] == OP_PUT_LOC ==> bc[pc + 2] == 0
                &&& bc[pc] == OP_PUSH_CONST ==> bc[pc + 3] == 0 && bc[pc + 4] == 0
                &&& translation_fits(bc, next_pc, next_h)
            },
        }
    }
}

/// The simulation: from stack position `pc` at height `h`, whose register
/// code starts at index `ridx` of `rbc`, with register `j` holding stack
/// slot `j`, the register run returns what the stack run returns.
#[verifier::rlimit(40)]
proof fn lemma_stack_simulation(
    bc: Seq<u8>,
    pc: int,
    h: int,
    rbc: Seq<RegInstruction>,
    ridx: int,
    stack: Seq<JsVal>,
    regs: Seq<JsVal>,
    locals: Seq<JsVal>,
    consts: Seq<JsVal>,
    fuel: nat,
)
    requires
        0 <= ridx <= rbc.len(),
        spec_translate(bc, pc, h) == Ok::<Seq<RegInstruction>, Seq<char>>(rbc.subrange(ridx, rbc.len() as int)),
        translation_fits(bc, pc, h),
        0 <= h <= 256,
        stack.len() == h,
        regs.len() == 256,
        forall|j: int| 0 <= j < h ==> #[trigger] regs[j] == stack[j],
        all_canonical(stack),
        all_canonical(locals),
        all_canonical(consts),
        spec_run_stack(stack, locals, consts, pc, bc, fuel).is_some(),
    ensures
        spec_run(regs, locals, consts, ridx, rbc, fuel) == spec_run_stack(stack, locals, consts, pc, bc, fuel),
    decreases fuel,
{
    let op = bc[pc];
    if !(op == OP_PUSH_I32 || op == OP_PUSH_CONST || op == OP_UNDEFINED || op == OP_NULL || op == OP_PUSH_FALSE
        || op == OP_PUSH_TRUE || op == OP_DROP || op == OP_DUP || op == OP_GET_LOC || op == OP_PUT_LOC || op
        == OP_ADD || op == OP_RETURN || op == OP_RETURN_UNDEF) {
        // The fast path bails on every other opcode.
        assert(spec_stack_action(op, bc.subrange(pc + 1, pc + 1 + spec_operand_len(op))) == StackAction::Bail);
    } else {
        let next = pc + 1 + spec_operand_len(op);
        let f = (fuel - 1) as nat;
        let step = spec_step(bc, pc, h);
        assert(step is Ok);
        let (inst, np, nh) = step->Ok_0;
        let t = spec_translate(bc, np, nh);
        assert(spec_translate(bc, pc, h) == prepend(seq![inst], t));
        assert(t is Ok);
        let ts = t->Ok_0;
        let rest = rbc.subrange(ridx, rbc.len() as int);
        assert(rest == seq![inst] + ts);
        assert(rest.len() == 1 + ts.len());
        assert(ridx < rbc.len());
        assert(rest[0] == inst);
        assert(rbc[ridx] == inst);
        assert forall|j: int| 0 <= j < ts.len() implies rbc.subrange(ridx + 1, rbc.len() as int)[j] == ts[j] by {
            assert(rest[j + 1] == ts[j]);
        }
        assert(rbc.subrange(ridx + 1, rbc.len() as int) =~= ts);
        assert(np == next);
        assert(translation_fits(bc, np, nh));
        let o = bc.subrange(pc + 1, next);
        let act = spec_stack_action(op, o);
        if op == OP_PUSH_I32 {
            lemma_push_i32_immediate_roundtrip(bc, pc, h);
            assert(o[0] == bc[pc + 1] && o[1] == bc[pc + 2] && o[2] == bc[pc + 3] && o[3] == bc[pc + 4]);
            let v = int_val(spec_reg_i32(inst));
            assert(act == (StackAction::Push { value: v }));
            let regs2 = regs.update(h, v);
            let stack2 = stack.push(v);
            assert(canonical(v));
            lemma_stack_simulation(bc, next, h + 1, rbc, ridx + 1, stack2, regs2, locals, consts, f);
        } else if op == OP_PUSH_CONST {
            assert(o[0] == bc[pc + 1] && o[1] == bc[pc + 2] && o[2] == bc[pc + 3] && o[3] == bc[pc + 4]);
            assert(bc[pc + 3] == 0 && bc[pc + 4] == 0);
            let index = inst.src1;
            assert(act == (StackAction::PushConst { index: index as u32 }));
            let regs2 = regs.update(h, consts[index as int]);
            let stack2 = stack.push(consts[index as int]);
            lemma_stack_simulation(bc, next, h + 1, rbc, ridx + 1, stack2, regs2, locals, consts, f);
        } else if op == OP_UNDEFINED || op == OP_NULL || op == OP_PUSH_FALSE || op == OP_PUSH_TRUE {
            let v = act->Push_value;
            let regs2 = regs.update(h, v);
            let stack2 = stack.push(v);
            lemma_stack_simulation(bc, next, h + 1, rbc, ridx + 1, stack2, regs2, locals, consts, f);
        } else if op == OP_DROP {
            lemma_stack_simulation(bc, next, h - 1, rbc, ridx + 1, stack.drop_last(), regs, locals, consts, f);
        } else if op == OP_DUP {
            let regs2 = regs.update(h, regs[h - 1]);
            let stack2 = stack.push(stack[h - 1]);
            lemma_stack_simulation(bc, next, h + 1, rbc, ridx + 1, stack2, regs2, locals, consts, f);
        } else if op == OP_GET_LOC {
            assert(o[0] == bc[pc + 1] && o[1] == bc[pc + 2]);
            let index = inst.src1;
            let regs2 = regs.update(h, locals[index as int]);
            let stack2 = stack.push(locals[index as int]);
            lemma_stack_simulation(bc, next, h + 1, rbc, ridx + 1, stack2, regs2, locals, consts, f);
        } else if op == OP_PUT_LOC {
            assert(o[0] == bc[pc + 1] && o[1] == bc[pc + 2]);
            let index = inst.dst;
            let locals2 = locals.update(index as int, stack[h - 1]);
            lemma_stack_simulation(bc, next, h - 1, rbc, ridx + 1, stack.drop_last(), regs, locals2, consts, f);
        } else if op == OP_ADD {
            let a = stack[h - 2];
            let b = stack[h - 1];
            let s = spec_fast_add(a, b)->Some_0;
            assert(with_int32(a, s) == int_val(s));
            let regs2 = regs.update(h - 2, int_val(s));
            let stack2 = stack.drop_last().update(h - 2, with_int32(a, s));
            lemma_stack_simulation(bc, next, h - 1, rbc, ridx + 1, stack2, regs2, locals, consts, f);
        } else if op == OP_RETURN {
        } else {
            assert(op == OP_RETURN_UNDEF);
        }
    }
}

/// Law: the register code computes what the stack code computes. When the
/// stack interpreter's fast path runs a function body from an empty stack
/// and returns a value within `fuel` instructions, the register code that
/// the register compiler makes of the body returns the same value within
/// `fuel` steps, from any registers, against the same locals and constants.
/// This holds when the stack never holds more than 256 values, every local
/// written and constant read fits the register code's operand fields, and
/// the `int32` locals and constants keep the upper half of their payload
/// clear.
pub proof fn lemma_register_code_matches_stack_run(
    bc: Seq<u8>,
    regs: Seq<JsVal>,
    locals: Seq<JsVal>,
    consts: Seq<JsVal>,
    fuel: nat,
)
    requires
        spec_compile(bc) is Ok,
        translation_fits(bc, 0, 0),
        regs.len() == NUM_REGS,
        all_canonical(locals),
        all_canonical(consts),
        spec_run_stack(Seq::empty(), locals, consts, 0, bc, fuel).is_some(),
    ensures
        spec_run(regs, locals, consts, 0, spec_compile(bc)->Ok_0, fuel) == spec_run_stack(
            Seq::empty(),
            locals,
            consts,
            0,
            bc,
            fuel,
        ),
{
    let rbc = spec_compile(bc)->Ok_0;
    assert(rbc.subrange(0, rbc.len() as int) =~= rbc);
    lemma_stack_simulation(bc, 0, 0, rbc, 0, Seq::empty(), regs, locals, consts, fuel);
}

} // verus!
