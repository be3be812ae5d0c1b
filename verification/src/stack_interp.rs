//! The fast path taken inside QuickJS's own stack interpreter.
//!
//! For each stack instruction the fast path decides, from the opcode and its
//! operand bytes, what happens to the operand stack; the host reads the
//! bytes, moves the stack pointer, touches locals and constants and adjusts
//! reference counts as the decision says. After every action but `Bail` the
//! host moves past the instruction (`1 + operand_len(op)` bytes); after
//! `Bail` it leaves the instruction pointer on the opcode, so that the C
//! interpreter resumes there.
use vstd::prelude::*;

use crate::bytes::{as_signed32, le16, le32};
use crate::compiler::{
    read_i32, read_u16, read_u32, spec_step, OP_ADD, OP_DROP, OP_DUP, OP_GET_LOC, OP_NULL,
    OP_PUSH_CONST, OP_PUSH_FALSE, OP_PUSH_I32, OP_PUSH_TRUE, OP_PUT_LOC, OP_REG_ADD, OP_RETURN,
    OP_RETURN_UNDEF, OP_UNDEFINED,
};
use crate::jit::{lemma_push_i32_immediate_roundtrip, spec_reg_i32};
use crate::value::{payload_i32, tagged_i32, undefined_val, JsVal, JS_TAG_INT, JS_TAG_NULL};
use crate::vm::{bool_val, int_val, spec_binary, BinResult};

verus! {

/// What the fast path does with one stack instruction.
#[derive(Debug, Copy, Clone, PartialEq, Eq, Structural)]
pub enum StackAction {
    /// Push `value` (a value without a reference count).
    Push { value: JsVal },
    /// Push a new reference to constant `index`.
    PushConst { index: u32 },
    /// Push a new reference to local `index`.
    PushLocal { index: u16 },
    /// Push a new reference to the value on top.
    Dup,
    /// Pop the value on top and drop its reference.
    Drop,
    /// Pop the value on top into local `index`, dropping the reference that
    /// the local held.
    PutLocal { index: u16 },
    /// Add the two values on top: when `fast_add` gives a sum, pop the top
    /// value and store the sum as the `int32` in the low half of the new
    /// top's payload; otherwise bail.
    Add,
    /// Pop the value on top and return it.
    Return,
    /// Return `undefined`.
    ReturnUndef,
    /// Stop before this instruction and let the C interpreter run it.
    Bail,
}

/// The number of operand bytes that follow opcode `op` on the fast path.
pub open spec fn spec_operand_len(op: u8) -> int {
    if op == OP_PUSH_I32 || op == OP_PUSH_CONST {
        4
    } else if op == OP_GET_LOC || op == OP_PUT_LOC {
        2
    } else {
        0
    }
}

/// The fast path's decision for opcode `op` with operand bytes `o`.
pub open spec fn spec_stack_action(op: u8, o: Seq<u8>) -> StackAction {
    if op == OP_PUSH_I32 {
        StackAction::Push { value: int_val(as_signed32(le32(o[0], o[1], o[2], o[3]))) }
    } else if op == OP_PUSH_CONST {
        StackAction::PushConst { index: le32(o[0], o[1], o[2], o[3]) as u32 }
    } else if op == OP_UNDEFINED {
        StackAction::Push { value: undefined_val() }
    } else if op == OP_NULL {
        StackAction::Push { value: tagged_i32(JS_TAG_NULL, 0) }
    } else if op == OP_PUSH_FALSE {
        StackAction::Push { value: bool_val(false) }
    } else if op == OP_PUSH_TRUE {
        StackAction::Push { value: bool_val(true) }
    } else if op == OP_DROP {
        StackAction::Drop
    } else if op == OP_DUP {
        StackAction::Dup
    } else if op == OP_GET_LOC {
        StackAction::PushLocal { index: le16(o[0], o[1]) as u16 }
    } else if op == OP_PUT_LOC {
        StackAction::PutLocal { index: le16(o[0], o[1]) as u16 }
    } else if op == OP_ADD {
        StackAction::Add
    } else if op == OP_RETURN {
        StackAction::Return
    } else if op == OP_RETURN_UNDEF {
        StackAction::ReturnUndef
    } else {
        StackAction::Bail
    }
}

/// The sum that the fast path stores for `a + b`: present when both are
/// `int32` values and the sum fits in an `int32`.
pub open spec fn spec_fast_add(a: JsVal, b: JsVal) -> Option<int> {
    let s = payload_i32(a) + payload_i32(b);
    if a.tag == JS_TAG_INT && b.tag == JS_TAG_INT && -0x8000_0000 <= s <= 0x7fff_ffff {
        Some(s)
    } else {
        None
    }
}

/// The number of operand bytes after opcode `op`.
pub fn operand_len(op: u8) -> (n: usize)
    ensures
        n == spec_operand_len(op),
{
    if op == OP_PUSH_I32 || op == OP_PUSH_CONST {
        4
    } else if op == OP_GET_LOC || op == OP_PUT_LOC {
        2
    } else {
        0
    }
}

/// Decides what the fast path does with opcode `op`, whose operand bytes
/// start `operands`.
pub fn decode_stack_op(op: u8, operands: &[u8]) -> (r: StackAction)
    requires
        operands@.len() >= spec_operand_len(op),
    ensures
        r == spec_stack_action(op, operands@),
{
    if op == OP_PUSH_I32 {
        StackAction::Push { value: JsVal::from_i32(read_i32(operands, 0)) }
    } else if op == OP_PUSH_CONST {
        StackAction::PushConst { index: read_u32(operands, 0) }
    } else if op == OP_UNDEFINED {
        StackAction::Push { value: JsVal::with_i32(crate::value::JS_TAG_UNDEFINED, 0) }
    } else if op == OP_NULL {
        StackAction::Push { value: JsVal::with_i32(JS_TAG_NULL, 0) }
    } else if op == OP_PUSH_FALSE {
        StackAction::Push { value: JsVal::boolean(false) }
    } else if op == OP_PUSH_TRUE {
        StackAction::Push { value: JsVal::boolean(true) }
    } else if op == OP_DROP {
        StackAction::Drop
    } else if op == OP_DUP {
        StackAction::Dup
    } else if op == OP_GET_LOC {
        StackAction::PushLocal { index: read_u16(operands, 0) }
    } else if op == OP_PUT_LOC {
        StackAction::PutLocal { index: read_u16(operands, 0) }
    } else if op == OP_ADD {
        StackAction::Add
    } else if op == OP_RETURN {
        StackAction::Return
    } else if op == OP_RETURN_UNDEF {
        StackAction::ReturnUndef
    } else {
        StackAction::Bail
    }
}

/// The fast path's `a + b`: the `int32` sum when both values are `int32`
/// and the sum does not overflow; otherwise `None`, and the fast path bails.
pub fn fast_add(a: JsVal, b: JsVal) -> (r: Option<i32>)
    ensures
        r matches Some(s) ==> spec_fast_add(a, b) == Some(s as int),
        r is None ==> spec_fast_add(a, b) is None,
{
    if a.tag == JS_TAG_INT && b.tag == JS_TAG_INT {
        let s = a.int32() as i64 + b.int32() as i64;
        if -0x8000_0000 <= s && s <= 0x7fff_ffff {
            return Some(s as i32);
        }
    }
    None
}

/// Law: the fast path and the register interpreter add alike. Where the fast
/// path stores a sum, the register `add` of the same values is that `int32`;
/// where two `int32` values overflow, both stop: the fast path bails and the
/// register `add` aborts.
pub proof fn lemma_fast_add_matches_register_add(a: JsVal, b: JsVal)
    ensures
        spec_fast_add(a, b).is_some() ==> spec_binary(OP_REG_ADD, a, b) == BinResult::Value(
            int_val(spec_fast_add(a, b).unwrap()),
        ),
        a.tag == JS_TAG_INT && b.tag == JS_TAG_INT && spec_fast_add(a, b).is_none() ==> spec_binary(
            OP_REG_ADD,
            a,
            b,
        ) == BinResult::Abort,
{
}

/// Law: both tiers push the same immediate. For a `push_i32` at `pc`, the
/// fast path pushes the `int32` that the register interpreter stores when it
/// runs the register instruction that the register compiler makes of it.
pub proof fn lemma_push_i32_tiers_agree(bc: Seq<u8>, pc: int, h: int)
    requires
        0 <= pc < bc.len(),
        bc[pc] == OP_PUSH_I32,
        spec_step(bc, pc, h) is Ok,
    ensures
        spec_stack_action(OP_PUSH_I32, bc.subrange(pc + 1, pc + 5)) == (StackAction::Push {
            value: int_val(spec_reg_i32(spec_step(bc, pc, h)->Ok_0.0)),
        }),
{
    lemma_push_i32_immediate_roundtrip(bc, pc, h);
    let o = bc.subrange(pc + 1, pc + 5);
    assert(o[0] == bc[pc + 1] && o[1] == bc[pc + 2] && o[2] == bc[pc + 3] && o[3] == bc[pc + 4]);
}

} // verus!
