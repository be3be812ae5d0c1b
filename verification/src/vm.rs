//! The register interpreter, one instruction at a time.
//!
//! The interpreter holds 256 registers, all `undefined` at the start. Each
//! step executes one register instruction and asks its host for the work
//! that lies outside the registers: reading the constant pool and the local
//! variables, writing locals, adjusting reference counts, and float64
//! arithmetic. A finished run names the value to return and the registers
//! whose references must be dropped.
use vstd::prelude::*;

use crate::compiler::{
    RegInstruction, OP_REG_ADD, OP_REG_BIT_AND, OP_REG_BIT_OR, OP_REG_BIT_XOR, OP_REG_DROP,
    OP_REG_GT, OP_REG_GTE, OP_REG_IF_FALSE, OP_REG_IF_TRUE, OP_REG_JMP, OP_REG_LOAD_LOC, OP_REG_LT,
    OP_REG_LTE, OP_REG_MOD, OP_REG_MOV, OP_REG_MUL, OP_REG_NULL, OP_REG_PUSH_CONST,
    OP_REG_PUSH_FALSE, OP_REG_PUSH_I32, OP_REG_PUSH_TRUE, OP_REG_RETURN, OP_REG_RETURN_UNDEF,
    OP_REG_SAR, OP_REG_SET_LOC, OP_REG_SHL, OP_REG_SHR, OP_REG_STORE_LOC, OP_REG_STRICT_EQ,
    OP_REG_SUB, OP_REG_UNDEFINED,
};
use crate::jit::{reg_i32, spec_reg_i32};
use crate::number::{f64_bits, f64_bits_of_integer};
use crate::value::{
    is_number, js_to_int32, js_to_uint32, needs_refcount, payload_i32, spec_is_number,
    spec_needs_refcount, spec_to_int32, spec_to_uint32, tagged_i32, undefined_val,
    uninitialized_val, JsVal, JS_TAG_BOOL, JS_TAG_FLOAT64, JS_TAG_INT, JS_TAG_NULL,
    JS_TAG_UNDEFINED, JS_TAG_UNINITIALIZED,
};

verus! {

pub const NUM_REGS: usize = 256;

/// What the host must do after a step.
#[derive(Debug, Copy, Clone, PartialEq, Eq, Structural)]
pub enum VmAction {
    /// Nothing: run the next step.
    Continue,
    /// Set register `dst` to a new reference to constant `index`.
    LoadConst { dst: u8, index: u16 },
    /// Set register `dst` to a new reference to local `index`.
    LoadLocal { dst: u8, index: u16 },
    /// Drop the reference that local `index` holds, then store `value`
    /// there (as a new reference when `retain`).
    StoreLocal { index: u8, value: JsVal, retain: bool },
    /// Take a new reference to `value`.
    Retain { value: JsVal },
    /// Drop a reference to `value`.
    Release { value: JsVal },
    /// Set register `dst` to the float64 result of `lhs <op> rhs`
    /// (`+`, `-`, `*`, `%`, or `===` as a boolean) on the numbers' float64
    /// values.
    FloatOp { op: u8, dst: u8, lhs: JsVal, rhs: JsVal },
    /// Set register `dst` to the float64 NaN.
    StoreNan { dst: u8 },
    /// Stop: drop the references of `release_list(skip)` and return `result`.
    Finish { result: JsVal, skip: Option<u8> },
}

/// The result of a binary register operation.
#[derive(Debug, Copy, Clone, PartialEq, Eq, Structural)]
pub enum BinResult {
    /// The value of the result.
    Value(JsVal),
    /// The result is a float64 computed by the host.
    NeedsFloat,
    /// The result is NaN.
    Nan,
    /// The operands are not handled: stop and let the C interpreter run.
    Abort,
}

pub open spec fn is_binary_op(op: u8) -> bool {
    op == OP_REG_ADD || op == OP_REG_SUB || op == OP_REG_MUL || op == OP_REG_MOD || op == OP_REG_SHL
        || op == OP_REG_SAR || op == OP_REG_SHR || op == OP_REG_BIT_AND || op == OP_REG_BIT_XOR || op
        == OP_REG_BIT_OR || op == OP_REG_STRICT_EQ || op == OP_REG_LT || op == OP_REG_LTE || op
        == OP_REG_GT || op == OP_REG_GTE
}

/// The `int32` value `x`.
pub open spec fn int_val(x: int) -> JsVal {
    tagged_i32(JS_TAG_INT, x)
}

/// The boolean `b`.
pub open spec fn bool_val(b: bool) -> JsVal {
    tagged_i32(JS_TAG_BOOL, if b { 1 } else { 0 })
}

/// The float64 value of the integer `x` (outside the `int32` range).
pub open spec fn float_of_int(x: int) -> JsVal {
    JsVal { tag: JS_TAG_FLOAT64, payload: f64_bits(x) as u64 }
}

/// The remainder of `x / y` truncated towards zero (the sign of `x`).
pub open spec fn trunc_rem(x: int, y: int) -> int {
    let ay = if y < 0 { -y } else { y };
    if x >= 0 {
        x % ay
    } else {
        -((-x) % ay)
    }
}

/// The result of `a <op> b` for a binary register operation.
pub open spec fn spec_binary(op: u8, a: JsVal, b: JsVal) -> BinResult {
    let both_int = a.tag == JS_TAG_INT && b.tag == JS_TAG_INT;
    let both_num = spec_is_number(a) && spec_is_number(b);
    let x = payload_i32(a);
    let y = payload_i32(b);
    if op == OP_REG_ADD || op == OP_REG_SUB || op == OP_REG_MUL {
        if both_int {
            let r = if op == OP_REG_ADD {
                x + y
            } else if op == OP_REG_SUB {
                x - y
            } else {
                x * y
            };
            if -0x8000_0000 <= r <= 0x7fff_ffff {
                BinResult::Value(int_val(r))
            } else if op == OP_REG_ADD {
                BinResult::Abort
            } else if op == OP_REG_MUL {
                BinResult::NeedsFloat
            } else {
                BinResult::Value(float_of_int(r))
            }
        } else if both_num {
            BinResult::NeedsFloat
        } else {
            BinResult::Abort
        }
    } else if op == OP_REG_MOD {
        if both_int {
            if y != 0 && !(x == -0x8000_0000 && y == -1) {
                BinResult::Value(int_val(trunc_rem(x, y)))
            } else {
                BinResult::Nan
            }
        } else if both_num {
            BinResult::NeedsFloat
        } else {
            BinResult::Abort
        }
    } else if op == OP_REG_SHL || op == OP_REG_SAR || op == OP_REG_SHR || op == OP_REG_BIT_AND || op
        == OP_REG_BIT_XOR || op == OP_REG_BIT_OR {
        if both_num {
            let lhs = spec_to_int32(a) as i32;
            let rhs = spec_to_int32(b) as i32;
            let sh = ((spec_to_uint32(b) as u32) & 31u32) as u32;
            if op == OP_REG_SHL {
                BinResult::Value(int_val((((lhs as u32) << sh) as i32) as int))
            } else if op == OP_REG_SAR {
                BinResult::Value(int_val((lhs >> sh) as int))
            } else if op == OP_REG_SHR {
                let u = (lhs as u32) >> sh;
                if u <= 0x7fff_ffff {
                    BinResult::Value(int_val(u as int))
                } else {
                    BinResult::Value(float_of_int(u as int))
                }
            } else if op == OP_REG_BIT_AND {
                BinResult::Value(int_val((lhs & rhs) as int))
            } else if op == OP_REG_BIT_XOR {
                BinResult::Value(int_val((lhs ^ rhs) as int))
            } else {
                BinResult::Value(int_val((lhs | rhs) as int))
            }
        } else {
            BinResult::Abort
        }
    } else if op == OP_REG_STRICT_EQ {
        if both_num {
            if both_int {
                BinResult::Value(bool_val(x == y))
            } else {
                BinResult::NeedsFloat
            }
        } else {
            BinResult::Value(bool_val(a.tag == b.tag && x == y))
        }
    } else {
        // LT, LTE, GT, GTE
        if both_int {
            BinResult::Value(
                bool_val(
                    if op == OP_REG_LT {
                        x < y
                    } else if op == OP_REG_LTE {
                        x <= y
                    } else if op == OP_REG_GT {
                        x > y
                    } else {
                        x >= y
                    },
                ),
            )
        } else {
            BinResult::Abort
        }
    }
}

/// The remainder of `x / y` truncated towards zero.
fn trunc_rem_i32(x: i32, y: i32) -> (r: i32)
    requires
        y != 0,
        !(x == -0x8000_0000 && y == -1),
    ensures
        r as int == trunc_rem(x as int, y as int),
{
    let ax: i64 = if x < 0 { -(x as i64) } else { x as i64 };
    let ay: i64 = if y < 0 { -(y as i64) } else { y as i64 };
    let m = ax % ay;
    if x >= 0 {
        m as i32
    } else {
        (-m) as i32
    }
}

/// `a <op> b` for a binary register operation.
pub fn binary_op(op: u8, a: JsVal, b: JsVal) -> (r: BinResult)
    requires
        is_binary_op(op),
    ensures
        r == spec_binary(op, a, b),
{
    let both_int = a.tag == JS_TAG_INT && b.tag == JS_TAG_INT;
    let both_num = is_number(&a) && is_number(&b);
    if op == OP_REG_ADD || op == OP_REG_SUB || op == OP_REG_MUL {
        if both_int {
            let x = a.int32() as i64;
            let y = b.int32() as i64;
            assert(-0x4000_0000_0000_0000 <= x * y <= 0x4000_0000_0000_0000) by (nonlinear_arith)
                requires
                    -0x8000_0000 <= x <= 0x7fff_ffff,
                    -0x8000_0000 <= y <= 0x7fff_ffff,
            ;
            let r: i64 = if op == OP_REG_ADD {
                x + y
            } else if op == OP_REG_SUB {
                x - y
            } else {
                x * y
            };
            if -0x8000_0000 <= r && r <= 0x7fff_ffff {
                BinResult::Value(JsVal::from_i32(r as i32))
            } else if op == OP_REG_ADD {
                // An overflowing int32 sum stops the run: the C interpreter
                // redoes the work.
                BinResult::Abort
            } else if op == OP_REG_MUL {
                BinResult::NeedsFloat
            } else {
                // An int32 difference is exact as a float64.
                BinResult::Value(JsVal { tag: JS_TAG_FLOAT64, payload: f64_bits_of_integer(r) })
            }
        } else if both_num {
            BinResult::NeedsFloat
        } else {
            BinResult::Abort
        }
    } else if op == OP_REG_MOD {
        if both_int {
            let x = a.int32();
            let y = b.int32();
            if y != 0 && !(x == -0x8000_0000 && y == -1) {
                BinResult::Value(JsVal::from_i32(trunc_rem_i32(x, y)))
            } else {
                BinResult::Nan
            }
        } else if both_num {
            BinResult::NeedsFloat
        } else {
            BinResult::Abort
        }
    } else if op == OP_REG_SHL || op == OP_REG_SAR || op == OP_REG_SHR || op == OP_REG_BIT_AND || op
        == OP_REG_BIT_XOR || op == OP_REG_BIT_OR {
        if both_num {
            let lhs = js_to_int32(&a);
            let ub = js_to_uint32(&b);
            let sh = ub & 31;
            assert(sh < 32) by (bit_vector)
                requires
                    sh == ub & 31,
            ;
            if op == OP_REG_SHL {
                BinResult::Value(JsVal::from_i32(((lhs as u32) << sh) as i32))
            } else if op == OP_REG_SAR {
                BinResult::Value(JsVal::from_i32(lhs >> sh))
            } else if op == OP_REG_SHR {
                let u = (lhs as u32) >> sh;
                if u <= 0x7fff_ffff {
                    BinResult::Value(JsVal::from_i32(u as i32))
                } else {
                    BinResult::Value(JsVal { tag: JS_TAG_FLOAT64, payload: f64_bits_of_integer(u as i64) })
                }
            } else if op == OP_REG_BIT_AND {
                BinResult::Value(JsVal::from_i32(lhs & js_to_int32(&b)))
            } else if op == OP_REG_BIT_XOR {
                BinResult::Value(JsVal::from_i32(lhs ^ js_to_int32(&b)))
            } else {
                BinResult::Value(JsVal::from_i32(lhs | js_to_int32(&b)))
            }
        } else {
            BinResult::Abort
        }
    } else if op == OP_REG_STRICT_EQ {
        if both_num {
            if both_int {
                BinResult::Value(JsVal::boolean(a.int32() == b.int32()))
            } else {
                BinResult::NeedsFloat
            }
        } else {
            BinResult::Value(JsVal::boolean(a.tag == b.tag && a.int32() == b.int32()))
        }
    } else {
        if both_int {
            let x = a.int32();
            let y = b.int32();
            let res = if op == OP_REG_LT {
                x < y
            } else if op == OP_REG_LTE {
                x <= y
            } else if op == OP_REG_GT {
                x > y
            } else {
                x >= y
            };
            BinResult::Value(JsVal::boolean(res))
        } else {
            BinResult::Abort
        }
    }
}

/// Whether `inst` names only registers `0..256` where it reads registers.
pub open spec fn spec_operands_in_range(inst: RegInstruction) -> bool {
    let op = inst.op;
    &&& (op == OP_REG_MOV || op == OP_REG_STORE_LOC || op == OP_REG_SET_LOC || is_binary_op(op))
        ==> inst.src1 < 256
    &&& is_binary_op(op) ==> inst.src2 < 256
}

/// Whether `inst` names only registers `0..256` where it reads registers.
pub fn operands_in_range(inst: &RegInstruction) -> (r: bool)
    ensures
        r == spec_operands_in_range(*inst),
{
    let op = inst.op;
    let binary = op == OP_REG_ADD || op == OP_REG_SUB || op == OP_REG_MUL || op == OP_REG_MOD || op
        == OP_REG_SHL || op == OP_REG_SAR || op == OP_REG_SHR || op == OP_REG_BIT_AND || op
        == OP_REG_BIT_XOR || op == OP_REG_BIT_OR || op == OP_REG_STRICT_EQ || op == OP_REG_LT || op
        == OP_REG_LTE || op == OP_REG_GT || op == OP_REG_GTE;
    let reads_src1 = op == OP_REG_MOV || op == OP_REG_STORE_LOC || op == OP_REG_SET_LOC || binary;
    (!reads_src1 || inst.src1 < 256) && (!binary || inst.src2 < 256)
}

/// One step of the interpreter from the registers `regs` at instruction `pc`:
/// the registers and `pc` after it, and what the host must do.
pub open spec fn spec_vm_step(regs: Seq<JsVal>, pc: int, bc: Seq<RegInstruction>) -> (Seq<JsVal>, int, VmAction) {
    let stop = VmAction::Finish { result: uninitialized_val(), skip: None };
    if pc < 0 || pc >= bc.len() {
        (regs, pc, stop)
    } else {
        let inst = bc[pc];
        let op = inst.op;
        let d = inst.dst as int;
        let next = pc + 1;
        if op == OP_REG_PUSH_I32 {
            (regs.update(d, int_val(spec_reg_i32(inst))), next, VmAction::Continue)
        } else if op == OP_REG_PUSH_CONST {
            (regs, next, VmAction::LoadConst { dst: inst.dst, index: inst.src1 })
        } else if op == OP_REG_UNDEFINED {
            (regs.update(d, undefined_val()), next, VmAction::Continue)
        } else if op == OP_REG_NULL {
            (regs.update(d, tagged_i32(JS_TAG_NULL, 0)), next, VmAction::Continue)
        } else if op == OP_REG_PUSH_FALSE {
            (regs.update(d, bool_val(false)), next, VmAction::Continue)
        } else if op == OP_REG_PUSH_TRUE {
            (regs.update(d, bool_val(true)), next, VmAction::Continue)
        } else if op == OP_REG_DROP {
            (
                regs,
                next,
                if spec_needs_refcount(regs[d]) {
                    VmAction::Release { value: regs[d] }
                } else {
                    VmAction::Continue
                },
            )
        } else if op == OP_REG_MOV {
            let v = regs[inst.src1 as int];
            (
                regs.update(d, v),
                next,
                if spec_needs_refcount(v) {
                    VmAction::Retain { value: v }
                } else {
                    VmAction::Continue
                },
            )
        } else if op == OP_REG_LOAD_LOC {
            (regs, next, VmAction::LoadLocal { dst: inst.dst, index: inst.src1 })
        } else if op == OP_REG_STORE_LOC || op == OP_REG_SET_LOC {
            (
                regs,
                next,
                VmAction::StoreLocal { index: inst.dst, value: regs[inst.src1 as int], retain: op == OP_REG_SET_LOC },
            )
        } else if is_binary_op(op) {
            let a = regs[inst.src1 as int];
            let b = regs[inst.src2 as int];
            match spec_binary(op, a, b) {
                BinResult::Value(v) => (regs.update(d, v), next, VmAction::Continue),
                BinResult::NeedsFloat => (regs, next, VmAction::FloatOp { op, dst: inst.dst, lhs: a, rhs: b }),
                BinResult::Nan => (regs, next, VmAction::StoreNan { dst: inst.dst }),
                BinResult::Abort => (regs, next, stop),
            }
        } else if op == OP_REG_JMP {
            (regs, inst.src1 as int, VmAction::Continue)
        } else if op == OP_REG_IF_FALSE || op == OP_REG_IF_TRUE {
            let c = regs[d];
            if c.tag == JS_TAG_BOOL {
                let taken = if op == OP_REG_IF_FALSE { payload_i32(c) == 0 } else { payload_i32(c) != 0 };
                (regs, if taken { inst.src1 as int } else { next }, VmAction::Continue)
            } else {
                (regs, next, stop)
            }
        } else if op == OP_REG_RETURN {
            (regs, next, VmAction::Finish { result: regs[d], skip: Some(inst.dst) })
        } else if op == OP_REG_RETURN_UNDEF {
            (regs, next, VmAction::Finish { result: undefined_val(), skip: None })
        } else {
            (regs, next, stop)
        }
    }
}

/// The registers whose references a finished run drops: every register with
/// a reference count, in order, except register `skip`.
pub open spec fn spec_release_list(regs: Seq<JsVal>, skip: Option<u8>, n: int) -> Seq<JsVal>
    decreases n,
{
    if n <= 0 {
        Seq::empty()
    } else {
        let rest = spec_release_list(regs, skip, n - 1);
        if spec_needs_refcount(regs[n - 1]) && skip != Some((n - 1) as u8) {
            rest.push(regs[n - 1])
        } else {
            rest
        }
    }
}

/// The register interpreter's state: 256 registers and the index of the
/// next instruction.
pub struct RegisterVm {
    regs: Vec<JsVal>,
    pc: usize,
}

impl View for RegisterVm {
    type V = (Seq<JsVal>, int);

    closed spec fn view(&self) -> (Seq<JsVal>, int) {
        (self.regs@, self.pc as int)
    }
}

impl RegisterVm {
    /// The interpreter holds 256 registers.
    pub closed spec fn wf(&self) -> bool {
        self.regs@.len() == NUM_REGS
    }

    /// A fresh interpreter: every register `undefined`, at instruction 0.
    pub fn new() -> (r: RegisterVm)
        ensures
            r.wf(),
            r@.0 == Seq::new(NUM_REGS as nat, |i: int| undefined_val()),
            r@.1 == 0,
    {
        let mut regs: Vec<JsVal> = Vec::with_capacity(NUM_REGS);
        let undef = JsVal::with_i32(JS_TAG_UNDEFINED, 0);
        let mut i: usize = 0;
        while i < NUM_REGS
            invariant
                i <= NUM_REGS,
                undef == undefined_val(),
                regs@ == Seq::new(i as nat, |k: int| undefined_val()),
            decreases NUM_REGS - i,
        {
            regs.push(undef);
            i = i + 1;
            assert(regs@ =~= Seq::new(i as nat, |k: int| undefined_val()));
        }
        RegisterVm { regs, pc: 0 }
    }

    /// The value of register `r`.
    pub fn reg(&self, r: u8) -> (v: JsVal)
        requires
            self.wf(),
        ensures
            v == self@.0[r as int],
    {
        self.regs[r as usize]
    }

    /// The index of the next instruction.
    pub fn pc(&self) -> (p: usize)
        ensures
            p == self@.1,
    {
        self.pc
    }

    /// Sets register `dst` to `v` (the host's answer to a load or a float
    /// operation).
    pub fn set_reg(&mut self, dst: u8, v: JsVal)
        requires
            old(self).wf(),
        ensures
            final(self).wf(),
            final(self)@.0 == old(self)@.0.update(dst as int, v),
            final(self)@.1 == old(self)@.1,
    {
        self.regs.set(dst as usize, v);
    }

    /// Executes the instruction at `pc` (see `spec_vm_step`).
    pub fn step(&mut self, bc: &[RegInstruction]) -> (a: VmAction)
        requires
            old(self).wf(),
            old(self)@.1 < bc@.len() ==> spec_operands_in_range(bc@[old(self)@.1]),
        ensures
            final(self).wf(),
            (final(self)@.0, final(self)@.1, a) == spec_vm_step(old(self)@.0, old(self)@.1, bc@),
    {
        let stop = VmAction::Finish { result: JsVal::with_i32(JS_TAG_UNINITIALIZED, 0), skip: None };
        if self.pc >= bc.len() {
            return stop;
        }
        let inst = bc[self.pc];
        let op = inst.op;
        let d = inst.dst as usize;
        let next = self.pc + 1;
        if op == OP_REG_PUSH_I32 {
            self.regs.set(d, JsVal::from_i32(reg_i32(&inst)));
            self.pc = next;
            VmAction::Continue
        } else if op == OP_REG_PUSH_CONST {
            self.pc = next;
            VmAction::LoadConst { dst: inst.dst, index: inst.src1 }
        } else if op == OP_REG_UNDEFINED {
            self.regs.set(d, JsVal::with_i32(JS_TAG_UNDEFINED, 0));
            self.pc = next;
            VmAction::Continue
        } else if op == OP_REG_NULL {
            self.regs.set(d, JsVal::with_i32(JS_TAG_NULL, 0));
            self.pc = next;
            VmAction::Continue
        } else if op == OP_REG_PUSH_FALSE {
            self.regs.set(d, JsVal::boolean(false));
            self.pc = next;
            VmAction::Continue
        } else if op == OP_REG_PUSH_TRUE {
            self.regs.set(d, JsVal::boolean(true));
            self.pc = next;
            VmAction::Continue
        } else if op == OP_REG_DROP {
            let v = self.regs[d];
            self.pc = next;
            if needs_refcount(&v) {
                VmAction::Release { value: v }
            } else {
                VmAction::Continue
            }
        } else if op == OP_REG_MOV {
            let v = self.regs[inst.src1 as usize];
            self.regs.set(d, v);
            self.pc = next;
            if needs_refcount(&v) {
                VmAction::Retain { value: v }
            } else {
                VmAction::Continue
            }
        } else if op == OP_REG_LOAD_LOC {
            self.pc = next;
            VmAction::LoadLocal { dst: inst.dst, index: inst.src1 }
        } else if op == OP_REG_STORE_LOC || op == OP_REG_SET_LOC {
            let v = self.regs[inst.src1 as usize];
            self.pc = next;
            VmAction::StoreLocal { index: inst.dst, value: v, retain: op == OP_REG_SET_LOC }
        } else if op == OP_REG_ADD || op == OP_REG_SUB || op == OP_REG_MUL || op == OP_REG_MOD || op
            == OP_REG_SHL || op == OP_REG_SAR || op == OP_REG_SHR || op == OP_REG_BIT_AND || op
            == OP_REG_BIT_XOR || op == OP_REG_BIT_OR || op == OP_REG_STRICT_EQ || op == OP_REG_LT
            || op == OP_REG_LTE || op == OP_REG_GT || op == OP_REG_GTE {
            let a = self.regs[inst.src1 as usize];
            let b = self.regs[inst.src2 as usize];
            self.pc = next;
            match binary_op(op, a, b) {
                BinResult::Value(v) => {
                    self.regs.set(d, v);
                    VmAction::Continue
                },
                BinResult::NeedsFloat => VmAction::FloatOp { op, dst: inst.dst, lhs: a, rhs: b },
                BinResult::Nan => VmAction::StoreNan { dst: inst.dst },
                BinResult::Abort => stop,
            }
        } else if op == OP_REG_JMP {
            self.pc = inst.src1 as usize;
            VmAction::Continue
        } else if op == OP_REG_IF_FALSE || op == OP_REG_IF_TRUE {
            let c = self.regs[d];
            if c.tag == JS_TAG_BOOL {
                let taken = if op == OP_REG_IF_FALSE { c.int32() == 0 } else { c.int32() != 0 };
                self.pc = if taken { inst.src1 as usize } else { next };
                VmAction::Continue
            } else {
                self.pc = next;
                stop
            }
        } else if op == OP_REG_RETURN {
            self.pc = next;
            VmAction::Finish { result: self.regs[d], skip: Some(inst.dst) }
        } else if op == OP_REG_RETURN_UNDEF {
            self.pc = next;
            VmAction::Finish { result: JsVal::with_i32(JS_TAG_UNDEFINED, 0), skip: None }
        } else {
            self.pc = next;
            stop
        }
    }

    /// The registers whose references a finished run drops (see
    /// `spec_release_list`).
    pub fn release_list(&self, skip: Option<u8>) -> (r: Vec<JsVal>)
        requires
            self.wf(),
        ensures
            r@ == spec_release_list(self@.0, skip, NUM_REGS as int),
    {
        let mut out: Vec<JsVal> = Vec::new();
        let mut i: usize = 0;
        while i < NUM_REGS
            invariant
                i <= NUM_REGS,
                self.regs@.len() == NUM_REGS,
                out@ == spec_release_list(self.regs@, skip, i as int),
            decreases NUM_REGS - i,
        {
            let v = self.regs[i];
            let skipped = match skip {
                Some(s) => s as usize == i,
                None => false,
            };
            if needs_refcount(&v) && !skipped {
                out.push(v);
            }
            i = i + 1;
        }
        out
    }
}

} // verus!
