use qjs_regjit::compiler::{OP_IF_FALSE8, OP_PUSH_FALSE, OP_PUSH_I8, OP_PUSH_TRUE};
use qjs_regjit::compiler::{
    compile_bytecode, RegInstruction, OP_ADD, OP_GET_LOC, OP_PUSH_I32, OP_PUT_LOC, OP_REG_ADD,
    OP_REG_BIT_AND, OP_REG_BIT_OR, OP_REG_BIT_XOR, OP_REG_DROP, OP_REG_IF_FALSE, OP_REG_IF_TRUE,
    OP_REG_JMP, OP_REG_LOAD_LOC, OP_REG_LT, OP_REG_LTE, OP_REG_GTE, OP_REG_MOD, OP_REG_MOV, OP_REG_MUL, OP_REG_NULL,
    OP_REG_PUSH_CONST, OP_REG_PUSH_I32, OP_REG_PUSH_TRUE, OP_REG_RETURN, OP_REG_RETURN_UNDEF,
    OP_REG_SAR, OP_REG_SET_LOC, OP_REG_SHL, OP_REG_SHR, OP_REG_STORE_LOC, OP_REG_STRICT_EQ,
    OP_REG_SUB, OP_REG_UNDEFINED, OP_RETURN,
};
use qjs_regjit::register_interpreter::should_fallback_to_c_after_native_miss;
use qjs_regjit::value::{
    f64_bits_to_uint32, is_number, js_to_int32, js_to_uint32, needs_refcount, JsVal, JS_TAG_BOOL,
    JS_TAG_FLOAT64, JS_TAG_INT, JS_TAG_NULL, JS_TAG_UNDEFINED, JS_TAG_UNINITIALIZED,
};
use qjs_regjit::vm::{binary_op, operands_in_range, BinResult, RegisterVm, VmAction};

fn ri(op: u8, dst: u8, src1: u16, src2: u16) -> RegInstruction {
    RegInstruction { op, dst, src1, src2 }
}

fn push(dst: u8, v: i32) -> RegInstruction {
    let u = v as u32;
    ri(OP_REG_PUSH_I32, dst, (u & 0xffff) as u16, (u >> 16) as u16)
}

fn float(v: f64) -> JsVal {
    JsVal { tag: JS_TAG_FLOAT64, payload: v.to_bits() }
}

fn as_f64(v: JsVal) -> f64 {
    if v.tag == JS_TAG_INT {
        v.int32() as f64
    } else {
        f64::from_bits(v.payload)
    }
}

/// The reference ToUint32 through float64 arithmetic.
fn reference_to_uint32(n: f64) -> u32 {
    if !n.is_finite() || n == 0.0 {
        return 0;
    }
    n.trunc().rem_euclid(4_294_967_296.0) as u32
}

struct Outcome {
    result: JsVal,
    released: Vec<JsVal>,
    retained: Vec<JsVal>,
}

/// A host with locals and constants in vectors; float work through f64.
fn run(bc: &[RegInstruction], locals: &mut Vec<JsVal>, consts: &[JsVal]) -> Outcome {
    let mut vm = RegisterVm::new();
    let mut released = Vec::new();
    let mut retained = Vec::new();
    for _ in 0..10_000_000 {
        match vm.step(bc) {
            VmAction::Continue => {}
            VmAction::LoadConst { dst, index } => {
                let v = consts[index as usize];
                if needs_refcount(&v) {
                    retained.push(v);
                }
                vm.set_reg(dst, v);
            }
            VmAction::LoadLocal { dst, index } => {
                let v = locals[index as usize];
                if needs_refcount(&v) {
                    retained.push(v);
                }
                vm.set_reg(dst, v);
            }
            VmAction::StoreLocal { index, value, retain } => {
                let old = locals[index as usize];
                if needs_refcount(&old) {
                    released.push(old);
                }
                if retain && needs_refcount(&value) {
                    retained.push(value);
                }
                locals[index as usize] = value;
            }
            VmAction::Retain { value } => retained.push(value),
            VmAction::Release { value } => released.push(value),
            VmAction::FloatOp { op, dst, lhs, rhs } => {
                let (a, b) = (as_f64(lhs), as_f64(rhs));
                let v = match op {
                    OP_REG_ADD => float(a + b),
                    OP_REG_SUB => float(a - b),
                    OP_REG_MUL => float(a * b),
                    OP_REG_MOD => float(a % b),
                    _ => JsVal::boolean(a == b),
                };
                vm.set_reg(dst, v);
            }
            VmAction::StoreNan { dst } => vm.set_reg(dst, float(f64::NAN)),
            VmAction::Finish { result, skip } => {
                released.extend(vm.release_list(skip));
                return Outcome { result, released, retained };
            }
        }
    }
    panic!("did not finish");
}

#[test]
fn vm_runs_counted_loop() {
    // count = 0; for (i = 0; i < 1000; i++) count += 3; return count
    let bc = vec![
        push(0, 0),
        ri(OP_REG_STORE_LOC, 0, 0, 0),
        push(0, 0),
        ri(OP_REG_STORE_LOC, 1, 0, 0),
        ri(OP_REG_LOAD_LOC, 0, 1, 0),
        push(1, 1000),
        ri(OP_REG_LT, 0, 0, 1),
        ri(OP_REG_IF_FALSE, 0, 17, 0),
        ri(OP_REG_LOAD_LOC, 0, 0, 0),
        push(1, 3),
        ri(OP_REG_ADD, 0, 0, 1),
        ri(OP_REG_STORE_LOC, 0, 0, 0),
        ri(OP_REG_LOAD_LOC, 0, 1, 0),
        push(1, 1),
        ri(OP_REG_ADD, 0, 0, 1),
        ri(OP_REG_STORE_LOC, 1, 0, 0),
        ri(OP_REG_JMP, 0, 4, 0),
        ri(OP_REG_LOAD_LOC, 0, 0, 0),
        ri(OP_REG_RETURN, 0, 0, 0),
    ];
    let mut locals = vec![JsVal::with_i32(JS_TAG_UNDEFINED, 0); 2];
    let out = run(&bc, &mut locals, &[]);
    assert_eq!(out.result, JsVal::from_i32(3000));
    assert_eq!(locals[1], JsVal::from_i32(1000));
    assert!(out.released.is_empty());
}

#[test]
fn vm_runs_translated_bytecode() {
    // x = 40 + 2; return x + x
    let stack = [
        OP_PUSH_I32, 40, 0, 0, 0, OP_PUSH_I32, 2, 0, 0, 0, OP_ADD, OP_PUT_LOC, 0, 0, OP_GET_LOC, 0, 0,
        OP_GET_LOC, 0, 0, OP_ADD, OP_RETURN,
    ];
    let bc = compile_bytecode(&stack).unwrap();
    let mut locals = vec![JsVal::with_i32(JS_TAG_UNDEFINED, 0)];
    let out = run(&bc, &mut locals, &[]);
    assert_eq!(out.result, JsVal::from_i32(84));
}

#[test]
fn vm_add_overflow_aborts_and_other_overflows_become_float() {
    // An int32 overflow in `add` hands the function back to the C interpreter.
    let bc = [push(0, i32::MAX), push(1, 1), ri(OP_REG_ADD, 2, 0, 1), ri(OP_REG_RETURN, 2, 0, 0)];
    let out = run(&bc, &mut vec![], &[]);
    assert_eq!(out.result.tag, JS_TAG_UNINITIALIZED);
    let bc = [push(0, i32::MIN), push(1, -1), ri(OP_REG_ADD, 2, 0, 1), ri(OP_REG_RETURN, 2, 0, 0)];
    assert_eq!(run(&bc, &mut vec![], &[]).result.tag, JS_TAG_UNINITIALIZED);
    assert_eq!(binary_op(OP_REG_ADD, JsVal::from_i32(i32::MAX), JsVal::from_i32(1)), BinResult::Abort);
    // A float64 operand is still added by the host.
    assert_eq!(binary_op(OP_REG_ADD, float(0.5), JsVal::from_i32(1)), BinResult::NeedsFloat);
    let bc = [push(0, i32::MIN), push(1, 1), ri(OP_REG_SUB, 2, 0, 1), ri(OP_REG_RETURN, 2, 0, 0)];
    assert_eq!(run(&bc, &mut vec![], &[]).result, float(-2147483649.0));
    let bc = [push(0, 1 << 20), push(1, 1 << 20), ri(OP_REG_MUL, 2, 0, 1), ri(OP_REG_RETURN, 2, 0, 0)];
    assert_eq!(run(&bc, &mut vec![], &[]).result, float(1099511627776.0));
    let bc = [push(0, 6), push(1, -7), ri(OP_REG_MUL, 2, 0, 1), ri(OP_REG_RETURN, 2, 0, 0)];
    assert_eq!(run(&bc, &mut vec![], &[]).result, JsVal::from_i32(-42));
}

#[test]
fn vm_modulo_truncates_and_gives_nan() {
    let m = |a: i32, b: i32| {
        let bc = [push(0, a), push(1, b), ri(OP_REG_MOD, 2, 0, 1), ri(OP_REG_RETURN, 2, 0, 0)];
        run(&bc, &mut vec![], &[]).result
    };
    assert_eq!(m(7, 3), JsVal::from_i32(1));
    assert_eq!(m(-7, 3), JsVal::from_i32(-1));
    assert_eq!(m(7, -3), JsVal::from_i32(1));
    assert_eq!(m(-7, -3), JsVal::from_i32(-1));
    assert!(as_f64(m(5, 0)).is_nan());
    assert!(as_f64(m(i32::MIN, -1)).is_nan());
}

#[test]
fn vm_shifts_and_bitwise() {
    let op = |o: u8, a: i32, b: i32| binary_op(o, JsVal::from_i32(a), JsVal::from_i32(b));
    assert_eq!(op(OP_REG_SHL, 1, 33), BinResult::Value(JsVal::from_i32(2)));
    assert_eq!(op(OP_REG_SHL, 0x4000_0000, 1), BinResult::Value(JsVal::from_i32(i32::MIN)));
    assert_eq!(op(OP_REG_SAR, -16, 2), BinResult::Value(JsVal::from_i32(-4)));
    assert_eq!(op(OP_REG_SHR, -16, 28), BinResult::Value(JsVal::from_i32(15)));
    assert_eq!(op(OP_REG_SHR, -1, 0), BinResult::Value(float(4294967295.0)));
    assert_eq!(op(OP_REG_BIT_AND, 0xff, 0x0f), BinResult::Value(JsVal::from_i32(0x0f)));
    assert_eq!(op(OP_REG_BIT_OR, 0xf0, 0x0f), BinResult::Value(JsVal::from_i32(0xff)));
    assert_eq!(op(OP_REG_BIT_XOR, 0xff, 0x0f), BinResult::Value(JsVal::from_i32(0xf0)));
    // Float operands go through ToInt32 / ToUint32.
    assert_eq!(binary_op(OP_REG_BIT_OR, float(4294967297.5), JsVal::from_i32(0)), BinResult::Value(JsVal::from_i32(1)));
    assert_eq!(binary_op(OP_REG_SHL, JsVal::from_i32(1), float(-31.0)), BinResult::Value(JsVal::from_i32(2)));
    assert_eq!(binary_op(OP_REG_BIT_OR, float(f64::NAN), JsVal::from_i32(5)), BinResult::Value(JsVal::from_i32(5)));
    // Non-numbers stop the interpreter.
    assert_eq!(binary_op(OP_REG_BIT_OR, JsVal::with_i32(JS_TAG_NULL, 0), JsVal::from_i32(5)), BinResult::Abort);
}

#[test]
fn vm_strict_equality() {
    let null = JsVal::with_i32(JS_TAG_NULL, 0);
    let undef = JsVal::with_i32(JS_TAG_UNDEFINED, 0);
    assert_eq!(binary_op(OP_REG_STRICT_EQ, null, null), BinResult::Value(JsVal::boolean(true)));
    assert_eq!(binary_op(OP_REG_STRICT_EQ, null, undef), BinResult::Value(JsVal::boolean(false)));
    assert_eq!(
        binary_op(OP_REG_STRICT_EQ, JsVal::from_i32(3), JsVal::from_i32(3)),
        BinResult::Value(JsVal::boolean(true))
    );
    assert_eq!(binary_op(OP_REG_STRICT_EQ, JsVal::from_i32(3), float(3.0)), BinResult::NeedsFloat);
    // Through the host, 3 === 3.0.
    let bc = [push(0, 3), ri(OP_REG_PUSH_CONST, 1, 0, 0), ri(OP_REG_STRICT_EQ, 2, 0, 1), ri(OP_REG_RETURN, 2, 0, 0)];
    assert_eq!(run(&bc, &mut vec![], &[float(3.0)]).result, JsVal::boolean(true));
}

#[test]
fn vm_comparisons_need_ints() {
    let bc = [push(0, 1), ri(OP_REG_NULL, 1, 0, 0), ri(OP_REG_LT, 2, 0, 1), ri(OP_REG_RETURN, 2, 0, 0)];
    let out = run(&bc, &mut vec![], &[]);
    assert_eq!(out.result.tag, JS_TAG_UNINITIALIZED);
}

#[test]
fn vm_branches_need_booleans() {
    let bc = [push(0, 1), ri(OP_REG_IF_FALSE, 0, 5, 0), ri(OP_REG_RETURN_UNDEF, 0, 0, 0)];
    assert_eq!(run(&bc, &mut vec![], &[]).result.tag, JS_TAG_UNINITIALIZED);
    let bc = [
        ri(OP_REG_PUSH_TRUE, 0, 0, 0),
        ri(OP_REG_IF_TRUE, 0, 3, 0),
        push(1, 10),
        push(1, 20),
        ri(OP_REG_RETURN, 1, 0, 0),
    ];
    assert_eq!(run(&bc, &mut vec![], &[]).result, JsVal::from_i32(20));
}

#[test]
fn vm_reference_counting() {
    let obj = JsVal { tag: -1, payload: 0xdead_beef };
    // r0 = const; r1 = r0; drop r1; return r0
    let bc = [
        ri(OP_REG_PUSH_CONST, 0, 0, 0),
        ri(OP_REG_MOV, 1, 0, 0),
        ri(OP_REG_DROP, 1, 0, 0),
        ri(OP_REG_SET_LOC, 0, 0, 0),
        ri(OP_REG_RETURN, 0, 0, 0),
    ];
    let mut locals = vec![obj];
    let out = run(&bc, &mut locals, &[obj]);
    assert_eq!(out.result, obj);
    // Retained: const load, mov, set_loc. Released: drop, the old local, and r1 at the end.
    assert_eq!(out.retained.len(), 3);
    assert_eq!(out.released.len(), 3);
}

#[test]
fn vm_end_of_code_and_undefined_return() {
    let bc = [ri(OP_REG_UNDEFINED, 0, 0, 0)];
    assert_eq!(run(&bc, &mut vec![], &[]).result.tag, JS_TAG_UNINITIALIZED);
    let bc = [ri(OP_REG_RETURN_UNDEF, 0, 0, 0)];
    assert_eq!(run(&bc, &mut vec![], &[]).result, JsVal::with_i32(JS_TAG_UNDEFINED, 0));
    let bc = [ri(200, 0, 0, 0)];
    assert_eq!(run(&bc, &mut vec![], &[]).result.tag, JS_TAG_UNINITIALIZED);
}

#[test]
fn operand_range_check() {
    assert!(operands_in_range(&ri(OP_REG_ADD, 0, 255, 255)));
    assert!(!operands_in_range(&ri(OP_REG_ADD, 0, 256, 0)));
    assert!(!operands_in_range(&ri(OP_REG_MOV, 0, 300, 0)));
    assert!(operands_in_range(&ri(OP_REG_LOAD_LOC, 0, 300, 0)));
}

#[test]
fn to_uint32_matches_float_reference() {
    let samples = [
        0.0, -0.0, 1.0, -1.0, 1.5, -1.5, 0.25, 4294967295.0, 4294967296.0, 4294967297.9, -4294967297.9,
        1e10, -1e10, 1e20, 9007199254740991.0, 9007199254740993.0, 1.7e308, f64::MAX, f64::MIN_POSITIVE, 5e-324,
        f64::INFINITY, f64::NEG_INFINITY, f64::NAN, 2147483648.0, -2147483648.0, 123456789.987,
    ];
    for &x in &samples {
        assert_eq!(f64_bits_to_uint32(x.to_bits()), reference_to_uint32(x), "x = {}", x);
        assert_eq!(js_to_uint32(&float(x)), reference_to_uint32(x));
        assert_eq!(js_to_int32(&float(x)), reference_to_uint32(x) as i32);
    }
    let mut x = 1.0f64;
    for _ in 0..2000 {
        for y in [x, -x, x + 0.5, -(x + 0.5)] {
            assert_eq!(f64_bits_to_uint32(y.to_bits()), reference_to_uint32(y), "y = {}", y);
        }
        x *= 1.37;
    }
    assert_eq!(js_to_uint32(&JsVal::from_i32(-1)), u32::MAX);
    assert_eq!(js_to_int32(&JsVal::from_i32(-5)), -5);
}

#[test]
fn value_predicates() {
    assert!(is_number(&JsVal::from_i32(1)));
    assert!(is_number(&float(1.0)));
    assert!(!is_number(&JsVal::boolean(true)));
    assert!(needs_refcount(&JsVal { tag: -7, payload: 0 }));
    assert!(!needs_refcount(&JsVal::from_i32(0)));
    assert_eq!(JsVal::boolean(true), JsVal { tag: JS_TAG_BOOL, payload: 1 });
    assert_eq!(JsVal::from_i32(-1).payload, 0xffff_ffff);
    assert_eq!(JsVal::from_i32(-1).int32(), -1);
}

#[test]
fn fallback_needs_loop_and_advanced_arithmetic() {
    let lp = ri(OP_REG_JMP, 0, 0, 0);
    let sub = ri(OP_REG_SUB, 0, 0, 0);
    assert!(should_fallback_to_c_after_native_miss(&[sub, lp]));
    assert!(!should_fallback_to_c_after_native_miss(&[lp, ri(OP_REG_ADD, 0, 0, 0)]));
    assert!(!should_fallback_to_c_after_native_miss(&[sub]));
    // A jump out of the code is no loop.
    assert!(!should_fallback_to_c_after_native_miss(&[sub, ri(OP_REG_JMP, 0, 2, 0)]));
    assert!(should_fallback_to_c_after_native_miss(&[ri(OP_REG_STRICT_EQ, 0, 0, 0), ri(OP_REG_JMP, 0, 1, 0)]));
}

/// The counted loop `count = c0; for (i = i0; i <op> limit; i += step) count += <update>`.
fn counted_loop_code(c0: i32, i0: i32, limit: i32, op: u8, step: i32, body: &[RegInstruction]) -> Vec<RegInstruction> {
    let mut bc = vec![
        push(0, c0),
        ri(OP_REG_STORE_LOC, 0, 0, 0),
        push(0, i0),
        ri(OP_REG_STORE_LOC, 1, 0, 0),
        ri(OP_REG_LOAD_LOC, 0, 1, 0),
        push(1, limit),
        ri(op, 0, 0, 1),
        ri(OP_REG_IF_FALSE, 0, (4 + 4 + body.len() + 4 + 1) as u16, 0),
    ];
    bc.extend_from_slice(body);
    bc.extend_from_slice(&[
        ri(OP_REG_LOAD_LOC, 0, 1, 0),
        push(1, step),
        ri(OP_REG_ADD, 0, 0, 1),
        ri(OP_REG_STORE_LOC, 1, 0, 0),
        ri(OP_REG_JMP, 0, 4, 0),
        ri(OP_REG_LOAD_LOC, 0, 0, 0),
        ri(OP_REG_RETURN, 0, 0, 0),
    ]);
    bc
}

#[test]
fn folded_counted_loops_match_interpreter() {
    let const_body = [
        ri(OP_REG_LOAD_LOC, 0, 0, 0),
        push(1, 7),
        ri(OP_REG_ADD, 0, 0, 1),
        ri(OP_REG_STORE_LOC, 0, 0, 0),
    ];
    let induction_body = [
        ri(OP_REG_LOAD_LOC, 0, 1, 0),
        ri(OP_REG_LOAD_LOC, 1, 0, 0),
        ri(OP_REG_ADD, 1, 0, 1),
        ri(OP_REG_STORE_LOC, 0, 1, 0),
    ];
    let affine_body = [
        ri(OP_REG_LOAD_LOC, 0, 0, 0),
        ri(OP_REG_LOAD_LOC, 1, 1, 0),
        push(2, -3),
        ri(OP_REG_MUL, 1, 1, 2),
        ri(OP_REG_ADD, 0, 0, 1),
        push(1, 11),
        ri(OP_REG_ADD, 0, 0, 1),
        ri(OP_REG_STORE_LOC, 0, 0, 0),
    ];
    let loops = [
        counted_loop_code(5, 0, 1000, OP_REG_LT, 1, &const_body),
        counted_loop_code(-40, 30, -12, OP_REG_GTE, -3, &const_body),
        counted_loop_code(0, 0, 2000, OP_REG_LTE, 2, &induction_body),
        counted_loop_code(100, 1, 500, OP_REG_LT, 1, &affine_body),
        counted_loop_code(9, 50, 50, OP_REG_LT, 1, &const_body),
    ];
    for bc in loops.iter() {
        let mut locals = vec![JsVal::with_i32(JS_TAG_UNDEFINED, 0); 2];
        let out = run(bc, &mut locals, &[]);
        assert_eq!(out.result.tag, JS_TAG_INT);
        let folded = qjs_regjit::jit::compile_to_native(bc).unwrap();
        let expected = qjs_regjit::number::emit_return_js_number(out.result.int32() as i64).unwrap();
        assert_eq!(folded.ptr(), &expected[..]);
    }
}

fn branchy_code(s: i32, i0: i32, n: i32, a: i32, b: i32, c: i32, d: i32, mask: i32, e: i32) -> Vec<RegInstruction> {
    // locals: sum = 0, i = 1
    vec![
        push(0, s),
        ri(OP_REG_STORE_LOC, 0, 0, 0),
        push(0, i0),
        ri(OP_REG_STORE_LOC, 1, 0, 0),
        ri(OP_REG_LOAD_LOC, 0, 1, 0),
        push(1, n),
        ri(OP_REG_LTE, 0, 0, 1),
        ri(OP_REG_IF_FALSE, 0, 49, 0),
        // if ((i % a) === 0)
        ri(OP_REG_LOAD_LOC, 0, 1, 0),
        push(1, a),
        ri(OP_REG_MOD, 0, 0, 1),
        push(1, 0),
        ri(OP_REG_STRICT_EQ, 0, 0, 1),
        ri(OP_REG_IF_FALSE, 0, 21, 0),
        ri(OP_REG_LOAD_LOC, 0, 0, 0),
        ri(OP_REG_LOAD_LOC, 1, 1, 0),
        push(2, b),
        ri(OP_REG_MOD, 1, 1, 2),
        ri(OP_REG_ADD, 0, 0, 1),
        ri(OP_REG_STORE_LOC, 0, 0, 0),
        ri(OP_REG_JMP, 0, 44, 0),
        // else if ((i % c) === 0)
        ri(OP_REG_LOAD_LOC, 0, 1, 0),
        push(1, c),
        ri(OP_REG_MOD, 0, 0, 1),
        push(1, 0),
        ri(OP_REG_STRICT_EQ, 0, 0, 1),
        ri(OP_REG_IF_FALSE, 0, 34, 0),
        ri(OP_REG_LOAD_LOC, 0, 0, 0),
        ri(OP_REG_LOAD_LOC, 1, 1, 0),
        push(2, d),
        ri(OP_REG_MOD, 1, 1, 2),
        ri(OP_REG_SUB, 0, 0, 1),
        ri(OP_REG_STORE_LOC, 0, 0, 0),
        ri(OP_REG_JMP, 0, 44, 0),
        // else sum += (i & mask) - (i % e)
        ri(OP_REG_LOAD_LOC, 0, 0, 0),
        ri(OP_REG_LOAD_LOC, 1, 1, 0),
        push(2, mask),
        ri(OP_REG_BIT_AND, 1, 1, 2),
        ri(OP_REG_LOAD_LOC, 2, 1, 0),
        push(3, e),
        ri(OP_REG_MOD, 2, 2, 3),
        ri(OP_REG_SUB, 1, 1, 2),
        ri(OP_REG_ADD, 0, 0, 1),
        ri(OP_REG_STORE_LOC, 0, 0, 0),
        // i++
        push(0, 1),
        ri(OP_REG_LOAD_LOC, 1, 1, 0),
        ri(OP_REG_ADD, 0, 0, 1),
        ri(OP_REG_STORE_LOC, 1, 0, 0),
        ri(OP_REG_JMP, 0, 4, 0),
        ri(OP_REG_LOAD_LOC, 0, 0, 0),
        ri(OP_REG_RETURN, 0, 0, 0),
    ]
}


#[test]
fn folded_branchy_loops_match_interpreter() {
    let cases = [
        (0, 1000, 3, 7, 5, 4, 9),
        (-50, 2000, 6, 11, 10, 3, 7),
        (12, 1, 2, 3, 4, 5, 6),
        (0, 4096, 1, 13, 2, 2, 1),
    ];
    for (s, n, a, b, c, d, e) in cases {
        let bc = branchy_code(s, 1, n, a, b, c, d, 15, e);
        let mut locals = vec![JsVal::with_i32(JS_TAG_UNDEFINED, 0); 2];
        let out = run(&bc, &mut locals, &[]);
        assert_eq!(out.result.tag, JS_TAG_INT);
        let folded = qjs_regjit::jit::compile_to_native(&bc).unwrap();
        let expected = qjs_regjit::number::emit_return_js_number(out.result.int32() as i64).unwrap();
        assert_eq!(folded.ptr(), &expected[..]);
    }
}

#[test]
fn vm_runs_compiled_jumps() {
    for (cond, expected) in [(OP_PUSH_TRUE, 1), (OP_PUSH_FALSE, -2)] {
        let stack = [cond, OP_IF_FALSE8, 4, OP_PUSH_I8, 1, OP_RETURN, OP_PUSH_I8, (-2i8) as u8, OP_RETURN];
        let bc = compile_bytecode(&stack).unwrap();
        let out = run(&bc, &mut vec![], &[]);
        assert_eq!(out.result, JsVal::from_i32(expected));
    }
}
