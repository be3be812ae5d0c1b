use qjs_regjit::compiler::{
    compile_bytecode, OP_ADD, OP_DROP, OP_DUP, OP_GET_LOC, OP_NULL, OP_PUSH_CONST, OP_PUSH_FALSE,
    OP_PUSH_I32, OP_PUSH_TRUE, OP_PUT_LOC, OP_REG_ADD, OP_RETURN, OP_RETURN_UNDEF, OP_UNDEFINED,
};
use qjs_regjit::jit::reg_i32;
use qjs_regjit::stack_interp::{decode_stack_op, fast_add, operand_len, StackAction};
use qjs_regjit::value::{JsVal, JS_TAG_BOOL, JS_TAG_FLOAT64, JS_TAG_INT, JS_TAG_NULL, JS_TAG_UNDEFINED};
use qjs_regjit::vm::{binary_op, BinResult, RegisterVm, VmAction};

/// Runs the fast path over `code` with a host stack and locals, the way the
/// C-side host does, and returns the value returned, or the offset at which
/// it bailed.
fn run_fast(code: &[u8], locals: &mut Vec<JsVal>) -> Result<JsVal, usize> {
    run_fast_with(code, locals, &[])
}

fn run_fast_with(code: &[u8], locals: &mut Vec<JsVal>, consts: &[JsVal]) -> Result<JsVal, usize> {
    let mut stack: Vec<JsVal> = Vec::new();
    let mut pc = 0usize;
    loop {
        let op = code[pc];
        let n = operand_len(op);
        let action = decode_stack_op(op, &code[pc + 1..pc + 1 + n]);
        match action {
            StackAction::Push { value } => stack.push(value),
            StackAction::PushConst { index } => stack.push(consts[index as usize]),
            StackAction::PushLocal { index } => stack.push(locals[index as usize]),
            StackAction::Dup => {
                let v = *stack.last().unwrap();
                stack.push(v);
            }
            StackAction::Drop => {
                stack.pop();
            }
            StackAction::PutLocal { index } => {
                let v = stack.pop().unwrap();
                locals[index as usize] = v;
            }
            StackAction::Add => {
                let b = stack[stack.len() - 1];
                let a = stack[stack.len() - 2];
                match fast_add(a, b) {
                    Some(s) => {
                        stack.pop();
                        let top = stack.len() - 1;
                        stack[top] = JsVal::from_i32(s);
                    }
                    None => return Err(pc),
                }
            }
            StackAction::Return => return Ok(stack.pop().unwrap()),
            StackAction::ReturnUndef => return Ok(JsVal::with_i32(JS_TAG_UNDEFINED, 0)),
            StackAction::Bail => return Err(pc),
        }
        pc += 1 + n;
    }
}

#[test]
fn operand_lengths() {
    assert_eq!(operand_len(OP_PUSH_I32), 4);
    assert_eq!(operand_len(OP_PUSH_CONST), 4);
    assert_eq!(operand_len(OP_GET_LOC), 2);
    assert_eq!(operand_len(OP_PUT_LOC), 2);
    assert_eq!(operand_len(OP_ADD), 0);
    assert_eq!(operand_len(OP_RETURN), 0);
    assert_eq!(operand_len(200), 0);
}

#[test]
fn decode_push_i32_reads_little_endian_signed() {
    let bytes = (-123456i32).to_le_bytes();
    assert_eq!(
        decode_stack_op(OP_PUSH_I32, &bytes),
        StackAction::Push { value: JsVal::from_i32(-123456) }
    );
    let bytes = 0x7fff_ffffi32.to_le_bytes();
    assert_eq!(decode_stack_op(OP_PUSH_I32, &bytes), StackAction::Push { value: JsVal::from_i32(i32::MAX) });
}

#[test]
fn decode_constants_locals_and_plain_values() {
    assert_eq!(decode_stack_op(OP_PUSH_CONST, &[0x04, 0x03, 0x02, 0x01]), StackAction::PushConst { index: 0x0102_0304 });
    assert_eq!(decode_stack_op(OP_GET_LOC, &[0x34, 0x12]), StackAction::PushLocal { index: 0x1234 });
    assert_eq!(decode_stack_op(OP_PUT_LOC, &[7, 0]), StackAction::PutLocal { index: 7 });
    assert_eq!(
        decode_stack_op(OP_UNDEFINED, &[]),
        StackAction::Push { value: JsVal { tag: JS_TAG_UNDEFINED, payload: 0 } }
    );
    assert_eq!(decode_stack_op(OP_NULL, &[]), StackAction::Push { value: JsVal { tag: JS_TAG_NULL, payload: 0 } });
    assert_eq!(decode_stack_op(OP_PUSH_FALSE, &[]), StackAction::Push { value: JsVal { tag: JS_TAG_BOOL, payload: 0 } });
    assert_eq!(decode_stack_op(OP_PUSH_TRUE, &[]), StackAction::Push { value: JsVal { tag: JS_TAG_BOOL, payload: 1 } });
    assert_eq!(decode_stack_op(OP_DROP, &[]), StackAction::Drop);
    assert_eq!(decode_stack_op(OP_DUP, &[]), StackAction::Dup);
    assert_eq!(decode_stack_op(OP_ADD, &[]), StackAction::Add);
    assert_eq!(decode_stack_op(OP_RETURN, &[]), StackAction::Return);
    assert_eq!(decode_stack_op(OP_RETURN_UNDEF, &[]), StackAction::ReturnUndef);
    assert_eq!(decode_stack_op(0xaa, &[]), StackAction::Bail);
}

#[test]
fn fast_add_sums_int32_and_refuses_overflow_and_floats() {
    assert_eq!(fast_add(JsVal::from_i32(40), JsVal::from_i32(2)), Some(42));
    assert_eq!(fast_add(JsVal::from_i32(-5), JsVal::from_i32(3)), Some(-2));
    assert_eq!(fast_add(JsVal::from_i32(i32::MAX), JsVal::from_i32(1)), None);
    assert_eq!(fast_add(JsVal::from_i32(i32::MIN), JsVal::from_i32(-1)), None);
    let f = JsVal { tag: JS_TAG_FLOAT64, payload: 1.5f64.to_bits() };
    assert_eq!(fast_add(f, JsVal::from_i32(1)), None);
}

#[test]
fn fast_add_agrees_with_register_add() {
    let cases = [(1, 2), (-7, 7), (i32::MAX, 0), (i32::MIN, 0), (i32::MAX, 1), (i32::MIN, -1)];
    for (x, y) in cases {
        let a = JsVal::from_i32(x);
        let b = JsVal::from_i32(y);
        match fast_add(a, b) {
            Some(s) => assert_eq!(binary_op(OP_REG_ADD, a, b), BinResult::Value(JsVal::from_i32(s))),
            None => assert_eq!(binary_op(OP_REG_ADD, a, b), BinResult::Abort),
        }
    }
}

#[test]
fn push_i32_tiers_agree() {
    for v in [0i32, 1, -1, 65535, 65536, -65536, i32::MIN, i32::MAX] {
        let mut code = vec![OP_PUSH_I32];
        code.extend_from_slice(&v.to_le_bytes());
        code.push(OP_RETURN);
        let regs = compile_bytecode(&code).unwrap();
        assert_eq!(reg_i32(&regs[0]), v);
        assert_eq!(decode_stack_op(OP_PUSH_I32, &code[1..5]), StackAction::Push { value: JsVal::from_i32(v) });
    }
}

#[test]
fn fast_path_runs_local_sum() {
    // local0 = local0 + 5; return local0
    let code = [OP_GET_LOC, 0, 0, OP_PUSH_I32, 5, 0, 0, 0, OP_ADD, OP_DUP, OP_PUT_LOC, 0, 0, OP_RETURN];
    let mut locals = vec![JsVal::from_i32(37)];
    let r = run_fast(&code, &mut locals).unwrap();
    assert_eq!(r.tag, JS_TAG_INT);
    assert_eq!(r.int32(), 42);
    assert_eq!(locals[0].int32(), 42);
}

#[test]
fn fast_path_bails_on_overflow_at_the_add() {
    let code = [OP_GET_LOC, 0, 0, OP_PUSH_I32, 1, 0, 0, 0, OP_ADD, OP_RETURN];
    let mut locals = vec![JsVal::from_i32(i32::MAX)];
    assert_eq!(run_fast(&code, &mut locals), Err(8));
}

#[test]
fn fast_path_bails_on_unknown_opcode_and_returns_undefined() {
    let mut locals = vec![];
    assert_eq!(run_fast(&[OP_PUSH_TRUE, 0xcc], &mut locals), Err(1));
    let r = run_fast(&[OP_UNDEFINED, OP_DROP, OP_RETURN_UNDEF], &mut locals).unwrap();
    assert_eq!(r.tag, JS_TAG_UNDEFINED);
}

/// Runs register code against locals and constants (no float64 work).
fn run_register(bc: &[qjs_regjit::compiler::RegInstruction], locals: &mut Vec<JsVal>, consts: &[JsVal]) -> JsVal {
    let mut vm = RegisterVm::new();
    loop {
        match vm.step(bc) {
            VmAction::Continue | VmAction::Retain { .. } | VmAction::Release { .. } => {}
            VmAction::LoadConst { dst, index } => vm.set_reg(dst, consts[index as usize]),
            VmAction::LoadLocal { dst, index } => vm.set_reg(dst, locals[index as usize]),
            VmAction::StoreLocal { index, value, .. } => locals[index as usize] = value,
            VmAction::Finish { result, .. } => return result,
            other => panic!("unexpected action {:?}", other),
        }
    }
}

#[test]
fn register_code_matches_stack_run() {
    let consts = [JsVal::from_i32(1000), JsVal { tag: JS_TAG_BOOL, payload: 1 }];
    let programs: Vec<Vec<u8>> = vec![
        // local1 = local0 + 5; return local1 + const0
        vec![OP_GET_LOC, 0, 0, OP_PUSH_I32, 5, 0, 0, 0, OP_ADD, OP_PUT_LOC, 1, 0, OP_GET_LOC, 1, 0, OP_PUSH_CONST,
            0, 0, 0, 0, OP_ADD, OP_RETURN],
        // dup and drop around an add
        vec![OP_PUSH_I32, 7, 0, 0, 0, OP_DUP, OP_ADD, OP_UNDEFINED, OP_DROP, OP_RETURN],
        // a constant boolean returned as it is
        vec![OP_NULL, OP_DROP, OP_PUSH_CONST, 1, 0, 0, 0, OP_RETURN],
        // return undefined after a store
        vec![OP_PUSH_FALSE, OP_PUT_LOC, 0, 0, OP_RETURN_UNDEF],
    ];
    for code in programs.iter() {
        let mut fast_locals = vec![JsVal::from_i32(37), JsVal::from_i32(0)];
        let mut reg_locals = fast_locals.clone();
        let fast = run_fast_with(code, &mut fast_locals, &consts).unwrap();
        let regs = compile_bytecode(code).unwrap();
        let reg = run_register(&regs, &mut reg_locals, &consts);
        assert_eq!(fast, reg);
        assert_eq!(fast_locals, reg_locals);
    }
}
