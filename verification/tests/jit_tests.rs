use qjs_regjit::compiler::{
    RegInstruction, OP_REG_ADD, OP_REG_BIT_AND, OP_REG_BIT_OR, OP_REG_BIT_XOR, OP_REG_DROP, OP_REG_GT,
    OP_REG_GTE, OP_REG_IF_FALSE, OP_REG_IF_TRUE, OP_REG_JMP, OP_REG_LOAD_LOC, OP_REG_LT, OP_REG_LTE,
    OP_REG_MOD, OP_REG_MOV, OP_REG_MUL, OP_REG_PUSH_I32, OP_REG_RETURN, OP_REG_RETURN_UNDEF,
    OP_REG_SET_LOC, OP_REG_SHL, OP_REG_SHR, OP_REG_STORE_LOC, OP_REG_STRICT_EQ, OP_REG_SUB,
};
use qjs_regjit::jit::{checked_counted_iterations, compile_to_native, reg_i32};
use qjs_regjit::number::{emit_return_js_number, MAX_SAFE_JS_INTEGER};

fn ri(op: u8, dst: u8, src1: u16, src2: u16) -> RegInstruction {
    RegInstruction { op, dst, src1, src2 }
}

fn push(dst: u8, v: i32) -> RegInstruction {
    let u = v as u32;
    ri(OP_REG_PUSH_I32, dst, (u & 0xffff) as u16, (u >> 16) as u16)
}

fn ret_i32(v: i32) -> Vec<u8> {
    let mut c = vec![0xb8];
    c.extend_from_slice(&v.to_le_bytes());
    c.extend_from_slice(&[0xba, 0, 0, 0, 0, 0xc3]);
    c
}

fn ret_f64(v: f64) -> Vec<u8> {
    let mut c = vec![0x48, 0xb8];
    c.extend_from_slice(&v.to_bits().to_le_bytes());
    c.extend_from_slice(&[0xba, 8, 0, 0, 0, 0xc3]);
    c
}

fn native(bc: &[RegInstruction]) -> Result<Vec<u8>, &'static str> {
    compile_to_native(bc).map(|b| b.ptr().to_vec())
}

/// Straightforward backpatching encoder for the generic path, written from
/// the x86-64 encodings.
fn reference_generic(bc: &[RegInstruction]) -> Option<Vec<u8>> {
    let mut code: Vec<u8> = vec![0x49, 0x89, 0xd0, 0x49, 0x89, 0xc9];
    let mut bail = Vec::new();
    let mut jumps = Vec::new();
    let mut offs = vec![0usize; bc.len()];
    let emit_bail = |code: &mut Vec<u8>, c: u8, idx: u32, bail: &mut Vec<usize>| {
        code.push(c);
        code.push(10);
        code.push(0xb8);
        code.extend_from_slice(&idx.to_le_bytes());
        code.push(0xe9);
        bail.push(code.len());
        code.extend_from_slice(&[0, 0, 0, 0]);
    };
    for (i, inst) in bc.iter().enumerate() {
        offs[i] = code.len();
        let d = inst.dst as u32 * 16;
        let d1 = inst.src1 as u32 * 16;
        let d2 = inst.src2 as u32 * 16;
        let mv = |code: &mut Vec<u8>, p: [[u8; 3]; 4], s: u32, t: u32| {
            for (k, (pre, v)) in p.iter().zip([s, s + 8, t, t + 8]).enumerate() {
                let _ = k;
                code.extend_from_slice(pre);
                code.extend_from_slice(&v.to_le_bytes());
            }
        };
        match inst.op {
            OP_REG_PUSH_I32 => {
                code.extend_from_slice(&[0x48, 0xc7, 0x86]);
                code.extend_from_slice(&d.to_le_bytes());
                code.extend_from_slice(&reg_i32(inst).to_le_bytes());
                code.extend_from_slice(&[0x48, 0xc7, 0x86]);
                code.extend_from_slice(&(d + 8).to_le_bytes());
                code.extend_from_slice(&[0, 0, 0, 0]);
            }
            OP_REG_LOAD_LOC => mv(&mut code, [[0x49, 0x8b, 0x80], [0x49, 0x8b, 0x90], [0x48, 0x89, 0x86], [0x48, 0x89, 0x96]], d1, d),
            OP_REG_STORE_LOC | OP_REG_SET_LOC => mv(&mut code, [[0x48, 0x8b, 0x86], [0x48, 0x8b, 0x96], [0x49, 0x89, 0x80], [0x49, 0x89, 0x90]], d1, d),
            OP_REG_MOV => mv(&mut code, [[0x48, 0x8b, 0x86], [0x48, 0x8b, 0x96], [0x48, 0x89, 0x86], [0x48, 0x89, 0x96]], d1, d),
            OP_REG_ADD | OP_REG_LT | OP_REG_LTE | OP_REG_GT | OP_REG_GTE => {
                for (k, dd) in [d1, d2].iter().enumerate() {
                    code.extend_from_slice(&[0x48, 0x83, 0xbe]);
                    code.extend_from_slice(&(dd + 8).to_le_bytes());
                    code.push(0);
                    emit_bail(&mut code, 0x74, i as u32 * 4 + k as u32, &mut bail);
                }
                code.extend_from_slice(&[0x48, 0x8b, 0x86]);
                code.extend_from_slice(&d1.to_le_bytes());
                code.extend_from_slice(&[0x48, 0x8b, 0x8e]);
                code.extend_from_slice(&d2.to_le_bytes());
                let tag: u32;
                if inst.op == OP_REG_ADD {
                    code.extend_from_slice(&[0x01, 0xc8]);
                    emit_bail(&mut code, 0x71, i as u32 * 4 + 2, &mut bail);
                    tag = 0;
                } else {
                    code.extend_from_slice(&[0x39, 0xc8]);
                    let cc = match inst.op {
                        OP_REG_LT => 0x9c,
                        OP_REG_LTE => 0x9e,
                        OP_REG_GT => 0x9f,
                        _ => 0x9d,
                    };
                    code.extend_from_slice(&[0x0f, cc, 0xc0, 0x0f, 0xb6, 0xc0]);
                    tag = 1;
                }
                code.extend_from_slice(&[0x48, 0x89, 0x86]);
                code.extend_from_slice(&d.to_le_bytes());
                code.extend_from_slice(&[0x48, 0xc7, 0x86]);
                code.extend_from_slice(&(d + 8).to_le_bytes());
                code.extend_from_slice(&tag.to_le_bytes());
            }
            OP_REG_JMP => {
                code.push(0xe9);
                jumps.push((code.len(), inst.src1 as usize));
                code.extend_from_slice(&[0, 0, 0, 0]);
            }
            OP_REG_IF_FALSE | OP_REG_IF_TRUE => {
                code.extend_from_slice(&[0x48, 0x83, 0xbe]);
                code.extend_from_slice(&(d + 8).to_le_bytes());
                code.push(1);
                emit_bail(&mut code, 0x74, i as u32 * 4, &mut bail);
                code.extend_from_slice(&[0x48, 0x8b, 0x86]);
                code.extend_from_slice(&d.to_le_bytes());
                code.extend_from_slice(&[0x48, 0x83, 0xf8, 0]);
                code.extend_from_slice(&[0x0f, if inst.op == OP_REG_IF_FALSE { 0x84 } else { 0x85 }]);
                jumps.push((code.len(), inst.src1 as usize));
                code.extend_from_slice(&[0, 0, 0, 0]);
            }
            OP_REG_RETURN => {
                code.extend_from_slice(&[0x48, 0x8b, 0x86]);
                code.extend_from_slice(&d.to_le_bytes());
                code.extend_from_slice(&[0x48, 0x8b, 0x96]);
                code.extend_from_slice(&(d + 8).to_le_bytes());
                code.push(0xc3);
            }
            OP_REG_RETURN_UNDEF => {
                code.extend_from_slice(&[0x48, 0xc7, 0xc0, 0, 0, 0, 0, 0x48, 0xc7, 0xc2, 3, 0, 0, 0, 0xc3]);
            }
            _ => return None,
        }
    }
    let bo = code.len();
    code.extend_from_slice(&[0x48, 0xc7, 0xc2, 4, 0, 0, 0, 0xc3]);
    for p in bail {
        let disp = (bo as isize - (p + 4) as isize) as i32;
        code[p..p + 4].copy_from_slice(&disp.to_le_bytes());
    }
    for (p, t) in jumps {
        let target = if t >= offs.len() { bo } else { offs[t] };
        let disp = (target as isize - (p + 4) as isize) as i32;
        code[p..p + 4].copy_from_slice(&disp.to_le_bytes());
    }
    Some(code)
}

#[test]
fn generic_push_and_return() {
    let bc = [push(0, 5), ri(OP_REG_RETURN, 0, 0, 0)];
    let expected: Vec<u8> = vec![
        0x49, 0x89, 0xd0, 0x49, 0x89, 0xc9, // prologue
        0x48, 0xc7, 0x86, 0, 0, 0, 0, 5, 0, 0, 0, // mov [rsi], 5
        0x48, 0xc7, 0x86, 8, 0, 0, 0, 0, 0, 0, 0, // mov [rsi + 8], 0
        0x48, 0x8b, 0x86, 0, 0, 0, 0, 0x48, 0x8b, 0x96, 8, 0, 0, 0, 0xc3, // return
        0x48, 0xc7, 0xc2, 4, 0, 0, 0, 0xc3, // bailout
    ];
    assert_eq!(native(&bc).unwrap(), expected);
}

#[test]
fn generic_add_bails_out_to_the_end() {
    let bc = [ri(OP_REG_ADD, 2, 0, 1), ri(OP_REG_RETURN, 2, 0, 0)];
    let code = native(&bc).unwrap();
    assert_eq!(code.len(), 6 + 86 + 15 + 8);
    // First bailout jump displacement: bailout block at 107, jump ends at 6 + 8 + 12.
    assert_eq!(&code[6 + 8 + 8..6 + 8 + 12], &(107i32 - 26).to_le_bytes());
    assert_eq!(Some(code), reference_generic(&bc));
}

#[test]
fn generic_matches_reference_encoder() {
    let programs: Vec<Vec<RegInstruction>> = vec![
        vec![
            push(0, 0),
            ri(OP_REG_STORE_LOC, 0, 0, 0),
            ri(OP_REG_LOAD_LOC, 0, 0, 0),
            push(1, 10),
            ri(OP_REG_LT, 0, 0, 1),
            ri(OP_REG_IF_FALSE, 0, 11, 0),
            ri(OP_REG_LOAD_LOC, 0, 0, 0),
            push(1, 1),
            ri(OP_REG_ADD, 0, 0, 1),
            ri(OP_REG_SET_LOC, 0, 0, 0),
            ri(OP_REG_JMP, 0, 2, 0),
            ri(OP_REG_LOAD_LOC, 0, 0, 0),
            ri(OP_REG_RETURN, 0, 0, 0),
        ],
        vec![
            push(3, -7),
            ri(OP_REG_MOV, 4, 3, 0),
            ri(OP_REG_GTE, 5, 3, 4),
            ri(OP_REG_IF_TRUE, 5, 500, 0),
            ri(OP_REG_LTE, 5, 3, 4),
            ri(OP_REG_GT, 5, 3, 4),
            ri(OP_REG_JMP, 0, 0, 0),
            ri(OP_REG_RETURN_UNDEF, 0, 0, 0),
        ],
        vec![ri(OP_REG_RETURN_UNDEF, 0, 0, 0)],
        vec![],
    ];
    for p in programs {
        assert_eq!(native(&p).ok(), reference_generic(&p));
    }
}

#[test]
fn generic_rejects_unsupported_opcode() {
    let bc = [push(0, 1), ri(OP_REG_DROP, 0, 0, 0), ri(OP_REG_RETURN, 0, 0, 0)];
    assert_eq!(native(&bc).err(), Some("Unsupported register opcode for native compilation"));
    let bc = [ri(OP_REG_SUB, 0, 0, 1)];
    assert_eq!(native(&bc).err(), Some("Unsupported register opcode for native compilation"));
}

#[test]
fn counted_iterations_values() {
    assert_eq!(checked_counted_iterations(0, 10, 1, OP_REG_LT), Some(10));
    assert_eq!(checked_counted_iterations(0, 10, 3, OP_REG_LT), Some(4));
    assert_eq!(checked_counted_iterations(0, 10, 3, OP_REG_LTE), Some(4));
    assert_eq!(checked_counted_iterations(0, 9, 3, OP_REG_LTE), Some(4));
    assert_eq!(checked_counted_iterations(10, 0, -1, OP_REG_GT), Some(10));
    assert_eq!(checked_counted_iterations(10, 0, -1, OP_REG_GTE), Some(11));
    assert_eq!(checked_counted_iterations(5, 5, 1, OP_REG_LT), Some(0));
    assert_eq!(checked_counted_iterations(5, 5, 1, OP_REG_LTE), Some(1));
    assert_eq!(checked_counted_iterations(0, 10, 0, OP_REG_LT), None);
    assert_eq!(checked_counted_iterations(0, 10, -1, OP_REG_LT), None);
    assert_eq!(checked_counted_iterations(10, 0, 1, OP_REG_GT), None);
    assert_eq!(checked_counted_iterations(i32::MIN, i32::MAX, 1, OP_REG_LTE), Some(1 << 32));
}

#[test]
fn counted_iterations_match_simulation() {
    for &(init, limit, step, op) in &[
        (0, 17, 2, OP_REG_LT),
        (-5, 17, 4, OP_REG_LTE),
        (40, -3, -7, OP_REG_GT),
        (40, -3, -7, OP_REG_GTE),
        (3, 3, -1, OP_REG_GTE),
    ] {
        let mut i = init as i64;
        let mut n = 0i64;
        let test = |i: i64| match op {
            OP_REG_LT => i < limit as i64,
            OP_REG_LTE => i <= limit as i64,
            OP_REG_GT => i > limit as i64,
            _ => i >= limit as i64,
        };
        while test(i) {
            n += 1;
            i += step as i64;
        }
        assert_eq!(checked_counted_iterations(init, limit, step, op), Some(n));
    }
}

#[test]
fn js_number_return_code() {
    assert_eq!(emit_return_js_number(42), Some(ret_i32(42)));
    assert_eq!(emit_return_js_number(-1), Some(ret_i32(-1)));
    assert_eq!(emit_return_js_number(i32::MAX as i64), Some(ret_i32(i32::MAX)));
    assert_eq!(emit_return_js_number(i32::MIN as i64), Some(ret_i32(i32::MIN)));
    assert_eq!(emit_return_js_number(499_999_500_000), Some(ret_f64(499_999_500_000.0)));
    assert_eq!(emit_return_js_number(i32::MAX as i64 + 1), Some(ret_f64(2147483648.0)));
    assert_eq!(emit_return_js_number(i32::MIN as i64 - 1), Some(ret_f64(-2147483649.0)));
    assert_eq!(emit_return_js_number(MAX_SAFE_JS_INTEGER), Some(ret_f64(9007199254740991.0)));
    assert_eq!(emit_return_js_number(-MAX_SAFE_JS_INTEGER), Some(ret_f64(-9007199254740991.0)));
    assert_eq!(emit_return_js_number(MAX_SAFE_JS_INTEGER + 1), None);
    assert_eq!(emit_return_js_number(i64::MIN), None);
}

#[test]
fn f64_encoding_of_many_integers() {
    let mut v: i64 = 1 << 31;
    while v <= MAX_SAFE_JS_INTEGER {
        for w in [v, v + 12345, -v, -(v + 7)] {
            if w.abs() <= MAX_SAFE_JS_INTEGER {
                assert_eq!(emit_return_js_number(w), Some(number_code(w)));
            }
        }
        v = v * 3 / 2 + 1;
    }
}

/// `var count = c0; for (var i = i0; i <op> limit; i += step) { count += delta; } return count;`
fn counted_const_loop(c0: i32, i0: i32, limit: i32, op: u8, step: i32, delta: i32) -> Vec<RegInstruction> {
    vec![
        push(0, c0),
        ri(OP_REG_STORE_LOC, 0, 0, 0),
        push(0, i0),
        ri(OP_REG_STORE_LOC, 1, 0, 0),
        ri(OP_REG_LOAD_LOC, 0, 1, 0),
        push(1, limit),
        ri(op, 0, 0, 1),
        ri(OP_REG_IF_FALSE, 0, 17, 0),
        ri(OP_REG_LOAD_LOC, 0, 0, 0),
        push(1, delta),
        ri(OP_REG_ADD, 0, 0, 1),
        ri(OP_REG_STORE_LOC, 0, 0, 0),
        ri(OP_REG_LOAD_LOC, 0, 1, 0),
        push(1, step),
        ri(OP_REG_ADD, 0, 0, 1),
        ri(OP_REG_STORE_LOC, 1, 0, 0),
        ri(OP_REG_JMP, 0, 4, 0),
        ri(OP_REG_LOAD_LOC, 0, 0, 0),
        ri(OP_REG_RETURN, 0, 0, 0),
    ]
}

#[test]
fn folds_counted_loop_to_constant() {
    let bc = counted_const_loop(0, 0, 1_000_000, OP_REG_LT, 1, 1);
    assert_eq!(native(&bc).unwrap(), ret_i32(1_000_000));
    let bc = counted_const_loop(5, 10, 0, OP_REG_GT, -2, 3);
    assert_eq!(native(&bc).unwrap(), ret_i32(5 + 5 * 3));
    // Large result returned as a double.
    let bc = counted_const_loop(0, 0, 2_000_000_000, OP_REG_LT, 1, 1000);
    assert_eq!(native(&bc).unwrap(), ret_f64(2_000_000_000_000.0));
}

#[test]
fn folds_induction_sum_loop() {
    // sum = sum + i for i in 0..1_000_000
    let mut bc = counted_const_loop(0, 0, 1_000_000, OP_REG_LT, 1, 0);
    bc[8] = ri(OP_REG_LOAD_LOC, 0, 1, 0);
    bc[9] = ri(OP_REG_LOAD_LOC, 1, 0, 0);
    bc[10] = ri(OP_REG_ADD, 1, 0, 1);
    bc[11] = ri(OP_REG_STORE_LOC, 0, 1, 0);
    assert_eq!(native(&bc).unwrap(), ret_f64(499_999_500_000.0));
}

#[test]
fn folds_affine_loop() {
    // count = count + i * 3 + 2 for i in 1..=100 step 1
    let bc = vec![
        push(0, 7),
        ri(OP_REG_STORE_LOC, 0, 0, 0),
        push(0, 1),
        ri(OP_REG_STORE_LOC, 1, 0, 0),
        ri(OP_REG_LOAD_LOC, 0, 1, 0),
        push(1, 100),
        ri(OP_REG_LTE, 0, 0, 1),
        ri(OP_REG_IF_FALSE, 0, 21, 0),
        ri(OP_REG_LOAD_LOC, 0, 0, 0),
        ri(OP_REG_LOAD_LOC, 1, 1, 0),
        push(2, 3),
        ri(OP_REG_MUL, 1, 1, 2),
        ri(OP_REG_ADD, 0, 0, 1),
        push(1, 2),
        ri(OP_REG_ADD, 0, 0, 1),
        ri(OP_REG_STORE_LOC, 0, 0, 0),
        push(0, 1),
        ri(OP_REG_LOAD_LOC, 1, 1, 0),
        ri(OP_REG_ADD, 0, 0, 1),
        ri(OP_REG_STORE_LOC, 1, 0, 0),
        ri(OP_REG_JMP, 0, 4, 0),
        ri(OP_REG_LOAD_LOC, 0, 0, 0),
        ri(OP_REG_RETURN, 0, 0, 0),
    ];
    let mut count: i64 = 7;
    for i in 1..=100i64 {
        count += i * 3 + 2;
    }
    assert_eq!(native(&bc).unwrap(), ret_i32(count as i32));
}

#[test]
fn counted_loop_not_folded_when_induction_overflows() {
    // i ends at 2^31, past int32: not folded; the generic path then handles it.
    let bc = counted_const_loop(0, 0, i32::MAX, OP_REG_LTE, 1, 1);
    let code = native(&bc).unwrap();
    assert_eq!(Some(code), reference_generic(&bc));
}

#[test]
fn counted_loop_not_folded_for_wrong_direction() {
    let bc = counted_const_loop(0, 0, 10, OP_REG_LT, -1, 1);
    assert_eq!(Some(native(&bc).unwrap()), reference_generic(&bc));
}

fn branchy_loop(s: i32, i0: i32, n: i32, a: i32, b: i32, c: i32, d: i32, mask: i32, e: i32) -> Vec<RegInstruction> {
    // locals: sum = 0, i = 1
    vec![
        push(0, s),
        ri(OP_REG_STORE_LOC, 0, 0, 0),
        push(0, i0),
        ri(OP_REG_STORE_LOC, 1, 0, 0),
        ri(OP_REG_LOAD_LOC, 0, 1, 0),
        push(1, n),
        ri(OP_REG_LTE, 0, 0, 1),
        ri(OP_REG_IF_FALSE, 0, 49, 0),
        // if ((i % a) === 0)
        ri(OP_REG_LOAD_LOC, 0, 1, 0),
        push(1, a),
        ri(OP_REG_MOD, 0, 0, 1),
        push(1, 0),
        ri(OP_REG_STRICT_EQ, 0, 0, 1),
        ri(OP_REG_IF_FALSE, 0, 21, 0),
        ri(OP_REG_LOAD_LOC, 0, 0, 0),
        ri(OP_REG_LOAD_LOC, 1, 1, 0),
        push(2, b),
        ri(OP_REG_MOD, 1, 1, 2),
        ri(OP_REG_ADD, 0, 0, 1),
        ri(OP_REG_STORE_LOC, 0, 0, 0),
        ri(OP_REG_JMP, 0, 44, 0),
        // else if ((i % c) === 0)
        ri(OP_REG_LOAD_LOC, 0, 1, 0),
        push(1, c),
        ri(OP_REG_MOD, 0, 0, 1),
        push(1, 0),
        ri(OP_REG_STRICT_EQ, 0, 0, 1),
        ri(OP_REG_IF_FALSE, 0, 34, 0),
        ri(OP_REG_LOAD_LOC, 0, 0, 0),
        ri(OP_REG_LOAD_LOC, 1, 1, 0),
        push(2, d),
        ri(OP_REG_MOD, 1, 1, 2),
        ri(OP_REG_SUB, 0, 0, 1),
        ri(OP_REG_STORE_LOC, 0, 0, 0),
        ri(OP_REG_JMP, 0, 44, 0),
        // else sum += (i & mask) - (i % e)
        ri(OP_REG_LOAD_LOC, 0, 0, 0),
        ri(OP_REG_LOAD_LOC, 1, 1, 0),
        push(2, mask),
        ri(OP_REG_BIT_AND, 1, 1, 2),
        ri(OP_REG_LOAD_LOC, 2, 1, 0),
        push(3, e),
        ri(OP_REG_MOD, 2, 2, 3),
        ri(OP_REG_SUB, 1, 1, 2),
        ri(OP_REG_ADD, 0, 0, 1),
        ri(OP_REG_STORE_LOC, 0, 0, 0),
        // i++
        push(0, 1),
        ri(OP_REG_LOAD_LOC, 1, 1, 0),
        ri(OP_REG_ADD, 0, 0, 1),
        ri(OP_REG_STORE_LOC, 1, 0, 0),
        ri(OP_REG_JMP, 0, 4, 0),
        ri(OP_REG_LOAD_LOC, 0, 0, 0),
        ri(OP_REG_RETURN, 0, 0, 0),
    ]
}

fn branchy_simulation(s: i64, n: i64, a: i64, b: i64, c: i64, d: i64, e: i64) -> i64 {
    let mut sum = s;
    for i in 1..=n {
        if i % a == 0 {
            sum += i % b;
        } else if i % c == 0 {
            sum -= i % d;
        } else {
            sum += (i & 15) - (i % e);
        }
    }
    sum
}

fn number_code(v: i64) -> Vec<u8> {
    if v >= i32::MIN as i64 && v <= i32::MAX as i64 {
        ret_i32(v as i32)
    } else {
        ret_f64(v as f64)
    }
}

#[test]
fn folds_branchy_loop_exactly() {
    for &(s, n, a, b, c, d, e) in &[
        (0, 1_000_000, 3, 7, 5, 4, 6),
        (10, 1000, 4, 9, 6, 5, 7),
        (-3, 97, 1, 2, 1, 3, 5),
        (0, 12345, 6, 10, 4, 12, 9),
        (0, 1, 2, 3, 5, 7, 11),
        (0, 5_000_000, 15, 100, 21, 77, 1000),
    ] {
        let bc = branchy_loop(s, 1, n, a, b, c, d, 15, e);
        let expected = branchy_simulation(s as i64, n as i64, a as i64, b as i64, c as i64, d as i64, e as i64);
        assert_eq!(native(&bc).unwrap(), number_code(expected), "params {:?}", (s, n, a, b, c, d, e));
    }
}

#[test]
fn branchy_loop_not_folded_for_other_start_or_mask() {
    let bc = branchy_loop(0, 0, 100, 3, 7, 5, 4, 15, 6);
    assert_eq!(native(&bc).err(), Some("Unsupported register opcode for native compilation"));
    let bc = branchy_loop(0, 1, 100, 3, 7, 5, 4, 7, 6);
    assert_eq!(native(&bc).err(), Some("Unsupported register opcode for native compilation"));
    let bc = branchy_loop(0, 1, 100, 0, 7, 5, 4, 15, 6);
    assert_eq!(native(&bc).err(), Some("Unsupported register opcode for native compilation"));
}

fn hash_loop(h: i32, n: i32, mask: i32, sa: i32, sb: i32, sc: i32) -> Vec<RegInstruction> {
    vec![
        push(0, h),
        ri(OP_REG_STORE_LOC, 0, 0, 0),
        push(0, 0),
        ri(OP_REG_STORE_LOC, 1, 0, 0),
        ri(OP_REG_LOAD_LOC, 0, 1, 0),
        push(1, n),
        ri(OP_REG_LT, 0, 0, 1),
        ri(OP_REG_IF_FALSE, 0, 36, 0),
        ri(OP_REG_LOAD_LOC, 0, 0, 0),
        ri(OP_REG_LOAD_LOC, 1, 1, 0),
        push(2, mask),
        ri(OP_REG_BIT_AND, 1, 1, 2),
        ri(OP_REG_LOAD_LOC, 2, 1, 0),
        push(3, sa),
        ri(OP_REG_SHR, 2, 2, 3),
        ri(OP_REG_BIT_XOR, 1, 1, 2),
        ri(OP_REG_ADD, 0, 0, 1),
        push(1, 0),
        ri(OP_REG_BIT_OR, 0, 0, 1),
        ri(OP_REG_SET_LOC, 0, 0, 0),
        ri(OP_REG_MOV, 1, 0, 0),
        push(2, sb),
        ri(OP_REG_SHL, 1, 1, 2),
        ri(OP_REG_BIT_XOR, 0, 0, 1),
        ri(OP_REG_LOAD_LOC, 1, 0, 0),
        push(2, sc),
        ri(OP_REG_SHR, 1, 1, 2),
        ri(OP_REG_BIT_XOR, 0, 0, 1),
        push(1, 0),
        ri(OP_REG_BIT_OR, 0, 0, 1),
        ri(OP_REG_STORE_LOC, 0, 0, 0),
        push(0, 1),
        ri(OP_REG_LOAD_LOC, 1, 1, 0),
        ri(OP_REG_ADD, 0, 0, 1),
        ri(OP_REG_STORE_LOC, 1, 0, 0),
        ri(OP_REG_JMP, 0, 4, 0),
        ri(OP_REG_LOAD_LOC, 0, 0, 0),
        ri(OP_REG_RETURN, 0, 0, 0),
    ]
}

#[test]
fn hash_loop_native_code() {
    let bc = hash_loop(0x1234_5678, 1_000_000, 0xff, 3, 5, 7);
    let mut expected: Vec<u8> = vec![0xb9, 0, 0, 0, 0, 0xb8];
    expected.extend_from_slice(&0x1234_5678i32.to_le_bytes());
    expected.extend_from_slice(&[0x81, 0xf9]);
    expected.extend_from_slice(&1_000_000i32.to_le_bytes());
    expected.extend_from_slice(&[0x0f, 0x8d]);
    expected.extend_from_slice(&50i32.to_le_bytes());
    expected.extend_from_slice(&[0x41, 0x89, 0xca, 0x41, 0x81, 0xe2]);
    expected.extend_from_slice(&0xffi32.to_le_bytes());
    expected.extend_from_slice(&[0x41, 0x89, 0xcb, 0x41, 0xc1, 0xeb, 3, 0x45, 0x31, 0xda, 0x44, 0x01, 0xd0]);
    expected.extend_from_slice(&[0x41, 0x89, 0xc2, 0x41, 0xc1, 0xe2, 5, 0x41, 0x89, 0xc3, 0x41, 0xc1, 0xeb, 7]);
    expected.extend_from_slice(&[0x44, 0x31, 0xd0, 0x44, 0x31, 0xd8, 0xff, 0xc1, 0xe9]);
    expected.extend_from_slice(&(-62i32).to_le_bytes());
    expected.extend_from_slice(&[0xba, 0, 0, 0, 0, 0xc3]);
    let code = native(&bc).unwrap();
    assert_eq!(code.len(), 78);
    assert_eq!(code, expected);
    // The jge lands on the exit block and the jmp on the loop test.
    assert_eq!(22 + 50, 72);
    assert_eq!(72 - 62, 10);
}

#[test]
fn hash_loop_rejects_bad_shifts_and_negative_limit() {
    let bc = hash_loop(1, 100, 0xff, 32, 5, 7);
    assert!(native(&bc).is_err());
    let bc = hash_loop(1, -1, 0xff, 3, 5, 7);
    assert!(native(&bc).is_err());
}
