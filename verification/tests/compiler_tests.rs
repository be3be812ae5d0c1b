use qjs_regjit::compiler::{
    compile_bytecode, RegInstruction, OP_ADD, OP_DROP, OP_DUP, OP_GET_LOC, OP_NULL, OP_PUSH_CONST,
    OP_PUSH_FALSE, OP_PUSH_I32, OP_PUSH_TRUE, OP_PUT_LOC, OP_REG_ADD, OP_REG_DROP, OP_REG_LOAD_LOC,
    OP_REG_MOV, OP_REG_NULL, OP_REG_PUSH_CONST, OP_REG_PUSH_FALSE, OP_REG_PUSH_I32, OP_REG_PUSH_TRUE,
    OP_REG_RETURN, OP_REG_RETURN_UNDEF, OP_REG_STORE_LOC, OP_REG_UNDEFINED, OP_RETURN,
    OP_RETURN_UNDEF, OP_UNDEFINED, OP_GOTO, OP_GOTO16, OP_GOTO8, OP_IF_FALSE, OP_IF_FALSE8, OP_IF_TRUE,
    OP_IF_TRUE8, OP_PUSH_I16, OP_PUSH_I8, OP_REG_IF_FALSE, OP_REG_IF_TRUE, OP_REG_JMP,
};
use qjs_regjit::jit::reg_i32;

fn ri(op: u8, dst: u8, src1: u16, src2: u16) -> RegInstruction {
    RegInstruction { op, dst, src1, src2 }
}

#[test]
fn translates_add_of_two_constants() {
    // push_i32 2; push_i32 40; add; return
    let bc = [OP_PUSH_I32, 2, 0, 0, 0, OP_PUSH_I32, 40, 0, 0, 0, OP_ADD, OP_RETURN];
    let out = compile_bytecode(&bc).unwrap();
    assert_eq!(
        out,
        vec![
            ri(OP_REG_PUSH_I32, 0, 2, 0),
            ri(OP_REG_PUSH_I32, 1, 40, 0),
            ri(OP_REG_ADD, 0, 0, 1),
            ri(OP_REG_RETURN, 0, 0, 0),
        ]
    );
}

#[test]
fn push_i32_splits_value_into_halves() {
    // -2 == 0xFFFF_FFFE
    let bc = [OP_PUSH_I32, 0xFE, 0xFF, 0xFF, 0xFF];
    let out = compile_bytecode(&bc).unwrap();
    assert_eq!(out, vec![ri(OP_REG_PUSH_I32, 0, 0xFFFE, 0xFFFF)]);
    assert_eq!(reg_i32(&out[0]), -2);
    let bc = [OP_PUSH_I32, 0x78, 0x56, 0x34, 0x12];
    let out = compile_bytecode(&bc).unwrap();
    assert_eq!(out, vec![ri(OP_REG_PUSH_I32, 0, 0x5678, 0x1234)]);
    assert_eq!(reg_i32(&out[0]), 0x1234_5678);
}

#[test]
fn translates_locals_and_constants() {
    // get_loc 3; put_loc 7; push_const 0x00012345 (index truncated to 16 bits)
    let bc = [OP_GET_LOC, 3, 0, OP_PUT_LOC, 7, 0, OP_PUSH_CONST, 0x45, 0x23, 0x01, 0x00];
    let out = compile_bytecode(&bc).unwrap();
    assert_eq!(
        out,
        vec![ri(OP_REG_LOAD_LOC, 0, 3, 0), ri(OP_REG_STORE_LOC, 7, 0, 0), ri(OP_REG_PUSH_CONST, 0, 0x2345, 0)]
    );
}

#[test]
fn translates_literals_dup_and_drop() {
    let bc = [OP_UNDEFINED, OP_NULL, OP_PUSH_FALSE, OP_PUSH_TRUE, OP_DUP, OP_DROP, OP_RETURN_UNDEF];
    let out = compile_bytecode(&bc).unwrap();
    assert_eq!(
        out,
        vec![
            ri(OP_REG_UNDEFINED, 0, 0, 0),
            ri(OP_REG_NULL, 1, 0, 0),
            ri(OP_REG_PUSH_FALSE, 2, 0, 0),
            ri(OP_REG_PUSH_TRUE, 3, 0, 0),
            ri(OP_REG_MOV, 4, 3, 0),
            ri(OP_REG_DROP, 4, 0, 0),
            ri(OP_REG_RETURN_UNDEF, 0, 0, 0),
        ]
    );
}

#[test]
fn empty_bytecode_translates_to_nothing() {
    assert_eq!(compile_bytecode(&[]).unwrap(), vec![]);
}

#[test]
fn register_numbers_wrap_at_256() {
    let bc = vec![OP_NULL; 257];
    let out = compile_bytecode(&bc).unwrap();
    assert_eq!(out.len(), 257);
    assert_eq!(out[255].dst, 255);
    assert_eq!(out[256].dst, 0);
}

#[test]
fn reports_missing_operands() {
    assert_eq!(
        compile_bytecode(&[OP_PUSH_I32, 1, 2, 3]),
        Err("Malformed bytecode: OP_push_i32 operand missing")
    );
    assert_eq!(
        compile_bytecode(&[OP_PUSH_CONST, 1]),
        Err("Malformed bytecode: OP_push_const operand missing")
    );
    assert_eq!(compile_bytecode(&[OP_GET_LOC, 1]), Err("Malformed bytecode: OP_get_loc operand missing"));
    assert_eq!(compile_bytecode(&[OP_PUT_LOC]), Err("Malformed bytecode: OP_put_loc operand missing"));
}

#[test]
fn reports_stack_underflow() {
    assert_eq!(compile_bytecode(&[OP_DROP]), Err("Stack underflow on OP_drop"));
    assert_eq!(compile_bytecode(&[OP_DUP]), Err("Stack underflow on OP_dup"));
    assert_eq!(compile_bytecode(&[OP_PUT_LOC, 0, 0]), Err("Stack underflow on OP_put_loc"));
    assert_eq!(compile_bytecode(&[OP_NULL, OP_ADD]), Err("Stack underflow on OP_add"));
    assert_eq!(compile_bytecode(&[OP_RETURN]), Err("Stack underflow on OP_return"));
}

#[test]
fn reports_unsupported_opcode_first() {
    // The first failing instruction decides the error.
    assert_eq!(
        compile_bytecode(&[OP_NULL, 200, OP_DROP, OP_DROP]),
        Err("Unsupported opcode for register-based VM compilation")
    );
    assert_eq!(compile_bytecode(&[OP_DROP, 200]), Err("Stack underflow on OP_drop"));
}

fn push_code(v: i32) -> RegInstruction {
    let u = v as u32;
    ri(OP_REG_PUSH_I32, 0, (u & 0xffff) as u16, (u >> 16) as u16)
}

#[test]
fn push_i8_and_push_i16_are_sign_extended() {
    for b in [0u8, 1, 40, 127, 128, 200, 255] {
        let out = compile_bytecode(&[OP_PUSH_I8, b, OP_RETURN]).unwrap();
        assert_eq!(out, vec![push_code(b as i8 as i32), ri(OP_REG_RETURN, 0, 0, 0)]);
        assert_eq!(reg_i32(&out[0]), b as i8 as i32);
    }
    for v in [0i16, 1, -1, 300, -300, i16::MAX, i16::MIN] {
        let [lo, hi] = v.to_le_bytes();
        let out = compile_bytecode(&[OP_PUSH_I16, lo, hi, OP_RETURN]).unwrap();
        assert_eq!(out, vec![push_code(v as i32), ri(OP_REG_RETURN, 0, 0, 0)]);
        assert_eq!(reg_i32(&out[0]), v as i32);
    }
    assert_eq!(compile_bytecode(&[OP_PUSH_I8]), Err("Malformed bytecode: OP_push_i8 operand missing"));
    assert_eq!(compile_bytecode(&[OP_PUSH_I16, 1]), Err("Malformed bytecode: OP_push_i16 operand missing"));
}

#[test]
fn jumps_resolve_from_the_offset_byte() {
    // The offset counts from the byte after the opcode.
    // bytes: [push_true, if_false8, off, push_i8, 1, return, push_i8, 2, return]
    //         0          1          2    3        4  5       6        7  8
    // target = 1 + 1 + off = 6 -> off = 4; instruction index of byte 6 is 4.
    let bc = [OP_PUSH_TRUE, OP_IF_FALSE8, 4, OP_PUSH_I8, 1, OP_RETURN, OP_PUSH_I8, 2, OP_RETURN];
    let out = compile_bytecode(&bc).unwrap();
    assert_eq!(out[1], ri(OP_REG_IF_FALSE, 0, 4, 0));
    assert_eq!(out.len(), 6);
    // if_true8 gives the register if_true.
    let mut bc2 = bc;
    bc2[1] = OP_IF_TRUE8;
    assert_eq!(compile_bytecode(&bc2).unwrap()[1], ri(OP_REG_IF_TRUE, 0, 4, 0));
}

#[test]
fn backward_and_wide_jumps() {
    // 0: push_i8 0; 2: drop; 3: goto8 -2: target 3 + 1 - 2 = 2, the drop (instruction 1)
    let bc = [OP_PUSH_I8, 0, OP_DROP, OP_GOTO8, (-2i8) as u8, OP_RETURN_UNDEF];
    let out = compile_bytecode(&bc).unwrap();
    assert_eq!(out[2], ri(OP_REG_JMP, 0, 1, 0));
    // goto16 and goto with the same target
    let bc = [OP_PUSH_I8, 0, OP_DROP, OP_GOTO16, 0xfe, 0xff, OP_RETURN_UNDEF];
    assert_eq!(compile_bytecode(&bc).unwrap()[2], ri(OP_REG_JMP, 0, 1, 0));
    let bc = [OP_PUSH_I8, 0, OP_DROP, OP_GOTO, 0xfe, 0xff, 0xff, 0xff, OP_RETURN_UNDEF];
    assert_eq!(compile_bytecode(&bc).unwrap()[2], ri(OP_REG_JMP, 0, 1, 0));
    // if_false / if_true with 32-bit offsets, jumping to the end of the code
    let bc = [OP_PUSH_TRUE, OP_IF_FALSE, 5, 0, 0, 0, OP_RETURN_UNDEF];
    assert_eq!(compile_bytecode(&bc).unwrap()[1], ri(OP_REG_IF_FALSE, 0, 3, 0));
    let bc = [OP_PUSH_TRUE, OP_IF_TRUE, 4, 0, 0, 0, OP_RETURN_UNDEF];
    assert_eq!(compile_bytecode(&bc).unwrap()[1], ri(OP_REG_IF_TRUE, 0, 2, 0));
}

#[test]
fn bad_jumps_are_reported() {
    // Into the middle of an instruction.
    assert_eq!(compile_bytecode(&[OP_GOTO8, 2, OP_PUSH_I8, 5, OP_RETURN]), Err("Invalid jump target"));
    // Past the end, or before the start.
    assert_eq!(compile_bytecode(&[OP_GOTO8, 9, OP_RETURN_UNDEF]), Err("Invalid jump target"));
    assert_eq!(compile_bytecode(&[OP_GOTO8, (-3i8) as u8, OP_RETURN_UNDEF]), Err("Invalid jump target"));
    assert_eq!(compile_bytecode(&[OP_GOTO16, 0]), Err("Malformed bytecode: jump offset missing"));
    assert_eq!(compile_bytecode(&[OP_IF_FALSE8, 1]), Err("Stack underflow on conditional jump"));
}

#[test]
fn concatenated_code_compiles_piece_by_piece() {
    // a leaves the stack empty; b holds a backward jump.
    let a = [OP_PUSH_I8, 3, OP_PUT_LOC, 0, 0, OP_PUSH_TRUE, OP_DROP];
    let b = [OP_GET_LOC, 0, 0, OP_DROP, OP_GOTO8, (-2i8) as u8, OP_RETURN_UNDEF];
    let x = compile_bytecode(&a).unwrap();
    let y = compile_bytecode(&b).unwrap();
    assert_eq!(y[2], ri(OP_REG_JMP, 0, 1, 0));
    let ab: Vec<u8> = a.iter().chain(b.iter()).copied().collect();
    let mut expected = x.clone();
    for inst in y.iter() {
        let mut i = *inst;
        if i.op == OP_REG_JMP || i.op == OP_REG_IF_FALSE || i.op == OP_REG_IF_TRUE {
            i.src1 += x.len() as u16;
        }
        expected.push(i);
    }
    assert_eq!(compile_bytecode(&ab).unwrap(), expected);
}
