//! Native code for the bitwise hash loop
//!
//! ```text
//! var hash = H;
//! for (var i = 0; i < N; i++) {
//!     hash = (hash + ((i & MASK) ^ (i >>> A))) | 0;
//!     hash = (hash ^ (hash << B) ^ (hash >>> C)) | 0;
//! }
//! return hash;
//! ```
//!
//! with `hash` and `i` kept in CPU registers.
use vstd::prelude::*;

use crate::bytes::{le32_bytes, push_all, push_le32, push_le32_signed, wrap32};
use crate::compiler::{
    RegInstruction, OP_REG_ADD, OP_REG_BIT_AND, OP_REG_BIT_OR, OP_REG_BIT_XOR, OP_REG_IF_FALSE,
    OP_REG_JMP, OP_REG_LOAD_LOC, OP_REG_LT, OP_REG_PUSH_I32, OP_REG_RETURN, OP_REG_SET_LOC,
    OP_REG_SHL, OP_REG_SHR, OP_REG_STORE_LOC,
};
use crate::jit::{reg_i32, spec_reg_i32};
use crate::vm::{bool_val, int_val, spec_binary, BinResult};
use crate::vm_laws::lemma_compare_ints;

verus! {

/// `bc` has the register shape of the hash loop, with its limit `N >= 0`
/// and its shift counts `A`, `B`, `C` in `0..=31`.
pub open spec fn hash_loop_shape(bc: Seq<RegInstruction>) -> bool {
    &&& bc.len() == 38
    // var hash = H; var i = 0; while (i < N)
    &&& bc[0].op == OP_REG_PUSH_I32
    &&& bc[1].op == OP_REG_STORE_LOC
    &&& bc[1].src1 as u8 == bc[0].dst
    &&& bc[2].op == OP_REG_PUSH_I32
    &&& spec_reg_i32(bc[2]) == 0
    &&& bc[3].op == OP_REG_STORE_LOC
    &&& bc[3].src1 as u8 == bc[2].dst
    &&& bc[4].op == OP_REG_LOAD_LOC
    &&& bc[4].src1 as u8 == bc[3].dst
    &&& bc[5].op == OP_REG_PUSH_I32
    &&& bc[6].op == OP_REG_LT
    &&& bc[6].dst == bc[4].dst
    &&& bc[6].src1 as u8 == bc[4].dst
    &&& bc[6].src2 as u8 == bc[5].dst
    &&& bc[7].op == OP_REG_IF_FALSE
    &&& bc[7].dst == bc[6].dst
    &&& bc[7].src1 == 36
    &&& spec_reg_i32(bc[5]) >= 0
    // hash = (hash + ((i & MASK) ^ (i >>> A))) | 0
    &&& bc[8].op == OP_REG_LOAD_LOC
    &&& bc[8].src1 as u8 == bc[1].dst
    &&& bc[9].op == OP_REG_LOAD_LOC
    &&& bc[9].src1 as u8 == bc[3].dst
    &&& bc[10].op == OP_REG_PUSH_I32
    &&& bc[11].op == OP_REG_BIT_AND
    &&& bc[11].dst == bc[9].dst
    &&& bc[12].op == OP_REG_LOAD_LOC
    &&& bc[12].src1 as u8 == bc[3].dst
    &&& bc[13].op == OP_REG_PUSH_I32
    &&& bc[14].op == OP_REG_SHR
    &&& bc[14].dst == bc[12].dst
    &&& bc[15].op == OP_REG_BIT_XOR
    &&& bc[16].op == OP_REG_ADD
    &&& bc[16].dst == bc[8].dst
    &&& bc[17].op == OP_REG_PUSH_I32
    &&& spec_reg_i32(bc[17]) == 0
    &&& bc[18].op == OP_REG_BIT_OR
    &&& bc[18].dst == bc[16].dst
    &&& bc[19].op == OP_REG_SET_LOC
    &&& bc[19].dst == bc[1].dst
    // hash = (hash ^ (hash << B) ^ (hash >>> C)) | 0
    &&& bc[21].op == OP_REG_PUSH_I32
    &&& bc[22].op == OP_REG_SHL
    &&& bc[23].op == OP_REG_BIT_XOR
    &&& bc[25].op == OP_REG_PUSH_I32
    &&& bc[26].op == OP_REG_SHR
    &&& bc[27].op == OP_REG_BIT_XOR
    &&& bc[28].op == OP_REG_PUSH_I32
    &&& spec_reg_i32(bc[28]) == 0
    &&& bc[29].op == OP_REG_BIT_OR
    &&& bc[30].op == OP_REG_STORE_LOC
    &&& bc[30].dst == bc[1].dst
    // i++; back to the test; return hash
    &&& bc[31].op == OP_REG_PUSH_I32
    &&& spec_reg_i32(bc[31]) == 1
    &&& bc[32].op == OP_REG_LOAD_LOC
    &&& bc[32].src1 as u8 == bc[3].dst
    &&& bc[33].op == OP_REG_ADD
    &&& bc[34].op == OP_REG_STORE_LOC
    &&& bc[34].dst == bc[3].dst
    &&& bc[35].op == OP_REG_JMP
    &&& bc[35].src1 == 4
    &&& bc[36].op == OP_REG_LOAD_LOC
    &&& bc[36].src1 as u8 == bc[1].dst
    &&& bc[37].op == OP_REG_RETURN
    &&& bc[37].dst == bc[36].dst
    // shift counts
    &&& 0 <= spec_reg_i32(bc[13]) <= 31
    &&& 0 <= spec_reg_i32(bc[21]) <= 31
    &&& 0 <= spec_reg_i32(bc[25]) <= 31
}

/// The native loop: `ecx` is `i`, `eax` is `hash`, `r10d`/`r11d` are scratch.
pub open spec fn hash_loop_code(hash_init: int, limit: int, mask: int, sa: u8, sb: u8, sc: u8) -> Seq<u8> {
    // mov ecx, 0 ; mov eax, hash_init
    seq![0xb9u8, 0, 0, 0, 0, 0xb8] + le32_bytes(wrap32(hash_init))
    // loop: compare ecx with limit ; jge exit (+50)
    + seq![0x81u8, 0xf9] + le32_bytes(wrap32(limit)) + seq![0x0fu8, 0x8d] + le32_bytes(50)
    // r10d = i & mask
    + seq![0x41u8, 0x89, 0xca, 0x41, 0x81, 0xe2] + le32_bytes(wrap32(mask))
    // r11d = i >>> A ; r10d ^= r11d ; hash += r10d
    + seq![0x41u8, 0x89, 0xcb, 0x41, 0xc1, 0xeb, sa, 0x45, 0x31, 0xda, 0x44, 0x01, 0xd0]
    // r10d = hash << B ; r11d = hash >>> C ; hash ^= r10d ^ r11d
    + seq![0x41u8, 0x89, 0xc2, 0x41, 0xc1, 0xe2, sb, 0x41, 0x89, 0xc3, 0x41, 0xc1, 0xeb, sc]
    + seq![0x44u8, 0x31, 0xd0, 0x44, 0x31, 0xd8]
    // i++ ; jmp loop (-62)
    + seq![0xffu8, 0xc1, 0xe9] + le32_bytes(wrap32(-62))
    // exit: mov edx, JS_TAG_INT ; ret
    + seq![0xbau8, 0, 0, 0, 0, 0xc3]
}

/// The native code of the hash loop, when `bc` has its shape.
pub open spec fn spec_hash_loop(bc: Seq<RegInstruction>) -> Option<Seq<u8>> {
    if hash_loop_shape(bc) {
        Some(
            hash_loop_code(
                spec_reg_i32(bc[0]),
                spec_reg_i32(bc[5]),
                spec_reg_i32(bc[10]),
                spec_reg_i32(bc[13]) as u8,
                spec_reg_i32(bc[21]) as u8,
                spec_reg_i32(bc[25]) as u8,
            ),
        )
    } else {
        None
    }
}

/// Law: the native hash loop runs exactly while the register code's test
/// holds. The native code leaves the loop with `cmp ecx, N; jge exit`, that
/// is, as soon as `i >= N`; and the register test of the accepted code,
/// applied to any `int32` `i` and the limit `N`, holds exactly when `i < N`.
/// Both start `i` at 0 and add 1 per iteration, so both run the body `N`
/// times.
pub proof fn lemma_hash_loop_exit_test(bc: Seq<RegInstruction>, i: i32)
    requires
        spec_hash_loop(bc).is_some(),
    ensures
        spec_reg_i32(bc[2]) == 0,
        spec_reg_i32(bc[31]) == 1,
        spec_hash_loop(bc).unwrap().subrange(10, 18) == seq![0x81u8, 0xf9] + le32_bytes(
            wrap32(spec_reg_i32(bc[5])),
        ) + seq![0x0fu8, 0x8d],
        spec_binary(bc[6].op, int_val(i as int), int_val(spec_reg_i32(bc[5]))) == BinResult::Value(
            bool_val(i < spec_reg_i32(bc[5])),
        ),
{
    let n = spec_reg_i32(bc[5]);
    lemma_compare_ints(i, n as i32);
    let code = spec_hash_loop(bc).unwrap();
    assert(code.subrange(10, 18) =~= seq![0x81u8, 0xf9] + le32_bytes(wrap32(n)) + seq![0x0fu8, 0x8d]);
}

/// Recognises the hash loop and emits its native loop.
pub fn compile_bitwise_hash_loop(bytecode: &[RegInstruction]) -> (r: Option<Vec<u8>>)
    ensures
        r matches Some(c) ==> spec_hash_loop(bytecode@) == Some(c@),
        r is None ==> spec_hash_loop(bytecode@) is None,
{
    if bytecode.len() != 38 {
        return None;
    }
    let hash_init_push = bytecode[0];
    let hash_init_store = bytecode[1];
    let i_init_push = bytecode[2];
    let i_init_store = bytecode[3];
    let cond_i_load = bytecode[4];
    let limit_push = bytecode[5];
    let test = bytecode[6];
    let branch = bytecode[7];

    if hash_init_push.op != OP_REG_PUSH_I32 || hash_init_store.op != OP_REG_STORE_LOC
        || hash_init_store.src1 as u8 != hash_init_push.dst || i_init_push.op != OP_REG_PUSH_I32
        || reg_i32(&i_init_push) != 0 || i_init_store.op != OP_REG_STORE_LOC || i_init_store.src1 as u8
        != i_init_push.dst || cond_i_load.op != OP_REG_LOAD_LOC || cond_i_load.src1 as u8
        != i_init_store.dst || limit_push.op != OP_REG_PUSH_I32 || test.op != OP_REG_LT || test.dst
        != cond_i_load.dst || test.src1 as u8 != cond_i_load.dst || test.src2 as u8 != limit_push.dst
        || branch.op != OP_REG_IF_FALSE || branch.dst != test.dst || branch.src1 != 36 {
        return None;
    }
    let hash_loc = hash_init_store.dst;
    let i_loc = i_init_store.dst;
    let hash_init = reg_i32(&hash_init_push);
    let limit = reg_i32(&limit_push);
    if limit < 0 {
        return None;
    }

    let hash_load = bytecode[8];
    let i_load_a = bytecode[9];
    let mask_push = bytecode[10];
    let bit_and = bytecode[11];
    let i_load_b = bytecode[12];
    let shift_a_push = bytecode[13];
    let shr_a = bytecode[14];
    let xor_a = bytecode[15];
    let add_a = bytecode[16];
    let zero_a = bytecode[17];
    let or_a = bytecode[18];
    let set_hash = bytecode[19];
    let shift_b_push = bytecode[21];
    let shl_b = bytecode[22];
    let xor_b = bytecode[23];
    let shift_c_push = bytecode[25];
    let shr_c = bytecode[26];
    let xor_c = bytecode[27];
    let zero_c = bytecode[28];
    let or_c = bytecode[29];
    let store_hash = bytecode[30];
    let inc_one = bytecode[31];
    let i_load_inc = bytecode[32];
    let i_add = bytecode[33];
    let i_store = bytecode[34];
    let backedge = bytecode[35];
    let exit_load = bytecode[36];
    let ret = bytecode[37];

    if hash_load.op != OP_REG_LOAD_LOC || hash_load.src1 as u8 != hash_loc || i_load_a.op
        != OP_REG_LOAD_LOC || i_load_a.src1 as u8 != i_loc || mask_push.op != OP_REG_PUSH_I32
        || bit_and.op != OP_REG_BIT_AND || bit_and.dst != i_load_a.dst || i_load_b.op
        != OP_REG_LOAD_LOC || i_load_b.src1 as u8 != i_loc || shift_a_push.op != OP_REG_PUSH_I32
        || shr_a.op != OP_REG_SHR || shr_a.dst != i_load_b.dst || xor_a.op != OP_REG_BIT_XOR
        || add_a.op != OP_REG_ADD || add_a.dst != hash_load.dst || zero_a.op != OP_REG_PUSH_I32
        || reg_i32(&zero_a) != 0 || or_a.op != OP_REG_BIT_OR || or_a.dst != add_a.dst || set_hash.op
        != OP_REG_SET_LOC || set_hash.dst != hash_loc || shift_b_push.op != OP_REG_PUSH_I32
        || shl_b.op != OP_REG_SHL || xor_b.op != OP_REG_BIT_XOR || shift_c_push.op != OP_REG_PUSH_I32
        || shr_c.op != OP_REG_SHR || xor_c.op != OP_REG_BIT_XOR || zero_c.op != OP_REG_PUSH_I32
        || reg_i32(&zero_c) != 0 || or_c.op != OP_REG_BIT_OR || store_hash.op != OP_REG_STORE_LOC
        || store_hash.dst != hash_loc || inc_one.op != OP_REG_PUSH_I32 || reg_i32(&inc_one) != 1
        || i_load_inc.op != OP_REG_LOAD_LOC || i_load_inc.src1 as u8 != i_loc || i_add.op
        != OP_REG_ADD || i_store.op != OP_REG_STORE_LOC || i_store.dst != i_loc || backedge.op
        != OP_REG_JMP || backedge.src1 != 4 || exit_load.op != OP_REG_LOAD_LOC || exit_load.src1 as u8
        != hash_loc || ret.op != OP_REG_RETURN || ret.dst != exit_load.dst {
        return None;
    }

    let mask = reg_i32(&mask_push);
    let shift_a = reg_i32(&shift_a_push);
    let shift_b = reg_i32(&shift_b_push);
    let shift_c = reg_i32(&shift_c_push);
    if !(0 <= shift_a && shift_a <= 31) || !(0 <= shift_b && shift_b <= 31) || !(0 <= shift_c
        && shift_c <= 31) {
        return None;
    }
    let ghost bc = bytecode@;
    assert(hash_loop_shape(bc));

    let mut code: Vec<u8> = Vec::with_capacity(128);
    // mov ecx, 0 (i) ; mov eax, hash_init (hash)
    push_all(&mut code, &[0xb9, 0, 0, 0, 0, 0xb8]);
    push_le32_signed(&mut code, hash_init);
    // loop_start: compare ecx with limit ; jge exit
    push_all(&mut code, &[0x81, 0xf9]);
    push_le32_signed(&mut code, limit);
    push_all(&mut code, &[0x0f, 0x8d]);
    // The exit is 50 bytes past the end of this jump.
    push_le32(&mut code, 50);
    // r10d = i & mask
    push_all(&mut code, &[0x41, 0x89, 0xca, 0x41, 0x81, 0xe2]);
    push_le32_signed(&mut code, mask);
    // r11d = i >>> shift_a ; r10d ^= r11d ; hash += r10d (the |0 is the 32-bit eax)
    push_all(
        &mut code,
        &[0x41, 0x89, 0xcb, 0x41, 0xc1, 0xeb, shift_a as u8, 0x45, 0x31, 0xda, 0x44, 0x01, 0xd0],
    );
    // r10d = hash << shift_b ; r11d = hash >>> shift_c
    push_all(
        &mut code,
        &[0x41, 0x89, 0xc2, 0x41, 0xc1, 0xe2, shift_b as u8, 0x41, 0x89, 0xc3, 0x41, 0xc1, 0xeb, shift_c as u8],
    );
    // hash = hash ^ r10d ^ r11d
    push_all(&mut code, &[0x44, 0x31, 0xd0, 0x44, 0x31, 0xd8]);
    // i++ ; jmp loop_start, 62 bytes back from the end of this jump
    push_all(&mut code, &[0xff, 0xc1, 0xe9]);
    push_le32_signed(&mut code, -62);
    // exit: mov edx, JS_TAG_INT ; ret (eax holds the int32 payload)
    push_all(&mut code, &[0xba, 0, 0, 0, 0, 0xc3]);
    assert(code@ =~= hash_loop_code(
        hash_init as int,
        limit as int,
        mask as int,
        shift_a as u8,
        shift_b as u8,
        shift_c as u8,
    ));
    Some(code)
}

} // verus!
