//! What the register interpreter computes for the branchy modulo loop that
//! the code generator folds: the same number.
use vstd::prelude::*;

use crate::branchy_loop::{
    branchy_params, branchy_run, branchy_shape, branchy_step, branchy_value, lemma_branchy_fold_is_exact,
    spec_branchy_loop,
};
use crate::compiler::{
    RegInstruction, OP_REG_ADD, OP_REG_IF_FALSE, OP_REG_LOAD_LOC, OP_REG_MOD, OP_REG_PUSH_I32, OP_REG_STORE_LOC,
    OP_REG_STRICT_EQ, OP_REG_SUB,
};
use crate::counted_run::{fits32, lemma_run_add_to_local, pair_wired};
use crate::jit::{loop_cond, spec_reg_i32};
use crate::number::spec_return_js_number;
use crate::value::JsVal;
use crate::vm::{bool_val, int_val, spec_operands_in_range, NUM_REGS};
use crate::vm_run::{
    lemma_run_and15, lemma_run_arith, lemma_run_compare, lemma_run_if_false, lemma_run_jmp, lemma_run_load,
    lemma_run_mod, lemma_run_push, lemma_run_return, lemma_run_store, lemma_run_strict_eq, lemma_run_sub,
    spec_run,
};

verus! {

/// `load i; push M; mod; push 0; ===; if_false` at `p`: the test reads the
/// remainder that it computed.
pub open spec fn mod_test_wired(bc: Seq<RegInstruction>, p: int) -> bool {
    &&& bc[p].src1 < 256
    &&& bc[p + 2].src1 == bc[p].dst
    &&& bc[p + 2].src2 == bc[p + 1].dst
    &&& bc[p].dst != bc[p + 1].dst
    &&& bc[p + 3].dst != bc[p + 2].dst
    &&& bc[p + 4].src1 == bc[p + 2].dst
    &&& bc[p + 4].src2 == bc[p + 3].dst
    &&& bc[p + 5].dst == bc[p + 4].dst
}

/// `load sum; load i; push M; mod; add|sub; store sum` at `p`: the update
/// combines the loaded sum with the remainder.
pub open spec fn mod_update_wired(bc: Seq<RegInstruction>, p: int) -> bool {
    &&& bc[p].src1 < 256
    &&& bc[p + 1].src1 < 256
    &&& bc[p].dst != bc[p + 1].dst
    &&& bc[p].dst != bc[p + 2].dst
    &&& bc[p + 1].dst != bc[p + 2].dst
    &&& bc[p + 3].src1 == bc[p + 1].dst
    &&& bc[p + 3].src2 == bc[p + 2].dst
    &&& bc[p + 3].dst != bc[p].dst
    &&& bc[p + 4].src1 == bc[p].dst
    &&& bc[p + 4].src2 == bc[p + 3].dst
    &&& bc[p + 5].src1 == bc[p + 4].dst
}

/// The else branch `sum += ((i & MASK) - (i % E))` keeps each value in a
/// register until it is read.
pub open spec fn else_wired(bc: Seq<RegInstruction>) -> bool {
    let rs = bc[34].dst;
    let ri = bc[35].dst;
    let rm = bc[36].dst;
    let ra = bc[37].dst;
    let rj = bc[38].dst;
    let re = bc[39].dst;
    let rd = bc[40].dst;
    &&& bc[34].src1 < 256
    &&& bc[35].src1 < 256
    &&& bc[38].src1 < 256
    &&& rs != ri
    &&& rs != rm
    &&& ri != rm
    &&& bc[37].src1 == ri
    &&& bc[37].src2 == rm
    &&& ra != rs
    &&& rj != rs
    &&& rj != ra
    &&& re != rs
    &&& re != ra
    &&& re != rj
    &&& bc[40].src1 == rj
    &&& bc[40].src2 == re
    &&& rd != rs
    &&& rd != ra
    &&& bc[41].src1 == ra
    &&& bc[41].src2 == rd
    &&& bc[41].dst != rs
    &&& bc[42].src1 == rs
    &&& bc[42].src2 == bc[41].dst
    &&& bc[43].src1 == bc[42].dst
}

/// The registers of the branchy loop are wired as the register compiler
/// wires them, and `sum` and `i` are two locals.
pub open spec fn branchy_wired(bc: Seq<RegInstruction>) -> bool {
    &&& forall|k: int| 0 <= k < bc.len() ==> spec_operands_in_range(#[trigger] bc[k])
    &&& bc[1].src1 == bc[0].dst
    &&& bc[3].src1 == bc[2].dst
    &&& bc[1].dst != bc[3].dst
    &&& bc[4].src1 < 256
    &&& bc[6].src1 == bc[4].dst
    &&& bc[6].src2 == bc[5].dst
    &&& bc[4].dst != bc[5].dst
    &&& bc[7].dst == bc[6].dst
    &&& mod_test_wired(bc, 8)
    &&& mod_test_wired(bc, 21)
    &&& mod_update_wired(bc, 14)
    &&& mod_update_wired(bc, 27)
    &&& else_wired(bc)
    &&& pair_wired(bc, 44)
    &&& bc[47].src1 == bc[46].dst
    &&& bc[49].src1 < 256
    &&& bc[50].dst == bc[49].dst
}

/// Every partial sum of the loop is an `int32`.
pub open spec fn branchy_stays_int32(bc: Seq<RegInstruction>) -> bool {
    let (s, i, n, a, b, c, d, mask, e) = branchy_params(bc);
    forall|j: int| 0 <= j <= n ==> fits32(#[trigger] branchy_run(s, j, a, b, c, d, e))
}

/// The interpreter steps of iteration `i`: by the `A` branch, the `C`
/// branch, or the else branch.
pub open spec fn branchy_iter_steps(i: int, a: int, c: int) -> nat {
    if i % a == 0 {
        22
    } else if i % c == 0 {
        28
    } else {
        31
    }
}

/// The interpreter steps from the test of iteration `k` to the return.
pub open spec fn branchy_steps_from(k: int, n: int, a: int, c: int) -> nat
    decreases n + 1 - k,
{
    if k > n {
        6
    } else {
        branchy_iter_steps(k, a, c) + branchy_steps_from(k + 1, n, a, c)
    }
}

/// The interpreter steps of the whole branchy loop.
pub open spec fn branchy_loop_steps(bc: Seq<RegInstruction>) -> nat {
    let (s, i, n, a, b, c, d, mask, e) = branchy_params(bc);
    4 + branchy_steps_from(1, n, a, c)
}

/// `load i; push M; mod; push 0; ===; if_false` at `p`: falls through when
/// `M` divides `i`, else jumps.
proof fn lemma_run_mod_test(
    regs: Seq<JsVal>,
    locals: Seq<JsVal>,
    consts: Seq<JsVal>,
    p: int,
    bc: Seq<RegInstruction>,
    f: nat,
    i: int,
    m: int,
) -> (regs2: Seq<JsVal>)
    requires
        0 <= p,
        p + 5 < bc.len(),
        regs.len() == 256,
        mod_test_wired(bc, p),
        bc[p].op == OP_REG_LOAD_LOC,
        bc[p + 1].op == OP_REG_PUSH_I32,
        bc[p + 2].op == OP_REG_MOD,
        bc[p + 3].op == OP_REG_PUSH_I32,
        bc[p + 4].op == OP_REG_STRICT_EQ,
        bc[p + 5].op == OP_REG_IF_FALSE,
        spec_reg_i32(bc[p + 1]) == m,
        spec_reg_i32(bc[p + 3]) == 0,
        bc[p].src1 < locals.len(),
        locals[bc[p].src1 as int] == int_val(i),
        0 <= i <= 0x7fff_ffff,
        0 < m,
    ensures
        regs2.len() == 256,
        spec_run(regs, locals, consts, p, bc, f + 6) == spec_run(
            regs2,
            locals,
            consts,
            if i % m == 0 { p + 6 } else { bc[p + 5].src1 as int },
            bc,
            f,
        ),
{
    lemma_run_load(regs, locals, consts, p, bc, f + 5);
    let r1 = regs.update(bc[p].dst as int, int_val(i));
    lemma_run_push(r1, locals, consts, p + 1, bc, f + 4);
    let r2 = r1.update(bc[p + 1].dst as int, int_val(m));
    lemma_run_mod(r2, locals, consts, p + 2, bc, f + 3, i, m);
    let r3 = r2.update(bc[p + 2].dst as int, int_val(i % m));
    lemma_run_push(r3, locals, consts, p + 3, bc, f + 2);
    let r4 = r3.update(bc[p + 3].dst as int, int_val(0));
    lemma_run_strict_eq(r4, locals, consts, p + 4, bc, f + 1, i % m, 0);
    let r5 = r4.update(bc[p + 4].dst as int, bool_val(i % m == 0));
    lemma_run_if_false(r5, locals, consts, p + 5, bc, f, i % m == 0);
    r5
}

/// `load sum; load i; push M; mod; add|sub; store sum` at `p`: the sum
/// becomes `sum + i % M` or `sum - i % M`.
proof fn lemma_run_mod_update(
    regs: Seq<JsVal>,
    locals: Seq<JsVal>,
    consts: Seq<JsVal>,
    p: int,
    bc: Seq<RegInstruction>,
    f: nat,
    sum: int,
    i: int,
    m: int,
) -> (regs2: Seq<JsVal>)
    requires
        0 <= p,
        p + 5 < bc.len(),
        regs.len() == 256,
        mod_update_wired(bc, p),
        forall|k: int| 0 <= k < bc.len() ==> spec_operands_in_range(#[trigger] bc[k]),
        bc[p].op == OP_REG_LOAD_LOC,
        bc[p + 1].op == OP_REG_LOAD_LOC,
        bc[p + 2].op == OP_REG_PUSH_I32,
        bc[p + 3].op == OP_REG_MOD,
        bc[p + 4].op == OP_REG_ADD || bc[p + 4].op == OP_REG_SUB,
        bc[p + 5].op == OP_REG_STORE_LOC,
        spec_reg_i32(bc[p + 2]) == m,
        bc[p].src1 < locals.len(),
        bc[p + 1].src1 < locals.len(),
        bc[p + 5].dst < locals.len(),
        locals[bc[p].src1 as int] == int_val(sum),
        locals[bc[p + 1].src1 as int] == int_val(i),
        fits32(sum),
        0 <= i <= 0x7fff_ffff,
        0 < m,
        fits32(if bc[p + 4].op == OP_REG_ADD { sum + i % m } else { sum - i % m }),
    ensures
        regs2.len() == 256,
        spec_run(regs, locals, consts, p, bc, f + 6) == spec_run(
            regs2,
            locals.update(
                bc[p + 5].dst as int,
                int_val(if bc[p + 4].op == OP_REG_ADD { sum + i % m } else { sum - i % m }),
            ),
            consts,
            p + 6,
            bc,
            f,
        ),
{
    lemma_run_load(regs, locals, consts, p, bc, f + 5);
    let r1 = regs.update(bc[p].dst as int, int_val(sum));
    lemma_run_load(r1, locals, consts, p + 1, bc, f + 4);
    let r2 = r1.update(bc[p + 1].dst as int, int_val(i));
    lemma_run_push(r2, locals, consts, p + 2, bc, f + 3);
    let r3 = r2.update(bc[p + 2].dst as int, int_val(m));
    lemma_run_mod(r3, locals, consts, p + 3, bc, f + 2, i, m);
    let r4 = r3.update(bc[p + 3].dst as int, int_val(i % m));
    let v = if bc[p + 4].op == OP_REG_ADD { sum + i % m } else { sum - i % m };
    if bc[p + 4].op == OP_REG_ADD {
        lemma_run_arith(r4, locals, consts, p + 4, bc, f + 1, sum, i % m);
    } else {
        lemma_run_sub(r4, locals, consts, p + 4, bc, f + 1, sum, i % m);
    }
    let r5 = r4.update(bc[p + 4].dst as int, int_val(v));
    assert(spec_operands_in_range(bc[p + 5]));
    lemma_run_store(r5, locals, consts, p + 5, bc, f);
    r5
}

/// The else branch at 34: the sum becomes `sum + ((i & 15) - (i % E))`.
proof fn lemma_run_else(
    regs: Seq<JsVal>,
    locals: Seq<JsVal>,
    consts: Seq<JsVal>,
    bc: Seq<RegInstruction>,
    f: nat,
    sum: int,
    i: int,
    e: int,
) -> (regs2: Seq<JsVal>)
    requires
        branchy_shape(bc),
        regs.len() == 256,
        else_wired(bc),
        forall|k: int| 0 <= k < bc.len() ==> spec_operands_in_range(#[trigger] bc[k]),
        spec_reg_i32(bc[36]) == 15,
        spec_reg_i32(bc[39]) == e,
        bc[34].src1 < locals.len(),
        bc[35].src1 < locals.len(),
        bc[38].src1 < locals.len(),
        bc[43].dst < locals.len(),
        locals[bc[34].src1 as int] == int_val(sum),
        locals[bc[35].src1 as int] == int_val(i),
        locals[bc[38].src1 as int] == int_val(i),
        fits32(sum),
        0 <= i <= 0x7fff_ffff,
        0 < e <= 0x7fff_ffff,
        fits32(sum + ((i % 16) - i % e)),
    ensures
        regs2.len() == 256,
        spec_run(regs, locals, consts, 34, bc, f + 10) == spec_run(
            regs2,
            locals.update(bc[43].dst as int, int_val(sum + ((i % 16) - i % e))),
            consts,
            44,
            bc,
            f,
        ),
{
    lemma_run_load(regs, locals, consts, 34, bc, f + 9);
    let r1 = regs.update(bc[34].dst as int, int_val(sum));
    lemma_run_load(r1, locals, consts, 35, bc, f + 8);
    let r2 = r1.update(bc[35].dst as int, int_val(i));
    lemma_run_push(r2, locals, consts, 36, bc, f + 7);
    let r3 = r2.update(bc[36].dst as int, int_val(15));
    lemma_run_and15(r3, locals, consts, 37, bc, f + 6, i);
    let r4 = r3.update(bc[37].dst as int, int_val(i % 16));
    lemma_run_load(r4, locals, consts, 38, bc, f + 5);
    let r5 = r4.update(bc[38].dst as int, int_val(i));
    lemma_run_push(r5, locals, consts, 39, bc, f + 4);
    let r6 = r5.update(bc[39].dst as int, int_val(e));
    lemma_run_mod(r6, locals, consts, 40, bc, f + 3, i, e);
    let r7 = r6.update(bc[40].dst as int, int_val(i % e));
    lemma_run_sub(r7, locals, consts, 41, bc, f + 2, i % 16, i % e);
    let r8 = r7.update(bc[41].dst as int, int_val((i % 16) - i % e));
    lemma_run_arith(r8, locals, consts, 42, bc, f + 1, sum, (i % 16) - i % e);
    let r9 = r8.update(bc[42].dst as int, int_val(sum + ((i % 16) - i % e)));
    assert(spec_operands_in_range(bc[43]));
    lemma_run_store(r9, locals, consts, 43, bc, f);
    r9
}

/// The iterations from `i = k` on, then the exit: with `sum` as iteration
/// `k` finds it, the run returns the sum after all `N` iterations.
proof fn lemma_branchy_run_loop(
    bc: Seq<RegInstruction>,
    k: int,
    regs: Seq<JsVal>,
    locals: Seq<JsVal>,
    consts: Seq<JsVal>,
    f: nat,
)
    requires
        spec_branchy_loop(bc).is_some(),
        branchy_wired(bc),
        branchy_params(bc).2 < 0x7fff_ffff,
        branchy_stays_int32(bc),
        regs.len() == 256,
        bc[1].dst < locals.len(),
        bc[3].dst < locals.len(),
        1 <= k <= branchy_params(bc).2 + 1,
        locals[bc[1].dst as int] == int_val(
            branchy_run(
                branchy_params(bc).0,
                k - 1,
                branchy_params(bc).3,
                branchy_params(bc).4,
                branchy_params(bc).5,
                branchy_params(bc).6,
                branchy_params(bc).8,
            ),
        ),
        locals[bc[3].dst as int] == int_val(k),
    ensures
        spec_run(
            regs,
            locals,
            consts,
            4,
            bc,
            f + branchy_steps_from(k, branchy_params(bc).2, branchy_params(bc).3, branchy_params(bc).5),
        ) == Some(
            int_val(
                branchy_run(
                    branchy_params(bc).0,
                    branchy_params(bc).2,
                    branchy_params(bc).3,
                    branchy_params(bc).4,
                    branchy_params(bc).5,
                    branchy_params(bc).6,
                    branchy_params(bc).8,
                ),
            ),
        ),
    decreases branchy_params(bc).2 + 1 - k,
{
    let (s, i0, n, a, b, c, d, mask, e) = branchy_params(bc);
    let sum_loc = bc[1].dst;
    let i_loc = bc[3].dst;
    let sk = branchy_run(s, k - 1, a, b, c, d, e);
    assert(fits32(branchy_run(s, k - 1, a, b, c, d, e)));
    let total: nat = f + branchy_steps_from(k, n, a, c);
    assert(total >= 6);
    assert(bc[4].src1 == i_loc);
    lemma_run_load(regs, locals, consts, 4, bc, (total - 1) as nat);
    let r1 = regs.update(bc[4].dst as int, int_val(k));
    lemma_run_push(r1, locals, consts, 5, bc, (total - 2) as nat);
    let r2 = r1.update(bc[5].dst as int, int_val(n));
    lemma_run_compare(r2, locals, consts, 6, bc, (total - 3) as nat, k, n);
    let cond = loop_cond(bc[6].op, k, n);
    let r3 = r2.update(bc[6].dst as int, bool_val(cond));
    lemma_run_if_false(r3, locals, consts, 7, bc, (total - 4) as nat, cond);
    if k == n + 1 {
        assert(!cond);
        assert(bc[49].src1 == sum_loc);
        lemma_run_load(r3, locals, consts, 49, bc, (total - 5) as nat);
        let r4 = r3.update(bc[49].dst as int, locals[sum_loc as int]);
        lemma_run_return(r4, locals, consts, 50, bc, f);
    } else {
        assert(cond);
        let g: nat = f + branchy_steps_from(k + 1, n, a, c);
        assert(total == g + branchy_iter_steps(k, a, c));
        assert(fits32(branchy_run(s, k, a, b, c, d, e)));
        let sk1 = branchy_run(s, k, a, b, c, d, e);
        assert(sk1 == sk + branchy_step(k, a, b, c, d, e));
        assert(bc[8].src1 == i_loc);
        let r4 = lemma_run_mod_test(r3, locals, consts, 8, bc, (total - 10) as nat, k, a);
        let mut r5: Seq<JsVal> = r4;
        if k % a == 0 {
            assert(bc[14].src1 == sum_loc && bc[15].src1 == i_loc);
            r5 = lemma_run_mod_update(r4, locals, consts, 14, bc, g + 6, sk, k, b);
            lemma_run_jmp(r5, locals.update(sum_loc as int, int_val(sk1)), consts, 20, bc, g + 5);
        } else {
            assert(bc[21].src1 == i_loc);
            let r6 = lemma_run_mod_test(r4, locals, consts, 21, bc, (total - 16) as nat, k, c);
            if k % c == 0 {
                assert(bc[27].src1 == sum_loc && bc[28].src1 == i_loc);
                r5 = lemma_run_mod_update(r6, locals, consts, 27, bc, g + 6, sk, k, d);
                lemma_run_jmp(r5, locals.update(sum_loc as int, int_val(sk1)), consts, 33, bc, g + 5);
            } else {
                assert(bc[34].src1 == sum_loc && bc[35].src1 == i_loc && bc[38].src1 == i_loc);
                let x = k as u32;
                assert(x & 15u32 == x % 16) by (bit_vector);
                assert(((k as u32) & 15u32) as int == k % 16);
                r5 = lemma_run_else(r6, locals, consts, bc, g + 5, sk, k, e);
            }
        }
        let l1 = locals.update(sum_loc as int, int_val(sk1));
        assert(spec_run(regs, locals, consts, 4, bc, total) == spec_run(r5, l1, consts, 44, bc, g + 5));
        let r7 = lemma_run_add_to_local(r5, l1, consts, 44, bc, g + 1, 1, k);
        let l2 = l1.update(i_loc as int, int_val(1 + k));
        lemma_run_jmp(r7, l2, consts, 48, bc, g);
        lemma_branchy_run_loop(bc, k + 1, r7, l2, consts, f);
    }
}

/// Law: folding the branchy loop keeps its meaning. For a branchy loop that
/// the code generator folds, whose registers are wired as the register
/// compiler wires them, whose bound `N` leaves room for the last `i++`, and
/// whose partial sums stay within `int32`, the register interpreter, run
/// from any registers against locals that hold `sum` and `i` and any
/// constants, returns after `branchy_loop_steps(bc)` steps the `int32` that
/// the folded code returns.
pub proof fn lemma_branchy_loop_matches_interpreter(
    bc: Seq<RegInstruction>,
    regs: Seq<JsVal>,
    locals: Seq<JsVal>,
    consts: Seq<JsVal>,
)
    requires
        spec_branchy_loop(bc).is_some(),
        branchy_wired(bc),
        branchy_params(bc).2 < 0x7fff_ffff,
        branchy_stays_int32(bc),
        regs.len() == NUM_REGS,
        bc[1].dst < locals.len(),
        bc[3].dst < locals.len(),
    ensures
        ({
            let v = branchy_value(branchy_params(bc));
            &&& fits32(v)
            &&& spec_branchy_loop(bc) == spec_return_js_number(v)
            &&& spec_run(regs, locals, consts, 0, bc, branchy_loop_steps(bc)) == Some(int_val(v))
        }),
{
    let (s, i0, n, a, b, c, d, mask, e) = branchy_params(bc);
    lemma_branchy_fold_is_exact(bc);
    assert(fits32(branchy_run(s, n, a, b, c, d, e)));
    let f = branchy_steps_from(1, n, a, c);
    lemma_run_push(regs, locals, consts, 0, bc, f + 3);
    let r1 = regs.update(bc[0].dst as int, int_val(s));
    lemma_run_store(r1, locals, consts, 1, bc, f + 2);
    let l1 = locals.update(bc[1].dst as int, int_val(s));
    lemma_run_push(r1, l1, consts, 2, bc, f + 1);
    let r2 = r1.update(bc[2].dst as int, int_val(1));
    lemma_run_store(r2, l1, consts, 3, bc, f);
    let l2 = l1.update(bc[3].dst as int, int_val(1));
    assert(branchy_run(s, 0, a, b, c, d, e) == s);
    lemma_branchy_run_loop(bc, 1, r2, l2, consts, 0);
}

} // verus!
