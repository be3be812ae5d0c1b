//! What the register interpreter computes for a counted accumulator loop
//! that the code generator folds: the same number.
use vstd::prelude::*;

use crate::compiler::{
    RegInstruction, OP_REG_ADD, OP_REG_GT, OP_REG_GTE, OP_REG_IF_FALSE, OP_REG_JMP, OP_REG_LOAD_LOC, OP_REG_LT,
    OP_REG_LTE, OP_REG_PUSH_I32, OP_REG_RETURN, OP_REG_STORE_LOC,
};
use crate::counted_loop::{
    affine_update, counted_loop_params, first_backedge_from, induction_step, loop_total, scan_inits,
    short_update, spec_counted_loop, update_delta, CountUpdate, InitScan,
};
use crate::jit::{lemma_counted_iterations_exact, loop_cond, spec_counted_iterations, spec_reg_i32};
use crate::number::spec_return_js_number;
use crate::value::JsVal;
use crate::vm::{bool_val, int_val, spec_operands_in_range, NUM_REGS};
use crate::vm_run::{
    lemma_run_arith, lemma_run_compare, lemma_run_if_false, lemma_run_jmp, lemma_run_load, lemma_run_push,
    lemma_run_return, lemma_run_store, spec_run,
};

verus! {

/// `v` is an `int32`.
pub open spec fn fits32(v: int) -> bool {
    -0x8000_0000 <= v <= 0x7fff_ffff
}

/// The value that an operand instruction (a load of a local or a push of an
/// immediate) puts in its register.
pub open spec fn operand_val(inst: RegInstruction, locals: Seq<JsVal>) -> JsVal {
    if inst.op == OP_REG_LOAD_LOC {
        locals[inst.src1 as int]
    } else {
        int_val(spec_reg_i32(inst))
    }
}

/// The two operand instructions at `p` and `p + 1` fill two registers, and
/// the `add` at `p + 2` reads exactly those two (in either order).
pub open spec fn pair_wired(bc: Seq<RegInstruction>, p: int) -> bool {
    &&& (bc[p].op == OP_REG_LOAD_LOC ==> bc[p].src1 < 256)
    &&& (bc[p + 1].op == OP_REG_LOAD_LOC ==> bc[p + 1].src1 < 256)
    &&& bc[p].dst != bc[p + 1].dst
    &&& ((bc[p + 2].src1 == bc[p].dst && bc[p + 2].src2 == bc[p + 1].dst) || (bc[p + 2].src1 == bc[p + 1].dst
        && bc[p + 2].src2 == bc[p].dst))
}

/// The first jump back into the code: the loop's back edge.
pub open spec fn cl_backedge(bc: Seq<RegInstruction>) -> int {
    first_backedge_from(bc, 0).unwrap()
}

/// The loop's first instruction (the load of the induction variable).
pub open spec fn cl_start(bc: Seq<RegInstruction>) -> int {
    bc[cl_backedge(bc)].src1 as int
}

/// Where the loop's exit test jumps to.
pub open spec fn cl_exit(bc: Seq<RegInstruction>) -> int {
    bc[cl_start(bc) + 3].src1 as int
}

/// The induction variable's local.
pub open spec fn cl_i_loc(bc: Seq<RegInstruction>) -> u8 {
    bc[cl_start(bc)].src1 as u8
}

/// The accumulator's local.
pub open spec fn cl_count_loc(bc: Seq<RegInstruction>) -> u8 {
    scan_inits(bc, 0, cl_start(bc), cl_i_loc(bc), (None, None, None)).unwrap().0.unwrap()
}

/// The registers of an eight-instruction affine body at `b` do not clobber
/// one another: the accumulator, the induction value and the multiplier
/// live in three registers, and the added constant does not land on the
/// accumulator.
pub open spec fn affine_wired(bc: Seq<RegInstruction>, b: int) -> bool {
    &&& bc[b].src1 < 256
    &&& bc[b + 1].src1 < 256
    &&& bc[b].dst != bc[b + 1].dst
    &&& bc[b + 2].dst != bc[b + 1].dst
    &&& bc[b + 2].dst != bc[b].dst
    &&& bc[b + 5].dst != bc[b].dst
}

/// The registers of a recognised counted loop are wired as the register
/// compiler wires them: every instruction reads registers `0..256`, each
/// local that the loop loads is a local below 256, the test compares the
/// loaded induction value with the limit, and each `add` reads the two
/// values that the instructions before it produced.
pub open spec fn counted_loop_wired(bc: Seq<RegInstruction>) -> bool {
    let ls = cl_start(bc);
    let be = cl_backedge(bc);
    &&& forall|k: int| 0 <= k < bc.len() ==> spec_operands_in_range(#[trigger] bc[k])
    &&& bc[ls].src1 < 256
    &&& bc[ls + 2].src1 == bc[ls].dst
    &&& bc[ls + 2].src2 == bc[ls + 1].dst
    &&& bc[ls].dst != bc[ls + 1].dst
    &&& (ls + 12 == be ==> pair_wired(bc, ls + 4))
    &&& (ls + 16 == be ==> affine_wired(bc, ls + 4))
    &&& pair_wired(bc, be - 4)
    &&& bc[cl_exit(bc)].src1 < 256
}

/// One iteration from accumulator `c` and induction value `i` keeps every
/// intermediate value of the accumulator update within `int32`.
pub open spec fn iteration_fits(c: int, i: int, u: CountUpdate) -> bool {
    match u {
        CountUpdate::Const(d) => fits32(c + d),
        CountUpdate::Induction => fits32(c + i),
        CountUpdate::Affine { mul, add } => fits32(i * mul) && fits32(c + i * mul) && fits32(c + i * mul + add),
    }
}

/// Every iteration of the recognised loop stays within `int32`.
pub open spec fn counted_loop_stays_int32(bc: Seq<RegInstruction>) -> bool {
    let (c0, i0, step, u, limit, test) = counted_loop_params(bc).unwrap();
    let n = spec_counted_iterations(i0, limit, step, test).unwrap();
    forall|k: int| 0 <= k < n ==> #[trigger] iteration_fits(loop_total(c0, i0, step, u, k as nat), i0 + k * step, u)
}

/// The number of interpreter steps that the recognised loop takes: the
/// initialisers, `n` iterations, the failing test and the return.
pub open spec fn counted_loop_steps(bc: Seq<RegInstruction>) -> nat {
    let (c0, i0, step, u, limit, test) = counted_loop_params(bc).unwrap();
    let n = spec_counted_iterations(i0, limit, step, test).unwrap();
    (cl_start(bc) + n * (cl_backedge(bc) - cl_start(bc) + 1) + 6) as nat
}

proof fn lemma_first_backedge(bc: Seq<RegInstruction>, k: int)
    requires
        first_backedge_from(bc, k).is_some(),
    ensures
        k <= first_backedge_from(bc, k).unwrap() < bc.len(),
        0 <= first_backedge_from(bc, k).unwrap(),
        bc[first_backedge_from(bc, k).unwrap()].op == OP_REG_JMP,
        bc[first_backedge_from(bc, k).unwrap()].src1 < bc.len(),
    decreases bc.len() - k,
{
    if !(k < 0 || k >= bc.len()) && !(bc[k].op == OP_REG_JMP && bc[k].src1 < bc.len()) {
        lemma_first_backedge(bc, k + 1);
    }
}

/// `loop_total` one iteration further.
proof fn lemma_loop_total_snoc(c: int, i: int, step: int, u: CountUpdate, k: nat)
    ensures
        loop_total(c, i, step, u, k + 1) == loop_total(c, i, step, u, k) + update_delta(u, i + k * step),
    decreases k,
{
    if k > 0 {
        let m = (k - 1) as nat;
        lemma_loop_total_snoc(c + update_delta(u, i), i + step, step, u, m);
        assert((i + step) + m * step == i + k * step) by (nonlinear_arith)
            requires
                k == m + 1,
        ;
        assert(loop_total(c, i, step, u, k + 1) == loop_total(c + update_delta(u, i), i + step, step, u, (m + 1) as nat));
    } else {
        assert(loop_total(c, i, step, u, 1) == loop_total(c + update_delta(u, i), i + step, step, u, 0));
    }
}

/// The induction values of the first `n` iterations lie between the first
/// and the last one.
proof fn lemma_induction_between(i0: int, step: int, k: int, n: int)
    requires
        0 <= k <= n,
    ensures
        (i0 <= i0 + k * step <= i0 + n * step) || (i0 + n * step <= i0 + k * step <= i0),
{
    if step >= 0 {
        assert(0 <= k * step <= n * step) by (nonlinear_arith)
            requires
                0 <= k <= n,
                step >= 0,
        ;
    } else {
        assert(n * step <= k * step <= 0) by (nonlinear_arith)
            requires
                0 <= k <= n,
                step < 0,
        ;
    }
}

/// What the recognition of a counted loop establishes about its layout.
proof fn lemma_counted_layout(bc: Seq<RegInstruction>)
    requires
        counted_loop_params(bc).is_some(),
    ensures
        ({
            let be = cl_backedge(bc);
            let ls = cl_start(bc);
            let ex = cl_exit(bc);
            let i_loc = cl_i_loc(bc);
            let (c0, i0, step, u, limit, test) = counted_loop_params(bc).unwrap();
            let count_loc = cl_count_loc(bc);
            &&& 0 <= ls
            &&& ls + 4 <= be
            &&& be < ex
            &&& ex + 1 < bc.len()
            &&& bc[be].op == OP_REG_JMP
            &&& bc[ls].op == OP_REG_LOAD_LOC
            &&& bc[ls + 1].op == OP_REG_PUSH_I32
            &&& spec_reg_i32(bc[ls + 1]) == limit
            &&& bc[ls + 2].op == test
            &&& (test == OP_REG_LT || test == OP_REG_LTE || test == OP_REG_GT || test == OP_REG_GTE)
            &&& bc[ls + 3].op == OP_REG_IF_FALSE
            &&& bc[ls + 3].dst == bc[ls + 2].dst
            &&& scan_inits(bc, 0, ls, i_loc, (None, None, None)) == Some(
                (Some(count_loc), Some(c0), Some(i0)),
            )
            &&& ((ls + 12 == be && short_update(bc, ls + 4, count_loc, i_loc) == Some(u)) || (ls + 16 == be
                && affine_update(bc, ls + 4, count_loc, i_loc) == Some(u)))
            &&& induction_step(bc, be - 4, i_loc) == Some(step)
            &&& bc[ex].op == OP_REG_LOAD_LOC
            &&& bc[ex].src1 as u8 == count_loc
            &&& bc[ex + 1].op == OP_REG_RETURN
            &&& bc[ex + 1].dst == bc[ex].dst
        }),
{
    lemma_first_backedge(bc, 0);
}

/// `operand; operand; add; store local` at `p`: the local receives the sum
/// of the two operands.
pub proof fn lemma_run_add_to_local(
    regs: Seq<JsVal>,
    locals: Seq<JsVal>,
    consts: Seq<JsVal>,
    p: int,
    bc: Seq<RegInstruction>,
    f: nat,
    x: int,
    y: int,
) -> (regs2: Seq<JsVal>)
    requires
        0 <= p,
        p + 3 < bc.len(),
        regs.len() == 256,
        bc[p].op == OP_REG_LOAD_LOC || bc[p].op == OP_REG_PUSH_I32,
        bc[p + 1].op == OP_REG_LOAD_LOC || bc[p + 1].op == OP_REG_PUSH_I32,
        bc[p].op == OP_REG_LOAD_LOC ==> bc[p].src1 < locals.len(),
        bc[p + 1].op == OP_REG_LOAD_LOC ==> bc[p + 1].src1 < locals.len(),
        pair_wired(bc, p),
        bc[p + 2].op == OP_REG_ADD,
        bc[p + 3].op == OP_REG_STORE_LOC,
        bc[p + 3].src1 == bc[p + 2].dst,
        bc[p + 3].dst < locals.len(),
        operand_val(bc[p], locals) == int_val(x),
        operand_val(bc[p + 1], locals) == int_val(y),
        fits32(x),
        fits32(y),
        fits32(x + y),
    ensures
        regs2.len() == 256,
        spec_run(regs, locals, consts, p, bc, f + 4) == spec_run(
            regs2,
            locals.update(bc[p + 3].dst as int, int_val(x + y)),
            consts,
            p + 4,
            bc,
            f,
        ),
{
    let a = bc[p];
    let b = bc[p + 1];
    let r1 = regs.update(a.dst as int, operand_val(a, locals));
    if a.op == OP_REG_LOAD_LOC {
        lemma_run_load(regs, locals, consts, p, bc, f + 3);
    } else {
        lemma_run_push(regs, locals, consts, p, bc, f + 3);
    }
    let r2 = r1.update(b.dst as int, operand_val(b, locals));
    if b.op == OP_REG_LOAD_LOC {
        lemma_run_load(r1, locals, consts, p + 1, bc, f + 2);
    } else {
        lemma_run_push(r1, locals, consts, p + 1, bc, f + 2);
    }
    assert(r2[a.dst as int] == int_val(x));
    assert(r2[b.dst as int] == int_val(y));
    let add = bc[p + 2];
    if add.src1 == a.dst {
        lemma_run_arith(r2, locals, consts, p + 2, bc, f + 1, x, y);
    } else {
        lemma_run_arith(r2, locals, consts, p + 2, bc, f + 1, y, x);
        assert(y + x == x + y);
    }
    let r3 = r2.update(add.dst as int, int_val(x + y));
    lemma_run_store(r3, locals, consts, p + 3, bc, f);
    r3
}

/// The affine body `load count; load i; push C; mul; add; push K; add;
/// store count` at `b`: the accumulator receives `c + i * C + K`.
proof fn lemma_run_affine_body(
    regs: Seq<JsVal>,
    locals: Seq<JsVal>,
    consts: Seq<JsVal>,
    b: int,
    bc: Seq<RegInstruction>,
    f: nat,
    count_loc: u8,
    i_loc: u8,
    c: int,
    i: int,
    mul: i32,
    add: i32,
) -> (regs2: Seq<JsVal>)
    requires
        0 <= b,
        b + 7 < bc.len(),
        regs.len() == 256,
        affine_update(bc, b, count_loc, i_loc) == Some(CountUpdate::Affine { mul, add }),
        affine_wired(bc, b),
        forall|k: int| 0 <= k < bc.len() ==> spec_operands_in_range(#[trigger] bc[k]),
        count_loc < locals.len(),
        i_loc < locals.len(),
        locals[count_loc as int] == int_val(c),
        locals[i_loc as int] == int_val(i),
        fits32(c),
        fits32(i),
        fits32(i * mul),
        fits32(c + i * mul),
        fits32(c + i * mul + add),
    ensures
        regs2.len() == 256,
        spec_run(regs, locals, consts, b, bc, f + 8) == spec_run(
            regs2,
            locals.update(count_loc as int, int_val(c + i * mul + add)),
            consts,
            b + 8,
            bc,
            f,
        ),
{
    let rc = bc[b].dst as int;
    let ri = bc[b + 1].dst as int;
    let rm = bc[b + 2].dst as int;
    let rk = bc[b + 5].dst as int;
    assert(spec_operands_in_range(bc[b + 3]));
    assert(spec_operands_in_range(bc[b + 4]));
    assert(spec_operands_in_range(bc[b + 6]));
    assert(spec_operands_in_range(bc[b + 7]));
    assert(mul as int == spec_reg_i32(bc[b + 2]));
    assert(add as int == spec_reg_i32(bc[b + 5]));
    lemma_run_load(regs, locals, consts, b, bc, f + 7);
    let r1 = regs.update(rc, int_val(c));
    lemma_run_load(r1, locals, consts, b + 1, bc, f + 6);
    let r2 = r1.update(ri, int_val(i));
    lemma_run_push(r2, locals, consts, b + 2, bc, f + 5);
    let r3 = r2.update(rm, int_val(mul as int));
    lemma_run_arith(r3, locals, consts, b + 3, bc, f + 4, i, mul as int);
    let r4 = r3.update(ri, int_val(i * mul));
    lemma_run_arith(r4, locals, consts, b + 4, bc, f + 3, c, i * mul);
    let r5 = r4.update(rc, int_val(c + i * mul));
    lemma_run_push(r5, locals, consts, b + 5, bc, f + 2);
    let r6 = r5.update(rk, int_val(add as int));
    lemma_run_arith(r6, locals, consts, b + 6, bc, f + 1, c + i * mul, add as int);
    let r7 = r6.update(rc, int_val(c + i * mul + add));
    lemma_run_store(r7, locals, consts, b + 7, bc, f);
    r7
}

/// The iterations from the `k`-th on, then the exit: with the accumulator
/// and the induction variable as the `k`-th iteration finds them, the run
/// returns the accumulator after all `n` iterations.
proof fn lemma_run_loop(
    bc: Seq<RegInstruction>,
    c0: int,
    i0: int,
    step: int,
    u: CountUpdate,
    limit: int,
    test: u8,
    n: int,
    k: int,
    regs: Seq<JsVal>,
    locals: Seq<JsVal>,
    consts: Seq<JsVal>,
    f: nat,
)
    requires
        counted_loop_params(bc) == Some((c0, i0, step, u, limit, test)),
        spec_counted_iterations(i0, limit, step, test) == Some(n),
        fits32(i0),
        fits32(i0 + n * step),
        counted_loop_wired(bc),
        counted_loop_stays_int32(bc),
        regs.len() == 256,
        cl_i_loc(bc) < locals.len(),
        cl_count_loc(bc) < locals.len(),
        cl_count_loc(bc) != cl_i_loc(bc),
        0 <= k <= n,
        fits32(loop_total(c0, i0, step, u, k as nat)),
        locals[cl_count_loc(bc) as int] == int_val(loop_total(c0, i0, step, u, k as nat)),
        locals[cl_i_loc(bc) as int] == int_val(i0 + k * step),
    ensures
        spec_run(
            regs,
            locals,
            consts,
            cl_start(bc),
            bc,
            (f + (n - k) * (cl_backedge(bc) - cl_start(bc) + 1) + 6) as nat,
        ) == Some(int_val(loop_total(c0, i0, step, u, n as nat))),
    decreases n - k,
{
    lemma_counted_layout(bc);
    lemma_counted_iterations_exact(i0, limit, step, test, n);
    let be = cl_backedge(bc);
    let ls = cl_start(bc);
    let ex = cl_exit(bc);
    let i_loc = cl_i_loc(bc);
    let count_loc = cl_count_loc(bc);
    let per = be - ls + 1;
    let ik = i0 + k * step;
    let ck = loop_total(c0, i0, step, u, k as nat);
    lemma_induction_between(i0, step, k, n);
    assert(fits32(ik));
    assert(fits32(limit));
    assert((n - k) * per >= 0) by (nonlinear_arith)
        requires
            n - k >= 0,
            per >= 0,
    ;
    let big: nat = (f + (n - k) * per + 6) as nat;
    assert(bc[ls].src1 == i_loc);
    lemma_run_load(regs, locals, consts, ls, bc, (big - 1) as nat);
    let r1 = regs.update(bc[ls].dst as int, int_val(ik));
    lemma_run_push(r1, locals, consts, ls + 1, bc, (big - 2) as nat);
    let r2 = r1.update(bc[ls + 1].dst as int, int_val(limit));
    lemma_run_compare(r2, locals, consts, ls + 2, bc, (big - 3) as nat, ik, limit);
    let cond = loop_cond(test, ik, limit);
    let r3 = r2.update(bc[ls + 2].dst as int, bool_val(cond));
    lemma_run_if_false(r3, locals, consts, ls + 3, bc, (big - 4) as nat, cond);
    if k == n {
        assert(!cond);
        assert(bc[ex].src1 == count_loc);
        lemma_run_load(r3, locals, consts, ex, bc, (big - 5) as nat);
        let r4 = r3.update(bc[ex].dst as int, locals[count_loc as int]);
        assert((n - k) * per == 0) by (nonlinear_arith)
            requires
                n == k,
        ;
        lemma_run_return(r4, locals, consts, ex + 1, bc, f);
    } else {
        assert(loop_cond(test, i0 + k * step, limit));
        assert(cond);
        let g: nat = (f + (n - k - 1) * per + 6) as nat;
        assert((n - k) * per == (n - k - 1) * per + per) by (nonlinear_arith);
        assert((n - k - 1) * per >= 0) by (nonlinear_arith)
            requires
                n - k - 1 >= 0,
                per >= 0,
        ;
        assert(big == g + per);
        assert(iteration_fits(loop_total(c0, i0, step, u, k as nat), i0 + k * step, u));
        lemma_induction_between(i0, step, k + 1, n);
        assert(ik + step == i0 + (k + 1) * step) by (nonlinear_arith)
            requires
                ik == i0 + k * step,
        ;
        lemma_loop_total_snoc(c0, i0, step, u, k as nat);
        let ck1 = ck + update_delta(u, ik);
        assert(ck1 == loop_total(c0, i0, step, u, (k + 1) as nat));
        let body = ls + 4;
        let mut r5: Seq<JsVal> = r3;
        if ls + 12 == be {
            let a = bc[body];
            let b = bc[body + 1];
            let add = bc[body + 2];
            assert(spec_operands_in_range(bc[body + 3]));
            if a.op == OP_REG_LOAD_LOC && a.src1 as u8 == count_loc && b.op == OP_REG_PUSH_I32 && add.dst == a.dst {
                r5 = lemma_run_add_to_local(r3, locals, consts, body, bc, g + 5, ck, spec_reg_i32(b));
            } else if a.op == OP_REG_PUSH_I32 && b.op == OP_REG_LOAD_LOC && b.src1 as u8 == count_loc && add.dst
                == b.dst {
                r5 = lemma_run_add_to_local(r3, locals, consts, body, bc, g + 5, spec_reg_i32(a), ck);
            } else {
                r5 = lemma_run_add_to_local(r3, locals, consts, body, bc, g + 5, ik, ck);
            }
        } else {
            match u {
                CountUpdate::Affine { mul, add } => {
                    r5 = lemma_run_affine_body(r3, locals, consts, body, bc, g + 5, count_loc, i_loc, ck, ik, mul, add);
                },
                _ => {},
            }
        }
        let l5 = locals.update(count_loc as int, int_val(ck1));
        assert(spec_run(r3, locals, consts, body, bc, g + 5 + (be - 4 - body) as nat) == spec_run(
            r5,
            l5,
            consts,
            be - 4,
            bc,
            g + 5,
        ));
        let p = be - 4;
        assert(spec_operands_in_range(bc[p + 3]));
        let a = bc[p];
        let r6 = if a.op == OP_REG_PUSH_I32 {
            lemma_run_add_to_local(r5, l5, consts, p, bc, g + 1, step, ik)
        } else {
            lemma_run_add_to_local(r5, l5, consts, p, bc, g + 1, ik, step)
        };
        let l6 = l5.update(i_loc as int, int_val(ik + step));
        lemma_run_jmp(r6, l6, consts, be, bc, g);
        lemma_run_loop(bc, c0, i0, step, u, limit, test, n, k + 1, r6, l6, consts, f);
    }
}

/// The initial values that the scan records are `int32` immediates.
proof fn lemma_scan_values_fit(bc: Seq<RegInstruction>, idx: int, ls: int, i_loc: u8, acc: InitScan)
    requires
        scan_inits(bc, idx, ls, i_loc, acc).is_some(),
        acc.1.is_some() ==> fits32(acc.1.unwrap()),
        acc.2.is_some() ==> fits32(acc.2.unwrap()),
    ensures
        scan_inits(bc, idx, ls, i_loc, acc).unwrap().1.is_some() ==> fits32(
            scan_inits(bc, idx, ls, i_loc, acc).unwrap().1.unwrap(),
        ),
        scan_inits(bc, idx, ls, i_loc, acc).unwrap().2.is_some() ==> fits32(
            scan_inits(bc, idx, ls, i_loc, acc).unwrap().2.unwrap(),
        ),
    decreases ls - idx,
{
    if idx + 1 < ls {
        let push = bc[idx];
        let store = bc[idx + 1];
        let v = spec_reg_i32(push);
        assert(fits32(v));
        if store.dst == i_loc {
            lemma_scan_values_fit(bc, idx + 2, ls, i_loc, (acc.0, acc.1, Some(v)));
        } else if acc.0.is_none() {
            lemma_scan_values_fit(bc, idx + 2, ls, i_loc, (Some(store.dst), Some(v), acc.2));
        }
    }
}

/// Law: folding a counted loop keeps its meaning. For a loop that the code
/// generator folds, whose registers are wired as the register compiler wires
/// them and whose iterations stay within `int32`, the register interpreter,
/// run from any registers against locals that hold the loop's two
/// variables and any constants, returns after `counted_loop_steps(bc)`
/// steps the `int32` that the folded code returns.
pub proof fn lemma_counted_loop_matches_interpreter(
    bc: Seq<RegInstruction>,
    regs: Seq<JsVal>,
    locals: Seq<JsVal>,
    consts: Seq<JsVal>,
)
    requires
        spec_counted_loop(bc).is_some(),
        counted_loop_wired(bc),
        counted_loop_stays_int32(bc),
        regs.len() == NUM_REGS,
        cl_i_loc(bc) < locals.len(),
        cl_count_loc(bc) < locals.len(),
    ensures
        ({
            let (c0, i0, step, u, limit, test) = counted_loop_params(bc).unwrap();
            let n = spec_counted_iterations(i0, limit, step, test).unwrap();
            let v = loop_total(c0, i0, step, u, n as nat);
            &&& fits32(v)
            &&& spec_counted_loop(bc) == spec_return_js_number(v)
            &&& spec_run(regs, locals, consts, 0, bc, counted_loop_steps(bc)) == Some(int_val(v))
        }),
{
    lemma_counted_layout(bc);
    let (c0, i0, step, u, limit, test) = counted_loop_params(bc).unwrap();
    let n = spec_counted_iterations(i0, limit, step, test).unwrap();
    lemma_counted_iterations_exact(i0, limit, step, test, n);
    let v = loop_total(c0, i0, step, u, n as nat);
    let ls = cl_start(bc);
    let per = cl_backedge(bc) - ls + 1;
    let i_loc = cl_i_loc(bc);
    let none: InitScan = (None, None, None);
    lemma_scan_values_fit(bc, 0, ls, i_loc, none);
    assert(n * per >= 0) by (nonlinear_arith)
        requires
            n >= 0,
            per >= 0,
    ;
    let f: nat = (n * per + 6) as nat;
    let (r, l) = lemma_run_inits(bc, 0, ls, i_loc, none, regs, locals, consts, f);
    assert(i0 + 0 * step == i0);
    assert(loop_total(c0, i0, step, u, 0) == c0);
    lemma_run_loop(bc, c0, i0, step, u, limit, test, n, 0, r, l, consts, 0);
    assert(counted_loop_steps(bc) == f + ls);
    if n > 0 {
        let m = n - 1;
        assert(iteration_fits(loop_total(c0, i0, step, u, m as nat), i0 + m * step, u));
        lemma_loop_total_snoc(c0, i0, step, u, m as nat);
    }
}

/// Once the scan has found the accumulator, it keeps it.
proof fn lemma_scan_keeps_count(bc: Seq<RegInstruction>, idx: int, ls: int, i_loc: u8, acc: InitScan)
    requires
        scan_inits(bc, idx, ls, i_loc, acc).is_some(),
        acc.0.is_some(),
    ensures
        scan_inits(bc, idx, ls, i_loc, acc).unwrap().0 == acc.0,
        scan_inits(bc, idx, ls, i_loc, acc).unwrap().1 == acc.1,
    decreases ls - idx,
{
    if idx + 1 < ls {
        let push = bc[idx];
        let store = bc[idx + 1];
        if store.dst == i_loc {
            lemma_scan_keeps_count(bc, idx + 2, ls, i_loc, (acc.0, acc.1, Some(spec_reg_i32(push))));
        }
    }
}

/// The initialisers from `idx` up to the loop: each `push; store` pair
/// writes its immediate to its local, so the accumulator and the induction
/// variable start at the values that the scan records.
proof fn lemma_run_inits(
    bc: Seq<RegInstruction>,
    idx: int,
    ls: int,
    i_loc: u8,
    acc: InitScan,
    regs: Seq<JsVal>,
    locals: Seq<JsVal>,
    consts: Seq<JsVal>,
    f: nat,
) -> (res: (Seq<JsVal>, Seq<JsVal>))
    requires
        scan_inits(bc, idx, ls, i_loc, acc).is_some(),
        forall|k: int| 0 <= k < bc.len() ==> spec_operands_in_range(#[trigger] bc[k]),
        regs.len() == 256,
        i_loc < locals.len(),
        scan_inits(bc, idx, ls, i_loc, acc).unwrap().0.is_some() ==> scan_inits(bc, idx, ls, i_loc, acc).unwrap().0.unwrap()
            < locals.len(),
        acc.0.is_some() ==> acc.1.is_some() && acc.0.unwrap() != i_loc && locals[acc.0.unwrap() as int] == int_val(
            acc.1.unwrap(),
        ),
        acc.2.is_some() ==> locals[i_loc as int] == int_val(acc.2.unwrap()),
    ensures
        ({
            let fin = scan_inits(bc, idx, ls, i_loc, acc).unwrap();
            &&& res.0.len() == 256
            &&& res.1.len() == locals.len()
            &&& idx <= ls
            &&& fin.0.is_some() ==> fin.1.is_some() && fin.0.unwrap() != i_loc && res.1[fin.0.unwrap() as int]
                == int_val(fin.1.unwrap())
            &&& fin.2.is_some() ==> res.1[i_loc as int] == int_val(fin.2.unwrap())
            &&& spec_run(regs, locals, consts, idx, bc, f + (ls - idx) as nat) == spec_run(res.0, res.1, consts, ls, bc, f)
        }),
    decreases ls - idx,
{
    if idx + 1 < ls {
        let push = bc[idx];
        let store = bc[idx + 1];
        let v = spec_reg_i32(push);
        assert(spec_operands_in_range(bc[idx + 1]));
        assert(store.src1 == push.dst);
        let r1 = regs.update(push.dst as int, int_val(v));
        let rest = (ls - idx - 2) as nat;
        lemma_run_push(regs, locals, consts, idx, bc, f + rest + 1);
        let acc2 = if store.dst == i_loc {
            (acc.0, acc.1, Some(v))
        } else {
            (Some(store.dst), Some(v), acc.2)
        };
        assert(scan_inits(bc, idx, ls, i_loc, acc) == scan_inits(bc, idx + 2, ls, i_loc, acc2));
        if store.dst != i_loc {
            assert(acc.0.is_none());
            lemma_scan_keeps_count(bc, idx + 2, ls, i_loc, acc2);
            assert(store.dst < locals.len());
        }
        if acc.0.is_some() {
            lemma_scan_keeps_count(bc, idx, ls, i_loc, acc);
        }
        let l1 = locals.update(store.dst as int, int_val(v));
        lemma_run_store(r1, locals, consts, idx + 1, bc, f + rest);
        let res = lemma_run_inits(bc, idx + 2, ls, i_loc, acc2, r1, l1, consts, f);
        assert(f + (ls - idx) as nat == f + rest + 2);
        res
    } else {
        (regs, locals)
    }
}

} // verus!
