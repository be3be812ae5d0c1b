//! Folding of counted accumulator loops into a constant return:
//!
//! ```text
//! var count = C0;
//! for (var i = I0; i <op> LIMIT; i += STEP) { count += <update>; }
//! return count;
//! ```
//!
//! where `<update>` is a constant, `i`, or `i * C + K`. The loop has no side
//! effects, so its result is computed at compile time.
use vstd::prelude::*;

use crate::compiler::{
    RegInstruction, OP_REG_ADD, OP_REG_GT, OP_REG_GTE, OP_REG_IF_FALSE, OP_REG_JMP, OP_REG_LOAD_LOC,
    OP_REG_LT, OP_REG_LTE, OP_REG_MUL, OP_REG_PUSH_I32, OP_REG_RETURN, OP_REG_STORE_LOC,
};
use crate::jit::{
    checked_counted_iterations, lemma_counted_iterations_exact, loop_cond, reg_i32,
    spec_counted_iterations, spec_reg_i32,
};
use crate::number::{emit_return_js_number, spec_return_js_number};

verus! {

/// What one iteration adds to the accumulator.
#[derive(Debug, Copy, Clone, PartialEq, Eq, Structural)]
pub enum CountUpdate {
    /// `count += c`
    Const(i32),
    /// `count += i`
    Induction,
    /// `count += i * mul + add`
    Affine { mul: i32, add: i32 },
}

/// The amount that one iteration with induction value `i` adds.
pub open spec fn update_delta(u: CountUpdate, i: int) -> int {
    match u {
        CountUpdate::Const(c) => c as int,
        CountUpdate::Induction => i,
        CountUpdate::Affine { mul, add } => i * mul + add,
    }
}

/// The accumulator after `n` iterations that start from `count` and `i`,
/// each adding `update_delta(u, i)` and then advancing `i` by `step`.
pub open spec fn loop_total(count: int, i: int, step: int, u: CountUpdate, n: nat) -> int
    decreases n,
{
    if n == 0 {
        count
    } else {
        loop_total(count + update_delta(u, i), i + step, step, u, (n - 1) as nat)
    }
}

/// The index of the first jump whose target lies inside `bc`, at or after `k`.
pub open spec fn first_backedge_from(bc: Seq<RegInstruction>, k: int) -> Option<int>
    decreases bc.len() - k,
{
    if k < 0 || k >= bc.len() {
        None
    } else if bc[k].op == OP_REG_JMP && bc[k].src1 < bc.len() {
        Some(k)
    } else {
        first_backedge_from(bc, k + 1)
    }
}

/// The initialisers seen so far: the accumulator's local and value, and the
/// induction variable's value.
pub type InitScan = (Option<u8>, Option<int>, Option<int>);

/// Scans the `push i32; store local` pairs from `idx` up to `loop_start`.
/// A store to `i_loc` sets the induction value (the last one counts); the
/// first store to another local makes it the accumulator; a second such
/// local, or anything but such a pair, rejects the loop, and so does an
/// odd-length prefix.
pub open spec fn scan_inits(bc: Seq<RegInstruction>, idx: int, loop_start: int, i_loc: u8, acc: InitScan) -> Option<InitScan>
    decreases loop_start - idx,
{
    if idx < 0 || loop_start > bc.len() {
        None
    } else if idx + 1 < loop_start {
        let push = bc[idx];
        let store = bc[idx + 1];
        if push.op != OP_REG_PUSH_I32 || store.op != OP_REG_STORE_LOC || store.src1 as u8 != push.dst {
            None
        } else if store.dst == i_loc {
            scan_inits(bc, idx + 2, loop_start, i_loc, (acc.0, acc.1, Some(spec_reg_i32(push))))
        } else if acc.0 is None {
            scan_inits(bc, idx + 2, loop_start, i_loc, (Some(store.dst), Some(spec_reg_i32(push)), acc.2))
        } else {
            None
        }
    } else if idx == loop_start {
        Some(acc)
    } else {
        None
    }
}

/// The accumulator update of a four-instruction body at `body`:
/// `load count; push c; add; store count` or `push c; load count; add; store
/// count` (a constant), or `load i; load count; add; store count` (the
/// induction value).
pub open spec fn short_update(bc: Seq<RegInstruction>, body: int, count_loc: u8, i_loc: u8) -> Option<CountUpdate> {
    let a = bc[body];
    let b = bc[body + 1];
    let add = bc[body + 2];
    let store = bc[body + 3];
    if add.op != OP_REG_ADD || store.op != OP_REG_STORE_LOC || store.dst != count_loc || store.src1 as u8 != add.dst {
        None
    } else if a.op == OP_REG_LOAD_LOC && a.src1 as u8 == count_loc && b.op == OP_REG_PUSH_I32 && add.dst == a.dst {
        Some(CountUpdate::Const(spec_reg_i32(b) as i32))
    } else if a.op == OP_REG_PUSH_I32 && b.op == OP_REG_LOAD_LOC && b.src1 as u8 == count_loc && add.dst == b.dst {
        Some(CountUpdate::Const(spec_reg_i32(a) as i32))
    } else if a.op == OP_REG_LOAD_LOC && a.src1 as u8 == i_loc && b.op == OP_REG_LOAD_LOC && b.src1 as u8 == count_loc
        && add.dst == b.dst {
        Some(CountUpdate::Induction)
    } else {
        None
    }
}

/// The accumulator update of an eight-instruction body at `body`:
/// `load count; load i; push C; mul; add; push K; add; store count`.
pub open spec fn affine_update(bc: Seq<RegInstruction>, body: int, count_loc: u8, i_loc: u8) -> Option<CountUpdate> {
    let count_load = bc[body];
    let i_load = bc[body + 1];
    let mul_const = bc[body + 2];
    let mul = bc[body + 3];
    let add_mul = bc[body + 4];
    let add_const = bc[body + 5];
    let add_final = bc[body + 6];
    let count_store = bc[body + 7];
    if count_load.op != OP_REG_LOAD_LOC || count_load.src1 as u8 != count_loc || i_load.op != OP_REG_LOAD_LOC
        || i_load.src1 as u8 != i_loc || mul_const.op != OP_REG_PUSH_I32 || mul.op != OP_REG_MUL || mul.dst
        != i_load.dst || mul.src1 as u8 != i_load.dst || mul.src2 as u8 != mul_const.dst || add_mul.op
        != OP_REG_ADD || add_mul.dst != count_load.dst || add_mul.src1 as u8 != count_load.dst
        || add_mul.src2 as u8 != mul.dst || add_const.op != OP_REG_PUSH_I32 || add_final.op != OP_REG_ADD
        || add_final.dst != count_load.dst || add_final.src1 as u8 != count_load.dst || add_final.src2 as u8
        != add_const.dst || count_store.op != OP_REG_STORE_LOC || count_store.dst != count_loc
        || count_store.src1 as u8 != add_final.dst {
        None
    } else {
        Some(CountUpdate::Affine { mul: spec_reg_i32(mul_const) as i32, add: spec_reg_i32(add_const) as i32 })
    }
}

/// The step of `i += STEP` written at `at` as `push s; load i; add; store i`
/// or `load i; push s; add; store i`.
pub open spec fn induction_step(bc: Seq<RegInstruction>, at: int, i_loc: u8) -> Option<int> {
    let a = bc[at];
    let b = bc[at + 1];
    let add = bc[at + 2];
    let store = bc[at + 3];
    if add.op != OP_REG_ADD || store.op != OP_REG_STORE_LOC || store.dst != i_loc || store.src1 as u8 != add.dst {
        None
    } else if a.op == OP_REG_PUSH_I32 && b.op == OP_REG_LOAD_LOC && b.src1 as u8 == i_loc {
        Some(spec_reg_i32(a))
    } else if a.op == OP_REG_LOAD_LOC && a.src1 as u8 == i_loc && b.op == OP_REG_PUSH_I32 {
        Some(spec_reg_i32(b))
    } else {
        None
    }
}

/// The recognised loop: `(count_init, i_init, step, update, limit, test)`,
/// when `bc` has the shape of a counted accumulator loop.
pub open spec fn counted_loop_params(bc: Seq<RegInstruction>) -> Option<(int, int, int, CountUpdate, int, u8)> {
    if bc.len() < 19 {
        None
    } else {
        match first_backedge_from(bc, 0) {
            None => None,
            Some(backedge) => {
                let ls = bc[backedge].src1 as int;
                if ls + 3 >= bc.len() || ls + 4 > backedge {
                    None
                } else {
                    let cond_load = bc[ls];
                    let limit_push = bc[ls + 1];
                    let test = bc[ls + 2];
                    let branch = bc[ls + 3];
                    let i_loc = cond_load.src1 as u8;
                    let exit_idx = branch.src1 as int;
                    if cond_load.op != OP_REG_LOAD_LOC || limit_push.op != OP_REG_PUSH_I32 || !(test.op
                        == OP_REG_LT || test.op == OP_REG_LTE || test.op == OP_REG_GT || test.op
                        == OP_REG_GTE) || branch.op != OP_REG_IF_FALSE || branch.dst != test.dst
                        || exit_idx + 1 >= bc.len() || exit_idx <= backedge {
                        None
                    } else {
                        match scan_inits(bc, 0, ls, i_loc, (None, None, None)) {
                            Some((Some(count_loc), Some(count_init), Some(i_init))) => {
                                let body = ls + 4;
                                let upd = if body + 8 == backedge {
                                    short_update(bc, body, count_loc, i_loc)
                                } else if body + 12 == backedge {
                                    affine_update(bc, body, count_loc, i_loc)
                                } else {
                                    None
                                };
                                match upd {
                                    None => None,
                                    Some(u) => match induction_step(bc, backedge - 4, i_loc) {
                                        None => None,
                                        Some(step) => {
                                            let exit_load = bc[exit_idx];
                                            let ret = bc[exit_idx + 1];
                                            if exit_load.op != OP_REG_LOAD_LOC || exit_load.src1 as u8 != count_loc
                                                || ret.op != OP_REG_RETURN || ret.dst != exit_load.dst {
                                                None
                                            } else {
                                                Some((count_init, i_init, step, u, spec_reg_i32(limit_push), test.op))
                                            }
                                        },
                                    },
                                }
                            },
                            _ => None,
                        }
                    }
                }
            },
        }
    }
}

/// The folded loop: code that returns the loop's result, when `bc` is a
/// counted accumulator loop whose iteration count is known, whose induction
/// variable ends within `int32`, and whose result is a safe integer.
pub open spec fn spec_counted_loop(bc: Seq<RegInstruction>) -> Option<Seq<u8>> {
    match counted_loop_params(bc) {
        None => None,
        Some((count_init, i_init, step, u, limit, test)) => match spec_counted_iterations(i_init, limit, step, test) {
            None => None,
            Some(n) => {
                let final_i = i_init + step * n;
                if final_i < -0x8000_0000 || final_i > 0x7fff_ffff {
                    None
                } else {
                    spec_return_js_number(loop_total(count_init, i_init, step, u, n as nat))
                }
            },
        },
    }
}

/// `0 + 1 + ... + (n - 1)`.
pub open spec fn tri(n: nat) -> int
    decreases n,
{
    if n == 0 {
        0
    } else {
        tri((n - 1) as nat) + (n - 1)
    }
}

proof fn lemma_tri(n: nat)
    ensures
        2 * tri(n) == n * (n - 1),
    decreases n,
{
    if n > 0 {
        let m = (n - 1) as nat;
        lemma_tri(m);
        assert(tri(n) == tri(m) + m);
        assert(2 * tri(n) == n * (n - 1)) by (nonlinear_arith)
            requires
                2 * tri(m) == m * (m - 1),
                tri(n) == tri(m) + m,
                n == m + 1,
        ;
        assert(2 * tri(n) == n * (n - 1));
    } else {
        assert(tri(0) == 0);
        assert(2 * tri(n) == n * (n - 1));
    }
}

/// The closed form of `loop_total`.
pub open spec fn closed_form(count: int, i: int, step: int, u: CountUpdate, n: nat) -> int {
    count + match u {
        CountUpdate::Const(c) => n * c,
        CountUpdate::Induction => n * i + step * tri(n),
        CountUpdate::Affine { mul, add } => mul * (n * i + step * tri(n)) + add * n,
    }
}

/// Law: the closed form of a counted loop. Starting from `count` and `i`,
/// `n` iterations give `count + n * c` for a constant update,
/// `count + (n * i + step * tri(n))` for `count += i`, and
/// `count + mul * (n * i + step * tri(n)) + add * n` for `count += i * mul + add`.
pub proof fn lemma_loop_total_closed_form(count: int, i: int, step: int, u: CountUpdate, n: nat)
    ensures
        loop_total(count, i, step, u, n) == closed_form(count, i, step, u, n),
    decreases n,
{
    if n > 0 {
        let m = (n - 1) as nat;
        lemma_loop_total_closed_form(count + update_delta(u, i), i + step, step, u, m);
        assert(loop_total(count, i, step, u, n) == loop_total(count + update_delta(u, i), i + step, step, u, m));
        lemma_tri_shift(m);
        let s = m * (i + step) + step * tri(m);
        assert(i + s == n * i + step * tri(n)) by (nonlinear_arith)
            requires
                s == m * (i + step) + step * tri(m),
                tri(n) == tri(m) + m,
                n == m + 1,
        ;
        let ci = count + update_delta(u, i);
        assert(tri(n) == tri(m) + m);
        match u {
            CountUpdate::Const(c) => {
                assert(c + m * c == n * c) by (nonlinear_arith)
                    requires
                        n == m + 1,
                ;
                assert(closed_form(ci, i + step, step, u, m) == ci + m * c);
                assert(closed_form(count, i, step, u, n) == count + n * c);
            },
            CountUpdate::Induction => {
                assert(closed_form(ci, i + step, step, u, m) == ci + s);
                assert(closed_form(count, i, step, u, n) == count + (n * i + step * tri(n)));
            },
            CountUpdate::Affine { mul, add } => {
                assert((i * mul + add) + (mul * s + add * m) == mul * (i + s) + add * n) by (nonlinear_arith)
                    requires
                        n == m + 1,
                ;
                assert(closed_form(ci, i + step, step, u, m) == ci + (mul * s + add * m));
                assert(closed_form(count, i, step, u, n) == count + (mul * (n * i + step * tri(n)) + add * n));
            },
        }
    } else {
        assert(tri(0) == 0);
        assert(closed_form(count, i, step, u, n) == count) by (nonlinear_arith)
            requires
                n == 0,
                tri(n) == 0,
                closed_form(count, i, step, u, n) == count + match u {
                    CountUpdate::Const(c) => n * c,
                    CountUpdate::Induction => n * i + step * tri(n),
                    CountUpdate::Affine { mul, add } => mul * (n * i + step * tri(n)) + add * n,
                },
        ;
    }
}

proof fn lemma_tri_shift(m: nat)
    ensures
        tri(m + 1) == tri(m) + m,
{
    assert(tri(m + 1) == tri(((m + 1) - 1) as nat) + m);
}

/// Law: the folded constant is the loop's result. When `bc` folds, the code
/// returns the accumulator as it stands after running the loop until its
/// test first fails: the test holds for the induction values of the first
/// `n` iterations and fails after them.
pub proof fn lemma_counted_loop_folds_to_run(bc: Seq<RegInstruction>)
    requires
        spec_counted_loop(bc) is Some,
    ensures
        ({
            let (count_init, i_init, step, u, limit, test) = counted_loop_params(bc).unwrap();
            let n = spec_counted_iterations(i_init, limit, step, test).unwrap();
            &&& n >= 0
            &&& forall|k: int| 0 <= k < n ==> #[trigger] loop_cond(test, i_init + k * step, limit)
            &&& !loop_cond(test, i_init + n * step, limit)
            &&& spec_counted_loop(bc) == spec_return_js_number(loop_total(count_init, i_init, step, u, n as nat))
        }),
{
    let (count_init, i_init, step, u, limit, test) = counted_loop_params(bc).unwrap();
    let n = spec_counted_iterations(i_init, limit, step, test).unwrap();
    lemma_counted_iterations_exact(i_init, limit, step, test, n);
}

/// Bounds of the iteration count of an `int32` counted loop.
proof fn lemma_iterations_bound(init: int, limit: int, step: int, test: u8, n: int)
    requires
        -0x8000_0000 <= init <= 0x7fff_ffff,
        -0x8000_0000 <= limit <= 0x7fff_ffff,
        -0x8000_0000 <= step <= 0x7fff_ffff,
        spec_counted_iterations(init, limit, step, test) == Some(n),
    ensures
        0 <= n,
        n * step <= 0x2_0000_0000,
        n * step >= -0x2_0000_0000,
        n <= 0x2_0000_0000,
{
    lemma_counted_iterations_exact(init, limit, step, test, n);
    if n > 0 {
        // The test holds at n - 1: the last iteration starts before the limit.
        assert(loop_cond(test, init + (n - 1) * step, limit));
        assert((n - 1) * step == n * step - step) by (nonlinear_arith);
        if step > 0 {
            assert(n <= n * step) by (nonlinear_arith)
                requires
                    step >= 1,
                    n >= 0,
            ;
        } else {
            assert(n <= -(n * step)) by (nonlinear_arith)
                requires
                    step <= -1,
                    n >= 0,
            ;
        }
    }
}

/// Recognises a counted accumulator loop and folds it into code that returns
/// its result.
pub fn compile_constant_counted_loop(bytecode: &[RegInstruction]) -> (r: Option<Vec<u8>>)
    ensures
        r matches Some(c) ==> spec_counted_loop(bytecode@) == Some(c@),
        r is None ==> spec_counted_loop(bytecode@) is None,
{
    let ghost bc = bytecode@;
    match recognize_counted_loop(bytecode) {
        None => None,
        Some((count_init, i_init, i_step, update, limit, test)) => {
            let iterations = match checked_counted_iterations(i_init, limit, i_step, test) {
                None => {
                    return None;
                },
                Some(n) => n,
            };
            proof {
                lemma_iterations_bound(i_init as int, limit as int, i_step as int, test, iterations as int);
            }
            let n = iterations as i128;
            assert(0 <= (n / 2) * (n - 1) <= n * n && 0 <= n * ((n - 1) / 2) <= n * n
                && n * n <= 0x4_0000_0000_0000_0000) by (nonlinear_arith)
                requires
                    0 <= n <= 0x2_0000_0000,
            ;
            // Sum of the induction values before each increment:
            //   n * i0 + step * n * (n - 1) / 2
            let pair_count: i128 = if n == 0 {
                0
            } else if n % 2 == 0 {
                (n / 2) * (n - 1)
            } else {
                n * ((n - 1) / 2)
            };
            proof {
                lemma_tri(n as nat);
                assert(pair_count == tri(n as nat)) by (nonlinear_arith)
                    requires
                        2 * tri(n as nat) == n * (n - 1),
                        n >= 0,
                        n == 0 ==> pair_count == 0,
                        n != 0 && n % 2 == 0 ==> pair_count == (n / 2) * (n - 1),
                        n != 0 && n % 2 != 0 ==> pair_count == n * ((n - 1) / 2),
                ;
                lemma_pair_bounds(n as int, i_step as int, pair_count as int, i_init as int);
            }
            let induction_sum: i128 = (i_init as i128) * n + (i_step as i128) * pair_count;
            let final_count: i128 = match update {
                CountUpdate::Const(count_step) => {
                    proof {
                        lemma_mul_bound(count_step as int, n as int, 0x8000_0000, 0x2_0000_0000);
                    }
                    (count_init as i128) + (count_step as i128) * n
                },
                CountUpdate::Induction => (count_init as i128) + induction_sum,
                CountUpdate::Affine { mul, add } => {
                    proof {
                        lemma_mul_bound(mul as int, induction_sum as int, 0x8000_0000, 0x10_0000_0000_0000_0000);
                        lemma_mul_bound(add as int, n as int, 0x8000_0000, 0x2_0000_0000);
                    }
                    let affine_sum = (mul as i128) * induction_sum + (add as i128) * n;
                    (count_init as i128) + affine_sum
                },
            };
            let final_i: i128 = (i_init as i128) + (i_step as i128) * n;
            proof {
                lemma_loop_total_closed_form(count_init as int, i_init as int, i_step as int, update, n as nat);
                assert(final_count == loop_total(count_init as int, i_init as int, i_step as int, update, n as nat));
            }
            if final_i < -0x8000_0000 || final_i > 0x7fff_ffff {
                return None;
            }
            if final_count < -0x8000_0000_0000_0000 || final_count > 0x7fff_ffff_ffff_ffff {
                return None;
            }
            emit_return_js_number(final_count as i64)
        },
    }
}

proof fn lemma_mul_bound(a: int, b: int, ba: int, bb: int)
    requires
        -ba <= a <= ba,
        -bb <= b <= bb,
    ensures
        -(ba * bb) <= a * b <= ba * bb,
{
    assert(-(ba * bb) <= a * b <= ba * bb) by (nonlinear_arith)
        requires
            -ba <= a <= ba,
            -bb <= b <= bb,
    ;
}

proof fn lemma_pair_bounds(n: int, step: int, pair: int, init: int)
    requires
        0 <= n <= 0x2_0000_0000,
        -0x2_0000_0000 <= n * step <= 0x2_0000_0000,
        2 * pair == n * (n - 1),
        -0x8000_0000 <= init <= 0x7fff_ffff,
    ensures
        -0x4_0000_0000_0000_0000 <= step * pair <= 0x4_0000_0000_0000_0000,
        -0x1_0000_0000_0000_0000 <= init * n <= 0x1_0000_0000_0000_0000,
        -0x10_0000_0000_0000_0000 <= init * n + step * pair <= 0x10_0000_0000_0000_0000,
{
    assert(0 <= pair <= n * n) by (nonlinear_arith)
        requires
            2 * pair == n * (n - 1),
            n >= 0,
    ;
    assert(2 * (step * pair) == (n * step) * (n - 1)) by (nonlinear_arith)
        requires
            2 * pair == n * (n - 1),
    ;
    assert(-0x4_0000_0000_0000_0000 <= (n * step) * (n - 1) <= 0x4_0000_0000_0000_0000) by (nonlinear_arith)
        requires
            -0x2_0000_0000 <= n * step <= 0x2_0000_0000,
            0 <= n <= 0x2_0000_0000,
    ;
    lemma_mul_bound(init, n, 0x8000_0000, 0x2_0000_0000);
}

/// The shape of a counted accumulator loop, as `counted_loop_params`
/// describes it.
fn recognize_counted_loop(bytecode: &[RegInstruction]) -> (r: Option<(i32, i32, i32, CountUpdate, i32, u8)>)
    ensures
        r matches Some((c, i, s, u, l, t)) ==> counted_loop_params(bytecode@) == Some(
            (c as int, i as int, s as int, u, l as int, t),
        ),
        r is None ==> counted_loop_params(bytecode@) is None,
{
    let ghost bc = bytecode@;
    let len = bytecode.len();
    if len < 19 {
        return None;
    }
    // The first jump whose target lies inside the body is the back edge.
    let mut k: usize = 0;
    while k < len && !(bytecode[k].op == OP_REG_JMP && (bytecode[k].src1 as usize) < len)
        invariant
            len == bc.len(),
            bc == bytecode@,
            k <= len,
            first_backedge_from(bc, 0) == first_backedge_from(bc, k as int),
        decreases len - k,
    {
        k = k + 1;
    }
    if k >= len {
        return None;
    }
    let backedge_idx = k;
    let loop_start = bytecode[backedge_idx].src1 as usize;
    if loop_start + 3 >= len || loop_start + 4 > backedge_idx {
        return None;
    }
    let cond_load = bytecode[loop_start];
    let limit_push = bytecode[loop_start + 1];
    let test = bytecode[loop_start + 2];
    let branch = bytecode[loop_start + 3];
    if cond_load.op != OP_REG_LOAD_LOC || limit_push.op != OP_REG_PUSH_I32 || !(test.op == OP_REG_LT
        || test.op == OP_REG_LTE || test.op == OP_REG_GT || test.op == OP_REG_GTE) || branch.op
        != OP_REG_IF_FALSE || branch.dst != test.dst {
        return None;
    }
    let i_loc = cond_load.src1 as u8;
    let limit = reg_i32(&limit_push);
    let exit_idx = branch.src1 as usize;
    if exit_idx + 1 >= len || exit_idx <= backedge_idx {
        return None;
    }

    // Initializers must be adjacent PUSH_I32/STORE_LOC pairs before the loop.
    let mut count_loc: Option<u8> = None;
    let mut count_init: Option<i32> = None;
    let mut i_init: Option<i32> = None;
    let mut idx: usize = 0;
    assert(first_backedge_from(bc, backedge_idx as int) == Some(backedge_idx as int));
    assert(scan_inits(bc, 0, loop_start as int, i_loc, (None, None, None)) is None
        ==> counted_loop_params(bc) is None);
    while idx + 1 < loop_start
        invariant
            scan_inits(bc, 0, loop_start as int, i_loc, (None, None, None)) is None
                ==> counted_loop_params(bc) is None,
            bc == bytecode@,
            len == bc.len(),
            loop_start < len,
            loop_start + 3 < bc.len(),
            idx <= loop_start + 1,
            scan_inits(bc, 0, loop_start as int, i_loc, (None, None, None)) == scan_inits(
                bc,
                idx as int,
                loop_start as int,
                i_loc,
                (count_loc, opt_int(count_init), opt_int(i_init)),
            ),
        decreases loop_start - idx,
    {
        let push = bytecode[idx];
        let store = bytecode[idx + 1];
        let ghost acc = (count_loc, opt_int(count_init), opt_int(i_init));
        if push.op != OP_REG_PUSH_I32 || store.op != OP_REG_STORE_LOC || store.src1 as u8 != push.dst {
            assert(scan_inits(bc, idx as int, loop_start as int, i_loc, acc) is None);
            return None;
        }
        if store.dst == i_loc {
            i_init = Some(reg_i32(&push));
        } else if count_loc.is_none() {
            count_loc = Some(store.dst);
            count_init = Some(reg_i32(&push));
        } else {
            assert(scan_inits(bc, idx as int, loop_start as int, i_loc, acc) is None);
            return None;
        }
        idx = idx + 2;
    }
    if idx != loop_start {
        return None;
    }
    let (count_loc, count_init, i_init) = match (count_loc, count_init, i_init) {
        (Some(a), Some(b), Some(c)) => (a, b, c),
        _ => {
            return None;
        },
    };

    // The body updates the accumulator, then the induction variable.
    let body = loop_start + 4;
    let update = if body + 8 == backedge_idx {
        match short_count_update(bytecode, body, count_loc, i_loc) {
            Some(u) => u,
            None => {
                return None;
            },
        }
    } else if body + 12 == backedge_idx {
        match affine_count_update(bytecode, body, count_loc, i_loc) {
            Some(u) => u,
            None => {
                return None;
            },
        }
    } else {
        return None;
    };
    let i_step = match induction_update(bytecode, backedge_idx - 4, i_loc) {
        Some(s) => s,
        None => {
            return None;
        },
    };
    let exit_load = bytecode[exit_idx];
    let ret = bytecode[exit_idx + 1];
    if exit_load.op != OP_REG_LOAD_LOC || exit_load.src1 as u8 != count_loc || ret.op != OP_REG_RETURN
        || ret.dst != exit_load.dst {
        return None;
    }
    Some((count_init, i_init, i_step, update, limit, test.op))
}

pub open spec fn opt_int(o: Option<i32>) -> Option<int> {
    match o {
        Some(v) => Some(v as int),
        None => None,
    }
}

fn short_count_update(bytecode: &[RegInstruction], body: usize, count_loc: u8, i_loc: u8) -> (r: Option<CountUpdate>)
    requires
        body + 3 < bytecode@.len(),
    ensures
        r == short_update(bytecode@, body as int, count_loc, i_loc),
{
    let count_a = bytecode[body];
    let count_b = bytecode[body + 1];
    let count_add = bytecode[body + 2];
    let count_store = bytecode[body + 3];
    if count_add.op != OP_REG_ADD || count_store.op != OP_REG_STORE_LOC || count_store.dst != count_loc
        || count_store.src1 as u8 != count_add.dst {
        return None;
    }
    // QuickJS emits either `load count; push delta; add; store count` or, for
    // OP_add_loc, `push delta; load count; add; store count`.
    if count_a.op == OP_REG_LOAD_LOC && count_a.src1 as u8 == count_loc && count_b.op == OP_REG_PUSH_I32
        && count_add.dst == count_a.dst {
        Some(CountUpdate::Const(reg_i32(&count_b)))
    } else if count_a.op == OP_REG_PUSH_I32 && count_b.op == OP_REG_LOAD_LOC && count_b.src1 as u8
        == count_loc && count_add.dst == count_b.dst {
        Some(CountUpdate::Const(reg_i32(&count_a)))
    } else if count_a.op == OP_REG_LOAD_LOC && count_a.src1 as u8 == i_loc && count_b.op == OP_REG_LOAD_LOC
        && count_b.src1 as u8 == count_loc && count_add.dst == count_b.dst {
        Some(CountUpdate::Induction)
    } else {
        None
    }
}

fn affine_count_update(bytecode: &[RegInstruction], body: usize, count_loc: u8, i_loc: u8) -> (r: Option<CountUpdate>)
    requires
        body + 7 < bytecode@.len(),
    ensures
        r == affine_update(bytecode@, body as int, count_loc, i_loc),
{
    // count = count + i * C + K, after get_loc0_loc1:
    // load count; load i; push C; mul; add; push K; add; store count
    let count_load = bytecode[body];
    let i_load = bytecode[body + 1];
    let mul_const = bytecode[body + 2];
    let mul = bytecode[body + 3];
    let add_mul = bytecode[body + 4];
    let add_const = bytecode[body + 5];
    let add_final = bytecode[body + 6];
    let count_store = bytecode[body + 7];
    if count_load.op != OP_REG_LOAD_LOC || count_load.src1 as u8 != count_loc || i_load.op != OP_REG_LOAD_LOC
        || i_load.src1 as u8 != i_loc || mul_const.op != OP_REG_PUSH_I32 || mul.op != OP_REG_MUL || mul.dst
        != i_load.dst || mul.src1 as u8 != i_load.dst || mul.src2 as u8 != mul_const.dst || add_mul.op
        != OP_REG_ADD || add_mul.dst != count_load.dst || add_mul.src1 as u8 != count_load.dst
        || add_mul.src2 as u8 != mul.dst || add_const.op != OP_REG_PUSH_I32 || add_final.op != OP_REG_ADD
        || add_final.dst != count_load.dst || add_final.src1 as u8 != count_load.dst || add_final.src2 as u8
        != add_const.dst || count_store.op != OP_REG_STORE_LOC || count_store.dst != count_loc
        || count_store.src1 as u8 != add_final.dst {
        return None;
    }
    Some(CountUpdate::Affine { mul: reg_i32(&mul_const), add: reg_i32(&add_const) })
}

fn induction_update(bytecode: &[RegInstruction], at: usize, i_loc: u8) -> (r: Option<i32>)
    requires
        at + 3 < bytecode@.len(),
    ensures
        r matches Some(s) ==> induction_step(bytecode@, at as int, i_loc) == Some(s as int),
        r is None ==> induction_step(bytecode@, at as int, i_loc) is None,
{
    let i_a = bytecode[at];
    let i_b = bytecode[at + 1];
    let i_add = bytecode[at + 2];
    let i_store = bytecode[at + 3];
    if i_add.op != OP_REG_ADD || i_store.op != OP_REG_STORE_LOC || i_store.dst != i_loc || i_store.src1 as u8
        != i_add.dst {
        return None;
    }
    if i_a.op == OP_REG_PUSH_I32 && i_b.op == OP_REG_LOAD_LOC && i_b.src1 as u8 == i_loc {
        Some(reg_i32(&i_a))
    } else if i_a.op == OP_REG_LOAD_LOC && i_a.src1 as u8 == i_loc && i_b.op == OP_REG_PUSH_I32 {
        Some(reg_i32(&i_b))
    } else {
        None
    }
}

} // verus!
