//! Folding of the branchy modulo loop into a constant return:
//!
//! ```text
//! for (var i = 1; i <= N; i++) {
//!     if ((i % A) === 0) sum += i % B;
//!     else if ((i % C) === 0) sum -= i % D;
//!     else sum += ((i & 15) - (i % E));
//! }
//! return sum;
//! ```
//!
//! The loop depends only on the induction variable, so its result is a
//! sum over the multiples of `A`, of `C` and of `lcm(A, C)` (inclusion and
//! exclusion), each summed period by period.
use vstd::prelude::*;

use crate::compiler::{
    RegInstruction, OP_REG_ADD, OP_REG_BIT_AND, OP_REG_IF_FALSE, OP_REG_JMP, OP_REG_LOAD_LOC,
    OP_REG_LTE, OP_REG_MOD, OP_REG_PUSH_I32, OP_REG_RETURN, OP_REG_STORE_LOC, OP_REG_STRICT_EQ,
    OP_REG_SUB,
};
use crate::jit::{reg_i32, spec_reg_i32};
use crate::modsum::{
    gcd, lemma_gcd_divides, lemma_lcm_multiples, lemma_sum_multiples_step, spec_gcd, sum_multiples,
    sum_multiples_mod,
};
use crate::number::{emit_return_js_number, spec_return_js_number};

verus! {

/// `bc` has the register shape of the branchy modulo loop.
pub open spec fn branchy_shape(bc: Seq<RegInstruction>) -> bool {
    &&& bc.len() == 51
    // var sum = S; var i = I; while (i <= N)
    &&& bc[0].op == OP_REG_PUSH_I32
    &&& bc[1].op == OP_REG_STORE_LOC
    &&& bc[2].op == OP_REG_PUSH_I32
    &&& bc[3].op == OP_REG_STORE_LOC
    &&& bc[4].op == OP_REG_LOAD_LOC
    &&& bc[4].src1 as u8 == bc[3].dst
    &&& bc[5].op == OP_REG_PUSH_I32
    &&& bc[6].op == OP_REG_LTE
    &&& bc[7].op == OP_REG_IF_FALSE
    &&& bc[7].src1 == 49
    // if ((i % A) === 0) sum += i % B
    &&& bc[8].op == OP_REG_LOAD_LOC
    &&& bc[8].src1 as u8 == bc[3].dst
    &&& bc[9].op == OP_REG_PUSH_I32
    &&& bc[10].op == OP_REG_MOD
    &&& bc[11].op == OP_REG_PUSH_I32
    &&& spec_reg_i32(bc[11]) == 0
    &&& bc[12].op == OP_REG_STRICT_EQ
    &&& bc[13].op == OP_REG_IF_FALSE
    &&& bc[13].src1 == 21
    &&& bc[14].op == OP_REG_LOAD_LOC
    &&& bc[14].src1 as u8 == bc[1].dst
    &&& bc[15].op == OP_REG_LOAD_LOC
    &&& bc[15].src1 as u8 == bc[3].dst
    &&& bc[16].op == OP_REG_PUSH_I32
    &&& bc[17].op == OP_REG_MOD
    &&& bc[18].op == OP_REG_ADD
    &&& bc[19].op == OP_REG_STORE_LOC
    &&& bc[19].dst == bc[1].dst
    &&& bc[20].op == OP_REG_JMP
    &&& bc[20].src1 == 44
    // else if ((i % C) === 0) sum -= i % D
    &&& bc[21].op == OP_REG_LOAD_LOC
    &&& bc[21].src1 as u8 == bc[3].dst
    &&& bc[22].op == OP_REG_PUSH_I32
    &&& bc[23].op == OP_REG_MOD
    &&& bc[24].op == OP_REG_PUSH_I32
    &&& spec_reg_i32(bc[24]) == 0
    &&& bc[25].op == OP_REG_STRICT_EQ
    &&& bc[26].op == OP_REG_IF_FALSE
    &&& bc[26].src1 == 34
    &&& bc[27].op == OP_REG_LOAD_LOC
    &&& bc[27].src1 as u8 == bc[1].dst
    &&& bc[28].op == OP_REG_LOAD_LOC
    &&& bc[28].src1 as u8 == bc[3].dst
    &&& bc[29].op == OP_REG_PUSH_I32
    &&& bc[30].op == OP_REG_MOD
    &&& bc[31].op == OP_REG_SUB
    &&& bc[32].op == OP_REG_STORE_LOC
    &&& bc[32].dst == bc[1].dst
    &&& bc[33].op == OP_REG_JMP
    &&& bc[33].src1 == 44
    // else sum += ((i & MASK) - (i % E))
    &&& bc[34].op == OP_REG_LOAD_LOC
    &&& bc[34].src1 as u8 == bc[1].dst
    &&& bc[35].op == OP_REG_LOAD_LOC
    &&& bc[35].src1 as u8 == bc[3].dst
    &&& bc[36].op == OP_REG_PUSH_I32
    &&& bc[37].op == OP_REG_BIT_AND
    &&& bc[38].op == OP_REG_LOAD_LOC
    &&& bc[38].src1 as u8 == bc[3].dst
    &&& bc[39].op == OP_REG_PUSH_I32
    &&& bc[40].op == OP_REG_MOD
    &&& bc[41].op == OP_REG_SUB
    &&& bc[42].op == OP_REG_ADD
    &&& bc[43].op == OP_REG_STORE_LOC
    &&& bc[43].dst == bc[1].dst
    // i++; back to the test; return sum
    &&& bc[44].op == OP_REG_PUSH_I32
    &&& spec_reg_i32(bc[44]) == 1
    &&& bc[45].op == OP_REG_LOAD_LOC
    &&& bc[45].src1 as u8 == bc[3].dst
    &&& bc[46].op == OP_REG_ADD
    &&& bc[47].op == OP_REG_STORE_LOC
    &&& bc[47].dst == bc[3].dst
    &&& bc[48].op == OP_REG_JMP
    &&& bc[48].src1 == 4
    &&& bc[49].op == OP_REG_LOAD_LOC
    &&& bc[49].src1 as u8 == bc[1].dst
    &&& bc[50].op == OP_REG_RETURN
}

/// The parameters of a branchy loop: `(S, I, N, A, B, C, D, MASK, E)`.
pub open spec fn branchy_params(bc: Seq<RegInstruction>) -> (int, int, int, int, int, int, int, int, int) {
    (
        spec_reg_i32(bc[0]),
        spec_reg_i32(bc[2]),
        spec_reg_i32(bc[5]),
        spec_reg_i32(bc[9]),
        spec_reg_i32(bc[16]),
        spec_reg_i32(bc[22]),
        spec_reg_i32(bc[29]),
        spec_reg_i32(bc[36]),
        spec_reg_i32(bc[39]),
    )
}

/// The parameters that the folding handles: the loop starts at 1, runs at
/// least once, every divisor and modulus is positive, and the mask is 15.
pub open spec fn branchy_foldable(p: (int, int, int, int, int, int, int, int, int)) -> bool {
    let (s, i, n, a, b, c, d, mask, e) = p;
    i == 1 && a > 0 && b > 0 && c > 0 && d > 0 && e > 0 && n >= i && mask == 15
}

/// The loop's result as sums over multiples, with `lcm(A, C)` as
/// `A * C / gcd(A, C)`:
/// `S + sum_A(i % B) - (sum_C(i % D) - sum_lcm(i % D))
///   + (sum_all(i % 16) - sum_A(i % 16) - sum_C(i % 16) + sum_lcm(i % 16))
///   - (sum_all(i % E) - sum_A(i % E) - sum_C(i % E) + sum_lcm(i % E))`.
pub open spec fn branchy_value(p: (int, int, int, int, int, int, int, int, int)) -> int {
    let (s, i, n, a, b, c, d, mask, e) = p;
    let l = a * c / spec_gcd(a, c);
    let second = sum_multiples(n, c, d) - sum_multiples(n, l, d);
    let else_and = sum_multiples(n, 1, 16) - sum_multiples(n, a, 16) - sum_multiples(n, c, 16)
        + sum_multiples(n, l, 16);
    let else_mod = sum_multiples(n, 1, e) - sum_multiples(n, a, e) - sum_multiples(n, c, e)
        + sum_multiples(n, l, e);
    s + sum_multiples(n, a, b) - second + (else_and - else_mod)
}

/// The else-branch contribution `else_and - else_mod` of `branchy_value`.
pub open spec fn branchy_else_part(p: (int, int, int, int, int, int, int, int, int)) -> int {
    let (s, i, n, a, b, c, d, mask, e) = p;
    let l = a * c / spec_gcd(a, c);
    let else_and = sum_multiples(n, 1, 16) - sum_multiples(n, a, 16) - sum_multiples(n, c, 16)
        + sum_multiples(n, l, 16);
    let else_mod = sum_multiples(n, 1, e) - sum_multiples(n, a, e) - sum_multiples(n, c, e)
        + sum_multiples(n, l, e);
    else_and - else_mod
}

/// The folded loop, when `bc` is the branchy loop with foldable parameters,
/// an else-branch contribution within `i64` and a safe-integer result.
pub open spec fn spec_branchy_loop(bc: Seq<RegInstruction>) -> Option<Seq<u8>> {
    let p = branchy_params(bc);
    if branchy_shape(bc) && branchy_foldable(p) && -0x8000_0000_0000_0000 <= branchy_else_part(p)
        <= 0x7fff_ffff_ffff_ffff {
        spec_return_js_number(branchy_value(branchy_params(bc)))
    } else {
        None
    }
}

/// Recognises the branchy modulo loop and folds it into code that returns
/// its result.
pub fn compile_branchy_modulo_loop(bytecode: &[RegInstruction]) -> (r: Option<Vec<u8>>)
    ensures
        r matches Some(c) ==> spec_branchy_loop(bytecode@) == Some(c@),
        r is None ==> spec_branchy_loop(bytecode@) is None,
{
    if !is_branchy_shape(bytecode) {
        return None;
    }
    let i_init = reg_i32(&bytecode[2]) as i64;
    let limit = reg_i32(&bytecode[5]) as i64;
    let sum_init = reg_i32(&bytecode[0]) as i64;
    let div_a = reg_i32(&bytecode[9]) as i64;
    let mod_b = reg_i32(&bytecode[16]) as i64;
    let div_c = reg_i32(&bytecode[22]) as i64;
    let mod_d = reg_i32(&bytecode[29]) as i64;
    let mask = reg_i32(&bytecode[36]) as i64;
    let mod_e = reg_i32(&bytecode[39]) as i64;

    // The folding is written for the canonical non-negative loop.
    if i_init != 1 || div_a <= 0 || mod_b <= 0 || div_c <= 0 || mod_d <= 0 || mod_e <= 0 || limit
        < i_init {
        return None;
    }
    // For non-negative i, i & 15 is i % 16.
    if mask != 15 {
        return None;
    }
    let g = gcd(div_a, div_c);
    proof {
        lemma_gcd_divides(div_a as int, div_c as int);
    }
    assert(div_a * div_c <= 0x7fff_ffff * 0x7fff_ffff) by (nonlinear_arith)
        requires
            0 < div_a <= 0x7fff_ffff,
            0 < div_c <= 0x7fff_ffff,
    ;
    let ac = div_a * div_c;
    let div_ab = ac / g;
    assert(ac >= g) by {
        assert(g <= div_a) by {
            vstd::arithmetic::div_mod::lemma_fundamental_div_mod(div_a as int, g as int);
            assert(div_a == g * (div_a / g)) ;
            assert(div_a / g >= 1) by (nonlinear_arith)
                requires
                    div_a == g * (div_a / g),
                    div_a > 0,
                    g > 0,
            ;
            assert(g * (div_a / g) >= g) by (nonlinear_arith)
                requires
                    div_a / g >= 1,
                    g > 0,
            ;
        }
        assert(div_a * div_c >= div_a) by (nonlinear_arith)
            requires
                div_c >= 1,
                div_a > 0,
        ;
    }
    assert(div_ab > 0) by (nonlinear_arith)
        requires
            div_ab == ac / g,
            ac >= g,
            g > 0,
    ;
    let sum_div_a = sum_multiples_mod(limit, div_a, mod_b);
    let sum_div_c = sum_multiples_mod(limit, div_c, mod_d);
    let sum_div_ab_mod_d = sum_multiples_mod(limit, div_ab, mod_d);

    let sum_all_mod_16 = sum_multiples_mod(limit, 1, 16);
    let sum_div_a_mod_16 = sum_multiples_mod(limit, div_a, 16);
    let sum_div_c_mod_16 = sum_multiples_mod(limit, div_c, 16);
    let sum_div_ab_mod_16 = sum_multiples_mod(limit, div_ab, 16);

    let sum_all_mod_e = sum_multiples_mod(limit, 1, mod_e);
    let sum_div_a_mod_e = sum_multiples_mod(limit, div_a, mod_e);
    let sum_div_c_mod_e = sum_multiples_mod(limit, div_c, mod_e);
    let sum_div_ab_mod_e = sum_multiples_mod(limit, div_ab, mod_e);

    let sum_second_branch = sum_div_c - sum_div_ab_mod_d;
    let sum_else_and = (sum_all_mod_16 as i128) - (sum_div_a_mod_16 as i128) - (sum_div_c_mod_16 as i128)
        + (sum_div_ab_mod_16 as i128);
    let sum_else_mod = (sum_all_mod_e as i128) - (sum_div_a_mod_e as i128) - (sum_div_c_mod_e as i128)
        + (sum_div_ab_mod_e as i128);
    // Every partial result before the else-branch difference stays within
    // i64, so checked i64 arithmetic fails only at that difference or at
    // the final sum.
    assert(-0x8000_0000_0000_0000 <= (sum_init as i128) + (sum_div_a as i128) - (sum_second_branch as i128)
        <= 0x7fff_ffff_ffff_ffff);
    assert(-0x8000_0000_0000_0000 <= (sum_all_mod_e as i128) - (sum_div_a_mod_e as i128) - (sum_div_c_mod_e as i128)
        <= 0x7fff_ffff_ffff_ffff);
    assert(-0x8000_0000_0000_0000 <= sum_else_mod <= 0x7fff_ffff_ffff_ffff);
    assert(-0x8000_0000_0000_0000 <= sum_else_and <= 0x7fff_ffff_ffff_ffff);
    let else_part = sum_else_and - sum_else_mod;
    if else_part < -0x8000_0000_0000_0000 || else_part > 0x7fff_ffff_ffff_ffff {
        return None;
    }
    let sum: i128 = (sum_init as i128) + (sum_div_a as i128) - (sum_second_branch as i128) + else_part;
    proof {
        assert(sum == branchy_value(branchy_params(bytecode@)));
    }
    if sum < -0x8000_0000_0000_0000 || sum > 0x7fff_ffff_ffff_ffff {
        return None;
    }
    emit_return_js_number(sum as i64)
}

fn is_branchy_shape(bc: &[RegInstruction]) -> (r: bool)
    ensures
        r == branchy_shape(bc@),
{
    if bc.len() != 51 {
        return false;
    }
    let sum_loc = bc[1].dst;
    let i_loc = bc[3].dst;
    !(bc[0].op != OP_REG_PUSH_I32 || bc[1].op != OP_REG_STORE_LOC || bc[2].op != OP_REG_PUSH_I32
        || bc[3].op != OP_REG_STORE_LOC || bc[4].op != OP_REG_LOAD_LOC || bc[4].src1 as u8 != i_loc
        || bc[5].op != OP_REG_PUSH_I32 || bc[6].op != OP_REG_LTE || bc[7].op != OP_REG_IF_FALSE
        || bc[7].src1 != 49
    // First branch: (i % div_a) === 0 => sum += i % mod_b
    || bc[8].op != OP_REG_LOAD_LOC || bc[8].src1 as u8 != i_loc || bc[9].op != OP_REG_PUSH_I32
        || bc[10].op != OP_REG_MOD || bc[11].op != OP_REG_PUSH_I32 || reg_i32(&bc[11]) != 0
        || bc[12].op != OP_REG_STRICT_EQ || bc[13].op != OP_REG_IF_FALSE || bc[13].src1 != 21
        || bc[14].op != OP_REG_LOAD_LOC || bc[14].src1 as u8 != sum_loc || bc[15].op != OP_REG_LOAD_LOC
        || bc[15].src1 as u8 != i_loc || bc[16].op != OP_REG_PUSH_I32 || bc[17].op != OP_REG_MOD
        || bc[18].op != OP_REG_ADD || bc[19].op != OP_REG_STORE_LOC || bc[19].dst != sum_loc
        || bc[20].op != OP_REG_JMP || bc[20].src1 != 44
    // Second branch: (i % div_c) === 0 => sum -= i % mod_d
    || bc[21].op != OP_REG_LOAD_LOC || bc[21].src1 as u8 != i_loc || bc[22].op != OP_REG_PUSH_I32
        || bc[23].op != OP_REG_MOD || bc[24].op != OP_REG_PUSH_I32 || reg_i32(&bc[24]) != 0
        || bc[25].op != OP_REG_STRICT_EQ || bc[26].op != OP_REG_IF_FALSE || bc[26].src1 != 34
        || bc[27].op != OP_REG_LOAD_LOC || bc[27].src1 as u8 != sum_loc || bc[28].op != OP_REG_LOAD_LOC
        || bc[28].src1 as u8 != i_loc || bc[29].op != OP_REG_PUSH_I32 || bc[30].op != OP_REG_MOD
        || bc[31].op != OP_REG_SUB || bc[32].op != OP_REG_STORE_LOC || bc[32].dst != sum_loc
        || bc[33].op != OP_REG_JMP || bc[33].src1 != 44
    // Else branch: sum += ((i & mask) - (i % mod_e))
    || bc[34].op != OP_REG_LOAD_LOC || bc[34].src1 as u8 != sum_loc || bc[35].op != OP_REG_LOAD_LOC
        || bc[35].src1 as u8 != i_loc || bc[36].op != OP_REG_PUSH_I32 || bc[37].op != OP_REG_BIT_AND
        || bc[38].op != OP_REG_LOAD_LOC || bc[38].src1 as u8 != i_loc || bc[39].op != OP_REG_PUSH_I32
        || bc[40].op != OP_REG_MOD || bc[41].op != OP_REG_SUB || bc[42].op != OP_REG_ADD || bc[43].op
        != OP_REG_STORE_LOC || bc[43].dst != sum_loc
    // Induction update and return.
    || bc[44].op != OP_REG_PUSH_I32 || reg_i32(&bc[44]) != 1 || bc[45].op != OP_REG_LOAD_LOC
        || bc[45].src1 as u8 != i_loc || bc[46].op != OP_REG_ADD || bc[47].op != OP_REG_STORE_LOC
        || bc[47].dst != i_loc || bc[48].op != OP_REG_JMP || bc[48].src1 != 4 || bc[49].op
        != OP_REG_LOAD_LOC || bc[49].src1 as u8 != sum_loc || bc[50].op != OP_REG_RETURN)
}

/// What iteration `i` adds to `sum`: `i % B` when `A` divides `i`, else
/// `-(i % D)` when `C` divides `i`, else `(i & 15) - (i % E)`.
pub open spec fn branchy_step(i: int, a: int, b: int, c: int, d: int, e: int) -> int {
    if i % a == 0 {
        i % b
    } else if i % c == 0 {
        -(i % d)
    } else {
        ((i as u32) & 15u32) as int - i % e
    }
}

/// `sum` after the iterations `i = 1..=n`, starting from `s`.
pub open spec fn branchy_run(s: int, n: int, a: int, b: int, c: int, d: int, e: int) -> int
    decreases n,
{
    if n <= 0 {
        s
    } else {
        branchy_run(s, n - 1, a, b, c, d, e) + branchy_step(n, a, b, c, d, e)
    }
}

/// `branchy_value` with the loop bound as a parameter.
pub open spec fn branchy_value_upto(s: int, n: int, a: int, b: int, c: int, d: int, e: int) -> int {
    branchy_value((s, 1, n, a, b, c, d, 15, e))
}

proof fn lemma_branchy_induction(s: int, n: int, a: int, b: int, c: int, d: int, e: int)
    requires
        a > 0,
        b > 0,
        c > 0,
        d > 0,
        e > 0,
        0 <= n <= 0x7fff_ffff,
    ensures
        branchy_value_upto(s, n, a, b, c, d, e) == branchy_run(s, n, a, b, c, d, e),
    decreases n,
{
    let l = a * c / spec_gcd(a, c);
    lemma_lcm_multiples(a, c, n);
    if n > 0 {
        lemma_branchy_induction(s, n - 1, a, b, c, d, e);
        lemma_sum_multiples_step(n, a, b);
        lemma_sum_multiples_step(n, c, d);
        lemma_sum_multiples_step(n, l, d);
        lemma_sum_multiples_step(n, 1, 16);
        lemma_sum_multiples_step(n, a, 16);
        lemma_sum_multiples_step(n, c, 16);
        lemma_sum_multiples_step(n, l, 16);
        lemma_sum_multiples_step(n, 1, e);
        lemma_sum_multiples_step(n, a, e);
        lemma_sum_multiples_step(n, c, e);
        lemma_sum_multiples_step(n, l, e);
        let x = n as u32;
        assert(x & 15u32 == x % 16) by (bit_vector);
        assert(((n as u32) & 15u32) as int == n % 16);
    }
}

/// Law: the folding is exact. For the branchy loop with foldable
/// parameters, the folded value is the `sum` that running the loop gives,
/// iteration by iteration, for `i = 1..=N`.
pub proof fn lemma_branchy_fold_is_exact(bc: Seq<RegInstruction>)
    requires
        branchy_shape(bc),
        branchy_foldable(branchy_params(bc)),
    ensures
        ({
            let (s, i, n, a, b, c, d, mask, e) = branchy_params(bc);
            branchy_value(branchy_params(bc)) == branchy_run(s, n, a, b, c, d, e)
        }),
{
    let (s, i, n, a, b, c, d, mask, e) = branchy_params(bc);
    assert(n <= 0x7fff_ffff);
    lemma_branchy_induction(s, n, a, b, c, d, e);
}

} // verus!
