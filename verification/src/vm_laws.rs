//! What the register interpreter's operators compute on `int32` operands,
//! stated in terms of integer arithmetic and of the bits of the operands.
use vstd::prelude::*;

use crate::bytes::wrap32;
use crate::compiler::{
    OP_REG_ADD, OP_REG_BIT_AND, OP_REG_BIT_OR, OP_REG_BIT_XOR, OP_REG_GT, OP_REG_GTE, OP_REG_LT, OP_REG_LTE,
    OP_REG_MOD, OP_REG_MUL, OP_REG_SAR, OP_REG_SHL, OP_REG_SHR, OP_REG_STRICT_EQ, OP_REG_SUB,
};
use crate::value::{payload_i32, spec_is_number, spec_to_int32, spec_to_uint32, JsVal, JS_TAG_INT};
use crate::vm::{bool_val, float_of_int, int_val, is_binary_op, spec_binary, BinResult};
use vstd::arithmetic::power2::pow2;
use vstd::bits::lemma_u32_shr_is_div;

verus! {

/// Bit `k` (0 = least significant) of the 32-bit pattern of `v`.
pub open spec fn bit(v: i32, k: u32) -> bool {
    (v >> k) & 1i32 == 1i32
}

/// The `int32` that a binary operation gives, when it gives one.
pub open spec fn int_result(r: BinResult) -> i32 {
    payload_i32(r->Value_0) as i32
}

/// `r` is an `int32` value.
pub open spec fn gives_int(r: BinResult) -> bool {
    r is Value && r->Value_0.tag == JS_TAG_INT
}

/// An `int32` value converts to itself (ToInt32) and to its pattern (ToUint32).
proof fn lemma_int_conversions(x: i32)
    ensures
        payload_i32(int_val(x as int)) == x,
        spec_to_int32(int_val(x as int)) == x,
        spec_to_uint32(int_val(x as int)) == wrap32(x as int),
        0 <= wrap32(x as int) < 0x1_0000_0000,
{
}

/// Law: the bitwise operators work bit by bit. For `int32` operands `x` and
/// `y`, `&`, `|` and `^` give an `int32` whose bit `k` is set exactly when
/// bit `k` is set in both, in either, or in exactly one of `x` and `y`.
pub proof fn lemma_bitwise_by_bit(x: i32, y: i32, k: u32)
    requires
        0 <= k < 32,
    ensures
        gives_int(spec_binary(OP_REG_BIT_AND, int_val(x as int), int_val(y as int))),
        bit(int_result(spec_binary(OP_REG_BIT_AND, int_val(x as int), int_val(y as int))), k) == (bit(x, k)
            && bit(y, k)),
        gives_int(spec_binary(OP_REG_BIT_OR, int_val(x as int), int_val(y as int))),
        bit(int_result(spec_binary(OP_REG_BIT_OR, int_val(x as int), int_val(y as int))), k) == (bit(x, k)
            || bit(y, k)),
        gives_int(spec_binary(OP_REG_BIT_XOR, int_val(x as int), int_val(y as int))),
        bit(int_result(spec_binary(OP_REG_BIT_XOR, int_val(x as int), int_val(y as int))), k) == (bit(x, k)
            != bit(y, k)),
{
    lemma_int_conversions(x);
    lemma_int_conversions(y);
    let a = x & y;
    let o = x | y;
    let e = x ^ y;
    lemma_int_conversions(a);
    lemma_int_conversions(o);
    lemma_int_conversions(e);
    assert(((a >> k) & 1i32 == 1i32) == (((x >> k) & 1i32 == 1i32) && ((y >> k) & 1i32 == 1i32))) by (bit_vector)
        requires
            a == x & y,
            0 <= k < 32,
    ;
    assert(((o >> k) & 1i32 == 1i32) == (((x >> k) & 1i32 == 1i32) || ((y >> k) & 1i32 == 1i32))) by (bit_vector)
        requires
            o == x | y,
            0 <= k < 32,
    ;
    assert(((e >> k) & 1i32 == 1i32) == (((x >> k) & 1i32 == 1i32) != ((y >> k) & 1i32 == 1i32))) by (bit_vector)
        requires
            e == x ^ y,
            0 <= k < 32,
    ;
}

/// Law: `+`, `-` and `*` of two `int32` values. A result within `int32` is
/// that `int32`; beyond it, `+` stops the run, `-` gives the float64 of the
/// exact difference and `*` asks the host for float64 arithmetic.
pub proof fn lemma_arith_ints(x: i32, y: i32)
    ensures
        spec_binary(OP_REG_ADD, int_val(x as int), int_val(y as int)) == (if -0x8000_0000 <= x + y
            <= 0x7fff_ffff {
            BinResult::Value(int_val(x + y))
        } else {
            BinResult::Abort
        }),
        spec_binary(OP_REG_SUB, int_val(x as int), int_val(y as int)) == (if -0x8000_0000 <= x - y
            <= 0x7fff_ffff {
            BinResult::Value(int_val(x - y))
        } else {
            BinResult::Value(float_of_int(x - y))
        }),
        spec_binary(OP_REG_MUL, int_val(x as int), int_val(y as int)) == (if -0x8000_0000 <= x * y
            <= 0x7fff_ffff {
            BinResult::Value(int_val(x * y))
        } else {
            BinResult::NeedsFloat
        }),
{
    lemma_int_conversions(x);
    lemma_int_conversions(y);
}

/// Law: comparisons and `===` of two `int32` values give the boolean of the
/// integer relation.
pub proof fn lemma_compare_ints(x: i32, y: i32)
    ensures
        spec_binary(OP_REG_LT, int_val(x as int), int_val(y as int)) == BinResult::Value(bool_val(x < y)),
        spec_binary(OP_REG_LTE, int_val(x as int), int_val(y as int)) == BinResult::Value(bool_val(x <= y)),
        spec_binary(OP_REG_GT, int_val(x as int), int_val(y as int)) == BinResult::Value(bool_val(x > y)),
        spec_binary(OP_REG_GTE, int_val(x as int), int_val(y as int)) == BinResult::Value(bool_val(x >= y)),
        spec_binary(OP_REG_STRICT_EQ, int_val(x as int), int_val(y as int)) == BinResult::Value(
            bool_val(x == y),
        ),
{
    lemma_int_conversions(x);
    lemma_int_conversions(y);
}

/// The shift count that a shift by `y` uses: ToUint32(y) modulo 32.
pub open spec fn shift_count(y: i32) -> u32 {
    (wrap32(y as int) % 32) as u32
}

/// The 32-bit pattern of `x` and the low five bits of `y`, as the shift
/// operators read them.
proof fn lemma_shift_operands(x: i32, y: i32)
    ensures
        (x as u32) as int == wrap32(x as int),
        ((spec_to_uint32(int_val(y as int)) as u32) & 31u32) == shift_count(y),
        shift_count(y) < 32,
{
    lemma_int_conversions(x);
    lemma_int_conversions(y);
    let xu = x as u32;
    assert((x >= 0 ==> xu == x) && (x < 0 ==> xu == x + 0x1_0000_0000)) by (bit_vector)
        requires
            xu == x as u32,
    ;
    let w = wrap32(y as int) as u32;
    assert(w & 31u32 == w % 32) by (bit_vector);
}

/// Law: `>>>` of two `int32` values divides the 32-bit pattern of `x` by
/// 2 to the shift count, giving an `int32` when the quotient fits and its
/// float64 otherwise.
pub proof fn lemma_shr_ints(x: i32, y: i32)
    ensures
        spec_binary(OP_REG_SHR, int_val(x as int), int_val(y as int)) == ({
            let u = wrap32(x as int) / pow2(shift_count(y) as nat) as int;
            if u <= 0x7fff_ffff {
                BinResult::Value(int_val(u))
            } else {
                BinResult::Value(float_of_int(u))
            }
        }),
{
    lemma_int_conversions(x);
    lemma_int_conversions(y);
    lemma_shift_operands(x, y);
    let s = shift_count(y);
    lemma_u32_shr_is_div(x as u32, s);
}

/// Law: `<<` and `>>` of two `int32` values move the bits of `x` by the
/// shift count `s`: bit `k` of `x << y` is bit `k - s` of `x` (clear below
/// `s`), and bit `k` of `x >> y` is bit `k + s` of `x` (the sign bit beyond
/// bit 31).
pub proof fn lemma_shifts_by_bit(x: i32, y: i32, k: u32)
    requires
        k < 32,
    ensures
        gives_int(spec_binary(OP_REG_SHL, int_val(x as int), int_val(y as int))),
        bit(int_result(spec_binary(OP_REG_SHL, int_val(x as int), int_val(y as int))), k) == (k >= shift_count(
            y,
        ) && bit(x, (k - shift_count(y)) as u32)),
        gives_int(spec_binary(OP_REG_SAR, int_val(x as int), int_val(y as int))),
        bit(int_result(spec_binary(OP_REG_SAR, int_val(x as int), int_val(y as int))), k) == bit(
            x,
            if k + shift_count(y) < 32 { (k + shift_count(y)) as u32 } else { 31u32 },
        ),
{
    lemma_int_conversions(x);
    lemma_int_conversions(y);
    lemma_shift_operands(x, y);
    let s = shift_count(y);
    let l = ((x as u32) << s) as i32;
    let r = x >> s;
    lemma_int_conversions(l);
    lemma_int_conversions(r);
    assert(((l >> k) & 1i32 == 1i32) == (k >= s && ((x >> ((k - s) as u32)) & 1i32 == 1i32))) by (bit_vector)
        requires
            l == ((x as u32) << s) as i32,
            s < 32,
            k < 32,
    ;
    let t: u32 = if k + s < 32 { (k + s) as u32 } else { 31u32 };
    assert(((r >> k) & 1i32 == 1i32) == ((x >> t) & 1i32 == 1i32)) by (bit_vector)
        requires
            r == x >> s,
            s < 32,
            k < 32,
            t == if k + s < 32 { (k + s) as u32 } else { 31u32 },
    ;
}

/// Law: `%` of two `int32` values is the remainder of division truncated
/// towards zero: `x - r` is a multiple of `y`, `r` is smaller than `y` in
/// magnitude and has the sign of `x` (or is 0). Division by 0, and
/// `-2^31 % -1`, give NaN.
pub proof fn lemma_mod_ints(x: i32, y: i32)
    ensures
        (y == 0 || (x == -0x8000_0000 && y == -1)) ==> spec_binary(OP_REG_MOD, int_val(x as int), int_val(y as int))
            == BinResult::Nan,
        (y != 0 && !(x == -0x8000_0000 && y == -1)) ==> gives_int(
            spec_binary(OP_REG_MOD, int_val(x as int), int_val(y as int)),
        ),
        (y != 0 && !(x == -0x8000_0000 && y == -1)) ==> ({
            let r = int_result(spec_binary(OP_REG_MOD, int_val(x as int), int_val(y as int))) as int;
            let ay = if y < 0 { -(y as int) } else { y as int };
            &&& (x - r) % ay == 0
            &&& (if r < 0 { -r } else { r }) < ay
            &&& (r == 0 || (r < 0) == (x < 0))
        }),
{
    lemma_int_conversions(x);
    lemma_int_conversions(y);
    if y != 0 && !(x == -0x8000_0000 && y == -1) {
        let ay: int = if y < 0 { -(y as int) } else { y as int };
        let r: int = crate::vm::trunc_rem(x as int, y as int);
        if x >= 0 {
            lemma_remainder_multiple(x as int, ay);
        } else {
            lemma_remainder_multiple(-(x as int), ay);
            let q = (-(x as int)) / ay;
            lemma_neg_multiple(q, ay);
        }
        let ri = r as i32;
        lemma_int_conversions(ri);
    }
}

/// `n - n % d` is a multiple of `d`.
proof fn lemma_remainder_multiple(n: int, d: int)
    requires
        n >= 0,
        d > 0,
    ensures
        n - n % d == (n / d) * d,
        ((n / d) * d) % d == 0,
{
    vstd::arithmetic::div_mod::lemma_fundamental_div_mod(n, d);
    vstd::arithmetic::mul::lemma_mul_is_commutative(d, n / d);
    vstd::arithmetic::div_mod::lemma_mod_multiples_basic(n / d, d);
}

/// The negation of a multiple of `d` is a multiple of `d`.
proof fn lemma_neg_multiple(q: int, d: int)
    requires
        d > 0,
    ensures
        (-(q * d)) % d == 0,
{
    vstd::arithmetic::mul::lemma_mul_unary_negation(q, d);
    vstd::arithmetic::div_mod::lemma_mod_multiples_basic(-q, d);
}

/// Law: operands that are not both numbers. Every operator but `===` stops
/// the run; `===` is true exactly when the tags and the `int32` payloads
/// agree.
pub proof fn lemma_non_number_operands(op: u8, a: JsVal, b: JsVal)
    requires
        is_binary_op(op),
        !(spec_is_number(a) && spec_is_number(b)),
    ensures
        op != OP_REG_STRICT_EQ ==> spec_binary(op, a, b) == BinResult::Abort,
        op == OP_REG_STRICT_EQ ==> spec_binary(op, a, b) == BinResult::Value(
            bool_val(a.tag == b.tag && payload_i32(a) == payload_i32(b)),
        ),
{
}

/// Law: numbers that are not both `int32` values. `+`, `-`, `*`, `%` and
/// `===` ask the host for float64 arithmetic, and the comparisons stop the
/// run.
pub proof fn lemma_float_operands(op: u8, a: JsVal, b: JsVal)
    requires
        spec_is_number(a) && spec_is_number(b),
        !(a.tag == JS_TAG_INT && b.tag == JS_TAG_INT),
    ensures
        (op == OP_REG_ADD || op == OP_REG_SUB || op == OP_REG_MUL || op == OP_REG_MOD || op == OP_REG_STRICT_EQ)
            ==> spec_binary(op, a, b) == BinResult::NeedsFloat,
        (op == OP_REG_LT || op == OP_REG_LTE || op == OP_REG_GT || op == OP_REG_GTE) ==> spec_binary(op, a, b)
            == BinResult::Abort,
{
}

} // verus!
