//! Numbers as the generated code returns them: an `int32` when the value fits,
//! otherwise the IEEE-754 binary64 encoding of the (exactly representable)
//! integer.
use vstd::arithmetic::power2::{lemma_pow2_adds, lemma_pow2_pos, lemma_pow2_strictly_increases, pow2};
use vstd::prelude::*;

use crate::bytes::{le32_bytes, le64_bytes, push_le32, push_le32_signed, push_all, wrap32};

verus! {

/// The largest integer `n` such that every integer in `[-n, n]` is a double.
pub const MAX_SAFE_JS_INTEGER: i64 = 9_007_199_254_740_991;

/// `bits` is the binary64 encoding of the non-zero integer `v` as a normal
/// number: its sign bit is set exactly when `v < 0`, its biased exponent `e`
/// lies in `1..=2046`, and `(2^52 + fraction) * 2^(e - 1075) == |v|`.
pub open spec fn f64_encodes(bits: int, v: int) -> bool {
    let sign = bits / 0x8000_0000_0000_0000;
    let exp = (bits / 0x10_0000_0000_0000) % 2048;
    let frac = bits % 0x10_0000_0000_0000;
    &&& 0 <= bits < 0x1_0000_0000_0000_0000
    &&& (sign == 1) == (v < 0)
    &&& 1 <= exp <= 2046
    &&& (0x10_0000_0000_0000 + frac) * pow2(exp as nat) == (if v < 0 { -v } else { v }) * pow2(1075)
}

/// The binary64 encoding of the non-zero integer `v` (the one encoding that
/// `f64_encodes` admits; see `lemma_f64_encoding_unique`).
pub open spec fn f64_bits(v: int) -> int {
    choose|b: int| f64_encodes(b, v)
}

/// Two normal binary64 encodings of the same integer are the same bits.
pub proof fn lemma_f64_encoding_unique(b1: int, b2: int, v: int)
    requires
        f64_encodes(b1, v),
        f64_encodes(b2, v),
    ensures
        b1 == b2,
{
    let m1 = 0x10_0000_0000_0000 + b1 % 0x10_0000_0000_0000;
    let m2 = 0x10_0000_0000_0000 + b2 % 0x10_0000_0000_0000;
    let e1 = ((b1 / 0x10_0000_0000_0000) % 2048) as nat;
    let e2 = ((b2 / 0x10_0000_0000_0000) % 2048) as nat;
    lemma_pow2_pos(e1);
    lemma_pow2_pos(e2);
    assert(m1 * pow2(e1) == m2 * pow2(e2));
    if e1 < e2 {
        lemma_exponent_contradiction(m1, m2, e1, e2);
    } else if e2 < e1 {
        lemma_exponent_contradiction(m2, m1, e2, e1);
    }
    assert(e1 == e2);
    assert(m1 == m2) by (nonlinear_arith)
        requires
            m1 * pow2(e1) == m2 * pow2(e2),
            e1 == e2,
            pow2(e1) > 0,
    ;
    assert(b1 == (b1 / 0x8000_0000_0000_0000) * 0x8000_0000_0000_0000 + ((b1 / 0x10_0000_0000_0000)
        % 2048) * 0x10_0000_0000_0000 + b1 % 0x10_0000_0000_0000) by (nonlinear_arith)
        requires
            0 <= b1 < 0x1_0000_0000_0000_0000,
    ;
    assert(b2 == (b2 / 0x8000_0000_0000_0000) * 0x8000_0000_0000_0000 + ((b2 / 0x10_0000_0000_0000)
        % 2048) * 0x10_0000_0000_0000 + b2 % 0x10_0000_0000_0000) by (nonlinear_arith)
        requires
            0 <= b2 < 0x1_0000_0000_0000_0000,
    ;
}

proof fn lemma_exponent_contradiction(m1: int, m2: int, e1: nat, e2: nat)
    requires
        0x10_0000_0000_0000 <= m1 < 0x20_0000_0000_0000,
        0x10_0000_0000_0000 <= m2 < 0x20_0000_0000_0000,
        e1 < e2,
    ensures
        m1 * pow2(e1) != m2 * pow2(e2),
{
    if m1 * pow2(e1) == m2 * pow2(e2) {
        lemma_exponent_gap(m1, m2, e1, e2);
    }
}

proof fn lemma_exponent_gap(m1: int, m2: int, e1: nat, e2: nat)
    requires
        0x10_0000_0000_0000 <= m1 < 0x20_0000_0000_0000,
        0x10_0000_0000_0000 <= m2 < 0x20_0000_0000_0000,
        e1 < e2,
        m1 * pow2(e1) == m2 * pow2(e2),
    ensures
        m1 >= 2 * m2,
{
    let d = (e2 - e1) as nat;
    lemma_pow2_adds(e1, d);
    lemma_pow2_strictly_increases(0, d);
    vstd::arithmetic::power2::lemma2_to64();
    lemma_pow2_pos(e1);
    let p = pow2(e1);
    let q = pow2(d);
    assert(m1 * p == (m2 * q) * p) by (nonlinear_arith)
        requires
            m1 * p == m2 * (p * q),
    ;
    assert(m1 == m2 * q) by (nonlinear_arith)
        requires
            m1 * p == (m2 * q) * p,
            p > 0,
    ;
    assert(m2 * q >= m2 * 2) by (nonlinear_arith)
        requires
            q >= 2,
            m2 >= 0,
    ;
}

/// Computes the binary64 encoding of an integer `v` with `2^31 <= |v| < 2^53`.
pub fn f64_bits_of_integer(v: i64) -> (bits: u64)
    requires
        v < -0x8000_0000 || v > 0x7fff_ffff,
        -MAX_SAFE_JS_INTEGER <= v <= MAX_SAFE_JS_INTEGER,
    ensures
        f64_encodes(bits as int, v as int),
        bits as int == f64_bits(v as int),
{
    let a: u64 = if v < 0 { (-v) as u64 } else { v as u64 };
    let mut m: u64 = a;
    let mut k: u64 = 0;
    proof {
        vstd::arithmetic::power2::lemma2_to64();
    }
    while m < 0x10_0000_0000_0000
        invariant
            0x8000_0000 <= a < 0x20_0000_0000_0000,
            m == a * pow2(k as nat),
            a <= m < 0x20_0000_0000_0000,
            k <= 21,
            m >= 0x8000_0000 * pow2(k as nat),
        decreases 21 - k,
    {
        proof {
            vstd::arithmetic::power2::lemma2_to64();
            vstd::arithmetic::power2::lemma_pow2_unfold((k + 1) as nat);
            if k == 21 {
                assert(pow2(21) == 0x20_0000);
                assert(0x8000_0000 * pow2(21) == 0x10_0000_0000_0000);
            }
        }
        assert(a * pow2((k + 1) as nat) == 2 * (a * pow2(k as nat))) by (nonlinear_arith)
            requires
                pow2((k + 1) as nat) == 2 * pow2(k as nat),
        ;
        m = m * 2;
        k = k + 1;
    }
    let exp: u64 = 1075 - k;
    let frac: u64 = m - 0x10_0000_0000_0000;
    let sign: u64 = if v < 0 { 1 } else { 0 };
    let bits: u64 = sign * 0x8000_0000_0000_0000 + exp * 0x10_0000_0000_0000 + frac;
    proof {
        lemma_pow2_adds(k as nat, exp as nat);
        assert((k + exp) as nat == 1075nat);
        assert(bits as int / 0x8000_0000_0000_0000 == sign as int) by (nonlinear_arith)
            requires
                bits == sign * 0x8000_0000_0000_0000 + exp * 0x10_0000_0000_0000 + frac,
                exp <= 1075,
                frac < 0x10_0000_0000_0000,
                sign <= 1,
        ;
        assert((bits as int / 0x10_0000_0000_0000) % 2048 == exp as int) by (nonlinear_arith)
            requires
                bits == sign * 0x8000_0000_0000_0000 + exp * 0x10_0000_0000_0000 + frac,
                exp <= 1075,
                frac < 0x10_0000_0000_0000,
                sign <= 1,
        ;
        assert(bits as int % 0x10_0000_0000_0000 == frac as int) by (nonlinear_arith)
            requires
                bits == sign * 0x8000_0000_0000_0000 + exp * 0x10_0000_0000_0000 + frac,
                frac < 0x10_0000_0000_0000,
        ;
        assert((0x10_0000_0000_0000 + frac) * pow2(exp as nat) == a * pow2(1075)) by (nonlinear_arith)
            requires
                0x10_0000_0000_0000 + frac == m,
                m == a * pow2(k as nat),
                pow2(1075) == pow2(k as nat) * pow2(exp as nat),
        ;
        assert(f64_encodes(bits as int, v as int));
        lemma_f64_encoding_unique(bits as int, f64_bits(v as int), v as int);
    }
    bits
}

/// Machine code that returns the `int32` JS value `value` (tag 0 in `edx`).
pub open spec fn return_i32_code(value: int) -> Seq<u8> {
    seq![0xb8u8] + le32_bytes(wrap32(value)) + seq![0xbau8, 0, 0, 0, 0, 0xc3]
}

/// Machine code that returns the float64 JS value whose bits are `bits`
/// (tag 8 in `edx`).
pub open spec fn return_f64_code(bits: int) -> Seq<u8> {
    seq![0x48u8, 0xb8] + le64_bytes(bits) + seq![0xbau8, 8, 0, 0, 0, 0xc3]
}

/// The code that returns the JS number `value`: an `int32` when it fits, a
/// float64 when it is a safe integer, and nothing beyond that.
pub open spec fn spec_return_js_number(value: int) -> Option<Seq<u8>> {
    if -0x8000_0000 <= value <= 0x7fff_ffff {
        Some(return_i32_code(value))
    } else if -MAX_SAFE_JS_INTEGER <= value <= MAX_SAFE_JS_INTEGER {
        Some(return_f64_code(f64_bits(value)))
    } else {
        None
    }
}

/// Appends the code that returns the `int32` value `value`.
fn emit_return_i32(code: &mut Vec<u8>, value: i32)
    ensures
        final(code)@ == old(code)@ + return_i32_code(value as int),
{
    // mov eax, value
    code.push(0xb8);
    push_le32_signed(code, value);
    // mov edx, JS_TAG_INT; ret
    push_all(code, &[0xba, 0, 0, 0, 0, 0xc3]);
    assert(final(code)@ =~= old(code)@ + return_i32_code(value as int));
}

/// Appends the code that returns the float64 whose bits are `bits`.
fn emit_return_f64(code: &mut Vec<u8>, bits: u64)
    ensures
        final(code)@ == old(code)@ + return_f64_code(bits as int),
{
    // mov rax, bits
    push_all(code, &[0x48, 0xb8]);
    push_le32(code, (bits % 0x1_0000_0000) as u32);
    push_le32(code, (bits / 0x1_0000_0000) as u32);
    // mov edx, JS_TAG_FLOAT64; ret
    push_all(code, &[0xba, 8, 0, 0, 0, 0xc3]);
    assert(final(code)@ =~= old(code)@ + return_f64_code(bits as int));
}

/// The code that returns the JS number `value`, if it is a safe integer.
pub fn emit_return_js_number(value: i64) -> (r: Option<Vec<u8>>)
    ensures
        r matches Some(c) ==> spec_return_js_number(value as int) == Some(c@),
        r is None ==> spec_return_js_number(value as int) is None,
{
    let mut code: Vec<u8> = Vec::with_capacity(16);
    if -0x8000_0000 <= value && value <= 0x7fff_ffff {
        emit_return_i32(&mut code, value as i32);
    } else if -MAX_SAFE_JS_INTEGER <= value && value <= MAX_SAFE_JS_INTEGER {
        let bits = f64_bits_of_integer(value);
        emit_return_f64(&mut code, bits);
    } else {
        return None;
    }
    assert(code@ =~= Seq::<u8>::empty() + code@);
    Some(code)
}

} // verus!
