//! JS values as plain data: a tag and the 64 bits of the value's payload
//! (an `int32` in the low 32 bits, a float64 as its IEEE-754 bits, or a
//! reference-counted pointer for negative tags).
use vstd::arithmetic::power2::{lemma_pow2_adds, lemma_pow2_pos, lemma_pow2_strictly_increases, pow2};
use vstd::prelude::*;

use crate::bytes::{as_signed32, wrap32};

verus! {

pub const JS_TAG_INT: i64 = 0;
pub const JS_TAG_BOOL: i64 = 1;
pub const JS_TAG_NULL: i64 = 2;
pub const JS_TAG_UNDEFINED: i64 = 3;
pub const JS_TAG_UNINITIALIZED: i64 = 4;
pub const JS_TAG_FLOAT64: i64 = 8;

/// A JS value: its tag and the bits of its payload.
#[derive(Debug, Copy, Clone, PartialEq, Eq, Structural)]
pub struct JsVal {
    pub tag: i64,
    pub payload: u64,
}

/// The `int32` that the low 32 bits of the payload hold.
pub open spec fn payload_i32(v: JsVal) -> int {
    as_signed32((v.payload % 0x1_0000_0000) as int)
}

/// The value with tag `tag` whose `int32` payload is `x`.
pub open spec fn tagged_i32(tag: i64, x: int) -> JsVal {
    JsVal { tag, payload: wrap32(x) as u64 }
}

pub open spec fn spec_is_number(v: JsVal) -> bool {
    v.tag == JS_TAG_INT || v.tag == JS_TAG_FLOAT64
}

/// A value whose tag is negative holds a reference count.
pub open spec fn spec_needs_refcount(v: JsVal) -> bool {
    v.tag < 0
}

impl JsVal {
    /// The `int32` value `x`.
    pub fn from_i32(x: i32) -> (r: JsVal)
        ensures
            r == tagged_i32(JS_TAG_INT, x as int),
    {
        JsVal::with_i32(JS_TAG_INT, x)
    }

    /// The value with tag `tag` and `int32` payload `x`.
    pub fn with_i32(tag: i64, x: i32) -> (r: JsVal)
        ensures
            r == tagged_i32(tag, x as int),
    {
        let u: u64 = if x >= 0 {
            x as u64
        } else {
            (0x1_0000_0000i64 + x as i64) as u64
        };
        JsVal { tag, payload: u }
    }

    /// The boolean `b` (payload 1 or 0).
    pub fn boolean(b: bool) -> (r: JsVal)
        ensures
            r == tagged_i32(JS_TAG_BOOL, if b { 1 } else { 0 }),
    {
        JsVal { tag: JS_TAG_BOOL, payload: if b { 1 } else { 0 } }
    }

    /// The `int32` in the low 32 bits of the payload.
    pub fn int32(&self) -> (r: i32)
        ensures
            r == payload_i32(*self),
    {
        let low = self.payload % 0x1_0000_0000;
        if low < 0x8000_0000 {
            low as i32
        } else {
            (low as i64 - 0x1_0000_0000i64) as i32
        }
    }
}

/// `undefined`
pub open spec fn undefined_val() -> JsVal {
    tagged_i32(JS_TAG_UNDEFINED, 0)
}

/// `uninitialized`: the value that asks the caller to run the C interpreter.
pub open spec fn uninitialized_val() -> JsVal {
    tagged_i32(JS_TAG_UNINITIALIZED, 0)
}

/// Whether `v` is a number (an `int32` or a float64).
pub fn is_number(v: &JsVal) -> (r: bool)
    ensures
        r == spec_is_number(*v),
{
    v.tag == JS_TAG_INT || v.tag == JS_TAG_FLOAT64
}

/// Whether `v` holds a reference count that copies and drops must adjust.
pub fn needs_refcount(v: &JsVal) -> (r: bool)
    ensures
        r == spec_needs_refcount(*v),
{
    v.tag < 0
}

/// ECMAScript ToUint32 of the float64 with bits `bits`: NaN, the infinities
/// and the zeros give 0; any other value is truncated towards zero and
/// reduced modulo 2^32.
pub open spec fn f64_to_uint32(bits: u64) -> int {
    let e: int = (bits / 0x10_0000_0000_0000) as int % 2048;
    let m: int = 0x10_0000_0000_0000 + bits as int % 0x10_0000_0000_0000;
    let t: int = if e == 0 || e == 2047 {
        0
    } else if e >= 1075 {
        m * pow2((e - 1075) as nat)
    } else {
        m / (pow2((1075 - e) as nat) as int)
    };
    (if bits >= 0x8000_0000_0000_0000 { -t } else { t }) % 0x1_0000_0000
}

/// ECMAScript ToUint32 of a number: an `int32` is read modulo 2^32.
pub open spec fn spec_to_uint32(v: JsVal) -> int {
    if v.tag == JS_TAG_INT {
        wrap32(payload_i32(v))
    } else {
        f64_to_uint32(v.payload)
    }
}

/// ECMAScript ToInt32 of a number.
pub open spec fn spec_to_int32(v: JsVal) -> int {
    as_signed32(spec_to_uint32(v))
}

/// ECMAScript ToUint32 of the float64 with bits `bits`.
pub fn f64_bits_to_uint32(bits: u64) -> (r: u32)
    ensures
        r as int == f64_to_uint32(bits),
{
    let e = (bits >> 52) & 0x7ff;
    let frac = bits & 0xf_ffff_ffff_ffff;
    assert(e == (bits / 0x10_0000_0000_0000) % 2048 && frac == bits % 0x10_0000_0000_0000) by (bit_vector)
        requires
            e == (bits >> 52) & 0x7ff,
            frac == bits & 0xf_ffff_ffff_ffff,
    ;
    let m = frac + 0x10_0000_0000_0000;
    let neg = bits >= 0x8000_0000_0000_0000;
    let ghost t: int = if e == 0 || e == 2047 {
        0
    } else if e >= 1075 {
        m * pow2((e - 1075) as nat)
    } else {
        (m as int) / (pow2((1075 - e) as nat) as int)
    };
    // tm == t % 2^32
    let tm: u64 = if e == 0 || e == 2047 {
        0
    } else if e >= 1075 {
        let k = e - 1075;
        if k >= 32 {
            proof {
                lemma_mul_pow2_mod32(m as int, k as nat);
            }
            0
        } else {
            let low = m & 0xffff_ffff;
            assert(low == m % 0x1_0000_0000) by (bit_vector)
                requires
                    low == m & 0xffff_ffff,
            ;
            proof {
                vstd::bits::lemma_u64_pow2_no_overflow(k as nat);
                lemma_pow2_strictly_increases(k as nat, 32);
                vstd::arithmetic::power2::lemma2_to64();
                assert(low * pow2(k as nat) < 0x1_0000_0000 * 0x1_0000_0000) by (nonlinear_arith)
                    requires
                        low < 0x1_0000_0000,
                        pow2(k as nat) < 0x1_0000_0000,
                        pow2(32) == 0x1_0000_0000,
                ;
                assert(low * pow2(k as nat) < pow2(32) * pow2(k as nat)) by (nonlinear_arith)
                    requires
                        low < 0x1_0000_0000,
                        pow2(32) == 0x1_0000_0000,
                        pow2(k as nat) > 0,
                ;
                lemma_pow2_pos(k as nat);
                vstd::bits::lemma_u64_shl_is_mul(low, k);
            }
            let shifted = low << k;
            let r = shifted & 0xffff_ffff;
            assert(r == shifted % 0x1_0000_0000) by (bit_vector)
                requires
                    r == shifted & 0xffff_ffff,
            ;
            proof {
                lemma_mod_mul_pow2(m as int, low as int, k as nat);
            }
            r
        }
    } else {
        let s = 1075 - e;
        if s >= 64 {
            proof {
                lemma_pow2_strictly_increases(53, s as nat);
                vstd::arithmetic::power2::lemma2_to64();
                vstd::arithmetic::power2::lemma2_to64_rest();
                vstd::arithmetic::div_mod::lemma_basic_div(m as int, pow2(s as nat) as int);
            }
            0
        } else {
            proof {
                vstd::bits::lemma_u64_shr_is_div(m, s);
            }
            let q = m >> s;
            let r = q & 0xffff_ffff;
            assert(r == q % 0x1_0000_0000) by (bit_vector)
                requires
                    r == q & 0xffff_ffff,
            ;
            r
        }
    };
    assert(tm == t % 0x1_0000_0000);
    if neg && tm != 0 {
        proof {
            lemma_neg_mod32(t);
        }
        (0x1_0000_0000 - tm) as u32
    } else {
        proof {
            if neg {
                lemma_neg_mod32(t);
            }
        }
        tm as u32
    }
}

proof fn lemma_neg_mod32(t: int)
    ensures
        t % 0x1_0000_0000 == 0 ==> (-t) % 0x1_0000_0000 == 0,
        t % 0x1_0000_0000 != 0 ==> (-t) % 0x1_0000_0000 == 0x1_0000_0000 - t % 0x1_0000_0000,
{
    let q = t / 0x1_0000_0000;
    let r = t % 0x1_0000_0000;
    assert(t == q * 0x1_0000_0000 + r && 0 <= r < 0x1_0000_0000) by (nonlinear_arith)
        requires
            q == t / 0x1_0000_0000,
            r == t % 0x1_0000_0000,
    ;
    if r == 0 {
        assert((-t) % 0x1_0000_0000 == 0) by (nonlinear_arith)
            requires
                -t == (-q) * 0x1_0000_0000,
        ;
    } else {
        assert((-t) % 0x1_0000_0000 == 0x1_0000_0000 - r) by (nonlinear_arith)
            requires
                -t == (-q - 1) * 0x1_0000_0000 + (0x1_0000_0000 - r),
                0 < r < 0x1_0000_0000,
        ;
    }
}

/// `m * 2^k` is a multiple of 2^32 when `k >= 32`.
proof fn lemma_mul_pow2_mod32(m: int, k: nat)
    requires
        k >= 32,
    ensures
        (m * pow2(k)) % 0x1_0000_0000 == 0,
{
    lemma_pow2_adds(32, (k - 32) as nat);
    vstd::arithmetic::power2::lemma2_to64();
    let x = pow2((k - 32) as nat);
    assert(m * pow2(k) == 0x1_0000_0000 * (m * x)) by (nonlinear_arith)
        requires
            pow2(k) == pow2(32) * x,
            pow2(32) == 0x1_0000_0000,
    ;
    vstd::arithmetic::div_mod::lemma_mod_multiples_vanish(m * x, 0, 0x1_0000_0000);
}

/// `(m % 2^32) * 2^k` and `m * 2^k` agree modulo 2^32.
proof fn lemma_mod_mul_pow2(m: int, low: int, k: nat)
    requires
        low == m % 0x1_0000_0000,
    ensures
        (low * pow2(k)) % 0x1_0000_0000 == (m * pow2(k)) % 0x1_0000_0000,
{
    let q = m / 0x1_0000_0000;
    assert(m == q * 0x1_0000_0000 + low) by (nonlinear_arith)
        requires
            q == m / 0x1_0000_0000,
            low == m % 0x1_0000_0000,
    ;
    let p = pow2(k) as int;
    assert(m * p == 0x1_0000_0000 * (q * p) + low * p) by (nonlinear_arith)
        requires
            m == q * 0x1_0000_0000 + low,
    ;
    vstd::arithmetic::div_mod::lemma_mod_multiples_vanish(q * p, low * p, 0x1_0000_0000);
}

/// ECMAScript ToUint32 of a number.
pub fn js_to_uint32(v: &JsVal) -> (r: u32)
    requires
        spec_is_number(*v),
    ensures
        r as int == spec_to_uint32(*v),
{
    if v.tag == JS_TAG_INT {
        let x = v.int32();
        if x >= 0 {
            x as u32
        } else {
            (0x1_0000_0000i64 + x as i64) as u32
        }
    } else {
        f64_bits_to_uint32(v.payload)
    }
}

/// ECMAScript ToInt32 of a number.
pub fn js_to_int32(v: &JsVal) -> (r: i32)
    requires
        spec_is_number(*v),
    ensures
        r as int == spec_to_int32(*v),
{
    let u = js_to_uint32(v);
    if u < 0x8000_0000 {
        u as i32
    } else {
        (u as i64 - 0x1_0000_0000i64) as i32
    }
}

} // verus!
