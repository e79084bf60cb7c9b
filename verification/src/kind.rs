//! Element kinds and the bit-level element model.
//!
//! Every element of an array is held as a `u64` bit pattern whose meaning
//! depends on the array's kind: integer kinds store the low bits of the
//! two's-complement value, `Float` stores an IEEE binary32 bit pattern in
//! the low 32 bits, and `Double` stores an IEEE binary64 bit pattern.

use vstd::prelude::*;
use vstd::arithmetic::div_mod::*;
use crate::fp::{
    f64_add_bits, f64_sub_bits, f64_mul_bits, f64_div_bits, f64_eq_bits, f64_lt_bits,
    f64_of_i64_bits, f64_to_i64_val, f32_add_bits, f32_sub_bits, f32_mul_bits, f32_div_bits,
    f32_eq_bits, f32_lt_bits, f32_of_i64_bits, f32_to_i64_val, f32_of_f64_bits, f64_of_f32_bits,
    f64_add, f64_sub, f64_mul, f64_div, f64_eq, f64_lt, f64_of_i64, f64_to_i64, f32_add, f32_sub,
    f32_mul, f32_div, f32_eq, f32_lt, f32_of_i64, f32_to_i64, f64_to_f32, f32_to_f64,
};

verus! {

/// The numeric type tag of an array's elements.
#[derive(Clone, Copy, PartialEq, Eq, Structural, Debug, Hash)]
pub enum Kind {
    Uint8,
    Int8,
    Int16,
    Int,
    Int64,
    Half,
    Float,
    Double,
    ComplexHalf,
    ComplexFloat,
    ComplexDouble,
}

/// An elementwise binary arithmetic operation of the engine.
#[derive(Clone, Copy, PartialEq, Eq, Structural, Debug)]
pub enum BinOp {
    Add,
    Sub,
    Mul,
    Div,
}

/// The integer kinds.
pub open spec fn is_int_kind(k: Kind) -> bool {
    k == Kind::Uint8 || k == Kind::Int8 || k == Kind::Int16 || k == Kind::Int || k == Kind::Int64
}

/// The integer kinds whose bit patterns are read as two's-complement.
pub open spec fn is_signed_kind(k: Kind) -> bool {
    k == Kind::Int8 || k == Kind::Int16 || k == Kind::Int || k == Kind::Int64
}

/// The floating-point kinds the engine computes with.
pub open spec fn is_float_kind(k: Kind) -> bool {
    k == Kind::Float || k == Kind::Double
}

/// The kinds the engine can materialize; `Half` and the complex kinds are
/// tags only and every attempt to allocate them is refused.
pub open spec fn supported_kind(k: Kind) -> bool {
    is_int_kind(k) || is_float_kind(k)
}

/// How many distinct bit patterns an element of kind `k` has; element bit
/// patterns are always below this bound.
pub open spec fn kind_modulus(k: Kind) -> int {
    match k {
        Kind::Uint8 => 0x100,
        Kind::Int8 => 0x100,
        Kind::Int16 => 0x1_0000,
        Kind::Int => 0x1_0000_0000,
        Kind::Int64 => 0x1_0000_0000_0000_0000,
        Kind::Float => 0x1_0000_0000,
        Kind::Double => 0x1_0000_0000_0000_0000,
        _ => 0x1_0000_0000_0000_0000,
    }
}

/// A valid element bit pattern of kind `k`.
pub open spec fn elem_ok(k: Kind, b: u64) -> bool {
    (b as int) < kind_modulus(k)
}

/// The value of `v` wrapped into the bit-pattern range of kind `k`
/// (two's-complement truncation for integer kinds).
pub open spec fn wrap(k: Kind, v: int) -> u64 {
    (v % kind_modulus(k)) as u64
}

/// The integer value of a bit pattern of integer kind `k`: sign-extended
/// for the signed kinds, the pattern itself for `Uint8`.
pub open spec fn sext(k: Kind, b: u64) -> int {
    if is_signed_kind(k) && b >= kind_modulus(k) / 2 {
        b - kind_modulus(k)
    } else {
        b as int
    }
}

/// Integer division truncating toward zero, as the engine's integer
/// division kernel rounds.
pub open spec fn trunc_div(x: int, y: int) -> int {
    let ax = if x < 0 { -x } else { x };
    let ay = if y < 0 { -y } else { y };
    let q = ax / ay;
    if (x < 0) != (y < 0) { -q } else { q }
}

/// Whether the elementwise operation is defined on these operands: only
/// integer division by zero is refused.
pub open spec fn elem_bin_ok(op: BinOp, k: Kind, a: u64, b: u64) -> bool {
    !(op == BinOp::Div && is_int_kind(k) && b == 0)
}

/// The result of one elementwise binary operation on bit patterns of
/// kind `k`: wrapping two's-complement arithmetic for integer kinds,
/// IEEE arithmetic on the bit patterns for the float kinds.
pub open spec fn elem_bin(op: BinOp, k: Kind, a: u64, b: u64) -> u64 {
    if k == Kind::Double {
        match op {
            BinOp::Add => f64_add_bits(a, b),
            BinOp::Sub => f64_sub_bits(a, b),
            BinOp::Mul => f64_mul_bits(a, b),
            BinOp::Div => f64_div_bits(a, b),
        }
    } else if k == Kind::Float {
        (match op {
            BinOp::Add => f32_add_bits(a as u32, b as u32),
            BinOp::Sub => f32_sub_bits(a as u32, b as u32),
            BinOp::Mul => f32_mul_bits(a as u32, b as u32),
            BinOp::Div => f32_div_bits(a as u32, b as u32),
        }) as u64
    } else {
        match op {
            BinOp::Add => wrap(k, a + b),
            BinOp::Sub => wrap(k, a - b),
            BinOp::Mul => wrap(k, a * b),
            BinOp::Div => wrap(k, trunc_div(sext(k, a), sext(k, b))),
        }
    }
}

/// The elementwise negation of a bit pattern of kind `k`: two's-complement
/// negation for integer kinds, an IEEE sign flip for the float kinds.
pub open spec fn elem_neg(k: Kind, a: u64) -> u64 {
    if k == Kind::Double {
        a ^ 0x8000_0000_0000_0000u64
    } else if k == Kind::Float {
        ((a as u32) ^ 0x8000_0000u32) as u64
    } else {
        wrap(k, -sext(k, a))
    }
}

/// The bit pattern of the value one in kind `k`.
pub open spec fn one_bits(k: Kind) -> u64 {
    if k == Kind::Double {
        0x3FF0_0000_0000_0000u64
    } else if k == Kind::Float {
        0x3F80_0000u64
    } else {
        1u64
    }
}

/// Whether the elementwise reciprocal is defined on this operand.
pub open spec fn elem_recip_ok(k: Kind, a: u64) -> bool {
    elem_bin_ok(BinOp::Div, k, one_bits(k), a)
}

/// The elementwise reciprocal: one of kind `k` divided by the operand.
pub open spec fn elem_recip(k: Kind, a: u64) -> u64 {
    elem_bin(BinOp::Div, k, one_bits(k), a)
}

/// Elementwise equality of two bit patterns of kind `k`: IEEE equality for
/// the float kinds, bit equality for integer kinds.
pub open spec fn elem_eq(k: Kind, a: u64, b: u64) -> bool {
    if k == Kind::Double {
        f64_eq_bits(a, b)
    } else if k == Kind::Float {
        f32_eq_bits(a as u32, b as u32)
    } else {
        a == b
    }
}

/// Elementwise strict order of two bit patterns of kind `k`: IEEE less-than
/// for the float kinds (false on NaN), signed comparison for integer kinds.
pub open spec fn elem_lt(k: Kind, a: u64, b: u64) -> bool {
    if k == Kind::Double {
        f64_lt_bits(a, b)
    } else if k == Kind::Float {
        f32_lt_bits(a as u32, b as u32)
    } else {
        sext(k, a) < sext(k, b)
    }
}

/// The bit pattern a single element takes when cast from kind `from` to
/// kind `to`: integer casts truncate or sign-extend, integer-to-float
/// rounds to nearest, float-to-integer truncates toward zero, and the
/// float-to-float casts reround.
pub open spec fn cast_elem(from: Kind, to: Kind, b: u64) -> u64 {
    if from == to {
        b
    } else if is_int_kind(from) {
        if is_int_kind(to) {
            wrap(to, sext(from, b))
        } else if to == Kind::Double {
            f64_of_i64_bits(sext(from, b) as i64)
        } else {
            f32_of_i64_bits(sext(from, b) as i64) as u64
        }
    } else if from == Kind::Double {
        if is_int_kind(to) {
            wrap(to, f64_to_i64_val(b) as int)
        } else {
            f32_of_f64_bits(b) as u64
        }
    } else {
        if is_int_kind(to) {
            wrap(to, f32_to_i64_val(b as u32) as int)
        } else {
            f64_of_f32_bits(b as u32)
        }
    }
}

/// A host scalar used as one operand of an arithmetic expression: a 64-bit
/// integer, or the bit pattern of an IEEE binary64 value; it is promoted to
/// the array operand's kind and never stored.
#[derive(Clone, Copy, PartialEq, Eq, Structural, Debug)]
pub enum Scalar {
    Int(i64),
    FloatBits(u64),
}

/// Whether a scalar can be promoted to elements of kind `k`: an integer
/// scalar promotes to every kind, a float scalar only to the float kinds.
pub open spec fn scalar_promotes(k: Kind, s: Scalar) -> bool {
    match s {
        Scalar::Int(_) => true,
        Scalar::FloatBits(_) => is_float_kind(k),
    }
}

/// The element bit pattern a scalar promotes to in kind `k`.
pub open spec fn scalar_elem(k: Kind, s: Scalar) -> u64 {
    match s {
        Scalar::Int(v) => if is_int_kind(k) {
            wrap(k, v as int)
        } else if k == Kind::Double {
            f64_of_i64_bits(v)
        } else {
            f32_of_i64_bits(v) as u64
        },
        Scalar::FloatBits(b) => if k == Kind::Double {
            b
        } else {
            f32_of_f64_bits(b) as u64
        },
    }
}

pub(crate) fn scalar_elem_exec(k: Kind, s: Scalar) -> (r: u64)
    requires
        supported_kind(k),
        scalar_promotes(k, s),
    ensures
        r == scalar_elem(k, s),
        elem_ok(k, r),
{
    match s {
        Scalar::Int(v) => {
            if kind_is_int(k) {
                wrap_i128_exec(k, v as i128)
            } else if matches!(k, Kind::Double) {
                f64_of_i64(v)
            } else {
                f32_of_i64(v) as u64
            }
        }
        Scalar::FloatBits(b) => {
            if matches!(k, Kind::Double) {
                b
            } else {
                f64_to_f32(b) as u64
            }
        }
    }
}

pub(crate) fn kind_is_int(k: Kind) -> (r: bool)
    ensures
        r == is_int_kind(k),
{
    matches!(k, Kind::Uint8 | Kind::Int8 | Kind::Int16 | Kind::Int | Kind::Int64)
}

pub(crate) fn kind_is_signed(k: Kind) -> (r: bool)
    ensures
        r == is_signed_kind(k),
{
    matches!(k, Kind::Int8 | Kind::Int16 | Kind::Int | Kind::Int64)
}

pub(crate) fn kind_is_float(k: Kind) -> (r: bool)
    ensures
        r == is_float_kind(k),
{
    matches!(k, Kind::Float | Kind::Double)
}

pub(crate) fn kind_is_supported(k: Kind) -> (r: bool)
    ensures
        r == supported_kind(k),
{
    kind_is_int(k) || kind_is_float(k)
}

pub(crate) fn kind_modulus_u128(k: Kind) -> (m: u128)
    ensures
        m == kind_modulus(k),
{
    match k {
        Kind::Uint8 => 0x100u128,
        Kind::Int8 => 0x100u128,
        Kind::Int16 => 0x1_0000u128,
        Kind::Int => 0x1_0000_0000u128,
        Kind::Int64 => 0x1_0000_0000_0000_0000u128,
        Kind::Float => 0x1_0000_0000u128,
        Kind::Double => 0x1_0000_0000_0000_0000u128,
        _ => 0x1_0000_0000_0000_0000u128,
    }
}

pub(crate) fn one_bits_exec(k: Kind) -> (r: u64)
    ensures
        r == one_bits(k),
        supported_kind(k) ==> elem_ok(k, r),
{
    match k {
        Kind::Double => 0x3FF0_0000_0000_0000u64,
        Kind::Float => 0x3F80_0000u64,
        _ => 1u64,
    }
}

pub(crate) fn sext_exec(k: Kind, b: u64) -> (r: i128)
    requires
        is_int_kind(k),
        elem_ok(k, b),
    ensures
        r == sext(k, b),
        -0x8000_0000_0000_0000 <= r < 0x1_0000_0000_0000_0000,
{
    let m = kind_modulus_u128(k);
    if kind_is_signed(k) && (b as u128) >= m / 2 {
        (b as i128) - (m as i128)
    } else {
        b as i128
    }
}

/// A nonpositive value's Euclidean remainder, written without a signed
/// remainder operation.
proof fn lemma_euclid_mod_neg(v: int, m: int)
    requires
        0 < m,
        v <= 0,
    ensures
        v % m == if (-v) % m == 0 { 0int } else { m - (-v) % m },
{
    let w = -v;
    lemma_fundamental_div_mod(w, m);
    let q = w / m;
    lemma_mod_bound(w, m);
    assert(m * (-q) == -(m * q)) by (nonlinear_arith);
    assert(v == m * (-q) + (-(w % m)));
    lemma_mod_multiples_vanish(-q, -(w % m), m);
    if w % m == 0 {
        lemma_small_mod(0nat, m as nat);
    } else {
        lemma_mod_add_multiples_vanish(-(w % m), m);
        lemma_small_mod((m - w % m) as nat, m as nat);
    }
}

pub(crate) fn wrap_i128_exec(k: Kind, v: i128) -> (r: u64)
    requires
        is_int_kind(k),
        -0x1_0000_0000_0000_0000 <= v <= 0x1_0000_0000_0000_0000,
    ensures
        r == wrap(k, v as int),
        elem_ok(k, r),
{
    let m = kind_modulus_u128(k);
    proof {
        lemma_mod_bound(v as int, m as int);
    }
    if v < 0 {
        let wm: u128 = ((-v) as u128) % m;
        proof {
            lemma_euclid_mod_neg(v as int, m as int);
        }
        if wm == 0 {
            0u64
        } else {
            (m - wm) as u64
        }
    } else {
        ((v as u128) % m) as u64
    }
}

pub(crate) fn trunc_div_exec(x: i128, y: i128) -> (q: i128)
    requires
        y != 0,
        -0x1_0000_0000_0000_0000 <= x <= 0x1_0000_0000_0000_0000,
        -0x1_0000_0000_0000_0000 <= y <= 0x1_0000_0000_0000_0000,
    ensures
        q == trunc_div(x as int, y as int),
        -0x1_0000_0000_0000_0000 <= q <= 0x1_0000_0000_0000_0000,
{
    let ax: u128 = if x < 0 { (-x) as u128 } else { x as u128 };
    let ay: u128 = if y < 0 { (-y) as u128 } else { y as u128 };
    let uq: u128 = ax / ay;
    proof {
        lemma_div_nonincreasing(ax as int, ay as int);
        lemma_div_pos_is_pos(ax as int, ay as int);
    }
    if (x < 0) != (y < 0) {
        -(uq as i128)
    } else {
        uq as i128
    }
}

pub(crate) fn elem_bin_exec(op: BinOp, k: Kind, a: u64, b: u64) -> (r: u64)
    requires
        supported_kind(k),
        elem_ok(k, a),
        elem_ok(k, b),
        elem_bin_ok(op, k, a, b),
    ensures
        r == elem_bin(op, k, a, b),
        elem_ok(k, r),
{
    if matches!(k, Kind::Double) {
        match op {
            BinOp::Add => f64_add(a, b),
            BinOp::Sub => f64_sub(a, b),
            BinOp::Mul => f64_mul(a, b),
            BinOp::Div => f64_div(a, b),
        }
    } else if matches!(k, Kind::Float) {
        let r32: u32 = match op {
            BinOp::Add => f32_add(a as u32, b as u32),
            BinOp::Sub => f32_sub(a as u32, b as u32),
            BinOp::Mul => f32_mul(a as u32, b as u32),
            BinOp::Div => f32_div(a as u32, b as u32),
        };
        r32 as u64
    } else {
        let m = kind_modulus_u128(k);
        match op {
            BinOp::Add => {
                let s: u128 = a as u128 + b as u128;
                proof {
                    lemma_mod_bound(s as int, m as int);
                }
                (s % m) as u64
            }
            BinOp::Sub => {
                let s: u128 = a as u128 + m - b as u128;
                proof {
                    lemma_mod_add_multiples_vanish(a - b, m as int);
                    lemma_mod_bound(a - b, m as int);
                }
                (s % m) as u64
            }
            BinOp::Mul => {
                proof {
                    assert((a as int) * (b as int) <= 0xffff_ffff_ffff_ffffint
                        * 0xffff_ffff_ffff_ffffint) by (nonlinear_arith)
                        requires
                            0 <= a as int <= 0xffff_ffff_ffff_ffff,
                            0 <= b as int <= 0xffff_ffff_ffff_ffff,
                    ;
                }
                let p: u128 = (a as u128) * (b as u128);
                proof {
                    lemma_mod_bound(p as int, m as int);
                }
                (p % m) as u64
            }
            BinOp::Div => {
                let sa = sext_exec(k, a);
                let sb = sext_exec(k, b);
                let q = trunc_div_exec(sa, sb);
                wrap_i128_exec(k, q)
            }
        }
    }
}

pub(crate) fn elem_neg_exec(k: Kind, a: u64) -> (r: u64)
    requires
        supported_kind(k),
        elem_ok(k, a),
    ensures
        r == elem_neg(k, a),
        elem_ok(k, r),
{
    if matches!(k, Kind::Double) {
        a ^ 0x8000_0000_0000_0000u64
    } else if matches!(k, Kind::Float) {
        let r32: u32 = (a as u32) ^ 0x8000_0000u32;
        r32 as u64
    } else {
        let sa = sext_exec(k, a);
        wrap_i128_exec(k, -sa)
    }
}

pub(crate) fn elem_recip_exec(k: Kind, a: u64) -> (r: u64)
    requires
        supported_kind(k),
        elem_ok(k, a),
        elem_recip_ok(k, a),
    ensures
        r == elem_recip(k, a),
        elem_ok(k, r),
{
    let one = one_bits_exec(k);
    elem_bin_exec(BinOp::Div, k, one, a)
}

pub(crate) fn elem_eq_exec(k: Kind, a: u64, b: u64) -> (r: bool)
    requires
        supported_kind(k),
        elem_ok(k, a),
        elem_ok(k, b),
    ensures
        r == elem_eq(k, a, b),
{
    if matches!(k, Kind::Double) {
        f64_eq(a, b)
    } else if matches!(k, Kind::Float) {
        f32_eq(a as u32, b as u32)
    } else {
        a == b
    }
}

pub(crate) fn elem_lt_exec(k: Kind, a: u64, b: u64) -> (r: bool)
    requires
        supported_kind(k),
        elem_ok(k, a),
        elem_ok(k, b),
    ensures
        r == elem_lt(k, a, b),
{
    if matches!(k, Kind::Double) {
        f64_lt(a, b)
    } else if matches!(k, Kind::Float) {
        f32_lt(a as u32, b as u32)
    } else {
        let sa = sext_exec(k, a);
        let sb = sext_exec(k, b);
        sa < sb
    }
}

pub(crate) fn cast_elem_exec(from: Kind, to: Kind, b: u64) -> (r: u64)
    requires
        supported_kind(from),
        supported_kind(to),
        elem_ok(from, b),
    ensures
        r == cast_elem(from, to, b),
        elem_ok(to, r),
{
    if kind_eq(from, to) {
        b
    } else if kind_is_int(from) {
        let s = sext_exec(from, b);
        if kind_is_int(to) {
            wrap_i128_exec(to, s)
        } else if matches!(to, Kind::Double) {
            f64_of_i64(s as i64)
        } else {
            f32_of_i64(s as i64) as u64
        }
    } else if matches!(from, Kind::Double) {
        if kind_is_int(to) {
            let v = f64_to_i64(b);
            wrap_i128_exec(to, v as i128)
        } else {
            f32_of_f64_bits_exec(b) as u64
        }
    } else {
        if kind_is_int(to) {
            let v = f32_to_i64(b as u32);
            wrap_i128_exec(to, v as i128)
        } else {
            f64_of_f32_bits_exec(b as u32)
        }
    }
}

fn kind_eq(a: Kind, b: Kind) -> (r: bool)
    ensures
        r == (a == b),
{
    a == b
}

fn f32_of_f64_bits_exec(b: u64) -> (r: u32)
    ensures
        r == f32_of_f64_bits(b),
{
    f64_to_f32(b)
}

fn f64_of_f32_bits_exec(b: u32) -> (r: u64)
    ensures
        r == f64_of_f32_bits(b),
{
    f32_to_f64(b)
}

/// Reading a valid bit pattern as an integer and wrapping it back is the
/// identity.
pub proof fn lemma_wrap_sext(k: Kind, b: u64)
    requires
        is_int_kind(k),
        elem_ok(k, b),
    ensures
        wrap(k, sext(k, b)) == b,
{
    let m = kind_modulus(k);
    if is_signed_kind(k) && b >= m / 2 {
        lemma_mod_add_multiples_vanish(b - m, m);
        lemma_small_mod(b as nat, m as nat);
    } else {
        lemma_small_mod(b as nat, m as nat);
    }
}

/// Wrapping an in-range integer value and reading it back is the identity.
pub proof fn lemma_sext_wrap(k: Kind, v: int)
    requires
        is_int_kind(k),
        if is_signed_kind(k) {
            -kind_modulus(k) / 2 <= v < kind_modulus(k) / 2
        } else {
            0 <= v < kind_modulus(k)
        },
    ensures
        sext(k, wrap(k, v)) == v,
{
    let m = kind_modulus(k);
    if v >= 0 {
        lemma_small_mod(v as nat, m as nat);
    } else {
        lemma_mod_add_multiples_vanish(v, m);
        lemma_small_mod((v + m) as nat, m as nat);
    }
}

/// Casting a whole element to its own kind is the identity.
pub proof fn lemma_cast_same(k: Kind, b: u64)
    ensures
        cast_elem(k, k, b) == b,
{
}

} // verus!
