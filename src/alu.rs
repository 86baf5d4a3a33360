use vstd::prelude::*;

use vstd::arithmetic::div_mod::{
    lemma_div_multiples_vanish_fancy, lemma_fundamental_div_mod, lemma_hoist_over_denominator,
    lemma_mod_multiples_vanish,
};
use vstd::arithmetic::power2::{lemma2_to64, lemma_pow2_adds, lemma_pow2_strictly_increases, pow2};
use vstd::bits::{lemma_u64_pow2_no_overflow, lemma_u64_shl_is_mul};

use crate::opcodes::{
    is_basic, is_conditional, OpCode, ADD, ADX, AND, ASR, BOR, DIV, DVI, IFA, IFB, IFC, IFE, IFG,
    IFL, IFN, MDI, MLI, MOD, MUL, SBX, SHL, SHR, SUB, XOR,
};

verus! {

/// The word an integer wraps to: its value modulo 2^16.
pub open spec fn to_word(x: int) -> u16 {
    (x % 0x10000) as u16
}

/// The two's-complement reading of a word.
pub open spec fn signed(x: u16) -> int {
    if x >= 0x8000 {
        x - 0x10000
    } else {
        x as int
    }
}

pub open spec fn abs(x: int) -> int {
    if x < 0 {
        -x
    } else {
        x
    }
}

/// Division truncated toward zero.
pub open spec fn div_trunc(x: int, y: int) -> int {
    if (x < 0) != (y < 0) {
        -(abs(x) / abs(y))
    } else {
        abs(x) / abs(y)
    }
}

/// The remainder of a truncated division: its sign follows the dividend.
pub open spec fn rem_trunc(x: int, y: int) -> int {
    if x < 0 {
        -(abs(x) % abs(y))
    } else {
        abs(x) % abs(y)
    }
}

/// The new value of `b` and the new `EX` of a basic opcode that writes `b`,
/// given the old value of `b`, the value of `a` and the old `EX`.
pub open spec fn arith(op: OpCode, b: u16, a: u16, ex: u16) -> (u16, u16) {
    let (x, y, e) = (b as int, a as int, ex as int);
    if op == ADD {
        (to_word(x + y), if x + y > 0xFFFF { 1 } else { 0 })
    } else if op == SUB {
        (to_word(x - y), if x < y { 0xFFFF } else { 0 })
    } else if op == MUL {
        (to_word(x * y), to_word((x * y) / 0x10000))
    } else if op == MLI {
        (to_word(signed(b) * signed(a)), to_word((signed(b) * signed(a)) / 0x10000))
    } else if op == DIV {
        if a == 0 {
            (0, 0)
        } else {
            (to_word(x / y), to_word((x * 0x10000) / y))
        }
    } else if op == DVI {
        if a == 0 {
            (0, 0)
        } else {
            (
                to_word(div_trunc(signed(b), signed(a))),
                to_word(div_trunc(signed(b) * 0x10000, signed(a))),
            )
        }
    } else if op == MOD {
        (if a == 0 { 0 } else { to_word(x % y) }, ex)
    } else if op == MDI {
        (if a == 0 { 0 } else { to_word(rem_trunc(signed(b), signed(a))) }, ex)
    } else if op == AND {
        (b & a, ex)
    } else if op == BOR {
        (b | a, ex)
    } else if op == XOR {
        (b ^ a, ex)
    } else if op == SHR {
        (to_word(x / pow2(a as nat) as int), to_word((x * 0x10000) / pow2(a as nat) as int))
    } else if op == ASR {
        (
            to_word(signed(b) / pow2(a as nat) as int),
            to_word((signed(b) * 0x10000) / pow2(a as nat) as int),
        )
    } else if op == SHL {
        (to_word(x * pow2(a as nat)), to_word((x * pow2(a as nat)) / 0x10000))
    } else if op == ADX {
        (to_word(x + y + e), if x + y + e > 0xFFFF { 1 } else { 0 })
    } else if op == SBX {
        (to_word(x - y + e), if x < y || to_word(x - y) + e > 0xFFFF { 0xFFFF } else { 0 })
    } else {
        // SET, STI and STD store `a`.
        (a, ex)
    }
}

pub proof fn lemma_word_shift(x: int, k: int)
    ensures
        to_word(x + k * 0x10000) == to_word(x),
{
    lemma_mod_multiples_vanish(k, x, 0x10000);
    assert(0x10000 * k + x == x + k * 0x10000) by (nonlinear_arith);
}

/// Two wrapping increments add up.
pub proof fn lemma_word_sum(x: u16, n: u16)
    ensures
        ((((x + 1) % 0x10000) + n) % 0x10000) as u16 == to_word(x + 1 + n),
{
    vstd::arithmetic::div_mod::lemma_add_mod_noop(x + 1, n as int, 0x10000);
}

/// 2^n as a `u64`.
fn power_of_two(n: u16) -> (d: u64)
    requires
        n < 64,
    ensures
        d as nat == pow2(n as nat),
        d > 0,
{
    proof {
        lemma_u64_pow2_no_overflow(n as nat);
        lemma_u64_shl_is_mul(1, n as u64);
    }
    1u64 << (n as u64)
}

/// The word of `-q`.
fn negated_word(q: u64) -> (r: u16)
    requires
        q <= 0x1_0000_0000,
    ensures
        r == to_word(-q),
{
    proof {
        lemma_word_shift(-q, 0x10000);
    }
    ((0x1_0000_0000u64 - q) % 0x10000) as u16
}

/// The magnitude of the two's-complement reading of a word.
fn magnitude(x: u16) -> (r: u32)
    ensures
        r == abs(signed(x)),
        r <= 0x8000,
{
    if x >= 0x8000 {
        0x10000u32 - x as u32
    } else {
        x as u32
    }
}

fn signed_mul(b: u16, a: u16) -> (r: (u16, u16))
    ensures
        r == arith(MLI, b, a, 0),
{
    let ub = magnitude(b);
    let ua = magnitude(a);
    assert(ub * ua <= 0x4000_0000) by (nonlinear_arith)
        requires
            ub <= 0x8000,
            ua <= 0x8000,
    ;
    let m = ub as u64 * ua as u64;
    let ghost p = signed(b) * signed(a);
    let negative = (b >= 0x8000) != (a >= 0x8000);
    let n: u64 = if negative {
        0x1_0000_0000u64 - m
    } else {
        m
    };
    proof {
        assert(n == p + 0x1_0000_0000 || n == p) by (nonlinear_arith)
            requires
                m == abs(signed(b)) * abs(signed(a)),
                p == signed(b) * signed(a),
                negative == ((signed(b) < 0) != (signed(a) < 0)),
                n == (if negative { 0x1_0000_0000 - m } else { m as int }),
        ;
        if n != p {
            lemma_word_shift(p, 0x10000);
            lemma_hoist_over_denominator(p, 0x10000, 0x10000);
            lemma_word_shift(p / 0x10000, 1);
        }
    }
    ((n % 0x10000) as u16, ((n / 0x10000) % 0x10000) as u16)
}

fn signed_div(b: u16, a: u16) -> (r: (u16, u16))
    requires
        a != 0,
    ensures
        r == arith(DVI, b, a, 0),
{
    let ub = magnitude(b);
    let ua = magnitude(a);
    let q1 = ub / ua;
    let q2 = (ub as u64 * 0x10000) / ua as u64;
    proof {
        assert(q1 <= ub && q2 <= ub * 0x10000) by (nonlinear_arith)
            requires
                ua >= 1,
                q1 == ub / ua,
                q2 == (ub * 0x10000) / (ua as int),
        ;
        assert(abs(signed(b) * 0x10000) == ub * 0x10000);
    }
    if (b >= 0x8000) != (a >= 0x8000) {
        (negated_word(q1 as u64), negated_word(q2))
    } else {
        ((q1 % 0x10000) as u16, (q2 % 0x10000) as u16)
    }
}

fn signed_rem(b: u16, a: u16) -> (r: u16)
    requires
        a != 0,
    ensures
        r == arith(MDI, b, a, 0).0,
{
    let ub = magnitude(b);
    let ua = magnitude(a);
    let m = ub % ua;
    if b >= 0x8000 {
        negated_word(m as u64)
    } else {
        (m % 0x10000) as u16
    }
}

fn shift_right(b: u16, a: u16) -> (r: (u16, u16))
    ensures
        r == arith(SHR, b, a, 0),
{
    if a >= 32 {
        proof {
            lemma2_to64();
            if a > 32 {
                lemma_pow2_strictly_increases(32, a as nat);
            }
            lemma_div_small(b as int, pow2(a as nat) as int);
            lemma_div_small(b as int * 0x10000, pow2(a as nat) as int);
        }
        (0, 0)
    } else {
        let d = power_of_two(a);
        let x = b as u64 * 0x10000;
        proof {
            assert(b as int / d as int <= b) by (nonlinear_arith)
                requires
                    d >= 1,
            ;
        }
        ((b as u64 / d) as u16, ((x / d) % 0x10000) as u16)
    }
}

fn shift_left(b: u16, a: u16) -> (r: (u16, u16))
    ensures
        r == arith(SHL, b, a, 0),
{
    if a >= 32 {
        proof {
            let k = pow2((a - 32) as nat);
            lemma2_to64();
            lemma_pow2_adds(32, (a - 32) as nat);
            assert(b * pow2(a as nat) == (b * k * 0x10000) * 0x10000) by (nonlinear_arith)
                requires
                    pow2(a as nat) == 0x1_0000_0000 * k,
            ;
            lemma_word_shift(0, b * k * 0x10000);
            lemma_div_multiples_vanish_fancy(b * k * 0x10000, 0, 0x10000);
            assert(0x10000 * (b * k * 0x10000) + 0 == (b * k * 0x10000) * 0x10000);
            assert((b * k * 0x10000) == (b * k) * 0x10000) by (nonlinear_arith);
            lemma_word_shift(0, b * k);
        }
        (0, 0)
    } else {
        let d = power_of_two(a);
        proof {
            lemma2_to64();
            if a < 31 {
                lemma_pow2_strictly_increases(a as nat, 32);
            }
            assert(b * d < 0x1_0000_0000_0000) by (nonlinear_arith)
                requires
                    b < 0x10000,
                    d <= 0x1_0000_0000,
            ;
        }
        let p = b as u64 * d;
        ((p % 0x10000) as u16, ((p / 0x10000) % 0x10000) as u16)
    }
}

proof fn lemma_div_small(x: int, d: int)
    requires
        d > 0,
        -d <= x < d,
    ensures
        x / d == if x < 0 { -1int } else { 0int },
{
    if x < 0 {
        lemma_div_multiples_vanish_fancy(-1, x + d, d);
        assert(d * -1 + (x + d) == x) by (nonlinear_arith);
    } else {
        lemma_div_multiples_vanish_fancy(0, x, d);
    }
}

/// For `d == 2^n` dividing `2^e`: `2^e / d` as a `u64`, and the fact that
/// adding `2^e` to a dividend adds that quotient.
proof fn lemma_bias(y: int, n: nat, e: nat)
    requires
        n <= e,
        e < 64,
    ensures
        pow2(e) / pow2(n) == pow2((e - n) as nat),
        (y + pow2(e)) / pow2(n) as int == y / pow2(n) as int + pow2((e - n) as nat),
{
    let k = pow2((e - n) as nat);
    let d = pow2(n);
    lemma_pow2_adds((e - n) as nat, n);
    assert(((e - n) as nat + n) as nat == e);
    vstd::arithmetic::power2::lemma_pow2_pos(n);
    lemma_div_multiples_vanish_fancy(k as int, 0, d as int);
    assert(d * k + 0 == k * d) by (nonlinear_arith);
    lemma_hoist_over_denominator(y, k as int, d);
}

fn arithmetic_shift_right(b: u16, a: u16) -> (r: (u16, u16))
    ensures
        r == arith(ASR, b, a, 0),
{
    let sb = Ghost(signed(b));
    let u = (b ^ 0x8000) as u64;
    assert(b ^ 0x8000 == if b >= 0x8000 { (b - 0x8000) as u16 } else { (b + 0x8000) as u16 })
        by (bit_vector);
    assert(u == sb@ + 0x8000);
    proof {
        lemma2_to64();
    }
    let negative = b >= 0x8000;
    let low: u16 = if a >= 15 {
        proof {
            if a > 15 {
                lemma_pow2_strictly_increases(15, a as nat);
            }
            lemma_div_small(sb@, pow2(a as nat) as int);
        }
        if negative {
            0xFFFF
        } else {
            0
        }
    } else {
        let d = power_of_two(a);
        proof {
            lemma_bias(sb@, a as nat, 15);
        }
        let k = 0x8000u64 / d;
        let q = u / d;
        proof {
            lemma_word_shift(q - k, 1);
            assert(u / d <= u) by (nonlinear_arith)
                requires
                    d >= 1,
            ;
        }
        ((q + 0x10000 - k) % 0x10000) as u16
    };
    let high: u16 = if a >= 32 {
        proof {
            if a > 32 {
                lemma_pow2_strictly_increases(32, a as nat);
            }
            lemma_div_small(sb@ * 0x10000, pow2(a as nat) as int);
        }
        if negative {
            0xFFFF
        } else {
            0
        }
    } else {
        let d = power_of_two(a);
        proof {
            lemma_bias(sb@ * 0x10000, a as nat, 31);
            if a < 31 {
                lemma_pow2_strictly_increases(a as nat, 31);
            }
        }
        let k = 0x8000_0000u64 / d;
        let x = u * 0x10000;
        let q = x / d;
        proof {
            assert(x == sb@ * 0x10000 + 0x8000_0000);
            lemma_word_shift(q - k, 0x10000);
            assert(x / d <= x) by (nonlinear_arith)
                requires
                    d >= 1,
            ;
        }
        ((q + 0x1_0000_0000 - k) % 0x10000) as u16
    };
    (low, high)
}

/// Computes the new `b` and `EX` of a basic opcode that writes `b`.
pub fn compute(op: OpCode, b: u16, a: u16, ex: u16) -> (r: (u16, u16))
    requires
        is_basic(op),
        !is_conditional(op),
    ensures
        r == arith(op, b, a, ex),
{
    if op == ADD {
        let s = b as u32 + a as u32;
        ((s % 0x10000) as u16, if s > 0xFFFF { 1 } else { 0 })
    } else if op == SUB {
        if b >= a {
            (b - a, 0)
        } else {
            proof {
                lemma_word_shift(b as int - a as int, 1);
            }
            ((0x10000u32 + b as u32 - a as u32) as u16, 0xFFFF)
        }
    } else if op == MUL {
        assert(b * a <= 0xFFFF * 0xFFFF) by (nonlinear_arith)
            requires
                b <= 0xFFFF,
                a <= 0xFFFF,
        ;
        let p = b as u32 * a as u32;
        ((p % 0x10000) as u16, (p / 0x10000) as u16)
    } else if op == MLI {
        signed_mul(b, a)
    } else if op == DIV {
        if a == 0 {
            (0, 0)
        } else {
            let x = b as u64 * 0x10000;
            proof {
                assert(x / a as u64 <= x) by (nonlinear_arith)
                    requires
                        a >= 1,
                ;
            }
            (b / a, ((x / a as u64) % 0x10000) as u16)
        }
    } else if op == DVI {
        if a == 0 {
            (0, 0)
        } else {
            signed_div(b, a)
        }
    } else if op == MOD {
        (if a == 0 { 0 } else { b % a }, ex)
    } else if op == MDI {
        (if a == 0 { 0 } else { signed_rem(b, a) }, ex)
    } else if op == AND {
        (b & a, ex)
    } else if op == BOR {
        (b | a, ex)
    } else if op == XOR {
        (b ^ a, ex)
    } else if op == SHR {
        let r = shift_right(b, a);
        (r.0, r.1)
    } else if op == ASR {
        let r = arithmetic_shift_right(b, a);
        (r.0, r.1)
    } else if op == SHL {
        let r = shift_left(b, a);
        (r.0, r.1)
    } else if op == ADX {
        let s = b as u32 + a as u32 + ex as u32;
        ((s % 0x10000) as u16, if s > 0xFFFF { 1 } else { 0 })
    } else if op == SBX {
        let borrow = b < a;
        let d: u32 = if borrow {
            0x10000u32 + b as u32 - a as u32
        } else {
            (b - a) as u32
        };
        proof {
            lemma_word_shift(b as int - a as int, 1);
            lemma_word_shift(b as int - a as int + ex as int, 1);
        }
        let s = d + ex as u32;
        ((s % 0x10000) as u16, if borrow || s > 0xFFFF { 0xFFFF } else { 0 })
    } else {
        (a, ex)
    }
}

/// Whether the test of a conditional opcode holds for `b` and `a`.
pub open spec fn condition(op: OpCode, b: u16, a: u16) -> bool {
    if op == IFB {
        b & a != 0
    } else if op == IFC {
        b & a == 0
    } else if op == IFE {
        b == a
    } else if op == IFN {
        b != a
    } else if op == IFG {
        b > a
    } else if op == IFA {
        signed(b) > signed(a)
    } else if op == IFL {
        b < a
    } else {
        signed(b) < signed(a)
    }
}

/// Evaluates the test of a conditional opcode.
pub fn evaluate_condition(op: OpCode, b: u16, a: u16) -> (r: bool)
    ensures
        r == condition(op, b, a),
{
    assert(b ^ 0x8000 == if b >= 0x8000 { (b - 0x8000) as u16 } else { (b + 0x8000) as u16 })
        by (bit_vector);
    assert(a ^ 0x8000 == if a >= 0x8000 { (a - 0x8000) as u16 } else { (a + 0x8000) as u16 })
        by (bit_vector);
    if op == IFB {
        b & a != 0
    } else if op == IFC {
        b & a == 0
    } else if op == IFE {
        b == a
    } else if op == IFN {
        b != a
    } else if op == IFG {
        b > a
    } else if op == IFA {
        (b ^ 0x8000) > (a ^ 0x8000)
    } else if op == IFL {
        b < a
    } else {
        (b ^ 0x8000) < (a ^ 0x8000)
    }
}

} // verus!
