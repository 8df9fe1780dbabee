use vstd::arithmetic::div_mod::{
    lemma_div_is_ordered, lemma_div_multiples_vanish, lemma_multiply_divide_lt,
};
use vstd::arithmetic::mul::{lemma_mul_inequality, lemma_mul_strict_inequality};
use vstd::arithmetic::power2::{
    lemma2_to64, lemma2_to64_rest, lemma_pow2_adds, lemma_pow2_pos, lemma_pow2_strictly_increases,
    pow2,
};
use vstd::prelude::*;

verus! {

/// How many binary digits `n` has; zero for zero.
pub open spec fn bit_len(n: nat) -> nat
    decreases n,
{
    if n == 0 {
        0
    } else {
        (1 + bit_len(n / 2)) as nat
    }
}

/// Divide and round to nearest, ties to even.
pub open spec fn rne_div(num: nat, den: nat) -> nat {
    let q = num / den;
    let r = num % den;
    if 2 * r > den || (2 * r == den && q % 2 == 1) {
        (q + 1) as nat
    } else {
        q
    }
}

/// Whether the rational `num / den` lies below two to the `e`, stated
/// without negative powers.
pub open spec fn rat_below_pow2(num: nat, den: nat, e: int) -> bool {
    if e >= 0 {
        num < den * pow2(e as nat)
    } else {
        num * pow2((-e) as nat) < den
    }
}

/// The floor of the base-two logarithm of `num / den`.
pub open spec fn rat_exp(num: nat, den: nat) -> int {
    let e0 = bit_len(num) - bit_len(den);
    if !rat_below_pow2(num, den, e0) {
        e0
    } else {
        e0 - 1
    }
}

/// The significand of `num / den` rounded to `mbits` binary digits:
/// the nearest integer (ties to even) to `num / den` scaled so that it
/// lands in `[2^(mbits-1), 2^mbits)`; rounding can push it to exactly
/// `2^mbits`.
pub open spec fn rounded_mantissa(num: nat, den: nat, mbits: nat) -> nat {
    let s = mbits - 1 - rat_exp(num, den);
    if s >= 0 {
        rne_div(num * pow2(s as nat), den)
    } else {
        rne_div(num, den * pow2((-s) as nat))
    }
}

/// The IEEE 754 binary interchange encoding of `num / den`, negated
/// when `neg`, for a format with `mbits` significand bits (the hidden
/// bit included), exponent bias `bias` and sign bit `signpos`: the
/// rounded significand packed with the biased exponent, the carry of a
/// significand that rounded up to `2^mbits` absorbed into the exponent.
pub open spec fn packed_bits(
    neg: bool,
    num: nat,
    den: nat,
    mbits: nat,
    bias: nat,
    signpos: nat,
) -> int {
    let e = rat_exp(num, den);
    let m = rounded_mantissa(num, den, mbits);
    let m2: int = if m == pow2(mbits) {
        pow2((mbits - 1) as nat) as int
    } else {
        m as int
    };
    let e2: int = if m == pow2(mbits) {
        e + 1
    } else {
        e
    };
    (if neg {
        pow2(signpos) as int
    } else {
        0
    }) + (e2 + bias) * pow2((mbits - 1) as nat) + (m2 - pow2((mbits - 1) as nat))
}

/// The bits of the binary32 value nearest `num / den`, negative when `neg`.
pub open spec fn f32_bits_of_rat(neg: bool, num: nat, den: nat) -> u32 {
    packed_bits(neg, num, den, 24, 127, 31) as u32
}

/// The bits of the binary64 value nearest `num / den`, negative when `neg`.
pub open spec fn f64_bits_of_rat(neg: bool, num: nat, den: nat) -> u64 {
    packed_bits(neg, num, den, 53, 1023, 63) as u64
}

/// A positive number sits between consecutive powers of two chosen by
/// its bit length.
pub proof fn lemma_bit_len_bounds(n: nat)
    requires
        n >= 1,
    ensures
        bit_len(n) >= 1,
        pow2((bit_len(n) - 1) as nat) <= n < pow2(bit_len(n)),
    decreases n,
{
    lemma2_to64();
    if n == 1 {
        assert(bit_len(1nat) == 1 + bit_len(0nat));
    } else {
        lemma_bit_len_bounds(n / 2);
        let k = bit_len(n / 2);
        lemma_pow2_adds((k - 1) as nat, 1);
        lemma_pow2_adds(k, 1);
        assert(pow2(k) == pow2((k - 1) as nat) * 2);
        assert(pow2((k + 1) as nat) == pow2(k) * 2);
        assert(n >= 2 * (n / 2));
        assert(n <= 2 * (n / 2) + 1);
    }
}

/// `rat_exp` brackets the rational: `2^e <= num / den < 2^(e+1)`.
pub proof fn lemma_rat_exp(num: nat, den: nat)
    requires
        num >= 1,
        den >= 1,
    ensures
        !rat_below_pow2(num, den, rat_exp(num, den)),
        rat_below_pow2(num, den, rat_exp(num, den) + 1),
{
    lemma_bit_len_bounds(num);
    lemma_bit_len_bounds(den);
    let bn = bit_len(num) as int;
    let bd = bit_len(den) as int;
    let e0 = bn - bd;
    if !rat_below_pow2(num, den, e0) {
        // e == e0; show num / den < 2^(e0 + 1)
        if e0 + 1 >= 0 {
            lemma_pow2_adds((bd - 1) as nat, (e0 + 1) as nat);
            lemma_mul_inequality(
                pow2((bd - 1) as nat) as int,
                den as int,
                pow2((e0 + 1) as nat) as int,
            );
            assert(num < pow2(bn as nat));
        } else {
            lemma_pow2_adds(bn as nat, (-e0 - 1) as nat);
            lemma_pow2_pos((-e0 - 1) as nat);
            lemma_mul_strict_inequality(
                num as int,
                pow2(bn as nat) as int,
                pow2((-e0 - 1) as nat) as int,
            );
            assert(pow2((bn - e0 - 1) as nat) == pow2((bd - 1) as nat));
        }
    } else {
        // e == e0 - 1; show num / den >= 2^(e0 - 1)
        if e0 - 1 >= 0 {
            lemma_pow2_adds((e0 - 1) as nat, bd as nat);
            lemma_pow2_pos((e0 - 1) as nat);
            lemma_mul_strict_inequality(den as int, pow2(bd as nat) as int, pow2(
                (e0 - 1) as nat,
            ) as int);
            assert(den * pow2((e0 - 1) as nat) < pow2(bd as nat) * pow2((e0 - 1) as nat));
            assert(pow2(bd as nat) * pow2((e0 - 1) as nat) == pow2((bn - 1) as nat));
            assert(num >= pow2((bn - 1) as nat));
        } else {
            lemma_pow2_adds((bn - 1) as nat, (1 - e0) as nat);
            lemma_mul_inequality(
                pow2((bn - 1) as nat) as int,
                num as int,
                pow2((1 - e0) as nat) as int,
            );
            assert(pow2((bn - 1) as nat) * pow2((1 - e0) as nat) == pow2(bd as nat));
            assert(den < pow2(bd as nat));
        }
    }
}

/// With the exponent capped at `mbits - 1`, the scaled numerator stays
/// under `den * 2^mbits` and at or above `den * 2^(mbits-1)`, so the
/// rounded significand lands in `[2^(mbits-1), 2^mbits]`.
pub proof fn lemma_mantissa_range(num: nat, den: nat, mbits: nat)
    requires
        num >= 1,
        den >= 1,
        mbits >= 2,
        rat_exp(num, den) <= mbits - 1,
    ensures
        ({
            let s = (mbits - 1 - rat_exp(num, den)) as nat;
            den * pow2((mbits - 1) as nat) <= num * pow2(s) < den * pow2(mbits)
        }),
        pow2((mbits - 1) as nat) <= rounded_mantissa(num, den, mbits) <= pow2(mbits),
{
    lemma_rat_exp(num, den);
    let e = rat_exp(num, den);
    let s = (mbits - 1 - e) as nat;
    lemma_pow2_pos(s);
    // lower bound: num / den >= 2^e
    if e >= 0 {
        lemma_pow2_adds(e as nat, s);
        assert(num >= den * pow2(e as nat));
        lemma_mul_inequality((den * pow2(e as nat)) as int, num as int, pow2(s) as int);
        assert(den * pow2(e as nat) * pow2(s) == den * (pow2(e as nat) * pow2(s)))
            by (nonlinear_arith);
        assert(pow2(e as nat) * pow2(s) == pow2((mbits - 1) as nat));
    } else {
        assert(num * pow2((-e) as nat) >= den);
        lemma_pow2_adds((-e) as nat, (mbits - 1) as nat);
        lemma_mul_inequality(den as int, (num * pow2((-e) as nat)) as int, pow2(
            (mbits - 1) as nat,
        ) as int);
        assert(num * pow2((-e) as nat) * pow2((mbits - 1) as nat) == num * (pow2((-e) as nat)
            * pow2((mbits - 1) as nat))) by (nonlinear_arith);
        assert(pow2((-e) as nat) * pow2((mbits - 1) as nat) == pow2(s));
    }
    // upper bound: num / den < 2^(e+1)
    if e + 1 >= 0 {
        assert(num < den * pow2((e + 1) as nat));
        lemma_mul_strict_inequality(num as int, (den * pow2((e + 1) as nat)) as int, pow2(s) as int);
        lemma_pow2_adds((e + 1) as nat, s);
        assert(den * pow2((e + 1) as nat) * pow2(s) == den * (pow2((e + 1) as nat) * pow2(s)))
            by (nonlinear_arith);
        assert(pow2((e + 1) as nat) * pow2(s) == pow2(mbits));
    } else {
        assert(num * pow2((-e - 1) as nat) < den);
        lemma_pow2_adds((-e - 1) as nat, mbits);
        lemma_pow2_pos(mbits);
        lemma_mul_strict_inequality(
            (num * pow2((-e - 1) as nat)) as int,
            den as int,
            pow2(mbits) as int,
        );
        assert(num * pow2((-e - 1) as nat) * pow2(mbits) == num * (pow2((-e - 1) as nat) * pow2(
            mbits,
        ))) by (nonlinear_arith);
        assert(pow2((-e - 1) as nat) * pow2(mbits) == pow2(s));
    }
    let a = num * pow2(s);
    assert(den * pow2((mbits - 1) as nat) <= a < den * pow2(mbits));
    // divide through by den
    lemma_div_multiples_vanish(pow2((mbits - 1) as nat) as int, den as int);
    lemma_div_is_ordered((den * pow2((mbits - 1) as nat)) as int, a as int, den as int);
    assert(den * pow2((mbits - 1) as nat) == pow2((mbits - 1) as nat) * den)
        by (nonlinear_arith);
    lemma_multiply_divide_lt(a as int, den as int, pow2(mbits) as int);
    assert(pow2((mbits - 1) as nat) <= a / den < pow2(mbits));
}

/// The number of binary digits of a 64-bit value.
pub fn bit_len_u64(x: u64) -> (r: u64)
    ensures
        r == bit_len(x as nat),
        r <= 64,
{
    let mut n: u64 = x;
    let mut r: u64 = 0;
    proof {
        lemma_bit_len_le(x as nat);
    }
    while n > 0
        invariant
            bit_len(x as nat) == r + bit_len(n as nat),
            r + bit_len(n as nat) <= 64,
        decreases n,
    {
        n = n / 2;
        r = r + 1;
    }
    r
}

/// A 64-bit value has at most 64 binary digits.
proof fn lemma_bit_len_le(n: nat)
    requires
        n < 0x1_0000_0000_0000_0000,
    ensures
        bit_len(n) <= 64,
{
    lemma2_to64();
    lemma2_to64_rest();
    lemma_bit_len_le_rec(n, 64);
}

/// Whatever fits under `2^k` has at most `k` binary digits.
proof fn lemma_bit_len_le_rec(n: nat, k: nat)
    requires
        n < pow2(k),
    ensures
        bit_len(n) <= k,
    decreases n,
{
    lemma2_to64();
    lemma2_to64_rest();
    if n > 0 {
        assert(k >= 1) by {
            if k == 0 {
                assert(pow2(0nat) == 1);
            }
        }
        lemma_pow2_adds((k - 1) as nat, 1);
        lemma_bit_len_le_rec(n / 2, (k - 1) as nat);
    }
}

/// Two to the power `k`, computed in 128 bits.
pub fn pow2_u128(k: u64) -> (r: u128)
    requires
        k <= 127,
    ensures
        r == pow2(k as nat),
{
    let mut r: u128 = 1;
    let mut i: u64 = 0;
    proof {
        lemma2_to64();
    }
    while i < k
        invariant
            i <= k,
            k <= 127,
            r == pow2(i as nat),
        decreases k - i,
    {
        proof {
            lemma2_to64();
            lemma2_to64_rest();
            lemma_pow2_adds(63, 64);
            assert(pow2((i + 1) as nat) <= pow2(127)) by {
                if i + 1 < 127 {
                    lemma_pow2_strictly_increases((i + 1) as nat, 127);
                }
            }
            lemma_pow2_adds(i as nat, 1);
        }
        r = r * 2;
        i = i + 1;
    }
    r
}

/// Pack the IEEE bits of `num / den` for one of the two supported
/// binary formats, by the same integer steps `packed_bits` takes.
pub fn rat_to_bits(neg: bool, num: u64, den: u64, mbits: u64, bias: u64, signpos: u64) -> (r: u64)
    requires
        1 <= num,
        1 <= den,
        (mbits == 24 && bias == 127 && signpos == 31) || (mbits == 53 && bias == 1023 && signpos
            == 63),
        (num as nat) < (den as nat) * pow2(mbits as nat),
    ensures
        r == packed_bits(neg, num as nat, den as nat, mbits as nat, bias as nat, signpos as nat),
        r < pow2((signpos + 1) as nat),
{
    proof {
        lemma2_to64();
        lemma2_to64_rest();
        lemma_rat_exp(num as nat, den as nat);
        lemma_bit_len_bounds(num as nat);
        lemma_bit_len_bounds(den as nat);
    }
    let bn = bit_len_u64(num);
    let bd = bit_len_u64(den);
    let ge: bool;
    if bn >= bd {
        let p = pow2_u128(bn - bd);
        proof {
            lemma_pow2_strictly_increases((bn - bd) as nat, 64);
            assert((den as u128) * p < pow2(64) * pow2(64)) by (nonlinear_arith)
                requires
                    den < pow2(64),
                    p < pow2(64),
                    p == pow2((bn - bd) as nat),
            ;
            lemma_pow2_adds(64, 64);
        }
        ge = (num as u128) >= (den as u128) * p;
    } else {
        let p = pow2_u128(bd - bn);
        proof {
            lemma_pow2_strictly_increases((bd - bn) as nat, 64);
            assert((num as u128) * p < pow2(64) * pow2(64)) by (nonlinear_arith)
                requires
                    num < pow2(64),
                    p < pow2(64),
                    p == pow2((bd - bn) as nat),
            ;
            lemma_pow2_adds(64, 64);
        }
        ge = (num as u128) * p >= (den as u128);
    }
    let e: i64 = if ge {
        bn as i64 - bd as i64
    } else {
        bn as i64 - bd as i64 - 1
    };
    proof {
        assert(e == rat_exp(num as nat, den as nat));
        // the cap on num / den caps the exponent
        if e as int > mbits - 1 {
            lemma_pow2_strictly_increases(mbits as nat, e as nat);
            assert(!rat_below_pow2(num as nat, den as nat, e as int));
            lemma_mul_inequality(pow2(mbits as nat) as int, pow2(e as nat) as int, den as int);
            assert(den as nat * pow2(e as nat) >= den as nat * pow2(mbits as nat))
                by (nonlinear_arith)
                requires
                    pow2(e as nat) >= pow2(mbits as nat),
                    den >= 1,
            ;
            assert(false);
        }
        lemma_mantissa_range(num as nat, den as nat, mbits as nat);
    }
    let s: u64 = (mbits as i64 - 1 - e) as u64;
    let ps = pow2_u128(s);
    proof {
        assert((num as nat) * pow2(s as nat) < (den as nat) * pow2(mbits as nat));
        assert((den as nat) * pow2(mbits as nat) < pow2(64) * pow2(53)) by (nonlinear_arith)
            requires
                (den as nat) < pow2(64),
                pow2(mbits as nat) <= pow2(53),
                pow2(53) > 0,
        ;
        lemma_pow2_adds(64, 53);
        lemma_pow2_strictly_increases(117, 128);
        lemma_pow2_adds(64, 64);
        if mbits == 24 {
            lemma_pow2_strictly_increases(24, 53);
        }
    }
    let a: u128 = (num as u128) * ps;
    let q: u128 = a / (den as u128);
    let rem: u128 = a % (den as u128);
    proof {
        assert(s as int == mbits - 1 - rat_exp(num as nat, den as nat));
        assert(a == (num as nat) * pow2(s as nat));
        lemma_multiply_divide_lt(a as int, den as int, pow2(mbits as nat) as int);
        assert(q < pow2(mbits as nat));
    }
    let mant: u64 = if 2 * rem > den as u128 || (2 * rem == den as u128 && q % 2 == 1) {
        proof {
            assert(q < pow2(mbits as nat));
            lemma_pow2_strictly_increases(mbits as nat, 63);
        }
        (q + 1) as u64
    } else {
        proof {
            assert(q < pow2(mbits as nat));
            lemma_pow2_strictly_increases(mbits as nat, 63);
        }
        q as u64
    };
    proof {
        assert(mant == rounded_mantissa(num as nat, den as nat, mbits as nat));
    }
    let pm: u64 = pow2_u128(mbits) as u64;
    let pmh: u64 = pm / 2;
    proof {
        lemma_pow2_adds((mbits - 1) as nat, 1);
        assert(pmh == pow2((mbits - 1) as nat));
    }
    let m2: u64;
    let e2: i64;
    if mant == pm {
        m2 = pmh;
        e2 = e + 1;
    } else {
        m2 = mant;
        e2 = e;
    }
    let exp_field: u64 = (e2 + bias as i64) as u64;
    proof {
        assert(bd <= 64);
        assert(e2 + bias as i64 >= 0);
        assert(exp_field <= mbits + bias);
        assert(mant <= pow2(mbits as nat));
        assert(pow2((mbits - 1) as nat) <= m2 && m2 < pow2(mbits as nat));
    }
    let sign: u64 = if neg {
        proof {
            lemma_pow2_strictly_increases(signpos as nat, 64);
        }
        pow2_u128(signpos) as u64
    } else {
        0
    };
    proof {
        lemma2_to64();
        lemma2_to64_rest();
        if mbits == 24 {
            assert(sign <= pow2(31));
            assert(exp_field <= 152);
            assert(pmh == pow2(23));
            assert(exp_field * pmh <= 152 * pow2(23)) by (nonlinear_arith)
                requires
                    exp_field <= 152,
                    pmh == pow2(23),
                    pow2(23) > 0,
            ;
        } else {
            assert(sign <= pow2(63));
            assert(exp_field <= 1077);
            assert(pmh == pow2(52));
            assert(exp_field * pmh <= 1077 * pow2(52)) by (nonlinear_arith)
                requires
                    exp_field <= 1077,
                    pmh == pow2(52),
                    pow2(52) > 0,
            ;
        }
    }
    sign + exp_field * pmh + (m2 - pmh)
}

/// The bits of the binary32 value nearest `num / den`.
pub fn rat_to_f32_bits(neg: bool, num: u64, den: u64) -> (r: u32)
    requires
        1 <= num,
        1 <= den,
        (num as nat) < (den as nat) * pow2(24),
    ensures
        r == f32_bits_of_rat(neg, num as nat, den as nat),
{
    let bits = rat_to_bits(neg, num, den, 24, 127, 31);
    proof {
        lemma2_to64();
        assert(bits < pow2(32));
    }
    bits as u32
}

/// The bits of the binary64 value nearest `num / den`.
pub fn rat_to_f64_bits(neg: bool, num: u64, den: u64) -> (r: u64)
    requires
        1 <= num,
        1 <= den,
        (num as nat) < (den as nat) * pow2(53),
    ensures
        r == f64_bits_of_rat(neg, num as nat, den as nat),
{
    rat_to_bits(neg, num, den, 53, 1023, 63)
}

} // verus!
