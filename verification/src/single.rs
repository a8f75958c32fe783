//! Single-precision (binary32) rounding of exact ratios, computed with
//! integers: the 24-bit significand and the exponent that rounding a
//! positive ratio to the nearest binary32 value gives, ties to even.
use vstd::prelude::*;

verus! {

/// `2^k`.
pub open spec fn two_to(k: nat) -> nat
    decreases k,
{
    if k == 0 {
        1
    } else {
        2 * two_to((k - 1) as nat)
    }
}

pub proof fn lemma_two_to_adds(a: nat, b: nat)
    ensures
        two_to(a + b) == two_to(a) * two_to(b),
    decreases b,
{
    if b > 0 {
        let b1 = (b - 1) as nat;
        lemma_two_to_adds(a, b1);
        let x = two_to(a);
        let y = two_to(b1);
        assert(a + b1 + 1 == a + b);
        assert(two_to(a + b) == 2 * two_to(a + b1));
        assert(two_to(b) == 2 * y);
        assert(2 * (x * y) == x * (2 * y)) by (nonlinear_arith);
    } else {
        assert(two_to(0) == 1);
        assert(a + b == a);
    }
}

pub proof fn lemma_two_to_pos(k: nat)
    ensures
        two_to(k) >= 1,
    decreases k,
{
    if k > 0 {
        lemma_two_to_pos((k - 1) as nat);
    }
}

pub proof fn lemma_two_to_mono(a: nat, b: nat)
    requires
        a <= b,
    ensures
        two_to(a) <= two_to(b),
        a < b ==> 2 * two_to(a) <= two_to(b),
    decreases b,
{
    lemma_two_to_pos(a);
    if a < b {
        lemma_two_to_mono(a, (b - 1) as nat);
    }
}

/// The powers of two that the bounds below use.
pub proof fn lemma_two_to_values()
    ensures
        two_to(8) == 256,
        two_to(23) == 0x80_0000,
        two_to(24) == 0x100_0000,
        two_to(32) == 0x1_0000_0000,
        two_to(64) == 0x1_0000_0000_0000_0000,
        two_to(90) == 0x400_0000_0000_0000_0000_0000,
        two_to(91) == 0x800_0000_0000_0000_0000_0000,
        two_to(100) == 0x10_0000_0000_0000_0000_0000_0000,
        two_to(124) == 0x1000_0000_0000_0000_0000_0000_0000_0000,
        two_to(126) == 0x4000_0000_0000_0000_0000_0000_0000_0000,
        two_to(127) == 0x8000_0000_0000_0000_0000_0000_0000_0000,
        two_to(128) == 0x1_0000_0000_0000_0000_0000_0000_0000_0000,
{
    reveal_with_fuel(two_to, 9);
    assert(two_to(8) == 256);
    assert(two_to(7) == 128);
    assert(two_to(4) == 16);
    assert(two_to(3) == 8);
    assert(two_to(2) == 4);
    lemma_two_to_adds(8, 8);
    assert(two_to(16) == 0x1_0000);
    lemma_two_to_adds(16, 7);
    assert(two_to(23) == 0x80_0000);
    lemma_two_to_adds(16, 8);
    assert(two_to(24) == 0x100_0000);
    lemma_two_to_adds(16, 16);
    assert(two_to(32) == 0x1_0000_0000);
    lemma_two_to_adds(32, 32);
    assert(two_to(64) == 0x1_0000_0000_0000_0000);
    lemma_two_to_adds(64, 32);
    assert(two_to(96) == 0x1_0000_0000_0000_0000_0000_0000);
    lemma_two_to_adds(64, 16);
    lemma_two_to_adds(80, 8);
    lemma_two_to_adds(88, 2);
    lemma_two_to_adds(88, 3);
    assert(two_to(90) == 0x400_0000_0000_0000_0000_0000);
    assert(two_to(91) == 0x800_0000_0000_0000_0000_0000);
    lemma_two_to_adds(96, 4);
    assert(two_to(100) == 0x10_0000_0000_0000_0000_0000_0000);
    lemma_two_to_adds(96, 16);
    assert(two_to(112) == 0x1_0000_0000_0000_0000_0000_0000_0000);
    lemma_two_to_adds(112, 8);
    assert(two_to(120) == 0x100_0000_0000_0000_0000_0000_0000_0000);
    lemma_two_to_adds(120, 4);
    assert(two_to(124) == 0x1000_0000_0000_0000_0000_0000_0000_0000);
    lemma_two_to_adds(124, 2);
    lemma_two_to_adds(124, 3);
    lemma_two_to_adds(124, 4);
}

/// Number of binary digits of `n`.
pub open spec fn bitlen(n: nat) -> nat
    decreases n,
{
    if n == 0 {
        0
    } else {
        1 + bitlen(n / 2)
    }
}

pub proof fn lemma_bitlen(n: nat)
    requires
        n > 0,
    ensures
        bitlen(n) >= 1,
        two_to((bitlen(n) - 1) as nat) <= n < two_to(bitlen(n)),
    decreases n,
{
    if n >= 2 {
        lemma_bitlen(n / 2);
        let l = bitlen(n / 2);
        assert(two_to(l) == 2 * two_to((l - 1) as nat));
        assert(two_to(l + 1) == 2 * two_to(l));
        assert(bitlen(n) == l + 1);
    } else {
        assert(bitlen(0) == 0);
        assert(bitlen(n) == 1);
        assert(two_to(1) == 2 * two_to(0));
    }
}

/// A number below `2^k` has at most `k` digits.
pub proof fn lemma_bitlen_below(n: nat, k: nat)
    requires
        n < two_to(k),
    ensures
        bitlen(n) <= k,
{
    if n > 0 {
        lemma_bitlen(n);
        if bitlen(n) > k {
            lemma_two_to_mono(k, (bitlen(n) - 1) as nat);
        }
    }
}

/// A number at least `2^k` has more than `k` digits.
pub proof fn lemma_bitlen_above(n: nat, k: nat)
    requires
        n >= two_to(k),
    ensures
        bitlen(n) >= k + 1,
{
    lemma_two_to_pos(k);
    lemma_bitlen(n);
    if bitlen(n) <= k {
        lemma_two_to_mono(bitlen(n), k);
    }
}

/// `n / d >= 2^k`, by cross-multiplication.
pub open spec fn ratio_ge(n: nat, d: nat, k: int) -> bool {
    if k >= 0 {
        n >= d * two_to(k as nat)
    } else {
        n * two_to((-k) as nat) >= d
    }
}

/// The `L` with `2^(L-1) <= n / d < 2^L`.
pub open spec fn binade(n: nat, d: nat) -> int {
    let k = bitlen(n) - bitlen(d);
    if ratio_ge(n, d, k) {
        k + 1
    } else {
        k
    }
}

/// `n / d` divided by `2^s`, as a pair of naturals.
pub open spec fn scaled(n: nat, d: nat, s: int) -> (nat, nat) {
    if s >= 0 {
        (n, d * two_to(s as nat))
    } else {
        (n * two_to((-s) as nat), d)
    }
}

/// The integer nearest to `a / b`, ties to the even one.
pub open spec fn nearest_even(a: nat, b: nat) -> nat {
    let q = a / b;
    let r = a % b;
    if 2 * r < b {
        q
    } else if 2 * r > b {
        q + 1
    } else if q % 2 == 0 {
        q
    } else {
        q + 1
    }
}

/// `n / d` (both positive) rounded to the nearest binary32 value: a
/// significand `q` and an exponent `e`, the value being `q * 2^e`.
pub open spec fn round_single(n: nat, d: nat) -> (nat, int) {
    let s = binade(n, d) - 24;
    let ab = scaled(n, d, s);
    (nearest_even(ab.0, ab.1), s)
}

/// `2^(L-1) <= n / d < 2^L` for `L = binade(n, d)`, and `L` lies within
/// one of the difference of the digit counts.
pub proof fn lemma_binade(n: nat, d: nat)
    requires
        n > 0,
        d > 0,
    ensures
        ratio_ge(n, d, binade(n, d) - 1),
        !ratio_ge(n, d, binade(n, d)),
        bitlen(n) - bitlen(d) <= binade(n, d) <= bitlen(n) - bitlen(d) + 1,
{
    lemma_bitlen(n);
    lemma_bitlen(d);
    let a = bitlen(n);
    let b = bitlen(d);
    let k = a - b;
    let pa = two_to(a);
    let pa1 = two_to((a - 1) as nat);
    let pb = two_to(b);
    let pb1 = two_to((b - 1) as nat);
    // n / d < 2^(k+1)
    if k + 1 >= 0 {
        let t = two_to((k + 1) as nat);
        lemma_two_to_adds((b - 1) as nat, (k + 1) as nat);
        assert(d * t >= pb1 * t) by (nonlinear_arith)
            requires
                d >= pb1,
        ;
        assert(!ratio_ge(n, d, k + 1));
    } else {
        let t = two_to((-(k + 1)) as nat);
        lemma_two_to_adds((a) as nat, (-(k + 1)) as nat);
        lemma_two_to_pos((-(k + 1)) as nat);
        assert(n * t < pa * t) by (nonlinear_arith)
            requires
                n < pa,
                t >= 1,
        ;
        lemma_two_to_pos((-(k + 1)) as nat);
        assert(!ratio_ge(n, d, k + 1));
    }
    // n / d >= 2^(k-1)
    if k - 1 >= 0 {
        let t = two_to((k - 1) as nat);
        lemma_two_to_adds(b, (k - 1) as nat);
        lemma_two_to_pos((k - 1) as nat);
        assert(d * t < pb * t) by (nonlinear_arith)
            requires
                d < pb,
                t >= 1,
        ;
        assert(ratio_ge(n, d, k - 1));
    } else {
        let t = two_to((-(k - 1)) as nat);
        lemma_two_to_adds((a - 1) as nat, (-(k - 1)) as nat);
        assert(n * t >= pa1 * t) by (nonlinear_arith)
            requires
                n >= pa1,
        ;
        assert(ratio_ge(n, d, k - 1));
    }
}

/// Scaled to its binade, a ratio lies in `[2^23, 2^24)`, so its rounded
/// significand lies in `[2^23, 2^24]`.
pub proof fn lemma_scaled(n: nat, d: nat)
    requires
        n > 0,
        d > 0,
    ensures
        ({
            let ab = scaled(n, d, binade(n, d) - 24);
            &&& ab.1 > 0
            &&& two_to(23) * ab.1 <= ab.0 < two_to(24) * ab.1
            &&& two_to(23) <= nearest_even(ab.0, ab.1) <= two_to(24)
        }),
{
    lemma_binade(n, d);
    let l = binade(n, d);
    let s = l - 24;
    let ab = scaled(n, d, s);
    let p23 = two_to(23);
    let p24 = two_to(24);
    assert(p24 == 2 * p23);
    lemma_two_to_pos(23);
    if s >= 0 {
        let sn = s as nat;
        let lo = (l - 1) as nat;
        let hi = l as nat;
        assert(sn + 23 == lo);
        assert(sn + 24 == hi);
        lemma_two_to_adds(sn, 23);
        lemma_two_to_adds(sn, 24);
        lemma_two_to_pos(sn);
        let ps = two_to(sn);
        assert(ab.1 == d * ps);
        assert(n >= d * two_to(lo));
        assert(n < d * two_to(hi));
        assert(d * ps > 0) by (nonlinear_arith)
            requires
                d > 0,
                ps >= 1,
        ;
        assert(d * two_to(lo) == p23 * (d * ps)) by (nonlinear_arith)
            requires
                two_to(lo) == ps * p23,
        ;
        assert(d * two_to(hi) == p24 * (d * ps)) by (nonlinear_arith)
            requires
                two_to(hi) == ps * p24,
        ;
        assert(p23 * ab.1 <= ab.0);
        assert(ab.0 < p24 * ab.1);
    } else {
        let sn = (-s) as nat;
        let t = two_to(sn);
        lemma_two_to_pos(sn);
        assert(ab.0 == n * t);
        assert(ab.1 == d);
        if l - 1 >= 0 {
            let lo = (l - 1) as nat;
            assert(lo + sn == 23);
            lemma_two_to_adds(lo, sn);
            assert(n >= d * two_to(lo));
            assert(n * t >= d * two_to(lo) * t) by (nonlinear_arith)
                requires
                    n >= d * two_to(lo),
            ;
            assert(d * two_to(lo) * t == p23 * d) by (nonlinear_arith)
                requires
                    two_to(lo) * t == p23,
            ;
        } else {
            let lo = (-(l - 1)) as nat;
            assert(lo + 23 == sn);
            lemma_two_to_adds(lo, 23);
            assert(n * two_to(lo) >= d);
            assert(n * t == (n * two_to(lo)) * p23) by (nonlinear_arith)
                requires
                    t == two_to(lo) * p23,
            ;
            assert((n * two_to(lo)) * p23 >= d * p23) by (nonlinear_arith)
                requires
                    n * two_to(lo) >= d,
            ;
        }
        if l >= 0 {
            let hi = l as nat;
            assert(hi + sn == 24);
            lemma_two_to_adds(hi, sn);
            assert(n < d * two_to(hi));
            assert(n * t < d * two_to(hi) * t) by (nonlinear_arith)
                requires
                    n < d * two_to(hi),
                    t >= 1,
            ;
            assert(d * two_to(hi) * t == p24 * d) by (nonlinear_arith)
                requires
                    two_to(hi) * t == p24,
            ;
        } else {
            let hi = (-l) as nat;
            assert(hi + 24 == sn);
            lemma_two_to_adds(hi, 24);
            assert(n * two_to(hi) < d);
            assert(n * t == (n * two_to(hi)) * p24) by (nonlinear_arith)
                requires
                    t == two_to(hi) * p24,
            ;
            assert((n * two_to(hi)) * p24 < d * p24) by (nonlinear_arith)
                requires
                    n * two_to(hi) < d,
                    p24 > 0,
            ;
        }
        assert(p23 * ab.1 <= ab.0);
        assert(ab.0 < p24 * ab.1);
    }
    let q = ab.0 / ab.1;
    assert(p23 <= q < p24) by (nonlinear_arith)
        requires
            p23 * ab.1 <= ab.0 < p24 * ab.1,
            ab.1 > 0,
            q == ab.0 / ab.1,
    ;
}

/// The exponent of a rounded ratio follows the digit counts, and its
/// significand lies in `[2^23, 2^24]`.
pub proof fn lemma_round_exp(n: nat, d: nat)
    requires
        n > 0,
        d > 0,
    ensures
        bitlen(n) - bitlen(d) - 24 <= round_single(n, d).1 <= bitlen(n) - bitlen(d) - 23,
        two_to(23) <= round_single(n, d).0 <= two_to(24),
{
    lemma_binade(n, d);
    lemma_scaled(n, d);
}

/// `n` digits below `2^128`.
pub fn bit_len(n: u128) -> (r: u32)
    ensures
        r == bitlen(n as nat),
        r <= 128,
{
    let mut x: u128 = n;
    let mut c: u32 = 0;
    proof {
        lemma_two_to_values();
        lemma_bitlen_below(n as nat, 128);
    }
    while x > 0
        invariant
            bitlen(n as nat) == c + bitlen(x as nat),
            bitlen(n as nat) <= 128,
        decreases x,
    {
        x = x / 2;
        c = c + 1;
    }
    c
}

/// `2^k` for `k < 128`.
pub fn pow2_u128(k: u32) -> (r: u128)
    requires
        k < 128,
    ensures
        r == two_to(k as nat),
{
    let mut r: u128 = 1;
    let mut i: u32 = 0;
    proof {
        lemma_two_to_values();
    }
    while i < k
        invariant
            i <= k < 128,
            r == two_to(i as nat),
            two_to(127) == 0x8000_0000_0000_0000_0000_0000_0000_0000,
        decreases k - i,
    {
        proof {
            lemma_two_to_mono(i as nat, 127);
        }
        r = r * 2;
        i = i + 1;
    }
    r
}

/// `n / d` rounded to the nearest binary32 value, as significand and
/// exponent.
pub fn round_single_exec(n: u128, d: u128) -> (r: (u32, i32))
    requires
        0 < n < 0x4000_0000_0000_0000_0000_0000_0000_0000,
        0 < d < 0x10_0000_0000_0000_0000_0000_0000,
    ensures
        (r.0 as nat, r.1 as int) == round_single(n as nat, d as nat),
        two_to(23) <= r.0 <= two_to(24),
{
    proof {
        lemma_binade(n as nat, d as nat);
        lemma_scaled(n as nat, d as nat);
        lemma_two_to_values();
        lemma_bitlen_below(n as nat, 126);
        lemma_bitlen_below(d as nat, 100);
        lemma_bitlen(n as nat);
        lemma_bitlen(d as nat);
    }
    let bn = bit_len(n);
    let bd = bit_len(d);
    let k: i32 = bn as i32 - bd as i32;
    let ge = if k >= 0 {
        let p = pow2_u128(k as u32);
        proof {
            lemma_two_to_adds((bd - 1) as nat, k as nat);
            lemma_two_to_mono(bn as nat, 126);
            assert(d * p < two_to(126)) by (nonlinear_arith)
                requires
                    d < two_to(bd as nat),
                    two_to(bd as nat) == 2 * two_to((bd - 1) as nat),
                    two_to(((bd - 1) + k) as nat) == two_to((bd - 1) as nat) * p,
                    ((bd - 1) + k) as nat == (bn - 1) as nat,
                    2 * two_to((bn - 1) as nat) == two_to(bn as nat),
                    two_to(bn as nat) <= two_to(126),
                    p >= 1,
            ;
        }
        n >= d * p
    } else {
        let p = pow2_u128((-k) as u32);
        proof {
            lemma_two_to_adds(bn as nat, (-k) as nat);
            lemma_two_to_mono(bd as nat, 100);
            assert(n * p < two_to(100)) by (nonlinear_arith)
                requires
                    n < two_to(bn as nat),
                    two_to((bn + (-k)) as nat) == two_to(bn as nat) * p,
                    (bn + (-k)) as nat == bd as nat,
                    two_to(bd as nat) <= two_to(100),
                    p >= 1,
            ;
        }
        n * p >= d
    };
    let l: i32 = if ge {
        k + 1
    } else {
        k
    };
    assert(l == binade(n as nat, d as nat));
    let s: i32 = l - 24;
    let (a, b): (u128, u128) = if s >= 0 {
        let p = pow2_u128(s as u32);
        proof {
            lemma_two_to_mono(s as nat, (bn - 1) as nat);
            lemma_two_to_adds(s as nat, 23);
            lemma_two_to_pos(s as nat);
            assert(d * p <= n) by (nonlinear_arith)
                requires
                    two_to(23) * (d * p) <= n,
                    two_to(23) >= 1,
            ;
        }
        (n, d * p)
    } else {
        let p = pow2_u128((-s) as u32);
        proof {
            assert(two_to(24) * d < two_to(124)) by (nonlinear_arith)
                requires
                    two_to(24) == 0x100_0000,
                    d < 0x10_0000_0000_0000_0000_0000_0000,
                    two_to(124) == 0x1000_0000_0000_0000_0000_0000_0000_0000,
            ;
        }
        (n * p, d)
    };
    let q = a / b;
    let rem = a % b;
    let out: u128 = if 2 * rem < b {
        q
    } else if 2 * rem > b {
        q + 1
    } else if q % 2 == 0 {
        q
    } else {
        q + 1
    };
    (out as u32, s)
}

} // verus!
