//! Brand palette: the magenta and cyan accents on a black ground, and
//! the blend between two colours used by the gradient, computed as
//! single-precision arithmetic computes it.
use vstd::prelude::*;
use crate::single::{binade, bitlen, lemma_binade, lemma_bitlen, lemma_bitlen_above, lemma_bitlen_below, lemma_round_exp, lemma_two_to_adds, lemma_two_to_mono, lemma_two_to_pos, lemma_two_to_values, pow2_u128, round_single, round_single_exec, scaled, two_to};

verus! {

/// 8-bit-per-channel RGB triple, emitted as `\x1b[38;2;R;G;Bm`.
#[derive(Debug, Clone, Copy, PartialEq, Eq, Structural)]
pub struct Rgb {
    /// Red channel.
    pub r: u8,
    /// Green channel.
    pub g: u8,
    /// Blue channel.
    pub b: u8,
}

pub open spec fn magenta_spec() -> Rgb {
    Rgb { r: 255, g: 0, b: 180 }
}

pub open spec fn cyan_spec() -> Rgb {
    Rgb { r: 0, g: 200, b: 255 }
}

pub open spec fn black_spec() -> Rgb {
    Rgb { r: 0, g: 0, b: 0 }
}

/// Brand magenta, `#FF00B4`.
pub fn magenta() -> (c: Rgb)
    ensures
        c == magenta_spec(),
{
    Rgb { r: 255, g: 0, b: 180 }
}

/// Brand cyan, `#00C8FF`.
pub fn cyan() -> (c: Rgb)
    ensures
        c == cyan_spec(),
{
    Rgb { r: 0, g: 200, b: 255 }
}

/// Brand ground, black `#000000`.
pub fn black() -> (c: Rgb)
    ensures
        c == black_spec(),
{
    Rgb { r: 0, g: 0, b: 0 }
}

/// The binary32 value of a natural number, as significand and exponent
/// (`q * 2^e`; zero is `(0, 0)`).
pub open spec fn single_of(i: nat) -> (nat, int) {
    if i == 0 {
        (0, 0)
    } else {
        round_single(i, 1)
    }
}

/// The binary32 quotient `a / b` of two binary32 values, `b` not zero.
pub open spec fn single_quotient(a: (nat, int), b: (nat, int)) -> (nat, int) {
    if a.0 == 0 {
        (0, 0)
    } else {
        let r = round_single(a.0, b.0);
        (r.0, r.1 + a.1 - b.1)
    }
}

/// Whether a binary32 value exceeds one.
pub open spec fn above_one(t: (nat, int)) -> bool {
    if t.1 >= 0 {
        t.0 * two_to(t.1 as nat) > 1
    } else {
        t.0 > two_to((-t.1) as nat)
    }
}

/// A binary32 value clamped to at most one.
pub open spec fn clamp_unit(t: (nat, int)) -> (nat, int) {
    if above_one(t) {
        (1, 0)
    } else {
        t
    }
}

/// The binary32 product of the natural number `k` and `t`.
pub open spec fn single_scale(k: nat, t: (nat, int)) -> (nat, int) {
    if k == 0 || t.0 == 0 {
        (0, 0)
    } else {
        let r = round_single(k * t.0, 1);
        (r.0, r.1 + t.1)
    }
}

/// A positive binary32 value rounded to an integer, halves away from
/// zero, and saturated to 255.
pub open spec fn to_channel(s: (nat, int)) -> u8 {
    let v: nat = if s.1 >= 0 {
        s.0 * two_to(s.1 as nat)
    } else {
        (s.0 + two_to((-s.1 - 1) as nat)) / two_to((-s.1) as nat)
    };
    if v > 255 {
        255
    } else {
        v as u8
    }
}

/// `x + p` (`x - p` when `neg`) in binary32, rounded half away from zero
/// and saturated to `0..=255`.
pub open spec fn channel_of(x: u8, neg: bool, p: (nat, int)) -> u8 {
    if p.0 == 0 {
        x
    } else if p.1 >= 0 {
        let v: int = if neg {
            x - p.0 * two_to(p.1 as nat)
        } else {
            x + p.0 * two_to(p.1 as nat)
        };
        if v <= 0 {
            0
        } else {
            to_channel(round_single(v as nat, 1))
        }
    } else {
        let den = two_to((-p.1) as nat);
        let num: int = if neg {
            x * den - p.0
        } else {
            x * den + p.0
        };
        if num <= 0 {
            0
        } else {
            to_channel(round_single(num as nat, den))
        }
    }
}

/// Channel `x` moved towards `y` by step `i` of `m` in single precision:
/// `t = i / m` (each rounded to binary32, then clamped to at most one),
/// then `x + (y - x) * t` with each operation rounded to binary32, then
/// rounded half away from zero and saturated to `0..=255`; `x` when `m`
/// is zero.
pub open spec fn mix(x: u8, y: u8, i: nat, m: nat) -> u8 {
    if m == 0 {
        x
    } else {
        let t = clamp_unit(single_quotient(single_of(i), single_of(m)));
        if y >= x {
            channel_of(x, false, single_scale((y - x) as nat, t))
        } else {
            channel_of(x, true, single_scale((x - y) as nat, t))
        }
    }
}

/// The colour at step `i` of `m` from `a` to `b`.
pub open spec fn blend_spec(a: Rgb, b: Rgb, i: nat, m: nat) -> Rgb {
    Rgb { r: mix(a.r, b.r, i, m), g: mix(a.g, b.g, i, m), b: mix(a.b, b.b, i, m) }
}

/// The binary32 value of a number below `2^64`, with its exponent's
/// range.
fn single_of_u64(i: u64) -> (r: (u32, i32))
    requires
        i > 0,
    ensures
        (r.0 as nat, r.1 as int) == single_of(i as nat),
        -24 <= r.1 <= 40,
        two_to(23) <= r.0 <= two_to(24),
{
    proof {
        lemma_two_to_values();
        lemma_round_exp(i as nat, 1);
        lemma_bitlen_below(i as nat, 64);
        lemma_bitlen(i as nat);
        assert(bitlen(0) == 0);
        assert(bitlen(1) == 1);
    }
    round_single_exec(i as u128, 1)
}

/// `i / m` in binary32, clamped to at most one.
fn unit_step(i: u64, m: u64) -> (t: (u32, i32))
    requires
        m > 0,
    ensures
        (t.0 as nat, t.1 as int) == clamp_unit(single_quotient(single_of(i as nat), single_of(m as nat))),
        t.0 == 0 ==> t.1 == 0,
        t == (1u32, 0i32) || t.0 == 0 || (two_to(23) <= t.0 <= two_to(24) && -89 <= t.1 <= -23),
{
    proof {
        lemma_two_to_values();
    }
    let (qm, em) = single_of_u64(m);
    if i == 0 {
        proof {
            assert(!above_one((0nat, 0int)));
        }
        return (0, 0);
    }
    let (qi, ei) = single_of_u64(i);
    proof {
        lemma_round_exp(qi as nat, qm as nat);
        lemma_bitlen_above(qi as nat, 23);
        lemma_bitlen_above(qm as nat, 23);
        lemma_bitlen_below(qi as nat, 25);
        lemma_bitlen_below(qm as nat, 25);
        lemma_two_to_mono(24, 25);
    }
    let (q, e0) = round_single_exec(qi as u128, qm as u128);
    let e: i32 = e0 + ei - em;
    let above: bool = if e >= 0 {
        proof {
            lemma_two_to_pos(e as nat);
            assert(q * two_to(e as nat) >= q) by (nonlinear_arith)
                requires
                    two_to(e as nat) >= 1,
            ;
        }
        true
    } else {
        let p = pow2_u128((-e) as u32);
        (q as u128) > p
    };
    if above {
        return (1, 0);
    }
    proof {
        if -e < 23 {
            lemma_two_to_mono((-e) as nat, 22);
            assert(two_to(23) == 2 * two_to(22));
        }
    }
    (q, e)
}

/// The channel at step `i` of `m` from `x` to `y`.
fn mix_channel(x: u8, y: u8, i: u64, m: u64) -> (r: u8)
    requires
        i <= m,
    ensures
        r == mix(x, y, i as nat, m as nat),
{
    if m == 0 {
        return x;
    }
    proof {
        lemma_two_to_values();
    }
    let (tq, te) = unit_step(i, m);
    let neg = y < x;
    let k: u8 = if neg {
        x - y
    } else {
        y - x
    };
    if k == 0 || tq == 0 {
        return x;
    }
    proof {
        assert((k as int) * (tq as int) <= 255 * 0x1_0000_0000) by (nonlinear_arith)
            requires
                k <= 255,
                tq <= 0x1_0000_0000,
        ;
    }
    let n: u128 = (k as u128) * (tq as u128);
    proof {
        assert(n <= 255 * 0x100_0000) by (nonlinear_arith)
            requires
                n == k * tq,
                k <= 255,
                tq <= 0x100_0000,
        ;
        assert(n >= 1) by (nonlinear_arith)
            requires
                n == k * tq,
                k >= 1,
                tq >= 1,
        ;
        lemma_round_exp(n as nat, 1);
        assert(bitlen(0) == 0);
        assert(bitlen(1) == 1);
        lemma_bitlen_below(n as nat, 32);
        lemma_bitlen(n as nat);
        if tq != 1 {
            assert(n >= two_to(23)) by (nonlinear_arith)
                requires
                    n == k * tq,
                    k >= 1,
                    tq >= two_to(23),
            ;
            lemma_bitlen_above(n as nat, 23);
        }
    }
    let (pq, pe0) = round_single_exec(n, 1);
    let pe: i32 = pe0 + te;
    proof {
        if tq == 1 {
            assert(te == 0);
            assert(n <= 255);
            lemma_bitlen_below(n as nat, 8);
        }
        assert(pe < 0);
        assert(-pe <= 90);
    }
    let den = pow2_u128((-pe) as u32);
    proof {
        lemma_two_to_mono((-pe) as nat, 90);
        assert(x * den <= 255 * 0x400_0000_0000_0000_0000_0000) by (nonlinear_arith)
            requires
                x <= 255,
                den <= 0x400_0000_0000_0000_0000_0000,
        ;
    }
    let xd: u128 = (x as u128) * den;
    let num: u128 = if neg {
        if xd <= pq as u128 {
            return 0;
        }
        xd - pq as u128
    } else {
        xd + pq as u128
    };
    proof {
        lemma_two_to_pos((-pe) as nat);
        assert(num > 0);
        assert(den > 0);
        assert(num < 0x4000_0000_0000_0000_0000_0000_0000_0000);
        assert(den < 0x10_0000_0000_0000_0000_0000_0000);
        lemma_round_exp(num as nat, den as nat);
        lemma_bitlen_below(den as nat, 91);
        lemma_two_to_mono(90, 91);
        lemma_bitlen(num as nat);
        lemma_two_to_mono(91, 100);
    }
    let (sq, se) = round_single_exec(num, den);
    if se >= 0 {
        proof {
            lemma_two_to_pos(se as nat);
            assert(sq * two_to(se as nat) >= sq) by (nonlinear_arith)
                requires
                    two_to(se as nat) >= 1,
            ;
        }
        return 255;
    }
    proof {
        assert(-se <= 115);
    }
    let h = pow2_u128((-se - 1) as u32);
    let w = pow2_u128((-se) as u32);
    proof {
        lemma_two_to_mono(((-se) - 1) as nat, 126);
    }
    let v: u128 = (sq as u128 + h) / w;
    if v > 255 {
        255
    } else {
        v as u8
    }
}

impl Rgb {
    /// A colour from its channels.
    pub fn new(r: u8, g: u8, b: u8) -> (c: Rgb)
        ensures
            c == (Rgb { r, g, b }),
    {
        Rgb { r, g, b }
    }

    /// The colour at step `i` of `m` on the straight line from `a` to
    /// `b`: each channel is `x + (y - x) * t` with `t = i / m`, every
    /// operation rounded to single precision, then rounded half away from
    /// zero; `a` at step 0, `b` at step `m`.
    pub fn blend(a: Rgb, b: Rgb, i: u64, m: u64) -> (c: Rgb)
        requires
            i <= m,
        ensures
            c == blend_spec(a, b, i as nat, m as nat),
    {
        Rgb { r: mix_channel(a.r, b.r, i, m), g: mix_channel(a.g, b.g, i, m), b: mix_channel(a.b, b.b, i, m) }
    }
}

} // verus!

verus! {

/// A ratio equal to `v * 2^j`, with `v` below `2^24`, rounds to itself:
/// its exponent is at most `j` and its significand `v * 2^(j - e)`.
proof fn lemma_round_exact(n: nat, d: nat, v: nat, j: nat)
    requires
        d > 0,
        1 <= v < two_to(24),
        n == v * two_to(j) * d,
    ensures
        round_single(n, d).1 <= j,
        round_single(n, d).0 == v * two_to((j - round_single(n, d).1) as nat),
{
    lemma_two_to_pos(j);
    let pj = two_to(j);
    assert(n >= 1) by (nonlinear_arith)
        requires
            n == v * pj * d,
            v >= 1,
            pj >= 1,
            d >= 1,
    ;
    lemma_binade(n, d);
    let l = binade(n, d);
    if l - 1 >= 24 + j {
        lemma_two_to_mono(24 + j, (l - 1) as nat);
        lemma_two_to_adds(24, j);
        assert(n >= d * two_to((l - 1) as nat));
        assert(d * two_to((l - 1) as nat) >= d * (two_to(24) * pj)) by (nonlinear_arith)
            requires
                two_to((l - 1) as nat) >= two_to(24) * pj,
        ;
        assert(d * (two_to(24) * pj) > v * pj * d) by (nonlinear_arith)
            requires
                v < two_to(24),
                pj >= 1,
                d >= 1,
        ;
    }
    let s = l - 24;
    let g = (j - s) as nat;
    let ab = scaled(n, d, s);
    let c = v * two_to(g);
    if s >= 0 {
        lemma_two_to_adds(s as nat, g);
        assert(s as nat + g == j);
        assert(ab.0 == c * ab.1) by (nonlinear_arith)
            requires
                ab.0 == n,
                ab.1 == d * two_to(s as nat),
                n == v * pj * d,
                pj == two_to(s as nat) * two_to(g),
                c == v * two_to(g),
        ;
        lemma_two_to_pos(s as nat);
        assert(ab.1 > 0) by (nonlinear_arith)
            requires
                ab.1 == d * two_to(s as nat),
                d > 0,
                two_to(s as nat) >= 1,
        ;
    } else {
        lemma_two_to_adds(j, (-s) as nat);
        assert(j + (-s) as nat == g);
        assert(ab.0 == c * ab.1) by (nonlinear_arith)
            requires
                ab.0 == n * two_to((-s) as nat),
                ab.1 == d,
                n == v * pj * d,
                two_to(g) == pj * two_to((-s) as nat),
                c == v * two_to(g),
        ;
    }
    vstd::arithmetic::div_mod::lemma_fundamental_div_mod_converse(ab.0 as int, ab.1 as int, c as int, 0);
}

/// An exact channel value is read back as itself.
proof fn lemma_to_channel_exact(s: (nat, int), y: nat)
    requires
        1 <= y <= 255,
        s.1 <= 0,
        s.0 == y * two_to((-s.1) as nat),
    ensures
        to_channel(s) == y as u8,
{
    if s.1 < 0 {
        let a = (-s.1) as nat;
        let h = two_to((a - 1) as nat);
        assert(two_to(a) == 2 * h);
        lemma_two_to_pos((a - 1) as nat);
        assert(((-s.1 - 1) as nat) == (a - 1) as nat);
        assert(s.0 + h == y * two_to(a) + h);
        vstd::arithmetic::div_mod::lemma_fundamental_div_mod_converse((s.0 + h) as int, two_to(a) as int, y as int, h as int);
        assert((s.0 + two_to((-s.1 - 1) as nat)) / two_to((-s.1) as nat) == y);
    } else {
        assert(two_to(0) == 1);
        assert(s.1 as nat == 0 && (-s.1) as nat == 0);
        assert(s.0 * two_to(s.1 as nat) == y) by (nonlinear_arith)
            requires
                two_to(s.1 as nat) == 1,
                two_to((-s.1) as nat) == 1,
                s.0 == y * two_to((-s.1) as nat),
        ;
    }
}

/// The last step of a blend is the end channel.
proof fn lemma_mix_end(x: u8, y: u8, m: nat)
    requires
        m > 0,
    ensures
        mix(x, y, m, m) == y,
{
    lemma_two_to_values();
    lemma_round_exp(m, 1);
    let sm = single_of(m);
    let q = sm.0;
    assert(two_to(0) == 1);
    assert(1 * two_to(0) * q == q) by (nonlinear_arith)
        requires
            two_to(0) == 1,
    ;
    lemma_round_exact(q, q, 1, 0);
    let r = round_single(q, q);
    let t = single_quotient(sm, sm);
    assert(t == (r.0, r.1));
    let j = (-r.1) as nat;
    assert(r.0 == two_to(j));
    assert(!above_one(t));
    assert(clamp_unit(t) == t);
    if x != y {
        let neg = y < x;
        let k: nat = if neg {
            (x - y) as nat
        } else {
            (y - x) as nat
        };
        lemma_two_to_pos(j);
        assert(k * r.0 >= 1) by (nonlinear_arith)
            requires
                k >= 1,
                r.0 >= 1,
        ;
        lemma_round_exact(k * two_to(j), 1, k, j);
        assert(k * two_to(j) * 1 == k * two_to(j)) by (nonlinear_arith);
        let p = round_single(k * two_to(j), 1);
        let pp = single_scale(k, t);
        assert(pp == (p.0, p.1 + t.1));
        assert(clamp_unit(single_quotient(single_of(m), single_of(m))) == t);
        assert(mix(x, y, m, m) == channel_of(x, neg, pp));
        let g = (j - p.1) as nat;
        assert(p.0 == k * two_to(g));
        if pp.1 >= 0 {
            assert(g == 0);
            assert(two_to(0) == 1);
            assert(p.0 == k) by (nonlinear_arith)
                requires
                    p.0 == k * two_to(g),
                    two_to(g) == 1,
            ;
            assert(pp.1 == 0);
            assert(p.0 * two_to(pp.1 as nat) == k) by (nonlinear_arith)
                requires
                    p.0 == k,
                    two_to(pp.1 as nat) == 1,
            ;
            if y > 0 {
                lemma_round_exact(y as nat, 1, y as nat, 0);
                assert(y as nat * two_to(0) * 1 == y as nat) by (nonlinear_arith)
                    requires
                        two_to(0) == 1,
                ;
                let r2 = round_single(y as nat, 1);
                lemma_to_channel_exact(r2, y as nat);
                assert(to_channel(r2) == y);
            }
            let v: int = if neg {
                x - pp.0 * two_to(pp.1 as nat)
            } else {
                x + pp.0 * two_to(pp.1 as nat)
            };
            assert(v == y);
            assert(channel_of(x, neg, pp) == y);
        } else {
            assert((-pp.1) as nat == g);
            let den = two_to(g);
            lemma_two_to_pos(g);
            assert(pp.0 >= 1) by (nonlinear_arith)
                requires
                    pp.0 == k * den,
                    k >= 1,
                    den >= 1,
            ;
            let num: int = if neg {
                x * den - p.0
            } else {
                x * den + p.0
            };
            assert(num == y * den) by (nonlinear_arith)
                requires
                    p.0 == k * den,
                    neg ==> k == x - y,
                    !neg ==> k == y - x,
                    num == (if neg {
                        x * den - p.0
                    } else {
                        x * den + p.0
                    }),
            ;
            if y > 0 {
                assert(num > 0) by (nonlinear_arith)
                    requires
                        num == y * den,
                        y >= 1,
                        den >= 1,
                ;
                lemma_round_exact(num as nat, den, y as nat, 0);
                assert(y as nat * two_to(0) * den == num) by (nonlinear_arith)
                    requires
                        two_to(0) == 1,
                        num == y * den,
                ;
                let r2 = round_single(num as nat, den);
                lemma_to_channel_exact(r2, y as nat);
                assert(to_channel(r2) == y);
            } else {
                assert(num == 0);
            }
            assert(channel_of(x, neg, pp) == y);
        }
        assert(channel_of(x, neg, pp) == y);
    } else {
        assert(single_scale(0, t) == (0nat, 0int));
        assert(clamp_unit(single_quotient(single_of(m), single_of(m))) == t);
    }
}

/// A ratio at most `v * 2^j`, with `v` below `2^24`, rounds to at most
/// `v * 2^j`: its exponent is at most `j` and its significand at most
/// `v * 2^(j - e)`.
proof fn lemma_round_le(n: nat, d: nat, v: nat, j: nat)
    requires
        d > 0,
        n > 0,
        1 <= v < two_to(24),
        n <= v * two_to(j) * d,
    ensures
        round_single(n, d).1 <= j,
        round_single(n, d).0 <= v * two_to((j - round_single(n, d).1) as nat),
{
    lemma_two_to_pos(j);
    let pj = two_to(j);
    lemma_binade(n, d);
    let l = binade(n, d);
    if l - 1 >= 24 + j {
        lemma_two_to_mono(24 + j, (l - 1) as nat);
        lemma_two_to_adds(24, j);
        assert(n >= d * two_to((l - 1) as nat));
        assert(d * two_to((l - 1) as nat) >= d * (two_to(24) * pj)) by (nonlinear_arith)
            requires
                two_to((l - 1) as nat) >= two_to(24) * pj,
        ;
        assert(d * (two_to(24) * pj) > v * pj * d) by (nonlinear_arith)
            requires
                v < two_to(24),
                pj >= 1,
                d >= 1,
        ;
    }
    let s = l - 24;
    let g = (j - s) as nat;
    let ab = scaled(n, d, s);
    let c = v * two_to(g);
    if s >= 0 {
        lemma_two_to_adds(s as nat, g);
        assert(s as nat + g == j);
        lemma_two_to_pos(s as nat);
        assert(ab.0 <= c * ab.1) by (nonlinear_arith)
            requires
                ab.0 == n,
                ab.1 == d * two_to(s as nat),
                n <= v * pj * d,
                pj == two_to(s as nat) * two_to(g),
                c == v * two_to(g),
        ;
        assert(ab.1 > 0) by (nonlinear_arith)
            requires
                ab.1 == d * two_to(s as nat),
                d > 0,
                two_to(s as nat) >= 1,
        ;
    } else {
        lemma_two_to_adds(j, (-s) as nat);
        assert(j + (-s) as nat == g);
        assert(ab.0 <= c * ab.1) by (nonlinear_arith)
            requires
                ab.0 == n * two_to((-s) as nat),
                ab.1 == d,
                n <= v * pj * d,
                two_to(g) == pj * two_to((-s) as nat),
                c == v * two_to(g),
        ;
    }
    let q = ab.0 / ab.1;
    let r = ab.0 % ab.1;
    vstd::arithmetic::div_mod::lemma_fundamental_div_mod(ab.0 as int, ab.1 as int);
    vstd::arithmetic::div_mod::lemma_mod_bound(ab.0 as int, ab.1 as int);
    assert(q <= c) by (nonlinear_arith)
        requires
            ab.0 == ab.1 * q + r,
            0 <= r,
            ab.0 <= c * ab.1,
            ab.1 > 0,
    ;
    if q == c {
        assert(r == 0) by (nonlinear_arith)
            requires
                ab.0 == ab.1 * q + r,
                0 <= r,
                ab.0 <= c * ab.1,
                q == c,
        ;
    }
}

/// A ratio at least the natural number `v`, and below `2^24`, rounds to
/// at least `v`, with an exponent of at most zero.
proof fn lemma_round_ge(n: nat, d: nat, v: nat)
    requires
        d > 0,
        1 <= v,
        v * d <= n,
        n < two_to(24) * d,
    ensures
        round_single(n, d).1 <= 0,
        round_single(n, d).0 >= v * two_to((-round_single(n, d).1) as nat),
{
    assert(n >= 1) by (nonlinear_arith)
        requires
            v * d <= n,
            v >= 1,
            d >= 1,
    ;
    lemma_binade(n, d);
    let l = binade(n, d);
    if l - 1 >= 24 {
        lemma_two_to_mono(24, (l - 1) as nat);
        assert(n >= d * two_to((l - 1) as nat));
        assert(d * two_to((l - 1) as nat) >= two_to(24) * d) by (nonlinear_arith)
            requires
                two_to((l - 1) as nat) >= two_to(24),
        ;
        assert(false);
    }
    let s = l - 24;
    assert(s <= 0);
    let g = (-s) as nat;
    let ab = scaled(n, d, s);
    let c = v * two_to(g);
    assert(ab.0 == n * two_to(g) && ab.1 == d) by {
        if s == 0 {
            assert(two_to(0) == 1);
            assert(d * two_to(0) == d && n * two_to(0) == n) by (nonlinear_arith)
                requires
                    two_to(0) == 1,
            ;
        }
    }
    assert(ab.0 >= c * ab.1) by (nonlinear_arith)
        requires
            ab.0 == n * two_to(g),
            ab.1 == d,
            v * d <= n,
            c == v * two_to(g),
    ;
    let q = ab.0 / ab.1;
    let r = ab.0 % ab.1;
    vstd::arithmetic::div_mod::lemma_fundamental_div_mod(ab.0 as int, ab.1 as int);
    vstd::arithmetic::div_mod::lemma_mod_bound(ab.0 as int, ab.1 as int);
    assert(q >= c) by (nonlinear_arith)
        requires
            ab.0 == ab.1 * q + r,
            r < ab.1,
            ab.0 >= c * ab.1,
            ab.1 > 0,
    ;
}

/// A value between `lo` and `hi` (at most 255) reads as a channel
/// between them.
proof fn lemma_to_channel_between(s: (nat, int), lo: nat, hi: nat)
    requires
        hi <= 255,
        s.1 <= 0,
        lo * two_to((-s.1) as nat) <= s.0 <= hi * two_to((-s.1) as nat),
    ensures
        lo <= to_channel(s) <= hi,
{
    if s.1 < 0 {
        let a = (-s.1) as nat;
        let pa = two_to(a);
        let h = two_to((a - 1) as nat);
        assert(pa == 2 * h);
        lemma_two_to_pos((a - 1) as nat);
        assert(((-s.1 - 1) as nat) == (a - 1) as nat);
        let x = s.0 + h;
        let v = x / pa;
        vstd::arithmetic::div_mod::lemma_fundamental_div_mod(x as int, pa as int);
        vstd::arithmetic::div_mod::lemma_mod_bound(x as int, pa as int);
        let r = x % pa;
        assert(lo <= v <= hi) by (nonlinear_arith)
            requires
                x == pa * v + r,
                0 <= r < pa,
                lo * pa <= s.0 <= hi * pa,
                x == s.0 + h,
                0 < h < pa,
        ;
    } else {
        assert(two_to(0) == 1);
        assert(s.1 as nat == 0 && (-s.1) as nat == 0);
        assert(s.0 * two_to(s.1 as nat) == s.0) by (nonlinear_arith)
            requires
                two_to(s.1 as nat) == 1,
        ;
        assert(lo <= s.0 <= hi) by (nonlinear_arith)
            requires
                lo * two_to((-s.1) as nat) <= s.0 <= hi * two_to((-s.1) as nat),
                two_to((-s.1) as nat) == 1,
        ;
    }
}

/// The step `i / m`, once clamped, is zero, exactly one, or a normal
/// value of at most one (exponent at most -23).
proof fn lemma_unit_shape(i: nat, m: nat)
    requires
        m > 0,
    ensures
        ({
            let t = clamp_unit(single_quotient(single_of(i), single_of(m)));
            ||| t == (0nat, 0int)
            ||| t == (1nat, 0int)
            ||| (t.1 <= -23 && two_to(23) <= t.0 <= two_to((-t.1) as nat) && t.0 <= two_to(24))
        }),
{
    lemma_two_to_values();
    if i > 0 {
        lemma_round_exp(i, 1);
        lemma_round_exp(m, 1);
        let si = single_of(i);
        let sm = single_of(m);
        lemma_round_exp(si.0, sm.0);
        let t0 = single_quotient(si, sm);
        if !above_one(t0) {
            if t0.1 >= 0 {
                lemma_two_to_pos(t0.1 as nat);
                assert(t0.0 * two_to(t0.1 as nat) >= t0.0) by (nonlinear_arith)
                    requires
                        two_to(t0.1 as nat) >= 1,
                ;
            } else if -t0.1 < 23 {
                lemma_two_to_mono((-t0.1) as nat, 22);
                assert(two_to(23) == 2 * two_to(22));
            }
        }
    } else {
        assert(!above_one((0nat, 0int)));
    }
}

/// The scaled step `k * t` is a value of at most `k`, with a negative
/// exponent and a positive significand.
proof fn lemma_scale_shape(k: nat, i: nat, m: nat)
    requires
        m > 0,
        1 <= k <= 255,
        clamp_unit(single_quotient(single_of(i), single_of(m))).0 != 0,
    ensures
        ({
            let p = single_scale(k, clamp_unit(single_quotient(single_of(i), single_of(m))));
            &&& p.1 < 0
            &&& 1 <= p.0 <= k * two_to((-p.1) as nat)
        }),
{
    lemma_two_to_values();
    lemma_unit_shape(i, m);
    let t = clamp_unit(single_quotient(single_of(i), single_of(m)));
    let n = k * t.0;
    if t == (1nat, 0int) {
        assert(n == k) by (nonlinear_arith)
            requires
                n == k * t.0,
                t.0 == 1,
        ;
        assert(two_to(0) == 1);
        assert(k * two_to(0) * 1 == k) by (nonlinear_arith)
            requires
                two_to(0) == 1,
        ;
        lemma_round_exact(k, 1, k, 0);
        lemma_round_exp(k, 1);
        lemma_bitlen_below(k, 8);
        assert(bitlen(0) == 0);
        assert(bitlen(1) == 1);
        let r = round_single(k, 1);
        assert(r.0 == k * two_to((0 - r.1) as nat));
        assert((0 - r.1) as nat == (-(r.1 + t.1)) as nat);
    } else {
        let j = (-t.1) as nat;
        assert(n <= k * two_to(j) * 1) by (nonlinear_arith)
            requires
                n == k * t.0,
                t.0 <= two_to(j),
        ;
        assert(n >= 1) by (nonlinear_arith)
            requires
                n == k * t.0,
                k >= 1,
                t.0 >= 1,
        ;
        lemma_round_le(n, 1, k, j);
        lemma_round_exp(n, 1);
        assert(n <= 255 * two_to(24)) by (nonlinear_arith)
            requires
                n == k * t.0,
                k <= 255,
                t.0 <= two_to(24),
        ;
        lemma_bitlen_below(n, 32);
        assert(bitlen(0) == 0);
        assert(bitlen(1) == 1);
        let r = round_single(n, 1);
        assert((j - r.1) as nat == (-(r.1 + t.1)) as nat);
    }
}

/// Each channel of a blend lies between the matching channels of the
/// two colours.
proof fn lemma_mix_between(x: u8, y: u8, i: nat, m: nat)
    ensures
        x <= y ==> x <= mix(x, y, i, m) <= y,
        y < x ==> y <= mix(x, y, i, m) <= x,
{
    if m > 0 && x != y {
        lemma_two_to_values();
        let neg = y < x;
        let k: nat = if neg {
            (x - y) as nat
        } else {
            (y - x) as nat
        };
        let t = clamp_unit(single_quotient(single_of(i), single_of(m)));
        if t.0 != 0 {
            lemma_scale_shape(k, i, m);
            let p = single_scale(k, t);
            assert(mix(x, y, i, m) == channel_of(x, neg, p));
            let dd = two_to((-p.1) as nat);
            lemma_two_to_pos((-p.1) as nat);
            let num: int = if neg {
                x * dd - p.0
            } else {
                x * dd + p.0
            };
            let lo: nat = if neg {
                y as nat
            } else {
                x as nat
            };
            let hi: nat = if neg {
                x as nat
            } else {
                y as nat
            };
            assert(lo * dd <= num <= hi * dd) by (nonlinear_arith)
                requires
                    1 <= p.0 <= k * dd,
                    neg ==> k == x - y,
                    !neg ==> k == y - x,
                    num == (if neg {
                        x * dd - p.0
                    } else {
                        x * dd + p.0
                    }),
                    lo == (if neg {
                        y as int
                    } else {
                        x as int
                    }),
                    hi == (if neg {
                        x as int
                    } else {
                        y as int
                    }),
            ;
            if num > 0 {
                assert(hi >= 1) by (nonlinear_arith)
                    requires
                        num <= hi * dd,
                        num > 0,
                        dd >= 1,
                ;
                assert(hi * dd < two_to(24) * dd) by (nonlinear_arith)
                    requires
                        hi <= 255,
                        dd >= 1,
                        two_to(24) == 0x100_0000,
                ;
                assert(num <= hi * two_to(0) * dd) by (nonlinear_arith)
                    requires
                        num <= hi * dd,
                        two_to(0) == 1,
                ;
                lemma_round_le(num as nat, dd, hi, 0);
                let sr = round_single(num as nat, dd);
                assert((0 - sr.1) as nat == (-sr.1) as nat);
                if lo >= 1 {
                    lemma_round_ge(num as nat, dd, lo);
                } else {
                    assert(lo * two_to((-sr.1) as nat) == 0) by (nonlinear_arith)
                        requires
                            lo == 0,
                    ;
                }
                lemma_to_channel_between(sr, lo, hi);
            } else {
                assert(lo == 0) by (nonlinear_arith)
                    requires
                        lo * dd <= num,
                        num <= 0,
                        dd >= 1,
                ;
            }
        }
    }
}

/// Every channel of a blend lies between the matching channels of its
/// two colours.
pub proof fn law_blend_between(a: Rgb, b: Rgb, i: nat, m: nat)
    ensures
        a.r <= b.r ==> a.r <= blend_spec(a, b, i, m).r <= b.r,
        b.r < a.r ==> b.r <= blend_spec(a, b, i, m).r <= a.r,
        a.g <= b.g ==> a.g <= blend_spec(a, b, i, m).g <= b.g,
        b.g < a.g ==> b.g <= blend_spec(a, b, i, m).g <= a.g,
        a.b <= b.b ==> a.b <= blend_spec(a, b, i, m).b <= b.b,
        b.b < a.b ==> b.b <= blend_spec(a, b, i, m).b <= a.b,
{
    lemma_mix_between(a.r, b.r, i, m);
    lemma_mix_between(a.g, b.g, i, m);
    lemma_mix_between(a.b, b.b, i, m);
}

/// A gradient starts exactly at its first colour and ends exactly at its
/// last: step 0 of `m` is `a`, step `m` of `m` is `b`.
pub proof fn law_blend_endpoints(a: Rgb, b: Rgb, m: nat)
    ensures
        blend_spec(a, b, 0, m) == a,
        m > 0 ==> blend_spec(a, b, m, m) == b,
{
    assert(!above_one((0nat, 0int)));
    if m > 0 {
        lemma_mix_end(a.r, b.r, m);
        lemma_mix_end(a.g, b.g, m);
        lemma_mix_end(a.b, b.b, m);
    }
}

} // verus!
