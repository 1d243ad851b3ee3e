//! The random constant of a terminal. A draw is a 53-bit integer `m`
//! taken uniformly at random; the constant's value is `m / 2^52 - 1`,
//! which ranges over `[-1, 1)` exactly as `(u - 0.5) * 2` does for `u`
//! uniform in `[0, 1)`. This module builds, in plain integer arithmetic,
//! the IEEE-754 double-precision bit pattern of that value — the
//! fixed-point value is always exactly representable, so no rounding is
//! involved — and its canonical rendering with five digits after the
//! decimal point, rounded to nearest with ties to even as the standard
//! fixed-precision formatter does.
use vstd::prelude::*;

use vstd::arithmetic::power2::{
    lemma2_to64, lemma2_to64_rest, lemma_pow2_adds, lemma_pow2_pos, lemma_pow2_strictly_increases,
    lemma_pow2_unfold, pow2,
};

verus! {

/// The number of distinct draws, `2^53`.
pub const DRAW_BOUND: u64 = 0x20000000000000;

/// The fixed-point scale of a draw, `2^52`: the draw equal to it maps to
/// the value zero.
pub const DRAW_SCALE: u64 = 0x10000000000000;

/// Floor of the base-two logarithm; zero for zero.
pub open spec fn floor_log2(k: nat) -> nat
    decreases k,
{
    if k < 2 {
        0
    } else {
        floor_log2((k / 2) as nat) + 1
    }
}

/// For positive `k`, `2^floor_log2(k)` is the largest power of two that
/// does not exceed `k`.
pub proof fn lemma_floor_log2_bounds(k: nat)
    requires
        k >= 1,
    ensures
        pow2(floor_log2(k)) <= k < pow2(floor_log2(k) + 1),
    decreases k,
{
    if k < 2 {
        lemma2_to64();
    } else {
        let l = floor_log2((k / 2) as nat);
        lemma_floor_log2_bounds((k / 2) as nat);
        lemma_pow2_unfold(l + 1);
        lemma_pow2_unfold(l + 2);
    }
}

/// The bit pattern of the positive value `k / 2^52` with `1 <= k < 2^52`,
/// with the sign bit set when `neg` holds: biased exponent
/// `971 + floor_log2(k)` and the bits of `k` below its leading one as the
/// mantissa, shifted up to width 52.
pub open spec fn mk_bits(neg: bool, k: nat) -> u64 {
    let p = floor_log2(k);
    (((if neg {
        pow2(63)
    } else {
        0
    }) + (971 + p) * pow2(52) + (k - pow2(p)) * pow2((52 - p) as nat)) as u64)
}

/// The bit pattern of the constant drawn as `m`: the value `m / 2^52 - 1`.
pub open spec fn spec_const_bits(m: nat) -> u64 {
    if m == pow2(52) {
        0u64
    } else if m > pow2(52) {
        mk_bits(false, (m - pow2(52)) as nat)
    } else if m == 0 {
        0xBFF0000000000000u64
    } else {
        mk_bits(true, (pow2(52) - m) as nat)
    }
}

/// The numerator of the constant's magnitude, scaled by `10^5` and
/// rounded to the nearest integer with ties to even: the digits of the
/// five-decimal rendering.
pub open spec fn spec_round5(k: nat) -> nat {
    let q = (k * 100000) / pow2(52);
    let r = (k * 100000) % pow2(52);
    if 2 * r > pow2(52) || (2 * r == pow2(52) && q % 2 == 1) {
        q + 1
    } else {
        q
    }
}

/// The decimal digit character for `d <= 9`.
pub open spec fn digit_char(d: nat) -> char {
    if d == 0 {
        '0'
    } else if d == 1 {
        '1'
    } else if d == 2 {
        '2'
    } else if d == 3 {
        '3'
    } else if d == 4 {
        '4'
    } else if d == 5 {
        '5'
    } else if d == 6 {
        '6'
    } else if d == 7 {
        '7'
    } else if d == 8 {
        '8'
    } else {
        '9'
    }
}

/// The canonical five-decimal rendering of the constant drawn as `m`: an
/// optional minus sign, one integer digit, a point, and five fractional
/// digits.
pub open spec fn spec_const_text(m: nat) -> Seq<char> {
    let k = if m >= pow2(52) {
        (m - pow2(52)) as nat
    } else {
        (pow2(52) - m) as nat
    };
    let n = spec_round5(k);
    let sign: Seq<char> = if m < pow2(52) {
        seq!['-']
    } else {
        Seq::empty()
    };
    sign + seq![
        digit_char(n / 100000),
        '.',
        digit_char((n / 10000) % 10),
        digit_char((n / 1000) % 10),
        digit_char((n / 100) % 10),
        digit_char((n / 10) % 10),
        digit_char(n % 10),
    ]
}

/// `2^e` for machine-word exponents.
fn pow2_exec(e: u64) -> (r: u64)
    requires
        e < 64,
    ensures
        r == pow2(e as nat),
{
    let mut r: u64 = 1;
    let mut i: u64 = 0;
    proof {
        lemma2_to64();
    }
    while i < e
        invariant
            i <= e,
            e < 64,
            r == pow2(i as nat),
        decreases e - i,
    {
        proof {
            lemma_pow2_unfold(i as nat + 1);
            lemma_pow2_strictly_increases(i as nat + 1, 64);
            lemma2_to64();
            lemma2_to64_rest();
        }
        r = r * 2;
        i = i + 1;
    }
    r
}

/// The IEEE-754 bit pattern of the constant drawn as `m`, built in plain
/// integer arithmetic; the fixed-point value `m / 2^52 - 1` is always
/// exactly representable.
pub fn const_bits_of(m: u64) -> (r: u64)
    requires
        m < DRAW_BOUND,
    ensures
        r == spec_const_bits(m as nat),
{
    proof {
        lemma2_to64();
        lemma2_to64_rest();
    }
    if m == DRAW_SCALE {
        return 0;
    }
    let neg: bool = m < DRAW_SCALE;
    let k: u64 = if neg {
        DRAW_SCALE - m
    } else {
        m - DRAW_SCALE
    };
    if k == DRAW_SCALE {
        return 0xBFF0000000000000;
    }
    proof {
        lemma_floor_log2_bounds(k as nat);
        if floor_log2(k as nat) >= 52 {
            if floor_log2(k as nat) > 52 {
                lemma_pow2_strictly_increases(52, floor_log2(k as nat));
            }
            assert(false);
        }
    }
    let mut p: u64 = 0;
    let mut t: u64 = k;
    while t >= 2
        invariant
            1 <= t,
            floor_log2(k as nat) == p + floor_log2(t as nat),
            floor_log2(k as nat) <= 51,
        decreases t,
    {
        t = t / 2;
        p = p + 1;
    }
    proof {
        assert(floor_log2(k as nat) == p);
        lemma_floor_log2_bounds(k as nat);
    }
    let lead = pow2_exec(p);
    let shift = pow2_exec(52 - p);
    let ghost pn = p as nat;
    proof {
        lemma_pow2_adds(pn, (52 - pn) as nat);
        lemma_pow2_strictly_increases(pn, 52);
        assert((k - pow2(pn)) * pow2((52 - pn) as nat) < pow2(52)) by (nonlinear_arith)
            requires
                k < pow2(pn + 1),
                pow2(pn + 1) == 2 * pow2(pn),
                pow2(pn) * pow2((52 - pn) as nat) == pow2(52),
                k >= pow2(pn),
                pow2(pn) > 0,
                pow2((52 - pn) as nat) > 0,
        ;
        lemma_pow2_unfold(pn + 1);
        lemma_pow2_pos(pn);
        lemma_pow2_pos((52 - pn) as nat);
    }
    let mant: u64 = (k - lead) * shift;
    let expf: u64 = (971 + p) * DRAW_SCALE;
    proof {
        assert((971 + pn) * pow2(52) <= 1022 * pow2(52)) by (nonlinear_arith)
            requires
                pn <= 51,
                pow2(52) > 0,
        ;
    }
    let base: u64 = expf + mant;
    if neg {
        0x8000000000000000 + base
    } else {
        base
    }
}

/// The decimal digit as text, for `d <= 9`.
fn digit_str(d: u64) -> (r: &'static str)
    requires
        d <= 9,
    ensures
        r@ == seq![digit_char(d as nat)],
{
    if d == 0 {
        proof {
            reveal_strlit("0");
            assert("0"@ =~= seq![digit_char(0)]);
        }
        "0"
    } else if d == 1 {
        proof {
            reveal_strlit("1");
            assert("1"@ =~= seq![digit_char(1)]);
        }
        "1"
    } else if d == 2 {
        proof {
            reveal_strlit("2");
            assert("2"@ =~= seq![digit_char(2)]);
        }
        "2"
    } else if d == 3 {
        proof {
            reveal_strlit("3");
            assert("3"@ =~= seq![digit_char(3)]);
        }
        "3"
    } else if d == 4 {
        proof {
            reveal_strlit("4");
            assert("4"@ =~= seq![digit_char(4)]);
        }
        "4"
    } else if d == 5 {
        proof {
            reveal_strlit("5");
            assert("5"@ =~= seq![digit_char(5)]);
        }
        "5"
    } else if d == 6 {
        proof {
            reveal_strlit("6");
            assert("6"@ =~= seq![digit_char(6)]);
        }
        "6"
    } else if d == 7 {
        proof {
            reveal_strlit("7");
            assert("7"@ =~= seq![digit_char(7)]);
        }
        "7"
    } else if d == 8 {
        proof {
            reveal_strlit("8");
            assert("8"@ =~= seq![digit_char(8)]);
        }
        "8"
    } else {
        proof {
            reveal_strlit("9");
            assert("9"@ =~= seq![digit_char(9)]);
        }
        "9"
    }
}

/// The canonical five-decimal rendering of the constant drawn as `m`.
pub fn const_text_of(m: u64) -> (r: String)
    requires
        m < DRAW_BOUND,
    ensures
        r@ == spec_const_text(m as nat),
{
    proof {
        lemma2_to64();
        lemma2_to64_rest();
    }
    let neg: bool = m < DRAW_SCALE;
    let k: u64 = if neg {
        DRAW_SCALE - m
    } else {
        m - DRAW_SCALE
    };
    let num: u128 = (k as u128) * 100000;
    let scale: u128 = DRAW_SCALE as u128;
    let q128: u128 = num / scale;
    let rem: u128 = num % scale;
    proof {
        assert(num / scale <= 100000) by (nonlinear_arith)
            requires
                num == (k as u128) * 100000,
                k <= 0x10000000000000u128,
                scale == 0x10000000000000u128,
        ;
    }
    let q: u64 = q128 as u64;
    let n: u64 = if 2 * rem > scale || (2 * rem == scale && q % 2 == 1) {
        q + 1
    } else {
        q
    };
    proof {
        assert(n as nat == spec_round5(k as nat));
    }
    let mut s: String = if neg {
        String::from_str("-")
    } else {
        String::from_str("")
    };
    s.append(digit_str(n / 100000));
    s.append(".");
    s.append(digit_str((n / 10000) % 10));
    s.append(digit_str((n / 1000) % 10));
    s.append(digit_str((n / 100) % 10));
    s.append(digit_str((n / 10) % 10));
    s.append(digit_str(n % 10));
    proof {
        reveal_strlit("-");
        reveal_strlit("");
        reveal_strlit(".");
        assert("-"@ =~= seq!['-']);
        assert(""@ =~= Seq::<char>::empty());
        assert("."@ =~= seq!['.']);
        assert(s@ =~= spec_const_text(m as nat));
    }
    s
}

} // verus!
