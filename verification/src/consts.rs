//! Materialising 32-bit constants with 7-bit immediates.
//!
//! A constant is written as balanced base-128 digits, each in -64..=63: the
//! top digit is loaded with `LI`, and every further digit is added after a
//! `SHLI 7` (the `ADDI` is skipped for a zero digit).

use crate::encode::{self, reg_imm7_word, shift_imm_word};
use crate::m7::{signed_value, sx, two32, wrap32};
use crate::regs::Reg;
use vstd::prelude::*;

verus! {

/// The balanced base-128 digit of `n`: its residue modulo 128 moved into -64..=63.
pub open spec fn balanced_digit(n: int) -> int {
    let r = n % 128;
    if r > 63 {
        r - 128
    } else {
        r
    }
}

/// One digit step: the digit is in range, and the rest is an exact multiple
/// of 128 whose quotient is smaller in magnitude.
pub proof fn lemma_balanced_step(n: int)
    requires
        n < -64 || n > 63,
    ensures
        -64 <= balanced_digit(n) <= 63,
        (n - balanced_digit(n)) % 128 == 0,
        n == ((n - balanced_digit(n)) / 128) * 128 + balanced_digit(n),
        -64 <= (n - balanced_digit(n)) / 128 <= 63 || ((n - balanced_digit(n)) / 128 < 0 ==> -((n
            - balanced_digit(n)) / 128) < -n) && ((n - balanced_digit(n)) / 128 >= 0 ==> (n
            - balanced_digit(n)) / 128 < if n < 0 {
            -n
        } else {
            n
        }),
{
    let d = balanced_digit(n);
    vstd::arithmetic::div_mod::lemma_fundamental_div_mod(n, 128);
    let q = n / 128;
    let r = n % 128;
    if r > 63 {
        assert(n - d == (q + 1) * 128);
        vstd::arithmetic::div_mod::lemma_mod_multiples_basic(q + 1, 128);
        vstd::arithmetic::div_mod::lemma_div_multiples_vanish(q + 1, 128);
    } else {
        assert(n - d == q * 128);
        vstd::arithmetic::div_mod::lemma_mod_multiples_basic(q, 128);
        vstd::arithmetic::div_mod::lemma_div_multiples_vanish(q, 128);
    }
}

/// The balanced base-128 digits of `n`, most significant first, with no
/// redundant leading digit.
pub open spec fn balanced_digits(n: int) -> Seq<i8>
    decreases (if n < 0 {
        -n
    } else {
        n
    }),
{
    if -64 <= n <= 63 {
        seq![n as i8]
    } else {
        let d = balanced_digit(n);
        proof {
            lemma_balanced_step(n);
        }
        balanced_digits((n - d) / 128).push(d as i8)
    }
}

/// The integer that digits denote, most significant first.
pub open spec fn digits_value(ds: Seq<i8>) -> int
    decreases ds.len(),
{
    if ds.len() == 0 {
        0
    } else {
        digits_value(ds.drop_last()) * 128 + ds.last()
    }
}

/// What the `LI`, `SHLI 7`, `ADDI` sequence leaves in a 32-bit register: each
/// step shifts by seven bits and adds the sign-extended digit, modulo 2^32.
pub open spec fn digits_register_value(ds: Seq<i8>) -> u32
    decreases ds.len(),
{
    if ds.len() == 0 {
        0
    } else {
        wrap32(digits_register_value(ds.drop_last()) * 128 + ds.last())
    }
}

/// The number of steps that take any magnitude up to `m` into -64..=63.
spec fn reduces_within(m: int, k: nat) -> bool
    decreases k,
{
    if k == 0 {
        m <= 63
    } else {
        reduces_within((m + 64) / 128, (k - 1) as nat)
    }
}

proof fn lemma_digits_props(n: int, m: int, k: nat)
    requires
        -m <= n <= m,
        reduces_within(m, k),
    ensures
        1 <= balanced_digits(n).len() <= k + 1,
        forall|i: int|
            0 <= i < balanced_digits(n).len() ==> -64 <= #[trigger] balanced_digits(n)[i] <= 63,
        digits_value(balanced_digits(n)) == n,
    decreases k,
{
    if -64 <= n <= 63 {
        let ds = seq![n as i8];
        assert(balanced_digits(n) == ds);
        assert(ds.drop_last() =~= Seq::<i8>::empty());
        assert(digits_value(Seq::<i8>::empty()) == 0);
        assert(ds.last() as int == n);
        assert(digits_value(ds) == digits_value(ds.drop_last()) * 128 + ds.last());
    } else {
        lemma_balanced_step(n);
        let d = balanced_digit(n);
        let n2 = (n - d) / 128;
        if k == 0 {
            assert(false);
        } else {
            let m2 = (m + 64) / 128;
            assert(-m2 <= n2 <= m2) by {
                assert(n - d == n2 * 128);
                assert(-(m + 64) <= n2 * 128 <= m + 64);
                vstd::arithmetic::div_mod::lemma_div_multiples_vanish(n2, 128);
                vstd::arithmetic::div_mod::lemma_div_multiples_vanish(-n2, 128);
                vstd::arithmetic::div_mod::lemma_div_is_ordered(n2 * 128, m + 64, 128);
                vstd::arithmetic::div_mod::lemma_div_is_ordered(-n2 * 128, m + 64, 128);
            }
            lemma_digits_props(n2, m2, (k - 1) as nat);
            let ds = balanced_digits(n);
            assert(ds == balanced_digits(n2).push(d as i8));
            assert(ds.drop_last() =~= balanced_digits(n2));
            assert(ds.last() as int == d);
            assert(digits_value(ds) == n2 * 128 + d);
        }
    }
}

proof fn lemma_register_value(ds: Seq<i8>)
    ensures
        digits_register_value(ds) == wrap32(digits_value(ds)),
    decreases ds.len(),
{
    if ds.len() > 0 {
        let p = ds.drop_last();
        lemma_register_value(p);
        let v = digits_value(p);
        let w = digits_register_value(p) as int;
        // w == v mod 2^32, so w * 128 + d and v * 128 + d agree modulo 2^32.
        vstd::arithmetic::div_mod::lemma_fundamental_div_mod(v, two32());
        let q = v / two32();
        assert(v * 128 + ds.last() == two32() * (q * 128) + (w * 128 + ds.last())) by (nonlinear_arith)
            requires
                v == two32() * q + w,
        ;
        vstd::arithmetic::div_mod::lemma_mod_multiples_vanish(q * 128, w * 128 + ds.last(), two32());
    }
}

/// The digits of any 32-bit constant: one to five digits, each in -64..=63,
/// denoting the constant's signed value; the `LI`/`SHLI`/`ADDI` sequence
/// therefore rebuilds exactly the constant.
pub proof fn lemma_const_digits_reconstruct(value: u32)
    ensures
        1 <= balanced_digits(sx(value)).len() <= 5,
        forall|i: int|
            0 <= i < balanced_digits(sx(value)).len() ==> -64 <= #[trigger] balanced_digits(
                sx(value),
            )[i] <= 63,
        digits_value(balanced_digits(sx(value))) == sx(value),
        digits_register_value(balanced_digits(sx(value))) == value,
{
    assert(reduces_within(8, 0));
    assert(reduces_within(1024, 1));
    assert(reduces_within(131072, 2));
    assert(reduces_within(16777216, 3));
    assert(reduces_within(0x8000_0000, 4));
    lemma_digits_props(sx(value), 0x8000_0000, 4);
    lemma_register_value(balanced_digits(sx(value)));
    vstd::arithmetic::div_mod::lemma_mod_multiples_vanish(1, sx(value), two32());
}

/// Balanced base-128 digits of the constant's signed value, most significant first.
pub fn const_digits(value: u32) -> (ds: Vec<i8>)
    ensures
        ds@ == balanced_digits(sx(value)),
{
    let mut n: i64 = signed_value(value);
    let mut low_to_high: Vec<i8> = Vec::new();
    let ghost tail: Seq<i8> = Seq::empty();
    while n < -64 || n > 63
        invariant
            -0x8000_0000 <= n <= 0x8000_0000,
            balanced_digits(sx(value)) == balanced_digits(n as int) + tail,
            low_to_high@.len() == tail.len(),
            forall|k: int|
                0 <= k < tail.len() ==> #[trigger] low_to_high@[k] == tail[tail.len() - 1 - k],
        decreases (if n < 0 {
            -(n as int)
        } else {
            n as int
        }),
    {
        proof {
            lemma_balanced_step(n as int);
        }
        let r = ((n % 128) + 128) % 128;
        assert(r == (n as int) % 128);
        let digit = if r > 63 {
            r - 128
        } else {
            r
        };
        proof {
            let d = balanced_digit(n as int);
            assert(balanced_digits(n as int) == balanced_digits((n - d) / 128).push(d as i8));
            assert(balanced_digits(sx(value)) =~= balanced_digits((n - d) / 128) + (seq![d as i8]
                + tail));
            tail = seq![d as i8] + tail;
        }
        low_to_high.push(digit as i8);
        n = (n - digit) / 128;
    }
    let mut out: Vec<i8> = Vec::new();
    out.push(n as i8);
    let mut j = low_to_high.len();
    while j > 0
        invariant
            j <= low_to_high@.len() == tail.len(),
            forall|k: int|
                0 <= k < tail.len() ==> #[trigger] low_to_high@[k] == tail[tail.len() - 1 - k],
            out@ == seq![n as i8] + tail.subrange(0, tail.len() - j),
        decreases j,
    {
        j = j - 1;
        out.push(low_to_high[j]);
        assert(out@ =~= seq![n as i8] + tail.subrange(0, tail.len() - j));
    }
    assert(tail.subrange(0, tail.len() as int) =~= tail);
    assert(balanced_digits(n as int) == seq![n as i8]);
    out
}

/// The `LI`, `SHLI 7`, `ADDI` words that load the digits into `dst`.
pub open spec fn const_words(dst: Reg, ds: Seq<i8>) -> Seq<u16>
    decreases ds.len(),
{
    if ds.len() <= 1 {
        seq![reg_imm7_word(0x6000, dst@, ds[0] as int)]
    } else {
        let d = ds.last();
        const_words(dst, ds.drop_last()) + seq![shift_imm_word(dst@, 7, 6, 7)] + if d == 0 {
            Seq::empty()
        } else {
            seq![reg_imm7_word(0x6800, dst@, d as int)]
        }
    }
}

/// The words that materialise `value` in `dst`.
pub fn const32_words(dst: Reg, value: u32) -> (ws: Vec<u16>)
    ensures
        ws@ == const_words(dst, balanced_digits(sx(value))),
{
    let digits = const_digits(value);
    proof {
        lemma_const_digits_reconstruct(value);
    }
    let mut ws: Vec<u16> = Vec::new();
    ws.push(encode::li(dst, digits[0] as i32).unwrap());
    let mut i: usize = 1;
    while i < digits.len()
        invariant
            1 <= i <= digits@.len() <= 5,
            digits@ == balanced_digits(sx(value)),
            forall|k: int| 0 <= k < digits@.len() ==> -64 <= #[trigger] digits@[k] <= 63,
            ws@ == const_words(dst, digits@.subrange(0, i as int)),
        decreases digits@.len() - i,
    {
        let d = digits[i];
        ws.push(encode::shli(dst, 7).unwrap());
        if d != 0 {
            ws.push(encode::addi(dst, d as i32).unwrap());
        }
        i = i + 1;
        proof {
            let s = digits@.subrange(0, i as int);
            assert(s.drop_last() =~= digits@.subrange(0, i - 1));
            assert(s.last() == d);
        }
    }
    assert(digits@.subrange(0, digits@.len() as int) =~= digits@);
    ws
}

} // verus!
