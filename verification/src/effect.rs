//! The effect of emitted words on the sixteen general-purpose registers, for
//! the word forms that the register-to-register expansions use: `ADD` (and so
//! `MOV`, which is `ADD rd, r0, rs`), the two-address register operations,
//! `SHLI` by an amount below 16, `LI` / `ADDI` with a 7-bit immediate, and
//! the zero-offset loads and stores. What the operations compute and what a
//! load reads are left as parameters (a `Datapath`): the laws here are about
//! which values reach which registers, and hold whatever those are. Memory is
//! not modelled beyond that: a store changes no register.

use crate::consts::{balanced_digits, const_words, digits_register_value, lemma_const_digits_reconstruct};
use crate::encode::{reg_imm7_word, rr_word, shift_imm_word, twos, word4};
use crate::lower::{binary_op, machine_inst, MInst};
use crate::m7::{spec_encode, spec_execute, spec_function, sx, trunc_div, trunc_rem, two32, wrap32, M7Inst, M7Op};
use crate::operands::{operand_views, OperandView};
use crate::inst::{
    add_imm_words, compare_words, load_function, load_offset_words, load_word,
    spec_load_op, spec_store_op, store_offset_words, store_word, LoadOp, StoreOp, invert_words, mov_if, mov_word, plain_words, reversed_lhs,
    reversed_setup, two_addr_rhs, two_addr_setup, two_op_code, two_op_word, FrameLayout, Inst,
    IntCC, TwoOp,
};
use crate::regs::Reg;
use vstd::prelude::*;

verus! {

broadcast use Reg::lemma_spec_new_view;

/// What the data operations compute: `op(p, c, rd, rs)` is the result of the
/// two-address operation with primary opcode `p` and function code `c` on the
/// values of its destination and source, and `load(c, address)` the value
/// that the load with function code `c` reads at `address`.
pub struct Datapath {
    pub op: spec_fn(int, int, u32, u32) -> u32,
    pub load: spec_fn(int, u32) -> u32,
}

/// Field `i` (0 = most significant) of a word read as four 4-bit fields.
pub open spec fn nibble(w: u16, i: int) -> int {
    if i == 0 {
        w as int / 0x1000
    } else if i == 1 {
        (w as int / 0x100) % 16
    } else if i == 2 {
        (w as int / 0x10) % 16
    } else {
        w as int % 16
    }
}

/// The signed 7-bit immediate in the low bits of a word.
pub open spec fn imm7(w: u16) -> int {
    if w as int % 0x80 >= 0x40 {
        w as int % 0x80 - 0x80
    } else {
        w as int % 0x80
    }
}

/// The value read from register `r`: r0 always reads as zero.
pub open spec fn gpr(regs: Seq<u32>, r: int) -> u32 {
    if r == 0 {
        0
    } else {
        regs[r]
    }
}

/// Whether a primary opcode and function code are those of a two-address
/// register operation `rd <- f(rd, rs)`.
pub open spec fn is_two_addr(p: int, c: int) -> bool {
    p == 4 && c <= 9 || p == 5 && c <= 5 || p == 12 && 1 <= c <= 14
}

/// The registers after one word, or `None` for a word outside these forms.
#[verifier::opaque]
pub open spec fn step(dp: Datapath, regs: Seq<u32>, w: u16) -> Option<
    Seq<u32>,
> {
    let p = nibble(w, 0);
    let a = nibble(w, 1);
    let b = nibble(w, 2);
    let c = nibble(w, 3);
    if p == 0 && a != 0 {
        Some(regs.update(a, wrap32(gpr(regs, b) + gpr(regs, c))))
    } else if is_two_addr(p, c) {
        Some(regs.update(a, (dp.op)(p, c, gpr(regs, a), gpr(regs, b))))
    } else if p == 7 && c <= 4 {
        Some(regs.update(a, (dp.load)(c, gpr(regs, b))))
    } else if p == 7 && 5 <= c <= 7 {
        Some(regs)
    } else if p == 5 && c == 6 {
        Some(regs.update(a, wrap32(gpr(regs, a) * vstd::arithmetic::power2::pow2(b as nat))))
    } else if p == 6 {
        let r = (w as int / 0x80) % 16;
        if (w as int / 0x800) % 2 == 0 {
            Some(regs.update(r, wrap32(imm7(w))))
        } else {
            Some(regs.update(r, wrap32(gpr(regs, r) + imm7(w))))
        }
    } else {
        None
    }
}

/// The registers after a sequence of words, or `None` if one of them is
/// outside these forms.
pub open spec fn run(dp: Datapath, regs: Seq<u32>, ws: Seq<u16>) -> Option<
    Seq<u32>,
>
    decreases ws.len(),
{
    if ws.len() == 0 {
        Some(regs)
    } else {
        match step(dp, regs, ws[0]) {
            Some(next) => run(dp, next, ws.subrange(1, ws.len() as int)),
            None => None,
        }
    }
}

/// Which registers an expansion may change besides its destination: none but
/// the scratch register r12.
pub open spec fn keeps_others(before: Seq<u32>, after: Seq<u32>, d: int) -> bool {
    &&& after.len() == 16
    &&& forall|i: int| 0 <= i < 16 && i != d && i != 12 ==> after[i] == before[i]
}

/// The registers that an expansion may be given: one of r1..r15 other than
/// the scratch register r12.
pub open spec fn allocatable(r: Reg) -> bool {
    0 < r@ < 16 && r@ != 12
}

proof fn lemma_word4_fields(p: int, a: int, b: int, c: int)
    requires
        0 <= p < 16,
        0 <= a < 16,
        0 <= b < 16,
        0 <= c < 16,
    ensures
        nibble(word4(p, a, b, c), 0) == p,
        nibble(word4(p, a, b, c), 1) == a,
        nibble(word4(p, a, b, c), 2) == b,
        nibble(word4(p, a, b, c), 3) == c,
{
    let v = p * 0x1000 + a * 0x100 + b * 0x10 + c;
    assert(0 <= v < 0x10000);
    assert(word4(p, a, b, c) as int == v);
    assert(v / 0x1000 == p);
    assert(v / 0x100 == p * 16 + a);
    assert((p * 16 + a) % 16 == a);
    assert(v / 0x10 == p * 0x100 + a * 16 + b);
    assert((p * 0x100 + a * 16 + b) % 16 == b);
    assert(v % 16 == c);
}

proof fn lemma_run_cons(dp: Datapath, regs: Seq<u32>, w: u16, rest: Seq<u16>)
    ensures
        run(dp, regs, seq![w] + rest) == match step(dp, regs, w) {
            Some(next) => run(dp, next, rest),
            None => None,
        },
{
    let ws = seq![w] + rest;
    assert(ws[0] == w);
    assert(ws.subrange(1, ws.len() as int) =~= rest);
}

proof fn lemma_run_one(dp: Datapath, regs: Seq<u32>, w: u16)
    ensures
        run(dp, regs, seq![w]) == step(dp, regs, w),
{
    lemma_run_cons(dp, regs, w, Seq::empty());
    assert(seq![w] + Seq::<u16>::empty() =~= seq![w]);
}

/// `MOV d, s` copies the value of `s` into `d`.
proof fn lemma_mov(dp: Datapath, regs: Seq<u32>, d: Reg, s: Reg)
    requires
        regs.len() == 16,
        0 < d@ < 16,
        s@ < 16,
    ensures
        step(dp, regs, mov_word(d, s)) == Some(regs.update(d@ as int, gpr(regs, s@ as int))),
{
    reveal(step);
    lemma_word4_fields(0, d@ as int, 0, s@ as int);
}

/// A two-address register word `op d, s`.
proof fn lemma_rr(dp: Datapath, regs: Seq<u32>, p: int, d: Reg, s: Reg, c: int)
    requires
        regs.len() == 16,
        is_two_addr(p, c),
        0 <= c,
        d@ < 16,
        s@ < 16,
    ensures
        step(dp, regs, rr_word(p, d, s, c)) == Some(
            regs.update(d@ as int, (dp.op)(p, c, gpr(regs, d@ as int), gpr(regs, s@ as int))),
        ),
{
    reveal(step);
    lemma_word4_fields(p, d@ as int, s@ as int, c);
}

/// Running a sequence and then another is running their concatenation.
proof fn lemma_run_append(
    dp: Datapath,
    regs: Seq<u32>,
    a: Seq<u16>,
    b: Seq<u16>,
)
    ensures
        run(dp, regs, a + b) == match run(dp, regs, a) {
            Some(mid) => run(dp, mid, b),
            None => None,
        },
    decreases a.len(),
{
    if a.len() > 0 {
        let rest = a.subrange(1, a.len() as int);
        assert(a =~= seq![a[0]] + rest);
        assert(a + b =~= seq![a[0]] + (rest + b));
        lemma_run_cons(dp, regs, a[0], rest + b);
        lemma_run_cons(dp, regs, a[0], rest);
        match step(dp, regs, a[0]) {
            Some(next) => lemma_run_append(dp, next, rest, b),
            None => {},
        }
    } else {
        assert(a + b =~= b);
    }
}

/// After `two_addr_setup(d, l, r)`, `d` holds the value of `l`,
/// `two_addr_rhs(d, l, r)` the value of `r`, and no other register but r12
/// has changed.
proof fn lemma_two_addr_setup(dp: Datapath, regs: Seq<u32>, d: Reg, l: Reg, r: Reg)
    requires
        regs.len() == 16,
        allocatable(d),
        allocatable(l),
        allocatable(r),
    ensures
        ({
            let out = run(dp, regs, two_addr_setup(d, l, r));
            &&& out is Some
            &&& keeps_others(regs, out->0, d@ as int)
            &&& out->0[d@ as int] == regs[l@ as int]
            &&& gpr(out->0, two_addr_rhs(d, l, r)@ as int) == regs[r@ as int]
        }),
{
    let r12 = Reg::spec_new(12);
    Reg::lemma_view_injective(d, l);
    Reg::lemma_view_injective(d, r);
    if d == r && d != l {
        let m1 = regs.update(12, regs[r@ as int]);
        lemma_mov(dp, regs, r12, r);
        lemma_mov(dp, m1, d, l);
        lemma_run_cons(dp, regs, mov_word(r12, r), seq![mov_word(d, l)]);
        lemma_run_one(dp, m1, mov_word(d, l));
        assert(two_addr_setup(d, l, r) =~= seq![mov_word(r12, r)] + seq![mov_word(d, l)]);
    } else if d != l {
        lemma_mov(dp, regs, d, l);
        lemma_run_one(dp, regs, mov_word(d, l));
    } else {
        assert(two_addr_setup(d, l, r) =~= Seq::<u16>::empty());
    }
}

/// The two-address expansion computes its operation on the operands' values:
/// whichever registers the allocator chose (the destination may be either
/// operand, or both), the destination ends up holding the operation applied
/// to the values the left and right operands held before, and no register
/// other than the destination and the scratch register r12 changes.
pub proof fn lemma_two_op_expansion(
    dp: Datapath,
    regs: Seq<u32>,
    op: TwoOp,
    d: Reg,
    l: Reg,
    r: Reg,
    f: FrameLayout,
)
    requires
        regs.len() == 16,
        allocatable(d),
        allocatable(l),
        allocatable(r),
    ensures
        ({
            let out = run(dp, regs, plain_words(Inst::TwoOp { op, dst: d, lhs: l, rhs: r }, f));
            &&& out is Some
            &&& keeps_others(regs, out->0, d@ as int)
            &&& out->0[d@ as int] == (dp.op)(
                two_op_code(op).0,
                two_op_code(op).1,
                regs[l@ as int],
                regs[r@ as int],
            )
        }),
{
    let setup = two_addr_setup(d, l, r);
    let rhs = two_addr_rhs(d, l, r);
    let code = two_op_code(op);
    lemma_two_addr_setup(dp, regs, d, l, r);
    let mid = run(dp, regs, setup)->0;
    lemma_run_append(dp, regs, setup, seq![two_op_word(op, d, rhs)]);
    lemma_rr(dp, mid, code.0, d, rhs, code.1);
    lemma_run_one(dp, mid, two_op_word(op, d, rhs));
}

/// How each integer condition is computed: the function code of the
/// comparison (`CMPEQ`, `CMPLT` or `CMPLTU`), whether the operands are
/// swapped, and whether the 0/1 result is then inverted.
pub open spec fn compare_plan(cc: IntCC) -> (int, bool, bool) {
    match cc {
        IntCC::Equal => (3, false, false),
        IntCC::NotEqual => (3, false, true),
        IntCC::SignedLessThan => (4, false, false),
        IntCC::UnsignedLessThan => (5, false, false),
        IntCC::SignedGreaterThan => (4, true, false),
        IntCC::UnsignedGreaterThan => (5, true, false),
        IntCC::SignedLessThanOrEqual => (4, true, true),
        IntCC::UnsignedLessThanOrEqual => (5, true, true),
        IntCC::SignedGreaterThanOrEqual => (4, false, true),
        IntCC::UnsignedGreaterThanOrEqual => (5, false, true),
    }
}

/// After `reversed_setup(d, l, r)`, `d` holds the value of `r`,
/// `reversed_lhs(d, l, r)` the value of `l`, and no other register but r12
/// has changed.
proof fn lemma_reversed_setup(dp: Datapath, regs: Seq<u32>, d: Reg, l: Reg, r: Reg)
    requires
        regs.len() == 16,
        allocatable(d),
        allocatable(l),
        allocatable(r),
    ensures
        ({
            let out = run(dp, regs, reversed_setup(d, l, r));
            &&& out is Some
            &&& keeps_others(regs, out->0, d@ as int)
            &&& out->0[d@ as int] == regs[r@ as int]
            &&& gpr(out->0, reversed_lhs(d, l, r)@ as int) == regs[l@ as int]
        }),
{
    let r12 = Reg::spec_new(12);
    Reg::lemma_view_injective(d, l);
    Reg::lemma_view_injective(d, r);
    if d == l && d != r {
        let m1 = regs.update(12, regs[l@ as int]);
        lemma_mov(dp, regs, r12, l);
        lemma_mov(dp, m1, d, r);
        lemma_run_cons(dp, regs, mov_word(r12, l), seq![mov_word(d, r)]);
        lemma_run_one(dp, m1, mov_word(d, r));
        assert(reversed_setup(d, l, r) =~= seq![mov_word(r12, l)] + seq![mov_word(d, r)]);
    } else if d != r {
        lemma_mov(dp, regs, d, r);
        lemma_run_one(dp, regs, mov_word(d, r));
        assert(reversed_setup(d, l, r) =~= seq![mov_word(d, r)]);
    } else {
        assert(reversed_setup(d, l, r) =~= Seq::<u16>::empty());
    }
}

/// `LI r12, 1; XOR d, r12` turns the value `x` of `d` into `x ^ 1` as the
/// operation computes it, setting r12 and nothing else.
proof fn lemma_invert(dp: Datapath, regs: Seq<u32>, d: Reg)
    requires
        regs.len() == 16,
        allocatable(d),
    ensures
        ({
            let out = run(dp, regs, invert_words(d));
            &&& out is Some
            &&& keeps_others(regs, out->0, d@ as int)
            &&& out->0[d@ as int] == (dp.op)(5, 2, regs[d@ as int], 1)
        }),
{
    let r12 = Reg::spec_new(12);
    let li = reg_imm7_word(0x6000, 12, 1);
    assert(twos(1, 7) == 1);
    assert(li == 0x6601);
    let m1 = regs.update(12, 1);
    assert(step(dp, regs, li) == Some(m1)) by {
        reveal(step);
    }
    lemma_rr(dp, m1, 5, d, r12, 2);
    lemma_run_cons(dp, regs, li, seq![rr_word(5, d, r12, 2)]);
    lemma_run_one(dp, m1, rr_word(5, d, r12, 2));
    assert(invert_words(d) =~= seq![li] + seq![rr_word(5, d, r12, 2)]);
}

/// An integer comparison computes its condition on the operands' values:
/// whichever registers the allocator chose, the destination ends up holding
/// the comparison of the values the operands held before (swapped for the
/// greater-than forms, inverted for the negated forms), and no register other
/// than the destination and the scratch register r12 changes.
pub proof fn lemma_compare_expansion(
    dp: Datapath,
    regs: Seq<u32>,
    cc: IntCC,
    d: Reg,
    l: Reg,
    r: Reg,
)
    requires
        regs.len() == 16,
        allocatable(d),
        allocatable(l),
        allocatable(r),
    ensures
        ({
            let out = run(dp, regs, compare_words(cc, d, l, r));
            let (code, swapped, negated) = compare_plan(cc);
            let raw = if swapped {
                (dp.op)(4, code, regs[r@ as int], regs[l@ as int])
            } else {
                (dp.op)(4, code, regs[l@ as int], regs[r@ as int])
            };
            &&& out is Some
            &&& keeps_others(regs, out->0, d@ as int)
            &&& out->0[d@ as int] == if negated {
                (dp.op)(5, 2, raw, 1)
            } else {
                raw
            }
        }),
{
    let (code, swapped, negated) = compare_plan(cc);
    let setup = if swapped {
        reversed_setup(d, l, r)
    } else {
        two_addr_setup(d, l, r)
    };
    let other = if swapped {
        reversed_lhs(d, l, r)
    } else {
        two_addr_rhs(d, l, r)
    };
    if swapped {
        lemma_reversed_setup(dp, regs, d, l, r);
    } else {
        lemma_two_addr_setup(dp, regs, d, l, r);
    }
    let mid = run(dp, regs, setup)->0;
    let test_word = seq![rr_word(4, d, other, code)];
    lemma_rr(dp, mid, 4, d, other, code);
    lemma_run_one(dp, mid, rr_word(4, d, other, code));
    lemma_run_append(dp, regs, setup, test_word);
    let after = run(dp, mid, test_word)->0;
    if negated {
        lemma_invert(dp, after, d);
        lemma_run_append(dp, regs, setup + test_word, invert_words(d));
        assert(compare_words(cc, d, l, r) =~= setup + test_word + invert_words(d));
    } else {
        assert(compare_words(cc, d, l, r) =~= setup + test_word);
    }
}

proof fn lemma_reg_imm7_fields(base: int, r: u8, imm: int)
    requires
        base == 0x6000 || base == 0x6800,
        r < 16,
        -64 <= imm <= 63,
    ensures
        nibble(reg_imm7_word(base, r, imm), 0) == 6,
        (reg_imm7_word(base, r, imm) as int / 0x80) % 16 == r,
        (reg_imm7_word(base, r, imm) as int / 0x800) % 2 == if base == 0x6000 {
            0int
        } else {
            1
        },
        imm7(reg_imm7_word(base, r, imm)) == imm,
{
    vstd::arithmetic::power2::lemma2_to64();
    let t = twos(imm, 7);
    assert(0 <= t < 128);
    let v = base + r * 0x80 + t;
    assert(reg_imm7_word(base, r, imm) as int == v);
    assert(v / 0x80 == base / 0x80 + r);
    assert(v % 0x80 == t);
}

/// `LI r, imm` for an immediate in -64..=63.
proof fn lemma_li(dp: Datapath, regs: Seq<u32>, r: Reg, imm: int)
    requires
        regs.len() == 16,
        r@ < 16,
        -64 <= imm <= 63,
    ensures
        step(dp, regs, reg_imm7_word(0x6000, r@, imm)) == Some(regs.update(r@ as int, wrap32(imm))),
{
    reveal(step);
    lemma_reg_imm7_fields(0x6000, r@, imm);
}

/// `ADDI r, imm` for an immediate in -64..=63.
proof fn lemma_addi(dp: Datapath, regs: Seq<u32>, r: Reg, imm: int)
    requires
        regs.len() == 16,
        r@ < 16,
        -64 <= imm <= 63,
    ensures
        step(dp, regs, reg_imm7_word(0x6800, r@, imm)) == Some(
            regs.update(r@ as int, wrap32(gpr(regs, r@ as int) + imm)),
        ),
{
    reveal(step);
    lemma_reg_imm7_fields(0x6800, r@, imm);
}

/// `SHLI r, 7`.
proof fn lemma_shli7(dp: Datapath, regs: Seq<u32>, r: Reg)
    requires
        regs.len() == 16,
        r@ < 16,
    ensures
        step(dp, regs, shift_imm_word(r@, 7, 6, 7)) == Some(
            regs.update(r@ as int, wrap32(gpr(regs, r@ as int) * 128)),
        ),
{
    reveal(step);
    vstd::arithmetic::power2::lemma2_to64();
    lemma_word4_fields(5, r@ as int, 7, 6);
}

proof fn lemma_wrap_add(x: int, y: int)
    ensures
        wrap32(wrap32(x) + y) == wrap32(x + y),
{
    vstd::arithmetic::div_mod::lemma_add_mod_noop(x, y, two32());
    vstd::arithmetic::div_mod::lemma_mod_twice(y, two32());
    vstd::arithmetic::div_mod::lemma_add_mod_noop(x % two32(), y, two32());
    vstd::arithmetic::div_mod::lemma_mod_bound(x, two32());
}

/// The words that add one more digit: `SHLI r, 7`, then `ADDI r, d` unless
/// the digit is zero.
pub open spec fn digit_words(r: Reg, d: i8) -> Seq<u16> {
    seq![shift_imm_word(r@, 7, 6, 7)] + if d == 0 {
        Seq::empty()
    } else {
        seq![reg_imm7_word(0x6800, r@, d as int)]
    }
}

proof fn lemma_digit_words(dp: Datapath, regs: Seq<u32>, r: Reg, d: i8)
    requires
        regs.len() == 16,
        0 < r@ < 16,
        -64 <= d <= 63,
    ensures
        run(dp, regs, digit_words(r, d)) == Some(
            regs.update(r@ as int, wrap32(regs[r@ as int] * 128 + d)),
        ),
{
    let shl = shift_imm_word(r@, 7, 6, 7);
    let tail = if d == 0 {
        Seq::empty()
    } else {
        seq![reg_imm7_word(0x6800, r@, d as int)]
    };
    lemma_shli7(dp, regs, r);
    let m2 = regs.update(r@ as int, wrap32(regs[r@ as int] * 128));
    lemma_run_cons(dp, regs, shl, tail);
    lemma_wrap_add(regs[r@ as int] * 128, d as int);
    if d == 0 {
        assert(run(dp, m2, tail) == Some(m2));
    } else {
        lemma_addi(dp, m2, r, d as int);
        lemma_run_one(dp, m2, reg_imm7_word(0x6800, r@, d as int));
        assert(m2.update(r@ as int, wrap32(gpr(m2, r@ as int) + d)) =~= regs.update(
            r@ as int,
            wrap32(regs[r@ as int] * 128 + d),
        ));
    }
}

/// The constant sequence leaves in `r` the register value of its digits and
/// changes no other register.
proof fn lemma_const_words_effect(dp: Datapath, regs: Seq<u32>, r: Reg, ds: Seq<i8>)
    requires
        regs.len() == 16,
        0 < r@ < 16,
        ds.len() >= 1,
        forall|i: int| 0 <= i < ds.len() ==> -64 <= #[trigger] ds[i] <= 63,
    ensures
        run(dp, regs, const_words(r, ds)) == Some(regs.update(r@ as int, digits_register_value(ds))),
    decreases ds.len(),
{
    if ds.len() <= 1 {
        lemma_li(dp, regs, r, ds[0] as int);
        lemma_run_one(dp, regs, reg_imm7_word(0x6000, r@, ds[0] as int));
        assert(ds.drop_last().len() == 0);
        assert(ds.last() == ds[0]);
        assert(digits_register_value(ds.drop_last()) == 0);
        assert(digits_register_value(ds) == wrap32(ds[0] as int));
        assert(const_words(r, ds) == seq![reg_imm7_word(0x6000, r@, ds[0] as int)]);
    } else {
        let pre = ds.drop_last();
        let d = ds.last();
        assert forall|i: int| 0 <= i < pre.len() implies -64 <= #[trigger] pre[i] <= 63 by {
            assert(pre[i] == ds[i]);
        }
        assert(-64 <= d <= 63) by {
            assert(d == ds[ds.len() - 1]);
        }
        lemma_const_words_effect(dp, regs, r, pre);
        let m1 = regs.update(r@ as int, digits_register_value(pre));
        lemma_digit_words(dp, m1, r, d);
        assert(const_words(r, ds) == const_words(r, pre) + digit_words(r, d));
        lemma_run_append(dp, regs, const_words(r, pre), digit_words(r, d));
        assert(run(dp, regs, const_words(r, ds)) == Some(m1.update(r@ as int, wrap32(m1[r@ as int] * 128 + d))));
        assert(digits_register_value(ds) == wrap32(digits_register_value(pre) * 128 + d));
        assert(m1.update(r@ as int, wrap32(m1[r@ as int] * 128 + d)) =~= regs.update(
            r@ as int,
            digits_register_value(ds),
        ));
    }
}

/// Adding an immediate leaves in the destination the source's value plus the
/// immediate, modulo 2^32, whatever the immediate and whether or not the
/// destination is the source, and for every source (r0 reads as zero; r12
/// may be the source or, with a source other than r12, the destination);
/// only the scratch register r12 changes besides.
pub proof fn lemma_add_imm_expansion(dp: Datapath, regs: Seq<u32>, d: Reg, s: Reg, imm: i32)
    requires
        regs.len() == 16,
        0 < d@ < 16,
        s@ < 16,
        crate::inst::add_imm_ok(d, s, imm),
    ensures
        ({
            let out = run(dp, regs, add_imm_words(d, s, imm));
            &&& out is Some
            &&& keeps_others(regs, out->0, d@ as int)
            &&& out->0[d@ as int] == wrap32(gpr(regs, s@ as int) + imm)
        }),
{
    let r12 = Reg::spec_new(12);
    Reg::lemma_view_injective(d, s);
    Reg::lemma_view_injective(d, r12);
    let mv = mov_if(d, s);
    let m1 = regs.update(d@ as int, gpr(regs, s@ as int));
    if d != s {
        lemma_mov(dp, regs, d, s);
        lemma_run_one(dp, regs, mov_word(d, s));
    } else {
        assert(s@ != 0);
        assert(m1 =~= regs);
        assert(mv =~= Seq::<u16>::empty());
    }
    assert(run(dp, regs, mv) == Some(m1));
    vstd::arithmetic::div_mod::lemma_small_mod(gpr(regs, s@ as int) as nat, two32() as nat);
    if -64 <= imm <= 63 {
        if imm != 0 {
            lemma_addi(dp, m1, d, imm as int);
            lemma_run_one(dp, m1, reg_imm7_word(0x6800, d@, imm as int));
            lemma_run_append(dp, regs, mv, seq![reg_imm7_word(0x6800, d@, imm as int)]);
        } else {
            assert(add_imm_words(d, s, imm) =~= mv);
        }
    } else {
        let v = imm as u32;
        let ds = balanced_digits(sx(v));
        lemma_const_digits_reconstruct(v);
        assert(imm < 0 ==> (imm as u32) as i64 == (imm as i64) + 0x1_0000_0000i64) by (bit_vector);
        assert(imm >= 0 ==> (imm as u32) as i64 == imm as i64) by (bit_vector);
        assert(v == imm || v == imm + two32());
        if v != imm {
            vstd::arithmetic::div_mod::lemma_mod_multiples_vanish(1, gpr(regs, s@ as int) + imm, two32());
        }
        if d@ == 12 {
            lemma_const_words_effect(dp, regs, r12, ds);
            let m2 = regs.update(12, v);
            let add = word4(0, 12, 12, s@ as int);
            lemma_word4_fields(0, 12, 12, s@ as int);
            assert(step(dp, m2, add) == Some(m2.update(12, wrap32(v + gpr(regs, s@ as int))))) by {
                reveal(step);
            }
            lemma_run_one(dp, m2, add);
            lemma_run_append(dp, regs, const_words(r12, ds), seq![add]);
            assert(add_imm_words(d, s, imm) =~= const_words(r12, ds) + seq![add]);
        } else {
            lemma_const_words_effect(dp, m1, r12, ds);
            let m2 = m1.update(12, v);
            let add = word4(0, d@ as int, d@ as int, 12);
            lemma_word4_fields(0, d@ as int, d@ as int, 12);
            assert(step(dp, m2, add) == Some(m2.update(d@ as int, wrap32(gpr(regs, s@ as int) + v)))) by {
                reveal(step);
            }
            lemma_run_one(dp, m2, add);
            lemma_run_append(dp, m1, const_words(r12, ds), seq![add]);
            lemma_run_append(dp, regs, mv, const_words(r12, ds) + seq![add]);
            assert(add_imm_words(d, s, imm) =~= mv + (const_words(r12, ds) + seq![add]));
        }
    }
}

/// Stack addresses are taken from SP: the destination of `StackAddr` receives
/// SP plus the operand's frame offset, modulo 2^32, and only r12 changes
/// besides.
pub proof fn lemma_stack_addr_expansion(
    dp: Datapath,
    regs: Seq<u32>,
    d: Reg,
    mem: crate::inst::StackAMode,
    f: FrameLayout,
)
    requires
        regs.len() == 16,
        allocatable(d),
        crate::inst::fits_i32(crate::inst::stack_offset(mem, f)),
    ensures
        ({
            let out = run(dp, regs, plain_words(Inst::StackAddr { dst: d, mem }, f));
            &&& out is Some
            &&& keeps_others(regs, out->0, d@ as int)
            &&& out->0[d@ as int] == wrap32(regs[13] + crate::inst::stack_offset(mem, f))
        }),
{
    lemma_add_imm_expansion(dp, regs, d, Reg::spec_new(13), crate::inst::stack_offset(mem, f) as i32);
}

/// Building a constant in a register leaves exactly that constant in the
/// destination and changes no other register, r12 included. (This is the
/// inline expansion of `LoadConst32`, used for constants of at most two
/// digits; the words are the same for every constant.)
pub proof fn lemma_load_const_expansion(dp: Datapath, regs: Seq<u32>, d: Reg, value: u32, f: FrameLayout)
    requires
        regs.len() == 16,
        allocatable(d),
    ensures
        run(dp, regs, plain_words(Inst::LoadConst32 { dst: d, value }, f)) == Some(regs.update(d@ as int, value)),
{
    lemma_const_digits_reconstruct(value);
    lemma_const_words_effect(dp, regs, d, balanced_digits(sx(value)));
}

/// `Addi7` leaves in the destination the source's value plus the immediate,
/// modulo 2^32, and changes no other register.
pub proof fn lemma_addi7_expansion(dp: Datapath, regs: Seq<u32>, d: Reg, s: Reg, imm: i8, f: FrameLayout)
    requires
        regs.len() == 16,
        allocatable(d),
        allocatable(s),
        -64 <= imm <= 63,
    ensures
        run(dp, regs, plain_words(Inst::Addi7 { dst: d, src: s, imm }, f)) == Some(
            regs.update(d@ as int, wrap32(regs[s@ as int] + imm)),
        ),
{
    Reg::lemma_view_injective(d, s);
    let mv = mov_if(d, s);
    let m1 = regs.update(d@ as int, regs[s@ as int]);
    if d != s {
        lemma_mov(dp, regs, d, s);
        lemma_run_one(dp, regs, mov_word(d, s));
    } else {
        assert(m1 =~= regs);
        assert(mv =~= Seq::<u16>::empty());
    }
    let w = reg_imm7_word(0x6800, d@, imm as int);
    lemma_addi(dp, m1, d, imm as int);
    lemma_run_one(dp, m1, w);
    lemma_run_append(dp, regs, mv, seq![w]);
    assert(m1.update(d@ as int, wrap32(gpr(m1, d@ as int) + imm)) =~= regs.update(
        d@ as int,
        wrap32(regs[s@ as int] + imm),
    ));
}

/// A zero-offset load `d <- [b]`.
proof fn lemma_load_word(dp: Datapath, regs: Seq<u32>, op: LoadOp, d: Reg, b: Reg)
    requires
        regs.len() == 16,
        d@ < 16,
        b@ < 16,
    ensures
        step(dp, regs, load_word(op, d, b)) == Some(
            regs.update(d@ as int, (dp.load)(load_function(op), gpr(regs, b@ as int))),
        ),
{
    reveal(step);
    lemma_word4_fields(7, d@ as int, b@ as int, load_function(op));
}

/// A zero-offset store `[b] <- s`.
proof fn lemma_store_word(dp: Datapath, regs: Seq<u32>, op: StoreOp, s: Reg, b: Reg)
    requires
        regs.len() == 16,
        s@ < 16,
        b@ < 16,
    ensures
        step(dp, regs, store_word(op, s, b)) == Some(regs),
{
    reveal(step);
    lemma_word4_fields(7, s@ as int, b@ as int, crate::inst::store_function(op));
}

/// A load through a base register and an offset leaves in the destination
/// what the load reads at the base's value plus the offset, modulo 2^32, and
/// changes no register but the destination and r12.
pub proof fn lemma_load_offset_expansion(dp: Datapath, regs: Seq<u32>, op: LoadOp, d: Reg, base: Reg, offset: i32)
    requires
        regs.len() == 16,
        allocatable(d),
        allocatable(base),
    ensures
        ({
            let out = run(dp, regs, load_offset_words(op, d, base, offset));
            &&& out is Some
            &&& keeps_others(regs, out->0, d@ as int)
            &&& out->0[d@ as int] == (dp.load)(load_function(op), wrap32(regs[base@ as int] + offset))
        }),
{
    let r12 = Reg::spec_new(12);
    if offset == 0 {
        vstd::arithmetic::div_mod::lemma_small_mod(regs[base@ as int] as nat, two32() as nat);
        lemma_load_word(dp, regs, op, d, base);
        lemma_run_one(dp, regs, load_word(op, d, base));
    } else {
        let via = if d != base {
            d
        } else {
            r12
        };
        lemma_add_imm_expansion(dp, regs, via, base, offset);
        let mid = run(dp, regs, add_imm_words(via, base, offset))->0;
        lemma_load_word(dp, mid, op, d, via);
        lemma_run_one(dp, mid, load_word(op, d, via));
        lemma_run_append(dp, regs, add_imm_words(via, base, offset), seq![load_word(op, d, via)]);
    }
}

/// A store through a base register and an offset changes no register but
/// the scratch register r12.
pub proof fn lemma_store_offset_expansion(dp: Datapath, regs: Seq<u32>, op: StoreOp, src: Reg, base: Reg, offset: i32)
    requires
        regs.len() == 16,
        allocatable(src),
        allocatable(base),
    ensures
        ({
            let out = run(dp, regs, store_offset_words(op, src, base, offset));
            &&& out is Some
            &&& keeps_others(regs, out->0, 12)
        }),
{
    let r12 = Reg::spec_new(12);
    if offset == 0 {
        lemma_store_word(dp, regs, op, src, base);
        lemma_run_one(dp, regs, store_word(op, src, base));
    } else {
        lemma_add_imm_expansion(dp, regs, r12, base, offset);
        let mid = run(dp, regs, add_imm_words(r12, base, offset))->0;
        lemma_store_word(dp, mid, op, src, r12);
        lemma_run_one(dp, mid, store_word(op, src, r12));
        lemma_run_append(dp, regs, add_imm_words(r12, base, offset), seq![store_word(op, src, r12)]);
    }
}

/// Stack loads are addressed from SP: the destination of `LoadStack`
/// receives what the load reads at SP plus the operand's frame offset, and
/// only r12 changes besides. Stack stores change no register but r12.
pub proof fn lemma_stack_load_store_expansion(
    dp: Datapath,
    regs: Seq<u32>,
    r: Reg,
    mem: crate::inst::StackAMode,
    ty: crate::inst::ValueType,
    f: FrameLayout,
)
    requires
        regs.len() == 16,
        allocatable(r),
        crate::inst::fits_i32(crate::inst::stack_offset(mem, f)),
    ensures
        ({
            let out = run(dp, regs, plain_words(Inst::LoadStack { dst: r, mem, ty }, f));
            &&& out is Some
            &&& keeps_others(regs, out->0, r@ as int)
            &&& out->0[r@ as int] == (dp.load)(
                load_function(spec_load_op(ty)),
                wrap32(regs[13] + crate::inst::stack_offset(mem, f)),
            )
        }),
        ({
            let out = run(dp, regs, plain_words(Inst::StoreStack { src: r, mem, ty }, f));
            &&& out is Some
            &&& keeps_others(regs, out->0, 12)
        }),
{
    let sp = Reg::spec_new(13);
    let off = crate::inst::stack_offset(mem, f) as i32;
    lemma_load_offset_expansion(dp, regs, spec_load_op(ty), r, sp, off);
    lemma_store_offset_expansion(dp, regs, spec_store_op(ty), r, sp, off);
}

/// The M7 operation that a two-address operation is, if it is one.
pub open spec fn m7_op_of(op: TwoOp) -> Option<M7Op> {
    match op {
        TwoOp::BSet => Some(M7Op::Bset),
        TwoOp::BClr => Some(M7Op::Bclr),
        TwoOp::BInv => Some(M7Op::Binv),
        TwoOp::BExt => Some(M7Op::Bext),
        TwoOp::Mul => Some(M7Op::Mul),
        TwoOp::Div => Some(M7Op::Div),
        TwoOp::DivU => Some(M7Op::Divu),
        TwoOp::Rem => Some(M7Op::Rem),
        TwoOp::RemU => Some(M7Op::Remu),
        TwoOp::Rev8 => Some(M7Op::Rev8),
        _ => None,
    }
}

/// A datapath whose M7 operations compute what the M7 reference semantics
/// gives.
pub open spec fn executes_m7(dp: Datapath) -> bool {
    forall|m: M7Op, a: u32, b: u32| #[trigger] (dp.op)(12, spec_function(m), a, b) == spec_execute(m, a, b)
}

/// The M7 operations among the two-address operations are emitted as their
/// M7 instruction, and on a datapath that executes M7 as its reference
/// semantics says, the destination ends up holding that semantics applied to
/// the values the left and right operands held before; no register other
/// than the destination and r12 changes.
pub proof fn lemma_m7_two_op_executes(
    dp: Datapath,
    regs: Seq<u32>,
    op: TwoOp,
    d: Reg,
    l: Reg,
    r: Reg,
    f: FrameLayout,
)
    requires
        regs.len() == 16,
        allocatable(d),
        allocatable(l),
        allocatable(r),
        m7_op_of(op) is Some,
        executes_m7(dp),
    ensures
        forall|x: Reg| #[trigger] two_op_word(op, d, x) == spec_encode(M7Inst { op: m7_op_of(op)->0, rd: d, rs: x }),
        ({
            let out = run(dp, regs, plain_words(Inst::TwoOp { op, dst: d, lhs: l, rhs: r }, f));
            &&& out is Some
            &&& keeps_others(regs, out->0, d@ as int)
            &&& out->0[d@ as int] == spec_execute(m7_op_of(op)->0, regs[l@ as int], regs[r@ as int])
        }),
{
    let m = m7_op_of(op)->0;
    assert(two_op_code(op) == (12int, spec_function(m)));
    lemma_two_op_expansion(dp, regs, op, d, l, r, f);
    assert((dp.op)(12, spec_function(m), regs[l@ as int], regs[r@ as int]) == spec_execute(
        m,
        regs[l@ as int],
        regs[r@ as int],
    ));
}

/// The word of a truth value: 1 for true, 0 for false.
pub open spec fn b2u(b: bool) -> u32 {
    if b {
        1
    } else {
        0
    }
}

/// A datapath that computes the SIA32 integer operations: `SUB`, `CMPEQ`,
/// `CMPLT` (signed), `CMPLTU` (unsigned), `AND`, `OR`, `XOR`, and `SHL`,
/// `SHR` (logical) and `SAR` (arithmetic) by the amount modulo 32, and the M7
/// group as its reference semantics gives.
pub open spec fn isa_datapath(dp: Datapath) -> bool {
    &&& forall|a: u32, b: u32| #[trigger] (dp.op)(4, 0, a, b) == wrap32(a - b)
    &&& forall|a: u32, b: u32| #[trigger] (dp.op)(4, 3, a, b) == b2u(a == b)
    &&& forall|a: u32, b: u32| #[trigger] (dp.op)(4, 4, a, b) == b2u(sx(a) < sx(b))
    &&& forall|a: u32, b: u32| #[trigger] (dp.op)(4, 5, a, b) == b2u(a < b)
    &&& forall|a: u32, b: u32| #[trigger] (dp.op)(5, 0, a, b) == a & b
    &&& forall|a: u32, b: u32| #[trigger] (dp.op)(5, 1, a, b) == a | b
    &&& forall|a: u32, b: u32| #[trigger] (dp.op)(5, 2, a, b) == a ^ b
    &&& forall|a: u32, b: u32|
        #[trigger] (dp.op)(5, 3, a, b) == wrap32(a * vstd::arithmetic::power2::pow2((b % 32) as nat))
    &&& forall|a: u32, b: u32|
        #[trigger] (dp.op)(5, 4, a, b) == (a as int / vstd::arithmetic::power2::pow2((b % 32) as nat) as int) as u32
    &&& forall|a: u32, b: u32|
        #[trigger] (dp.op)(5, 5, a, b) == wrap32(sx(a) / vstd::arithmetic::power2::pow2((b % 32) as nat) as int)
    &&& executes_m7(dp)
}

/// Whether an integer condition holds of two words: the equality tests, the
/// signed orders on their two's-complement values and the unsigned orders on
/// the words.
pub open spec fn cc_holds(cc: IntCC, a: u32, b: u32) -> bool {
    match cc {
        IntCC::Equal => a == b,
        IntCC::NotEqual => a != b,
        IntCC::SignedLessThan => sx(a) < sx(b),
        IntCC::UnsignedLessThan => a < b,
        IntCC::SignedGreaterThan => sx(a) > sx(b),
        IntCC::UnsignedGreaterThan => a > b,
        IntCC::SignedLessThanOrEqual => sx(a) <= sx(b),
        IntCC::UnsignedLessThanOrEqual => a <= b,
        IntCC::SignedGreaterThanOrEqual => sx(a) >= sx(b),
        IntCC::UnsignedGreaterThanOrEqual => a >= b,
    }
}

/// On a datapath that computes the SIA32 integer operations, a comparison
/// leaves in its destination 1 if the condition holds of the values the
/// operands held before, and 0 if not, whichever registers were chosen; no
/// register other than the destination and r12 changes.
pub proof fn lemma_compare_computes_condition(
    dp: Datapath,
    regs: Seq<u32>,
    cc: IntCC,
    d: Reg,
    l: Reg,
    r: Reg,
)
    requires
        regs.len() == 16,
        isa_datapath(dp),
        allocatable(d),
        allocatable(l),
        allocatable(r),
    ensures
        ({
            let out = run(dp, regs, compare_words(cc, d, l, r));
            &&& out is Some
            &&& keeps_others(regs, out->0, d@ as int)
            &&& out->0[d@ as int] == b2u(cc_holds(cc, regs[l@ as int], regs[r@ as int]))
        }),
{
    lemma_compare_expansion(dp, regs, cc, d, l, r);
    let a = regs[l@ as int];
    let b = regs[r@ as int];
    assert((0u32 ^ 1u32) == 1u32 && (1u32 ^ 1u32) == 0u32) by (bit_vector);
    assert((dp.op)(4, 3, a, b) == b2u(a == b));
    assert((dp.op)(4, 4, a, b) == b2u(sx(a) < sx(b)));
    assert((dp.op)(4, 5, a, b) == b2u(a < b));
    assert((dp.op)(4, 4, b, a) == b2u(sx(b) < sx(a)));
    assert((dp.op)(4, 5, b, a) == b2u(b < a));
    assert((dp.op)(5, 2, b2u(a == b), 1) == b2u(a == b) ^ 1);
    assert((dp.op)(5, 2, b2u(sx(a) < sx(b)), 1) == b2u(sx(a) < sx(b)) ^ 1);
    assert((dp.op)(5, 2, b2u(a < b), 1) == b2u(a < b) ^ 1);
    assert((dp.op)(5, 2, b2u(sx(b) < sx(a)), 1) == b2u(sx(b) < sx(a)) ^ 1);
    assert((dp.op)(5, 2, b2u(b < a), 1) == b2u(b < a) ^ 1);
}

/// The registers of a lowered binary operation: destination, left, right.
pub open spec fn binary_operands(m: MInst) -> (Reg, Reg, Reg) {
    match m {
        MInst::CmpEq { dst, lhs, rhs } | MInst::CmpLt { dst, lhs, rhs } | MInst::CmpLtu {
            dst,
            lhs,
            rhs,
        } | MInst::Mul { dst, lhs, rhs } | MInst::Div { dst, lhs, rhs } | MInst::DivU {
            dst,
            lhs,
            rhs,
        } | MInst::Rem { dst, lhs, rhs } | MInst::RemU { dst, lhs, rhs } | MInst::Sub {
            dst,
            lhs,
            rhs,
        } | MInst::And { dst, lhs, rhs } | MInst::Or { dst, lhs, rhs } | MInst::Xor {
            dst,
            lhs,
            rhs,
        } | MInst::Shl { dst, lhs, rhs } | MInst::Shr { dst, lhs, rhs } | MInst::Sar {
            dst,
            lhs,
            rhs,
        } => (dst, lhs, rhs),
        _ => (Reg::spec_new(0), Reg::spec_new(0), Reg::spec_new(0)),
    }
}

/// Whether a lowered binary operation divides by its right operand.
pub open spec fn is_division(m: MInst) -> bool {
    m is Div || m is DivU || m is Rem || m is RemU
}

/// What each lowered binary operation computes on 32-bit values: `isub`,
/// `band`, `bor`, `bxor`, `ishl`, `ushr`, `sshr` (shift amounts modulo 32),
/// the equality and signed and unsigned less-than tests, `imul`, and `sdiv`,
/// `udiv`, `srem`, `urem` (signed division rounds toward zero, and the signed
/// remainder takes the dividend's sign).
pub open spec fn lowered_value(m: MInst, a: u32, b: u32) -> u32 {
    let n = vstd::arithmetic::power2::pow2((b % 32) as nat);
    match m {
        MInst::Sub { .. } => wrap32(a - b),
        MInst::And { .. } => a & b,
        MInst::Or { .. } => a | b,
        MInst::Xor { .. } => a ^ b,
        MInst::Shl { .. } => wrap32(a * n),
        MInst::Shr { .. } => (a as int / n as int) as u32,
        MInst::Sar { .. } => wrap32(sx(a) / n as int),
        MInst::CmpEq { .. } => b2u(a == b),
        MInst::CmpLt { .. } => b2u(sx(a) < sx(b)),
        MInst::CmpLtu { .. } => b2u(a < b),
        MInst::Mul { .. } => wrap32(a * b),
        MInst::Div { .. } => wrap32(trunc_div(sx(a), sx(b))),
        MInst::DivU { .. } => (a / b) as u32,
        MInst::Rem { .. } => wrap32(trunc_rem(sx(a), sx(b))),
        MInst::RemU { .. } => (a % b) as u32,
        _ => 0,
    }
}

/// Every lowered binary operation computes what its name says: on a
/// datapath that computes the SIA32 integer operations, the machine
/// instruction it becomes leaves in the destination the operation's value on
/// the operands' values (for a division, by a nonzero divisor), and no other
/// register but r12 changes.
pub proof fn lemma_lowered_binary_computes(dp: Datapath, regs: Seq<u32>, m: MInst, f: FrameLayout)
    requires
        regs.len() == 16,
        isa_datapath(dp),
        binary_op(m) is Some,
        allocatable(binary_operands(m).0),
        allocatable(binary_operands(m).1),
        allocatable(binary_operands(m).2),
        is_division(m) ==> regs[binary_operands(m).2@ as int] != 0,
    ensures
        ({
            let (d, l, r) = binary_operands(m);
            let out = run(dp, regs, plain_words(machine_inst(m), f));
            &&& machine_inst(m) matches Inst::TwoOp { dst, lhs, rhs, .. } && dst == d && lhs == l
                && rhs == r
            &&& out is Some
            &&& keeps_others(regs, out->0, d@ as int)
            &&& out->0[d@ as int] == lowered_value(m, regs[l@ as int], regs[r@ as int])
        }),
{
    let (d, l, r) = binary_operands(m);
    let op = binary_op(m)->0;
    assert(machine_inst(m) == Inst::TwoOp { op, dst: d, lhs: l, rhs: r });
    lemma_two_op_expansion(dp, regs, op, d, l, r, f);
    let a = regs[l@ as int];
    let b = regs[r@ as int];
    let code = two_op_code(op);
    assert((dp.op)(code.0, code.1, a, b) == lowered_value(m, a, b)) by {
        match op {
            TwoOp::Mul => {
                assert((dp.op)(12, spec_function(M7Op::Mul), a, b) == spec_execute(M7Op::Mul, a, b));
            },
            TwoOp::Div => {
                assert((dp.op)(12, spec_function(M7Op::Div), a, b) == spec_execute(M7Op::Div, a, b));
            },
            TwoOp::DivU => {
                assert((dp.op)(12, spec_function(M7Op::Divu), a, b) == spec_execute(M7Op::Divu, a, b));
            },
            TwoOp::Rem => {
                assert((dp.op)(12, spec_function(M7Op::Rem), a, b) == spec_execute(M7Op::Rem, a, b));
            },
            TwoOp::RemU => {
                assert((dp.op)(12, spec_function(M7Op::Remu), a, b) == spec_execute(M7Op::Remu, a, b));
            },
            _ => {},
        }
    }
}

/// Stores only read registers: every operand that a store reports is a use,
/// none a definition; and the words of a store through a base register
/// change no register but the scratch register r12.
pub proof fn lemma_store_operands_are_reads(dp: Datapath, regs: Seq<u32>, inst: Inst, f: FrameLayout)
    requires
        inst is Store || inst is StoreBaseOffset || inst is IndexedStore || inst is StoreStack,
    ensures
        forall|k: int| 0 <= k < operand_views(inst).len() ==> #[trigger] operand_views(inst)[k] is Use,
        ({
            let out = run(dp, regs, plain_words(inst, f));
            match inst {
                Inst::Store { src, base, .. } | Inst::StoreBaseOffset { src, base, .. } => regs.len()
                    == 16 && allocatable(src) && allocatable(base) ==> out is Some && keeps_others(
                    regs,
                    out->0,
                    12,
                ),
                _ => true,
            }
        }),
{
    match inst {
        Inst::Store { op, src, base } => {
            if regs.len() == 16 && allocatable(src) && allocatable(base) {
                lemma_store_word(dp, regs, op, src, base);
                lemma_run_one(dp, regs, store_word(op, src, base));
            }
        },
        Inst::StoreBaseOffset { src, base, offset, ty } => {
            if regs.len() == 16 && allocatable(src) && allocatable(base) {
                lemma_store_offset_expansion(dp, regs, spec_store_op(ty), src, base, offset);
            }
        },
        _ => {},
    }
}

/// The data flow of an instruction whose words compute one register: the
/// register written and the registers whose values the written value is
/// computed from (the stack pseudos read SP, which the allocator does not
/// manage).
pub open spec fn data_flow(inst: Inst) -> Option<(Reg, Seq<Reg>)> {
    match inst {
        Inst::Mov { dst, src } => Some((dst, seq![src])),
        Inst::Add { dst, lhs, rhs } | Inst::TwoOp { dst, lhs, rhs, .. } | Inst::Icmp {
            dst,
            lhs,
            rhs,
            ..
        } => Some((dst, seq![lhs, rhs])),
        Inst::Unary { dst, src, .. } | Inst::ShiftImm { dst, src, .. } | Inst::Addi7 {
            dst,
            src,
            ..
        } | Inst::AddImm { dst, src, .. } | Inst::Extend { dst, src, .. } => Some((dst, seq![src])),
        Inst::Li7 { dst, .. } | Inst::LoadConst32 { dst, .. } | Inst::StackAddr { dst, .. }
        | Inst::LoadStack { dst, .. } => Some((dst, Seq::empty())),
        Inst::Load { dst, base, .. } | Inst::LoadBaseOffset { dst, base, .. } => Some(
            (dst, seq![base]),
        ),
        Inst::IndexedLoad { dst, base, index } => Some((dst, seq![base, index])),
        _ => None,
    }
}

/// The operands an instruction reports follow its data flow: the register
/// its words write is reported as a definition and is the only one; every
/// register its value is computed from is reported as a use, and nothing
/// else is. (For the two-address operations, comparisons, immediate adds,
/// constants, loads and stack pseudos, the laws above prove that the words
/// write exactly that register, besides r12.)
pub proof fn lemma_operands_follow_data_flow(inst: Inst)
    requires
        data_flow(inst) is Some,
    ensures
        ({
            let (d, srcs) = data_flow(inst)->0;
            let views = operand_views(inst);
            &&& views.contains(OperandView::Def(d))
            &&& forall|k: int| 0 <= k < views.len() ==> match #[trigger] views[k] {
                OperandView::Def(r) => r == d,
                OperandView::Use(r) => srcs.contains(r),
                _ => false,
            }
            &&& forall|j: int| 0 <= j < srcs.len() ==> views.contains(OperandView::Use(#[trigger] srcs[j]))
        }),
{
    let (d, srcs) = data_flow(inst)->0;
    let views = operand_views(inst);
    assert(views[views.len() - 1] == OperandView::Def(d));
    assert forall|j: int| 0 <= j < srcs.len() implies views.contains(OperandView::Use(#[trigger] srcs[j])) by {
        assert(views[j] == OperandView::Use(srcs[j]));
    }
    assert forall|k: int| 0 <= k < views.len() implies match #[trigger] views[k] {
        OperandView::Def(r) => r == d,
        OperandView::Use(r) => srcs.contains(r),
        _ => false,
    } by {
        if k < views.len() - 1 {
            assert(views[k] == OperandView::Use(srcs[k]));
        }
    }
}

/// The value of register `r`.
pub open spec fn value_of(regs: Seq<u32>, r: Reg) -> u32 {
    regs[r@ as int]
}

/// No register but `d` and r12 differs between the two states.
pub open spec fn only_changes(before: Seq<u32>, after: Seq<u32>, d: Reg) -> bool {
    keeps_others(before, after, d@ as int)
}

/// The lowered moves and additions compute what their names say: `Mov`
/// copies its source, and `Add` leaves the sum of its operands modulo 2^32;
/// nothing but the destination changes.
pub proof fn lemma_lowered_moves_and_adds(dp: Datapath, regs: Seq<u32>, m: MInst, f: FrameLayout)
    requires
        regs.len() == 16,
        match m {
            MInst::Mov { dst, src } => allocatable(dst) && allocatable(src),
            MInst::Add { dst, lhs, rhs } => allocatable(dst) && allocatable(lhs) && allocatable(rhs),
            _ => false,
        },
    ensures
        ({
            let out = run(dp, regs, crate::inst::straight_words(machine_inst(m), f));
            match m {
                MInst::Mov { dst, src } => out is Some && only_changes(regs, out->0, dst)
                    && value_of(out->0, dst) == value_of(regs, src),
                MInst::Add { dst, lhs, rhs } => out is Some && only_changes(regs, out->0, dst)
                    && value_of(out->0, dst) == wrap32(value_of(regs, lhs) + value_of(regs, rhs)),
                _ => false,
            }
        }),
{
    match m {
        MInst::Mov { dst, src } => {
            lemma_mov(dp, regs, dst, src);
            lemma_run_one(dp, regs, mov_word(dst, src));
        },
        MInst::Add { dst, lhs, rhs } => {
            let w = word4(0, dst@ as int, lhs@ as int, rhs@ as int);
            lemma_word4_fields(0, dst@ as int, lhs@ as int, rhs@ as int);
            assert(step(dp, regs, w) == Some(regs.update(dst@ as int, wrap32(regs[lhs@ as int] + regs[rhs@ as int])))) by {
                reveal(step);
            }
            lemma_run_one(dp, regs, w);
        },
        _ => {},
    }
}

/// A lowered integer comparison computes its condition: on a datapath that
/// computes the SIA32 integer operations, it leaves 1 or 0 in its
/// destination as the condition holds of its operands' values; nothing but
/// the destination and r12 changes.
pub proof fn lemma_lowered_condition(dp: Datapath, regs: Seq<u32>, m: MInst, f: FrameLayout)
    requires
        regs.len() == 16,
        isa_datapath(dp),
        match m {
            MInst::Icmp { dst, lhs, rhs, .. } => allocatable(dst) && allocatable(lhs) && allocatable(rhs),
            _ => false,
        },
    ensures
        ({
            let out = run(dp, regs, crate::inst::straight_words(machine_inst(m), f));
            match m {
                MInst::Icmp { dst, cc, lhs, rhs } => out is Some && only_changes(regs, out->0, dst)
                    && value_of(out->0, dst) == b2u(cc_holds(cc, value_of(regs, lhs), value_of(regs, rhs))),
                _ => false,
            }
        }),
{
    match m {
        MInst::Icmp { dst, cc, lhs, rhs } => {
            lemma_compare_computes_condition(dp, regs, cc, dst, lhs, rhs);
        },
        _ => {},
    }
}

} // verus!
