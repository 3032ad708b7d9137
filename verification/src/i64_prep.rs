//! Frozen SIA32 I64 representation and lowering-independent ABI policy.
//!
//! An I64 is two 32-bit words, low word first. In registers the low word is in
//! an odd-numbered register and the high word in the next one.

use crate::regs::{spec_normally_allocatable, Reg};
use vstd::prelude::*;

verus! {

broadcast use Reg::lemma_spec_new_view;

/// One 64-bit integer as two little-endian 32-bit machine words.
#[derive(Clone, Copy, Debug, PartialEq, Eq, Structural)]
pub struct I64Words {
    pub low: u32,
    pub high: u32,
}

pub open spec fn two32() -> int {
    0x1_0000_0000
}

/// The 64-bit value that two words represent.
pub open spec fn words_value(w: I64Words) -> int {
    w.low + w.high * two32()
}

impl I64Words {
    pub fn from_u64(value: u64) -> (w: Self)
        ensures
            w.low == value % 0x1_0000_0000,
            w.high == value / 0x1_0000_0000,
    {
        Self { low: (value % 0x1_0000_0000) as u32, high: (value / 0x1_0000_0000) as u32 }
    }

    pub fn to_u64(self) -> (v: u64)
        ensures
            v == words_value(self),
    {
        assert(self.high * two32() <= 0xffff_ffff_0000_0000) by (nonlinear_arith)
            requires
                self.high <= 0xffff_ffff,
        ;
        (self.low as u64) + (self.high as u64) * 0x1_0000_0000
    }
}

/// Splitting a value into words and joining them gives the value back.
pub proof fn lemma_words_round_trip(value: u64)
    ensures
        words_value(
            I64Words { low: (value % 0x1_0000_0000) as u32, high: (value / 0x1_0000_0000) as u32 },
        ) == value,
{
}

/// Joining two words and splitting the result gives the words back.
pub proof fn lemma_value_round_trip(w: I64Words)
    ensures
        (words_value(w) % two32()) == w.low,
        (words_value(w) / two32()) == w.high,
{
    vstd::arithmetic::div_mod::lemma_fundamental_div_mod_converse(
        words_value(w),
        two32(),
        w.high as int,
        w.low as int,
    );
}

/// Allocatable architectural register pair for one I64 value.
#[derive(Clone, Copy, Debug, PartialEq, Eq, Structural)]
pub struct I64RegPair {
    pub low: Reg,
    pub high: Reg,
}

/// The pair rule: the low register is odd, the high register follows it, and
/// both are ordinarily allocatable.
pub open spec fn valid_pair(low: u8, high: u8) -> bool {
    &&& low % 2 == 1
    &&& high == low + 1
    &&& spec_normally_allocatable(low)
    &&& spec_normally_allocatable(high)
}

impl I64RegPair {
    pub fn new(low: Reg, high: Reg) -> (res: Option<Self>)
        ensures
            res == if valid_pair(low@, high@) {
                Some(I64RegPair { low, high })
            } else {
                None
            },
    {
        if low.index() % 2 == 1 && high.index() == low.index() + 1 && low.normally_allocatable()
            && high.normally_allocatable() {
            Some(Self { low, high })
        } else {
            None
        }
    }
}

/// The only register pairs an I64 value may occupy: r1:r2, r3:r4, r5:r6, r7:r8, r9:r10.
pub fn i64_allocatable_pairs() -> (pairs: [I64RegPair; 5])
    ensures
        forall|i: int|
            0 <= i < 5 ==> #[trigger] pairs@[i].low@ == 2 * i + 1 && pairs@[i].high@ == 2 * i + 2,
{
    let r = |n: u8| -> (x: Reg)
        requires
            n < 16,
        ensures
            x@ == n,
        { Reg::new(n).unwrap() };
    [
        I64RegPair { low: r(1), high: r(2) },
        I64RegPair { low: r(3), high: r(4) },
        I64RegPair { low: r(5), high: r(6) },
        I64RegPair { low: r(7), high: r(8) },
        I64RegPair { low: r(9), high: r(10) },
    ]
}

/// A pair is valid exactly when it is one of the five frozen pairs
/// r1:r2, r3:r4, r5:r6, r7:r8, r9:r10.
pub proof fn lemma_valid_pairs_are_frozen(low: u8, high: u8)
    ensures
        valid_pair(low, high) <==> (low % 2 == 1 && 1 <= low <= 9 && high == low + 1),
{
}

pub const I64_STACK_SIZE: u32 = 8;

pub const I64_STACK_ALIGN: u32 = 8;

pub const I64_LOW_WORD_OFFSET: u32 = 0;

pub const I64_HIGH_WORD_OFFSET: u32 = 4;

/// Abstract instruction sequence required for exact 64-bit add/sub expansion.
#[derive(Clone, Copy, Debug, PartialEq, Eq, Structural)]
pub enum PairArithmeticStep {
    AddLow,
    CarryIfLowUnsignedLessThanLhs,
    AddHigh,
    AddCarryToHigh,
    SubLow,
    BorrowIfLhsLowUnsignedLessThanRhs,
    SubHigh,
    SubBorrowFromHigh,
}

/// Low add, unsigned carry test, high add, add carry.
pub fn add64_sequence() -> (s: [PairArithmeticStep; 4])
    ensures
        s@ == seq![
            PairArithmeticStep::AddLow,
            PairArithmeticStep::CarryIfLowUnsignedLessThanLhs,
            PairArithmeticStep::AddHigh,
            PairArithmeticStep::AddCarryToHigh,
        ],
{
    [
        PairArithmeticStep::AddLow,
        PairArithmeticStep::CarryIfLowUnsignedLessThanLhs,
        PairArithmeticStep::AddHigh,
        PairArithmeticStep::AddCarryToHigh,
    ]
}

/// Low sub, unsigned borrow test, high sub, subtract borrow.
pub fn sub64_sequence() -> (s: [PairArithmeticStep; 4])
    ensures
        s@ == seq![
            PairArithmeticStep::SubLow,
            PairArithmeticStep::BorrowIfLhsLowUnsignedLessThanRhs,
            PairArithmeticStep::SubHigh,
            PairArithmeticStep::SubBorrowFromHigh,
        ],
{
    [
        PairArithmeticStep::SubLow,
        PairArithmeticStep::BorrowIfLhsLowUnsignedLessThanRhs,
        PairArithmeticStep::SubHigh,
        PairArithmeticStep::SubBorrowFromHigh,
    ]
}

#[derive(Clone, Copy, Debug, PartialEq, Eq, Structural)]
pub enum I64ExpensiveOp {
    Mul,
    SignedDiv,
    UnsignedDiv,
    SignedRem,
    UnsignedRem,
}

#[derive(Clone, Copy, Debug, PartialEq, Eq)]
pub struct HelperCallPolicy {
    pub symbol: &'static str,
    pub lhs_low: Reg,
    pub lhs_high: Reg,
    pub rhs_low: Reg,
    pub rhs_high: Reg,
    pub ret_low: Reg,
    pub ret_high: Reg,
}

/// The runtime helper symbol of each expensive operation.
pub open spec fn helper_symbol(op: I64ExpensiveOp) -> Seq<char> {
    match op {
        I64ExpensiveOp::Mul => "__sia32_i64_mul"@,
        I64ExpensiveOp::SignedDiv => "__sia32_i64_sdiv"@,
        I64ExpensiveOp::UnsignedDiv => "__sia32_i64_udiv"@,
        I64ExpensiveOp::SignedRem => "__sia32_i64_srem"@,
        I64ExpensiveOp::UnsignedRem => "__sia32_i64_urem"@,
    }
}

/// Expensive I64 operations use stable runtime helpers. Arguments occupy
/// r1:r2 and r3:r4; the result returns in r1:r2.
pub fn helper_policy(op: I64ExpensiveOp) -> (p: HelperCallPolicy)
    ensures
        p.symbol@ == helper_symbol(op),
        p.lhs_low@ == 1,
        p.lhs_high@ == 2,
        p.rhs_low@ == 3,
        p.rhs_high@ == 4,
        p.ret_low@ == 1,
        p.ret_high@ == 2,
{
    let symbol = match op {
        I64ExpensiveOp::Mul => "__sia32_i64_mul",
        I64ExpensiveOp::SignedDiv => "__sia32_i64_sdiv",
        I64ExpensiveOp::UnsignedDiv => "__sia32_i64_udiv",
        I64ExpensiveOp::SignedRem => "__sia32_i64_srem",
        I64ExpensiveOp::UnsignedRem => "__sia32_i64_urem",
    };
    HelperCallPolicy {
        symbol,
        lhs_low: Reg::new(1).unwrap(),
        lhs_high: Reg::new(2).unwrap(),
        rhs_low: Reg::new(3).unwrap(),
        rhs_high: Reg::new(4).unwrap(),
        ret_low: Reg::new(1).unwrap(),
        ret_high: Reg::new(2).unwrap(),
    }
}

pub open spec fn two64() -> int {
    0x1_0000_0000_0000_0000
}

/// The frozen carry sequence: low add, carry when the low result is below the
/// left low word, high add, add carry.
pub fn add_reference(lhs: I64Words, rhs: I64Words) -> (r: I64Words)
    ensures
        words_value(r) == (words_value(lhs) + words_value(rhs)) % two64(),
{
    let low = lhs.low.wrapping_add(rhs.low);
    let carry: u32 = if low < lhs.low {
        1
    } else {
        0
    };
    let high = lhs.high.wrapping_add(rhs.high).wrapping_add(carry);
    let r = I64Words { low, high };
    proof {
        let (al, ah, bl, bh) = (lhs.low as int, lhs.high as int, rhs.low as int, rhs.high as int);
        let c = carry as int;
        assert(al + bl == low + c * two32());
        let s = ah + bh + c;
        assert(high == s % two32());
        vstd::arithmetic::div_mod::lemma_fundamental_div_mod(s, two32());
        let t = s / two32();
        assert(words_value(lhs) + words_value(rhs) == words_value(r) + t * two64()) by (nonlinear_arith)
            requires
                words_value(lhs) == al + ah * two32(),
                words_value(rhs) == bl + bh * two32(),
                words_value(r) == low + high * two32(),
                al + bl == low + c * two32(),
                s == two32() * t + high,
                s == ah + bh + c,
                two64() == two32() * two32(),
        ;
        assert(0 <= words_value(r) < two64()) by (nonlinear_arith)
            requires
                0 <= low < two32(),
                0 <= high < two32(),
                two64() == two32() * two32(),
        ;
        vstd::arithmetic::div_mod::lemma_fundamental_div_mod_converse(
            words_value(lhs) + words_value(rhs),
            two64(),
            t,
            words_value(r),
        );
    }
    r
}

/// The frozen borrow sequence: low sub, borrow when the left low word is below
/// the right low word, high sub, subtract borrow.
pub fn sub_reference(lhs: I64Words, rhs: I64Words) -> (r: I64Words)
    ensures
        words_value(r) == (words_value(lhs) - words_value(rhs)) % two64(),
{
    let low = lhs.low.wrapping_sub(rhs.low);
    let borrow: u32 = if lhs.low < rhs.low {
        1
    } else {
        0
    };
    let high = lhs.high.wrapping_sub(rhs.high).wrapping_sub(borrow);
    let r = I64Words { low, high };
    proof {
        let (al, ah, bl, bh) = (lhs.low as int, lhs.high as int, rhs.low as int, rhs.high as int);
        let c = borrow as int;
        assert(al - bl == low - c * two32());
        let s = ah - bh - c;
        assert(high == s % two32());
        vstd::arithmetic::div_mod::lemma_fundamental_div_mod(s, two32());
        let t = s / two32();
        assert(words_value(lhs) - words_value(rhs) == words_value(r) + t * two64()) by (nonlinear_arith)
            requires
                words_value(lhs) == al + ah * two32(),
                words_value(rhs) == bl + bh * two32(),
                words_value(r) == low + high * two32(),
                al - bl == low - c * two32(),
                s == two32() * t + high,
                s == ah - bh - c,
                two64() == two32() * two32(),
        ;
        assert(0 <= words_value(r) < two64()) by (nonlinear_arith)
            requires
                0 <= low < two32(),
                0 <= high < two32(),
                two64() == two32() * two32(),
        ;
        vstd::arithmetic::div_mod::lemma_fundamental_div_mod_converse(
            words_value(lhs) - words_value(rhs),
            two64(),
            t,
            words_value(r),
        );
    }
    r
}

} // verus!
