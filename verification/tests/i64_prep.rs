use sia32::i64_prep::{
    add64_sequence, add_reference, helper_policy, i64_allocatable_pairs, sub64_sequence, sub_reference,
    I64ExpensiveOp, I64RegPair, I64Words, PairArithmeticStep, I64_HIGH_WORD_OFFSET,
    I64_LOW_WORD_OFFSET, I64_STACK_ALIGN, I64_STACK_SIZE,
};
use sia32::regs::Reg;

fn r(n: u8) -> Reg {
    Reg::new(n).unwrap()
}

#[test]
fn word_order_is_low_then_high_little_endian() {
    let words = I64Words::from_u64(0x1122_3344_5566_7788);
    assert_eq!(words, I64Words { low: 0x5566_7788, high: 0x1122_3344 });
    assert_eq!(words.to_u64(), 0x1122_3344_5566_7788);
    assert_eq!((I64_LOW_WORD_OFFSET, I64_HIGH_WORD_OFFSET), (0, 4));
    assert_eq!((I64_STACK_SIZE, I64_STACK_ALIGN), (8, 8));
}

#[test]
fn only_frozen_odd_even_allocatable_pairs_are_valid() {
    for pair in i64_allocatable_pairs() {
        assert_eq!(I64RegPair::new(pair.low, pair.high), Some(pair));
    }
    assert_eq!(I64RegPair::new(r(2), r(3)), None);
    assert_eq!(I64RegPair::new(r(11), r(12)), None);
    assert_eq!(I64RegPair::new(r(12), r(13)), None);
    assert_eq!(I64RegPair::new(r(15), r(0)), None);
}

#[test]
fn carry_and_borrow_sequences_are_frozen() {
    assert_eq!(
        add64_sequence(),
        [
            PairArithmeticStep::AddLow,
            PairArithmeticStep::CarryIfLowUnsignedLessThanLhs,
            PairArithmeticStep::AddHigh,
            PairArithmeticStep::AddCarryToHigh
        ]
    );
    assert_eq!(
        sub64_sequence(),
        [
            PairArithmeticStep::SubLow,
            PairArithmeticStep::BorrowIfLhsLowUnsignedLessThanRhs,
            PairArithmeticStep::SubHigh,
            PairArithmeticStep::SubBorrowFromHigh
        ]
    );
    let a = I64Words::from_u64(0x0000_0001_ffff_ffff);
    assert_eq!(add_reference(a, I64Words::from_u64(1)).to_u64(), 0x0000_0002_0000_0000);
    assert_eq!(
        sub_reference(I64Words::from_u64(0x0000_0002_0000_0000), I64Words::from_u64(1)).to_u64(),
        0x0000_0001_ffff_ffff
    );
}

#[test]
fn expensive_operations_have_stable_helpers_and_pair_abi() {
    let cases = [
        (I64ExpensiveOp::Mul, "__sia32_i64_mul"),
        (I64ExpensiveOp::SignedDiv, "__sia32_i64_sdiv"),
        (I64ExpensiveOp::UnsignedDiv, "__sia32_i64_udiv"),
        (I64ExpensiveOp::SignedRem, "__sia32_i64_srem"),
        (I64ExpensiveOp::UnsignedRem, "__sia32_i64_urem"),
    ];
    for (op, symbol) in cases {
        let p = helper_policy(op);
        assert_eq!(p.symbol, symbol);
        assert_eq!((p.lhs_low, p.lhs_high, p.rhs_low, p.rhs_high), (r(1), r(2), r(3), r(4)));
        assert_eq!((p.ret_low, p.ret_high), (r(1), r(2)));
    }
}

#[test]
fn pair_arithmetic_wraps_at_64_bits() {
    let max = I64Words::from_u64(u64::MAX);
    assert_eq!(add_reference(max, I64Words::from_u64(1)).to_u64(), 0);
    assert_eq!(sub_reference(I64Words::from_u64(0), I64Words::from_u64(1)).to_u64(), u64::MAX);
    let x = I64Words::from_u64(0x8000_0000_8000_0000);
    assert_eq!(add_reference(x, x).to_u64(), 0x0000_0001_0000_0000);
}

#[test]
fn word_split_round_trips() {
    for v in [0u64, 1, u64::MAX, 0xffff_ffff, 0x1_0000_0000, 0xdead_beef_0bad_f00d] {
        assert_eq!(I64Words::from_u64(v).to_u64(), v);
    }
    let w = I64Words { low: 7, high: 9 };
    assert_eq!(I64Words::from_u64(w.to_u64()), w);
}
