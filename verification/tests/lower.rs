use sia32::inst::{Inst, IntCC, StackAMode, TwoOp, UnaryOp, ValueType};
use sia32::lower::{
    into_machine_inst, sia_brnz, sia_extend, sia_icmp, sia_load_const, sia_load_offset, sia_m_gpr_read,
    sia_m_gpr_write, sia_store_offset, MInst,
};
use sia32::regs::Reg;

fn r(n: u8) -> Reg {
    Reg::new(n).unwrap()
}

#[test]
fn binary_operations_become_two_address_operations() {
    let i = into_machine_inst(MInst::DivU { dst: r(1), lhs: r(2), rhs: r(3) });
    assert!(matches!(i, Inst::TwoOp { op: TwoOp::DivU, dst, lhs, rhs } if dst == r(1) && lhs == r(2) && rhs == r(3)));
    let i = into_machine_inst(MInst::CmpLtu { dst: r(4), lhs: r(5), rhs: r(6) });
    assert!(matches!(i, Inst::TwoOp { op: TwoOp::CmpLtu, .. }));
    let i = into_machine_inst(MInst::Sar { dst: r(4), lhs: r(5), rhs: r(6) });
    assert!(matches!(i, Inst::TwoOp { op: TwoOp::Sar, .. }));
    let i = into_machine_inst(MInst::Cpop { dst: r(4), src: r(5) });
    assert!(matches!(i, Inst::Unary { op: UnaryOp::Cpop, .. }));
}

#[test]
fn other_operations_keep_their_operands() {
    let i = into_machine_inst(MInst::Icmp { dst: r(1), cc: IntCC::UnsignedGreaterThan, lhs: r(2), rhs: r(3) });
    assert!(matches!(i, Inst::Icmp { cc: IntCC::UnsignedGreaterThan, .. }));
    let i = into_machine_inst(MInst::StoreBaseOffset { src: r(1), base: r(13), offset: -8, ty: ValueType::I16 });
    assert!(matches!(i, Inst::StoreBaseOffset { offset: -8, ty: ValueType::I16, .. }));
    assert!(matches!(into_machine_inst(MInst::Wfi), Inst::Wfi));
    assert!(matches!(into_machine_inst(MInst::SoftwareTrap { code: 5 }), Inst::SoftwareTrap { code: 5 }));
    assert!(matches!(into_machine_inst(MInst::BrNz { test: r(1), taken: 2, not_taken: 3 }), Inst::BrNz { taken: 2, not_taken: 3, .. }));
}

#[test]
fn prelude_instructions_round_trip() {
    let mov = Inst::Mov { dst: r(1), src: r(2) };
    assert!(matches!(into_machine_inst(MInst::from(mov)), Inst::Mov { dst, src } if dst == r(1) && src == r(2)));
    let addr = Inst::StackAddr { dst: r(3), mem: StackAMode::Slot(16) };
    assert!(matches!(into_machine_inst(MInst::from(addr)), Inst::StackAddr { mem: StackAMode::Slot(16), .. }));
    assert!(matches!(MInst::gen_move(r(4), r(5), ValueType::I8), MInst::Mov { .. }));
}

#[test]
fn lowering_constructors() {
    assert!(matches!(sia_load_const(r(1), 0xffff_ffff), MInst::LoadConst32 { value: 0xffff_ffff, .. }));
    assert!(matches!(sia_m_gpr_read(r(1), 13), MInst::ReadFixedGpr { index: 13, .. }));
    assert!(matches!(sia_m_gpr_write(r(1), 15), MInst::WriteFixedGpr { index: 15, .. }));
    assert!(matches!(sia_extend(r(1), r(2), true, 8, 32), MInst::Extend { signed: true, from_bits: 8, to_bits: 32, .. }));
}

#[test]
fn remaining_lowering_constructors() {
    assert!(matches!(sia_icmp(r(1), &IntCC::NotEqual, r(2), r(3)), MInst::Icmp { cc: IntCC::NotEqual, .. }));
    assert!(matches!(sia_load_offset(r(1), r(2), 12, ValueType::I8), MInst::LoadBaseOffset { offset: 12, ty: ValueType::I8, .. }));
    assert!(matches!(sia_store_offset(r(1), r(2), -4, ValueType::I32), MInst::StoreBaseOffset { offset: -4, .. }));
    assert!(matches!(sia_brnz(r(1), 5, 6), MInst::BrNz { taken: 5, not_taken: 6, .. }));
}
