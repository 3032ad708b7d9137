use sia32::abi::{ArgumentExtension, CallConv, RegClass};
use sia32::backend::Sia32Backend;
use sia32::buffer::CodeBuffer;
use sia32::consts::const_digits;
use sia32::emit::EmitState;
use sia32::encode;
use sia32::inst::{
    frame_stack_offset, rc_for_type, CallInfo, FrameLayout, FunctionCalls, CallType, Inst, IntCC, LoadOp, MachTerminator,
    StackAMode, TwoOp, UnsupportedType, ValueType,
};
use sia32::label::LabelUse;
use sia32::regs::{mach_reg, Reg};

fn r(n: u8) -> Reg {
    Reg::new(n).unwrap()
}

fn emit_one(inst: &Inst) -> CodeBuffer {
    let mut code = CodeBuffer::new();
    let mut state = EmitState::default();
    inst.emit(&mut code, &mut state);
    code
}

fn words(code: &CodeBuffer) -> Vec<u16> {
    code.data.chunks(2).map(|c| u16::from_le_bytes([c[0], c[1]])).collect()
}

#[test]
fn scalar_and_i64_register_representation_is_32_bit_native() {
    for ty in [ValueType::I8, ValueType::I16, ValueType::I32] {
        assert_eq!(rc_for_type(ty), Ok(1));
    }
    assert_eq!(rc_for_type(ValueType::I64), Ok(2));
    assert_eq!(Inst::canonical_type_for_rc(RegClass::Int), ValueType::I32);
}

#[test]
fn unsupported_value_classes_fail_explicitly() {
    assert!(rc_for_type(ValueType::F32).is_err());
    assert!(rc_for_type(ValueType::I128).is_err());
    assert_eq!(rc_for_type(ValueType::Vector), Err(UnsupportedType(ValueType::Vector)));
}

#[test]
fn move_and_memory_classification_is_exact() {
    let mov = Inst::Mov { dst: mach_reg(1), src: mach_reg(2) };
    assert_eq!(mov.is_move(), Some((mach_reg(1), mach_reg(2))));
    assert!(!mov.is_mem_access());
    let load = Inst::Load { op: LoadOp::I32, dst: mach_reg(1), base: mach_reg(2) };
    assert!(load.is_mem_access());
}

#[test]
fn arbitrary_i32_constants_have_bounded_exact_reconstruction() {
    for value in [0u32, 1, 63, 64, 127, 128, 0x7fff_ffff, 0x8000_0000, 0xffff_ffff, 0xdead_beef] {
        let digits = const_digits(value);
        assert!(!digits.is_empty());
        assert!(digits.len() <= 5);
        assert!(digits.iter().all(|d| (-64..=63).contains(d)));
        let mut got = digits[0] as i32 as u32;
        for &d in &digits[1..] {
            got = got.wrapping_shl(7).wrapping_add(d as i32 as u32);
        }
        assert_eq!(got, value, "digits={digits:?}");
    }
}

#[test]
fn literal_pool_threshold_keeps_small_values_inline() {
    assert!(const_digits(63).len() <= 2);
    assert!(const_digits(128).len() <= 2);
    assert!(const_digits(0xdead_beef).len() > 2);
}

#[test]
fn function_alignment_preserves_ldpc_word_phase() {
    let a = Inst::function_alignment();
    assert_eq!(a.minimum, 4);
    assert_eq!(a.preferred, 4);
}

#[test]
fn indirect_call_is_a_real_regular_call() {
    let info = CallInfo::empty(mach_reg(3), CallConv::SystemV);
    let call = Inst::CallInd { info };
    assert_eq!(call.call_type(), CallType::Regular);
    assert!(call.is_safepoint());
    assert_eq!(call.encoded_worst_case_size(), 2);
}

#[test]
fn pseudos_report_conservative_sizes() {
    let op = Inst::TwoOp { op: TwoOp::Sub, dst: mach_reg(1), lhs: mach_reg(2), rhs: mach_reg(3) };
    assert_eq!(op.encoded_worst_case_size(), 4);
    let c = Inst::LoadConst32 { dst: mach_reg(1), value: 0xdead_beef };
    assert_eq!(c.encoded_worst_case_size(), 18);
}

#[test]
fn trap_and_nop_bytes_are_exact() {
    assert_eq!(Inst::trap_opcode(), [0x0f, 0xc0]);
    assert_eq!(Inst::gen_nop_units(), vec![vec![0xff, 0xcf]]);
}

#[test]
fn small_constants_are_built_inline() {
    let code = emit_one(&Inst::LoadConst32 { dst: r(3), value: 128 });
    // 128 = 1 * 128 + 0: LI r3, 1; SHLI r3, 7.
    assert_eq!(words(&code), vec![encode::li(r(3), 1).unwrap(), encode::shli(r(3), 7).unwrap()]);
    let code = emit_one(&Inst::LoadConst32 { dst: r(3), value: 0xffff_ffff });
    assert_eq!(words(&code), vec![encode::li(r(3), -1).unwrap()]);
    assert!(code.fixups.is_empty());
}

#[test]
fn large_constants_use_an_aligned_literal_word() {
    let mut code = CodeBuffer::new();
    code.put2(encode::NOP);
    let mut state = EmitState::default();
    Inst::LoadConst32 { dst: r(5), value: 0xdead_beef }.emit(&mut code, &mut state);
    // NOP, LDPC.W r5, B done, two bytes of padding, the literal word.
    assert_eq!(code.cur_offset(), 12);
    assert_eq!(&code.data[2..4], &encode::ldpc_w(r(5), 0).unwrap().to_le_bytes());
    assert_eq!(&code.data[4..6], &encode::b(0).unwrap().to_le_bytes());
    assert_eq!(&code.data[6..8], &[0, 0]);
    assert_eq!(&code.data[8..12], &0xdead_beefu32.to_le_bytes());
    assert_eq!(code.fixups.len(), 2);
    assert_eq!((code.fixups[0].offset, code.fixups[0].kind), (2, LabelUse::Literal8));
    assert_eq!((code.fixups[1].offset, code.fixups[1].kind), (4, LabelUse::Branch11));
    assert_eq!(code.label_offsets, vec![Some(8), Some(12)]);
    // Resolving the fixups points LDPC.W at the literal and B past it.
    let mut ldpc = [code.data[2], code.data[3]];
    LabelUse::Literal8.patch(&mut ldpc, 2, 8);
    assert_eq!(u16::from_le_bytes(ldpc), encode::ldpc_w(r(5), 1).unwrap());
    let mut b = [code.data[4], code.data[5]];
    LabelUse::Branch11.patch(&mut b, 4, 12);
    assert_eq!(u16::from_le_bytes(b), encode::b(3).unwrap());
}

#[test]
fn conditional_traps_branch_around_trap_zero() {
    let code = emit_one(&Inst::TrapIfNz { test: r(4), code: 9 });
    assert_eq!(
        words(&code),
        vec![encode::bnz(r(4), 0).unwrap(), encode::b(0).unwrap(), encode::trap(0).unwrap()]
    );
    assert_eq!(code.label_offsets, vec![Some(4), Some(6)]);
    assert_eq!(code.fixups.len(), 2);
    assert_eq!((code.fixups[0].label, code.fixups[0].kind), (0, LabelUse::Cond7));
    assert_eq!((code.fixups[1].offset, code.fixups[1].label), (2, 1));

    let code = emit_one(&Inst::TrapIfZ { test: r(4), code: 9 });
    assert_eq!(words(&code), vec![encode::bnz(r(4), 0).unwrap(), encode::trap(0).unwrap()]);
    assert_eq!(code.label_offsets, vec![Some(4)]);
}

#[test]
fn branches_record_their_label_uses() {
    let code = emit_one(&Inst::Jump { target: 7 });
    assert_eq!(words(&code), vec![encode::b(0).unwrap()]);
    assert_eq!((code.fixups[0].offset, code.fixups[0].label, code.fixups[0].kind), (0, 7, LabelUse::Branch11));
    let code = emit_one(&Inst::BrNz { test: r(2), taken: 3, not_taken: 4 });
    assert_eq!(words(&code), vec![encode::bnz(r(2), 0).unwrap(), encode::b(0).unwrap()]);
    assert_eq!((code.fixups[0].label, code.fixups[0].kind), (3, LabelUse::Cond7));
    assert_eq!((code.fixups[1].offset, code.fixups[1].label), (2, 4));
    assert!(code.label_offsets.is_empty());
}

#[test]
fn indirect_call_records_its_return_address() {
    let code = emit_one(&Inst::CallInd { info: CallInfo::empty(r(6), CallConv::SystemV) });
    assert_eq!(words(&code), vec![encode::callr(r(6))]);
    assert_eq!(code.call_sites, vec![2]);
}

#[test]
fn comparisons_produce_canonical_booleans() {
    // r1 = (r2 > r3): r1 <- r3, then CMPLT r1, r2.
    let code = emit_one(&Inst::Icmp { dst: r(1), cc: IntCC::SignedGreaterThan, lhs: r(2), rhs: r(3) });
    assert_eq!(
        words(&code),
        vec![encode::mov(r(1), r(3)), encode::cmplt(r(1), r(2))]
    );
    // r1 = (r1 <=u r3): r12 <- r1, r1 <- r3, CMPLTU r1, r12, then invert.
    let code = emit_one(&Inst::Icmp { dst: r(1), cc: IntCC::UnsignedLessThanOrEqual, lhs: r(1), rhs: r(3) });
    assert_eq!(
        words(&code),
        vec![
            encode::mov(r(12), r(1)),
            encode::mov(r(1), r(3)),
            encode::cmpltu(r(1), r(12)),
            encode::li(r(12), 1).unwrap(),
            encode::xor(r(1), r(12)),
        ]
    );
    assert!(code.data.len() as u32 <= Inst::Icmp { dst: r(1), cc: IntCC::Equal, lhs: r(1), rhs: r(1) }.encoded_worst_case_size());
}

#[test]
fn large_immediates_go_through_r12() {
    let code = emit_one(&Inst::AddImm { dst: r(1), src: r(2), imm: 1000 });
    // 1000 = 8 * 128 - 24: MOV r1, r2; LI r12, 8; SHLI r12, 7; ADDI r12, -24; ADD r1, r1, r12.
    assert_eq!(
        words(&code),
        vec![
            encode::mov(r(1), r(2)),
            encode::li(r(12), 8).unwrap(),
            encode::shli(r(12), 7).unwrap(),
            encode::addi(r(12), -24).unwrap(),
            encode::add(r(1), r(1), r(12)),
        ]
    );
    let code = emit_one(&Inst::AddImm { dst: r(1), src: r(1), imm: -3 });
    assert_eq!(words(&code), vec![encode::addi(r(1), -3).unwrap()]);
    let code = emit_one(&Inst::SpAdjust { amount: 0 });
    assert!(code.data.is_empty());
}

#[test]
fn stack_operands_are_addressed_from_the_frame() {
    let mut state = EmitState::default();
    state.frame_layout.outgoing_args_size = 16;
    let mut code = CodeBuffer::new();
    Inst::LoadStack { dst: r(3), mem: StackAMode::Slot(4), ty: ValueType::I32 }.emit(&mut code, &mut state);
    // Slot 4 sits 16 + 4 bytes above SP: r3 <- r13 + 20, then LW r3, [r3].
    assert_eq!(
        words(&code),
        vec![encode::mov(r(3), r(13)), encode::addi(r(3), 20).unwrap(), encode::lw(r(3), r(3))]
    );
}

#[test]
fn every_emission_stays_within_the_worst_case() {
    let insts = [
        Inst::LoadConst32 { dst: r(1), value: 0x8000_0001 },
        Inst::AddImm { dst: r(12), src: r(3), imm: i32::MIN },
        Inst::StoreBaseOffset { src: r(1), base: r(2), offset: i32::MAX, ty: ValueType::I8 },
        Inst::LoadBaseOffset { dst: r(2), base: r(2), offset: -100_000, ty: ValueType::I16 },
        Inst::Extend { dst: r(1), src: r(2), signed: true, from_bits: 8, to_bits: 32 },
        Inst::Call { info: CallInfo::empty(String::from("f"), CallConv::SystemV) },
        Inst::Ret,
        Inst::Args { args: Vec::new() },
    ];
    for inst in insts {
        let code = emit_one(&inst);
        assert!(code.data.len() as u32 <= inst.encoded_worst_case_size(), "{inst:?}");
        assert!(code.data.len() as u32 <= Inst::worst_case_size());
    }
}

#[test]
fn terminators_and_helpers() {
    assert_eq!(Inst::Ret.is_term(), MachTerminator::Ret);
    assert_eq!(Inst::Jump { target: 0 }.is_term(), MachTerminator::Branch);
    assert_eq!(Inst::Nop.is_term(), MachTerminator::NotTerminator);
    assert!(!Inst::Ret.is_trap());
    assert!(Inst::Args { args: Vec::new() }.is_args());
    assert!(!Inst::Args { args: Vec::new() }.is_included_in_clobbers());
    assert!(Inst::Nop.is_included_in_clobbers());
    assert!(Inst::gen_imm_u64(1 << 32, r(1)).is_none());
    assert!(matches!(Inst::gen_imm_u64(7, r(1)), Some(Inst::LoadConst32 { value: 7, .. })));
    assert_eq!(Inst::worst_case_island_growth(), 34);
}

#[test]
fn backend_reports_its_target_properties() {
    let b = Sia32Backend;
    assert_eq!(b.name(), "sia32");
    assert_eq!(b.page_size_align_log2(), 11);
    assert_eq!(b.pretty_print_reg(r(13), 4), "sp");
    assert_eq!(b.pretty_print_reg(r(14), 4), "lr");
    assert_eq!(b.pretty_print_reg(r(15), 4), "r15");
    assert_eq!(b.pretty_print_reg(r(3), 4), "r3");
    assert_eq!(b.function_alignment().minimum, 4);
    assert_eq!(b.default_argument_extension(), ArgumentExtension::NoExt);
}

#[test]
fn two_address_ops_keep_a_right_operand_that_shares_the_destination() {
    // r1 = r2 - r1: r1 is saved in r12 before r1 receives r2.
    let inst = Inst::TwoOp { op: TwoOp::Sub, dst: r(1), lhs: r(2), rhs: r(1) };
    let code = emit_one(&inst);
    assert_eq!(
        words(&code),
        vec![encode::mov(r(12), r(1)), encode::mov(r(1), r(2)), encode::sub(r(1), r(12))]
    );
    assert_eq!(inst.encoded_worst_case_size(), 6);
    // r1 = r1 - r1 and r1 = r1 - r2 need no copy.
    let code = emit_one(&Inst::TwoOp { op: TwoOp::Sub, dst: r(1), lhs: r(1), rhs: r(1) });
    assert_eq!(words(&code), vec![encode::sub(r(1), r(1))]);
    let code = emit_one(&Inst::TwoOp { op: TwoOp::Xor, dst: r(1), lhs: r(1), rhs: r(2) });
    assert_eq!(words(&code), vec![encode::xor(r(1), r(2))]);
}

#[test]
fn comparisons_keep_a_right_operand_that_shares_the_destination() {
    // r1 = (r2 < r1): CMPLT r1, r12 after r12 <- r1 and r1 <- r2.
    let code = emit_one(&Inst::Icmp { dst: r(1), cc: IntCC::SignedLessThan, lhs: r(2), rhs: r(1) });
    assert_eq!(
        words(&code),
        vec![encode::mov(r(12), r(1)), encode::mov(r(1), r(2)), encode::cmplt(r(1), r(12))]
    );
    // r1 = (r2 > r1): r1 already holds the right operand.
    let code = emit_one(&Inst::Icmp { dst: r(1), cc: IntCC::SignedGreaterThan, lhs: r(2), rhs: r(1) });
    assert_eq!(words(&code), vec![encode::cmplt(r(1), r(2))]);
}

#[test]
fn trap_and_scratch_swap_sizes_are_conservative() {
    let insts = [
        Inst::TrapIfNz { test: r(4), code: 1 },
        Inst::TrapIfZ { test: r(4), code: 1 },
        Inst::SSwapScratch { dst: r(1), src: r(2) },
        Inst::TwoOp { op: TwoOp::Mul, dst: r(3), lhs: r(4), rhs: r(3) },
        Inst::Icmp { dst: r(3), cc: IntCC::NotEqual, lhs: r(4), rhs: r(3) },
    ];
    let expected = [6, 4, 4, 6, 10];
    for (inst, size) in insts.iter().zip(expected) {
        assert_eq!(inst.encoded_worst_case_size(), size);
        assert!(emit_one(inst).data.len() as u32 <= size, "{inst:?}");
    }
}

#[test]
fn incoming_arguments_sit_above_the_allocated_frame() {
    // A calling function with no saves and empty areas: the prologue lowers
    // SP by the 8-byte setup area only.
    let mut frame = FrameLayout::default();
    frame.setup_area_size = 8;
    frame.function_calls = FunctionCalls::Regular;
    assert_eq!(frame_stack_offset(&StackAMode::IncomingArg(0, 0), &frame), 8);
    // Stack slots are part of the fixed storage and are not counted twice.
    frame.fixed_frame_storage_size = 16;
    frame.stackslots_size = 16;
    frame.outgoing_args_size = 16;
    assert_eq!(frame_stack_offset(&StackAMode::IncomingArg(0, 8), &frame), 32);
    assert_eq!(frame_stack_offset(&StackAMode::Slot(4), &frame), 20);
    assert_eq!(frame_stack_offset(&StackAMode::OutgoingArg(4), &frame), 4);
    let mut state = EmitState::default();
    state.frame_layout = frame;
    let mut code = CodeBuffer::new();
    Inst::StackAddr { dst: r(2), mem: StackAMode::IncomingArg(4, 8) }.emit(&mut code, &mut state);
    assert_eq!(words(&code), vec![encode::mov(r(2), r(13)), encode::addi(r(2), 36).unwrap()]);
}
