use regalloc2::PRegSet;
use sia32::abi::{
    ABIArg, ABIArgLocation, ABIArgSlot, AbiError, AbiParam, ArgsOrRets, ArgumentExtension,
    ArgumentPurpose, CallConv, RegClass, Sia32MachineDeps,
};
use sia32::inst::{frame_stack_offset, FunctionCalls, Inst, StackAMode, ValueType};
use sia32::regs::{mach_reg, preg, Reg};

fn r(n: u8) -> Reg {
    Reg::new(n).unwrap()
}

fn param(ty: ValueType) -> AbiParam {
    AbiParam { value_type: ty, purpose: ArgumentPurpose::Normal, extension: ArgumentExtension::NoExt }
}

fn reg_slot(n: u8, ext: ArgumentExtension) -> ABIArgSlot {
    ABIArgSlot::Reg { reg: r(n), ty: ValueType::I32, extension: ext }
}

fn stack_slot(offset: i64) -> ABIArgSlot {
    ABIArgSlot::Stack { offset, ty: ValueType::I32, extension: ArgumentExtension::NoExt }
}

fn slots(arg: &ABIArg) -> Vec<ABIArgSlot> {
    match arg {
        ABIArg::Slots { slots, .. } => slots.clone(),
    }
}

fn place(
    params: &[AbiParam],
    args_or_rets: ArgsOrRets,
    ret_area: bool,
    implicit_sret: bool,
) -> (Result<(u32, Option<usize>), AbiError>, Vec<ABIArg>) {
    let mut args = Vec::new();
    let res = Sia32MachineDeps::compute_arg_locs(
        CallConv::SystemV,
        implicit_sret,
        params,
        args_or_rets,
        ret_area,
        &mut args,
    );
    (res, args)
}

#[test]
fn machine_abi_has_expected_word_and_stack_size() {
    assert_eq!(Sia32MachineDeps::word_bits(), 32);
    assert_eq!(Sia32MachineDeps::word_bytes(), 4);
    assert_eq!(Sia32MachineDeps::stack_align(CallConv::SystemV), 8);
}

#[test]
fn call_clobbers_match_frozen_abi_plus_reserved_temporaries() {
    let set: PRegSet = Sia32MachineDeps::get_regs_clobbered_by_call(CallConv::SystemV, false);
    for n in 1..=8 {
        assert!(set.contains(preg(n)));
    }
    assert!(set.contains(preg(12)));
    assert!(set.contains(preg(14)));
    for n in [9, 10, 11, 15] {
        assert!(!set.contains(preg(n)));
    }
}

#[test]
fn machine_environment_excludes_fixed_registers() {
    let env = Sia32MachineDeps::get_machine_env(CallConv::SystemV);
    for n in [0, 12, 13, 14] {
        let p = preg(n);
        assert!(!env.preferred_regs_by_class[0].contains(p));
        assert!(!env.non_preferred_regs_by_class[0].contains(p));
    }
}

#[test]
fn narrow_integer_abi_extensions_are_signature_driven() {
    assert_eq!(
        Sia32MachineDeps::get_ext_mode(CallConv::SystemV, ArgumentExtension::Uext, ABIArgLocation::Reg),
        ArgumentExtension::Uext
    );
}

#[test]
fn basic_memory_ops_are_integer_only() {
    let load = Sia32MachineDeps::gen_load_base_offset(mach_reg(1), mach_reg(2), 4, ValueType::I32);
    assert!(matches!(load, Inst::LoadBaseOffset { .. }));
}

#[test]
fn arguments_follow_the_register_then_stack_rules() {
    let mut ps = vec![param(ValueType::I32), param(ValueType::I64), param(ValueType::I8)];
    ps[2].extension = ArgumentExtension::Sext;
    ps.push(param(ValueType::I64));
    ps.push(param(ValueType::I32));
    let (res, args) = place(&ps, ArgsOrRets::Args, false, false);
    assert_eq!(res, Ok((16, None)));
    assert_eq!(slots(&args[0]), vec![reg_slot(1, ArgumentExtension::NoExt)]);
    assert_eq!(slots(&args[1]), vec![reg_slot(3, ArgumentExtension::NoExt), reg_slot(4, ArgumentExtension::NoExt)]);
    assert_eq!(slots(&args[2]), vec![reg_slot(5, ArgumentExtension::Sext)]);
    // The I64 no longer fits r6 alone; it and everything after it go to the stack.
    assert_eq!(slots(&args[3]), vec![stack_slot(0), stack_slot(4)]);
    assert_eq!(slots(&args[4]), vec![stack_slot(8)]);
}

#[test]
fn return_area_pointer_takes_r1_and_comes_last() {
    let ps = [param(ValueType::I32), param(ValueType::I32)];
    let (res, args) = place(&ps, ArgsOrRets::Args, true, false);
    assert_eq!(res, Ok((0, Some(2))));
    assert_eq!(slots(&args[0]), vec![reg_slot(2, ArgumentExtension::NoExt)]);
    assert_eq!(slots(&args[1]), vec![reg_slot(3, ArgumentExtension::NoExt)]);
    assert_eq!(slots(&args[2]), vec![reg_slot(1, ArgumentExtension::NoExt)]);
    assert_eq!(args.len(), 3);
}

#[test]
fn returns_are_refused_beyond_r1_r2_unless_implicit_sret() {
    let ps = [param(ValueType::I32), param(ValueType::I32), param(ValueType::I32)];
    let (res, args) = place(&ps, ArgsOrRets::Rets, false, false);
    assert_eq!(res, Err(AbiError::ReturnsExceedRegisters));
    assert_eq!(args.len(), 2);
    let (res, args) = place(&ps, ArgsOrRets::Rets, false, true);
    assert_eq!(res, Ok((8, None)));
    assert_eq!(slots(&args[2]), vec![stack_slot(0)]);
    let (res, _) = place(&[param(ValueType::I64)], ArgsOrRets::Rets, false, false);
    assert_eq!(res, Ok((0, None)));
}

#[test]
fn refused_signatures_report_why() {
    let mut args = Vec::new();
    let res = Sia32MachineDeps::compute_arg_locs(
        CallConv::Fast,
        false,
        &[param(ValueType::I32)],
        ArgsOrRets::Args,
        false,
        &mut args,
    );
    assert_eq!(res, Err(AbiError::UnsupportedCallConv(CallConv::Fast)));
    assert!(args.is_empty());
    let (res, _) = place(&[], ArgsOrRets::Rets, true, false);
    assert_eq!(res, Err(AbiError::ReturnAreaPointerOnReturns));
    let mut agg = param(ValueType::I32);
    agg.purpose = ArgumentPurpose::StructArgument(16);
    let (res, args) = place(&[param(ValueType::I32), agg], ArgsOrRets::Args, false, false);
    assert_eq!(res, Err(AbiError::StructArgument));
    assert_eq!(args.len(), 1);
    let (res, _) = place(&[param(ValueType::F64)], ArgsOrRets::Args, false, false);
    assert_eq!(res, Err(AbiError::UnsupportedType(ValueType::F64)));
}

#[test]
fn frame_layout_keeps_sorted_distinct_callee_saves() {
    let written = [r(15), r(3), r(9), r(15), r(10), r(9)];
    let f = Sia32MachineDeps::compute_frame_layout(
        CallConv::SystemV,
        &written,
        FunctionCalls::Regular,
        0,
        0,
        24,
        5,
        12,
    );
    assert_eq!(f.clobbered_callee_saves, vec![r(9), r(10), r(15)]);
    assert_eq!(f.clobber_size, 16);
    assert_eq!(f.setup_area_size, 8);
    assert_eq!(f.fixed_frame_storage_size, 8);
    assert_eq!(f.outgoing_args_size, 16);
    assert_eq!(f.stackslots_size, 24);

    let leaf = Sia32MachineDeps::compute_frame_layout(
        CallConv::SystemV,
        &[r(1), r(2)],
        FunctionCalls::NoCalls,
        0,
        0,
        0,
        0,
        0,
    );
    assert!(leaf.clobbered_callee_saves.is_empty());
    assert_eq!((leaf.clobber_size, leaf.setup_area_size), (0, 0));
    assert!(Sia32MachineDeps::gen_clobber_save(CallConv::SystemV, &leaf).items.to_vec().is_empty());
    assert!(Sia32MachineDeps::gen_prologue_frame_setup(CallConv::SystemV, &leaf).items.to_vec().is_empty());
}

#[test]
fn clobber_restore_undoes_clobber_save() {
    let f = Sia32MachineDeps::compute_frame_layout(
        CallConv::SystemV,
        &[r(11), r(9)],
        FunctionCalls::NoCalls,
        0,
        0,
        0,
        4,
        0,
    );
    let save = Sia32MachineDeps::gen_clobber_save(CallConv::SystemV, &f).items.to_vec();
    let restore = Sia32MachineDeps::gen_clobber_restore(CallConv::SystemV, &f).items.to_vec();
    assert!(matches!(save[0], Inst::SpAdjust { amount: -16 }));
    assert!(matches!(
        save[1],
        Inst::StoreBaseOffset { src, base, offset: 8, ty: ValueType::I32 } if src == r(9) && base == r(13)
    ));
    assert!(matches!(save[2], Inst::StoreBaseOffset { src, offset: 12, .. } if src == r(11)));
    assert!(matches!(
        restore[0],
        Inst::LoadBaseOffset { dst, base, offset: 8, ty: ValueType::I32 } if dst == r(9) && base == r(13)
    ));
    assert!(matches!(restore[1], Inst::LoadBaseOffset { dst, offset: 12, .. } if dst == r(11)));
    assert!(matches!(restore[2], Inst::SpAdjust { amount: 16 }));
    assert_eq!(save.len(), 3);
    assert_eq!(restore.len(), 3);
}

#[test]
fn frame_setup_saves_and_restores_lr() {
    let f = Sia32MachineDeps::compute_frame_layout(CallConv::SystemV, &[], FunctionCalls::Regular, 0, 0, 0, 0, 0);
    let setup = Sia32MachineDeps::gen_prologue_frame_setup(CallConv::SystemV, &f).items.to_vec();
    let restore = Sia32MachineDeps::gen_epilogue_frame_restore(CallConv::SystemV, &f).items.to_vec();
    assert!(matches!(setup[0], Inst::SpAdjust { amount: -8 }));
    assert!(matches!(setup[1], Inst::StoreBaseOffset { src, base, offset: 0, .. } if src == r(14) && base == r(13)));
    assert!(matches!(restore[0], Inst::LoadBaseOffset { dst, base, offset: 0, .. } if dst == r(14) && base == r(13)));
    assert!(matches!(restore[1], Inst::SpAdjust { amount: 8 }));
    assert!(matches!(Sia32MachineDeps::gen_return(CallConv::SystemV, &f).items.to_vec()[..], [Inst::Ret]));
}

#[test]
fn small_abi_sequences() {
    assert!(Sia32MachineDeps::gen_sp_reg_adjust(0).items.to_vec().is_empty());
    assert!(matches!(Sia32MachineDeps::gen_sp_reg_adjust(-12).items.to_vec()[..], [Inst::SpAdjust { amount: -12 }]));
    assert!(matches!(
        Sia32MachineDeps::gen_add_imm(CallConv::SystemV, r(1), r(2), 300).items.to_vec()[..],
        [Inst::AddImm { imm: 300, .. }]
    ));
    assert!(matches!(
        Sia32MachineDeps::gen_stack_lower_bound_trap(r(3)).items.to_vec()[..],
        [Inst::StackLowerBoundTrap { .. }]
    ));
    assert_eq!(Sia32MachineDeps::get_number_of_spillslots_for_value(RegClass::Int, 16), 1);
    assert_eq!(Sia32MachineDeps::retval_temp_reg(CallConv::SystemV), r(12));
    assert_eq!(Sia32MachineDeps::exception_payload_regs(CallConv::SystemV), [r(1), r(2)]);
    assert!(matches!(
        Sia32MachineDeps::gen_move(r(1), r(2), ValueType::I32),
        Inst::Mov { dst, src } if dst == r(1) && src == r(2)
    ));
}

#[test]
fn allocation_environment_prefers_caller_saved_registers() {
    let env = sia32::regs::create_reg_environment();
    for n in 1..=8 {
        assert!(env.preferred_regs_by_class[0].contains(preg(n)));
    }
    for n in [9, 10, 11, 15] {
        assert!(env.non_preferred_regs_by_class[0].contains(preg(n)));
        assert!(!env.preferred_regs_by_class[0].contains(preg(n)));
    }
    assert_eq!(env.scratch_by_class, [None, None, None]);
    assert!(env.fixed_stack_slots.is_empty());
}

#[test]
fn frame_adjustments_stay_eight_byte_aligned() {
    let f = Sia32MachineDeps::compute_frame_layout(
        CallConv::SystemV,
        &[r(9), r(10), r(11)],
        FunctionCalls::Regular,
        0,
        0,
        0,
        13,
        1,
    );
    assert_eq!(f.clobber_size, 16);
    let save = Sia32MachineDeps::gen_clobber_save(CallConv::SystemV, &f).items.to_vec();
    match save[0] {
        Inst::SpAdjust { amount } => {
            assert_eq!(amount, -(16 + 16 + 8));
            assert_eq!(amount % 8, 0);
        }
        _ => panic!("the save sequence starts with the SP adjustment"),
    }
    // The callee-save slots sit above the fixed and outgoing areas.
    assert!(matches!(save[1], Inst::StoreBaseOffset { offset: 24, .. }));
    assert!(matches!(save[3], Inst::StoreBaseOffset { offset: 32, .. }));
}

#[test]
fn incoming_arguments_lie_past_what_the_prologue_allocates() {
    let f = Sia32MachineDeps::compute_frame_layout(
        CallConv::SystemV,
        &[r(9)],
        FunctionCalls::Regular,
        16,
        0,
        8,
        12,
        4,
    );
    let mut lowered: i64 = 0;
    let setup = Sia32MachineDeps::gen_prologue_frame_setup(CallConv::SystemV, &f).items.to_vec();
    let save = Sia32MachineDeps::gen_clobber_save(CallConv::SystemV, &f).items.to_vec();
    for inst in setup.iter().chain(save.iter()) {
        if let Inst::SpAdjust { amount } = inst {
            lowered -= i64::from(*amount);
        }
    }
    // 8 (lr) + 8 (one save, rounded) + 16 (fixed storage) + 8 (outgoing).
    assert_eq!(lowered, 40);
    assert_eq!(frame_stack_offset(&StackAMode::IncomingArg(0, 16), &f), 24);
    assert_eq!(frame_stack_offset(&StackAMode::IncomingArg(12, 16), &f), 36);
}

#[test]
fn calling_conventions_have_their_textual_names() {
    assert_eq!(CallConv::SystemV.name(), "system_v");
    assert_eq!(CallConv::Fast.name(), "fast");
    assert_eq!(CallConv::WindowsFastcall.name(), "windows_fastcall");
    assert_eq!(CallConv::PreserveAll.name(), "preserve_all");
}
