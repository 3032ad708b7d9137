use sia32::abi::Sia32MachineDeps;
use sia32::inst::{ArgPair, Inst, StackAMode, ValueType};
use sia32::regs::{
    callee_saved_regs, caller_saved_regs, fp_reg, link_reg, mach_reg, scratch_reg, stack_reg,
    writable_fp_reg, writable_link_reg, writable_scratch_reg, writable_stack_reg, writable_zero_reg,
    zero_reg, Reg, Writable,
};

fn r(n: u8) -> Reg {
    Reg::new(n).unwrap()
}

#[test]
fn machine_registers_name_the_fixed_roles() {
    assert_eq!(zero_reg(), r(0));
    assert_eq!(stack_reg(), r(13));
    assert_eq!(link_reg(), r(14));
    assert_eq!(fp_reg(), r(15));
    assert_eq!(scratch_reg(), r(12));
    assert_eq!(mach_reg(7), r(7));
    assert_eq!(writable_zero_reg().to_reg(), r(0));
    assert_eq!(writable_stack_reg().to_reg(), r(13));
    assert_eq!(writable_link_reg().to_reg(), r(14));
    assert_eq!(writable_fp_reg().to_reg(), r(15));
    assert_eq!(writable_scratch_reg().to_reg(), r(12));
    assert_eq!(Writable::from_reg(r(3)).to_reg(), r(3));
}

#[test]
fn register_sets_and_argument_indices() {
    assert_eq!(caller_saved_regs().map(Reg::index), [1, 2, 3, 4, 5, 6, 7, 8]);
    assert_eq!(callee_saved_regs().map(Reg::index), [9, 10, 11, 15]);
    assert_eq!(r(1).argument_index(), Some(0));
    assert_eq!(r(6).argument_index(), Some(5));
    assert_eq!(r(7).argument_index(), None);
    assert_eq!(r(0).argument_index(), None);
    assert!(r(15).is_fp());
    assert!(!r(13).normally_allocatable());
    assert_eq!(r(13).name(), "sp");
    assert_eq!(r(10).name(), "r10");
}

#[test]
fn abi_instruction_constructors() {
    assert!(matches!(
        Sia32MachineDeps::gen_load_stack(StackAMode::Slot(4), r(1), ValueType::I16),
        Inst::LoadStack { mem: StackAMode::Slot(4), ty: ValueType::I16, .. }
    ));
    assert!(matches!(
        Sia32MachineDeps::gen_store_stack(StackAMode::OutgoingArg(8), r(2), ValueType::I32),
        Inst::StoreStack { mem: StackAMode::OutgoingArg(8), .. }
    ));
    assert!(matches!(
        Sia32MachineDeps::gen_extend(r(1), r(2), false, 16, 32),
        Inst::Extend { signed: false, from_bits: 16, to_bits: 32, .. }
    ));
    let pairs = vec![ArgPair { vreg: r(5), preg: r(1) }];
    assert!(matches!(Sia32MachineDeps::gen_args(pairs.clone()), Inst::Args { args } if args == pairs));
    assert!(matches!(Sia32MachineDeps::gen_rets(pairs.clone()), Inst::Rets { rets } if rets == pairs));
    assert!(matches!(
        Sia32MachineDeps::gen_get_stack_addr(StackAMode::IncomingArg(0, 8), r(3)),
        Inst::StackAddr { mem: StackAMode::IncomingArg(0, 8), .. }
    ));
    assert!(matches!(
        Sia32MachineDeps::gen_store_base_offset(r(13), -4, r(9), ValueType::I32),
        Inst::StoreBaseOffset { src, base, offset: -4, .. } if src == r(9) && base == r(13)
    ));
    assert!(matches!(Inst::gen_dummy_use(r(2)), Inst::DummyUse { reg } if reg == r(2)));
    assert!(matches!(Inst::gen_jump(9), Inst::Jump { target: 9 }));
    assert!(matches!(Inst::gen_nop(4), Inst::Nop));
}
