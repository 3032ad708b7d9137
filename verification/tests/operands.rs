use regalloc2::PRegSet;
use sia32::abi::{CallConv, Sia32MachineDeps};
use sia32::inst::{ArgPair, CallInfo, CallRetPair, Inst, IntCC, RetLocation, StackAMode, ValueType};
use sia32::operands::Operand;
use sia32::regs::{preg, Reg};

fn r(n: u8) -> Reg {
    Reg::new(n).unwrap()
}

fn uses_and_defs(ops: &[Operand]) -> (Vec<Reg>, Vec<Reg>) {
    let mut uses = Vec::new();
    let mut defs = Vec::new();
    for op in ops {
        match op {
            Operand::Use(r) => uses.push(*r),
            Operand::Def(r) => defs.push(*r),
            _ => {}
        }
    }
    (uses, defs)
}

#[test]
fn ordinary_instructions_report_uses_before_defs() {
    let ops = Inst::Icmp { dst: r(1), cc: IntCC::Equal, lhs: r(2), rhs: r(3) }.get_operands();
    assert_eq!(uses_and_defs(&ops), (vec![r(2), r(3)], vec![r(1)]));
    let ops = Inst::IndexedStore { src: r(4), base: r(5), index: r(6) }.get_operands();
    assert_eq!(uses_and_defs(&ops), (vec![r(4), r(5), r(6)], vec![]));
    let ops = Inst::LoadStack { dst: r(7), mem: StackAMode::Slot(0), ty: ValueType::I32 }.get_operands();
    assert_eq!(uses_and_defs(&ops), (vec![], vec![r(7)]));
    assert!(Inst::Ret.get_operands().is_empty());
    assert!(Inst::SpAdjust { amount: 8 }.get_operands().is_empty());
}

#[test]
fn fixed_gpr_access_clobbers_that_register() {
    let ops = Inst::ReadFixedGpr { dst: r(3), index: 13 }.get_operands();
    assert_eq!(ops.len(), 2);
    match ops[0] {
        Operand::Clobbers(set) => assert_eq!(set, PRegSet::empty().with(preg(13))),
        _ => panic!("expected a clobber set first"),
    }
    assert!(matches!(ops[1], Operand::Def(d) if d == r(3)));
    let ops = Inst::WriteFixedGpr { src: r(4), index: 9 }.get_operands();
    assert!(matches!(ops[0], Operand::Use(s) if s == r(4)));
    assert!(matches!(ops[1], Operand::Clobbers(set) if set == PRegSet::empty().with(preg(9))));
}

#[test]
fn argument_and_return_pseudos_bind_fixed_registers() {
    let args = vec![ArgPair { vreg: r(7), preg: r(1) }, ArgPair { vreg: r(8), preg: r(2) }];
    let ops = Inst::Args { args }.get_operands();
    assert!(matches!(ops[0], Operand::FixedDef { vreg, preg } if vreg == r(7) && preg == r(1)));
    assert!(matches!(ops[1], Operand::FixedDef { vreg, preg } if vreg == r(8) && preg == r(2)));
    let ops = Inst::Rets { rets: vec![ArgPair { vreg: r(5), preg: r(1) }] }.get_operands();
    assert!(matches!(ops[..], [Operand::FixedUse { vreg, preg }] if vreg == r(5) && preg == r(1)));
}

#[test]
fn call_clobbers_leave_out_the_return_registers() {
    let mut info = CallInfo::empty(String::from("callee"), CallConv::SystemV);
    info.uses.push(ArgPair { vreg: r(9), preg: r(1) });
    info.defs.push(CallRetPair { vreg: r(10), location: RetLocation::Reg(r(1), ValueType::I32) });
    info.defs.push(CallRetPair { vreg: r(11), location: RetLocation::Stack(StackAMode::OutgoingArg(0), ValueType::I32) });
    info.clobbers = Sia32MachineDeps::get_regs_clobbered_by_call(CallConv::SystemV, false);
    let ops = Inst::Call { info }.get_operands();
    assert_eq!(ops.len(), 4);
    assert!(matches!(ops[0], Operand::FixedUse { vreg, preg } if vreg == r(9) && preg == r(1)));
    assert!(matches!(ops[1], Operand::FixedDef { vreg, preg } if vreg == r(10) && preg == r(1)));
    assert!(matches!(ops[2], Operand::AnyDef(v) if v == r(11)));
    match ops[3] {
        Operand::Clobbers(set) => {
            assert!(!set.contains(preg(1)));
            for n in [2, 3, 4, 5, 6, 7, 8, 12, 14] {
                assert!(set.contains(preg(n)));
            }
        }
        _ => panic!("expected the clobber set last"),
    }
    let ops = Inst::CallInd { info: CallInfo::empty(r(6), CallConv::SystemV) }.get_operands();
    assert!(matches!(ops[0], Operand::Use(d) if d == r(6)));
    assert!(matches!(ops[1], Operand::Clobbers(set) if set == PRegSet::empty()));
}
