//! The instructions that the integer lowering rules produce, and the machine
//! instruction each of them becomes.

use crate::inst::{CallInfo, Inst, IntCC, StackAMode, TwoOp, UnaryOp, ValueType};
use crate::regs::Reg;
use vstd::prelude::*;

verus! {

/// An instruction as produced by the lowering rules.
#[derive(Clone, Debug)]
pub enum MInst {
    Mov { dst: Reg, src: Reg },
    StackAddr { dst: Reg, mem: StackAMode },
    LoadConst32 { dst: Reg, value: u32 },
    LoadExtName { dst: Reg, name: String, offset: i64 },
    Add { dst: Reg, lhs: Reg, rhs: Reg },
    CmpEq { dst: Reg, lhs: Reg, rhs: Reg },
    CmpLt { dst: Reg, lhs: Reg, rhs: Reg },
    CmpLtu { dst: Reg, lhs: Reg, rhs: Reg },
    Mul { dst: Reg, lhs: Reg, rhs: Reg },
    Div { dst: Reg, lhs: Reg, rhs: Reg },
    DivU { dst: Reg, lhs: Reg, rhs: Reg },
    Rem { dst: Reg, lhs: Reg, rhs: Reg },
    RemU { dst: Reg, lhs: Reg, rhs: Reg },
    Sub { dst: Reg, lhs: Reg, rhs: Reg },
    And { dst: Reg, lhs: Reg, rhs: Reg },
    Or { dst: Reg, lhs: Reg, rhs: Reg },
    Xor { dst: Reg, lhs: Reg, rhs: Reg },
    Shl { dst: Reg, lhs: Reg, rhs: Reg },
    Shr { dst: Reg, lhs: Reg, rhs: Reg },
    Sar { dst: Reg, lhs: Reg, rhs: Reg },
    Clz { dst: Reg, src: Reg },
    Ctz { dst: Reg, src: Reg },
    Cpop { dst: Reg, src: Reg },
    Icmp { dst: Reg, cc: IntCC, lhs: Reg, rhs: Reg },
    Extend { dst: Reg, src: Reg, signed: bool, from_bits: u8, to_bits: u8 },
    LoadBaseOffset { dst: Reg, base: Reg, offset: i32, ty: ValueType },
    StoreBaseOffset { src: Reg, base: Reg, offset: i32, ty: ValueType },
    TrapIfNz { test: Reg, code: u8 },
    TrapIfZ { test: Reg, code: u8 },
    Call { info: CallInfo<String> },
    CallInd { info: CallInfo<Reg> },
    Jump { target: u32 },
    BrNz { test: Reg, taken: u32, not_taken: u32 },
    Fence,
    SRead { dst: Reg, selector: u8 },
    ReadFixedGpr { dst: Reg, index: u8 },
    WriteFixedGpr { src: Reg, index: u8 },
    SWrite { src: Reg, selector: u8 },
    SRet,
    TlbFence,
    TlbFenceVa { src: Reg },
    TlbFenceAsid { src: Reg },
    Wfi,
    SyncI,
    SoftwareTrap { code: u8 },
}

/// The two-address operation of a lowered binary operation.
pub open spec fn binary_op(m: MInst) -> Option<TwoOp> {
    match m {
        MInst::CmpEq { .. } => Some(TwoOp::CmpEq),
        MInst::CmpLt { .. } => Some(TwoOp::CmpLt),
        MInst::CmpLtu { .. } => Some(TwoOp::CmpLtu),
        MInst::Mul { .. } => Some(TwoOp::Mul),
        MInst::Div { .. } => Some(TwoOp::Div),
        MInst::DivU { .. } => Some(TwoOp::DivU),
        MInst::Rem { .. } => Some(TwoOp::Rem),
        MInst::RemU { .. } => Some(TwoOp::RemU),
        MInst::Sub { .. } => Some(TwoOp::Sub),
        MInst::And { .. } => Some(TwoOp::And),
        MInst::Or { .. } => Some(TwoOp::Or),
        MInst::Xor { .. } => Some(TwoOp::Xor),
        MInst::Shl { .. } => Some(TwoOp::Shl),
        MInst::Shr { .. } => Some(TwoOp::Shr),
        MInst::Sar { .. } => Some(TwoOp::Sar),
        _ => None,
    }
}

/// The machine instruction of a lowered instruction: binary operations become
/// two-address operations, bit counts unary operations, and every other
/// instruction its machine namesake with the same operands.
pub open spec fn machine_inst(m: MInst) -> Inst {
    match m {
        MInst::Mov { dst, src } => Inst::Mov { dst, src },
        MInst::StackAddr { dst, mem } => Inst::StackAddr { dst, mem },
        MInst::LoadConst32 { dst, value } => Inst::LoadConst32 { dst, value },
        MInst::LoadExtName { dst, name, offset } => Inst::LoadExtName { dst, name, offset },
        MInst::Add { dst, lhs, rhs } => Inst::Add { dst, lhs, rhs },
        MInst::CmpEq { dst, lhs, rhs } | MInst::CmpLt { dst, lhs, rhs } | MInst::CmpLtu {
            dst,
            lhs,
            rhs,
        } | MInst::Mul { dst, lhs, rhs } | MInst::Div { dst, lhs, rhs } | MInst::DivU {
            dst,
            lhs,
            rhs,
        } | MInst::Rem { dst, lhs, rhs } | MInst::RemU { dst, lhs, rhs } | MInst::Sub {
            dst,
            lhs,
            rhs,
        } | MInst::And { dst, lhs, rhs } | MInst::Or { dst, lhs, rhs } | MInst::Xor {
            dst,
            lhs,
            rhs,
        } | MInst::Shl { dst, lhs, rhs } | MInst::Shr { dst, lhs, rhs } | MInst::Sar {
            dst,
            lhs,
            rhs,
        } => Inst::TwoOp { op: binary_op(m).unwrap(), dst, lhs, rhs },
        MInst::Clz { dst, src } => Inst::Unary { op: UnaryOp::Clz, dst, src },
        MInst::Ctz { dst, src } => Inst::Unary { op: UnaryOp::Ctz, dst, src },
        MInst::Cpop { dst, src } => Inst::Unary { op: UnaryOp::Cpop, dst, src },
        MInst::Icmp { dst, cc, lhs, rhs } => Inst::Icmp { dst, cc, lhs, rhs },
        MInst::Extend { dst, src, signed, from_bits, to_bits } => Inst::Extend {
            dst,
            src,
            signed,
            from_bits,
            to_bits,
        },
        MInst::LoadBaseOffset { dst, base, offset, ty } => Inst::LoadBaseOffset {
            dst,
            base,
            offset,
            ty,
        },
        MInst::StoreBaseOffset { src, base, offset, ty } => Inst::StoreBaseOffset {
            src,
            base,
            offset,
            ty,
        },
        MInst::TrapIfNz { test, code } => Inst::TrapIfNz { test, code },
        MInst::TrapIfZ { test, code } => Inst::TrapIfZ { test, code },
        MInst::Call { info } => Inst::Call { info },
        MInst::CallInd { info } => Inst::CallInd { info },
        MInst::Jump { target } => Inst::Jump { target },
        MInst::BrNz { test, taken, not_taken } => Inst::BrNz { test, taken, not_taken },
        MInst::Fence => Inst::Fence,
        MInst::SRead { dst, selector } => Inst::SRead { dst, selector },
        MInst::ReadFixedGpr { dst, index } => Inst::ReadFixedGpr { dst, index },
        MInst::WriteFixedGpr { src, index } => Inst::WriteFixedGpr { src, index },
        MInst::SWrite { src, selector } => Inst::SWrite { src, selector },
        MInst::SRet => Inst::SRet,
        MInst::TlbFence => Inst::TlbFence,
        MInst::TlbFenceVa { src } => Inst::TlbFenceVa { src },
        MInst::TlbFenceAsid { src } => Inst::TlbFenceAsid { src },
        MInst::Wfi => Inst::Wfi,
        MInst::SyncI => Inst::SyncI,
        MInst::SoftwareTrap { code } => Inst::SoftwareTrap { code },
    }
}

/// The machine instruction of a lowered instruction.
pub fn into_machine_inst(inst: MInst) -> (i: Inst)
    ensures
        i == machine_inst(inst),
{
    match inst {
        MInst::Mov { dst, src } => Inst::Mov { dst, src },
        MInst::StackAddr { dst, mem } => Inst::StackAddr { dst, mem },
        MInst::LoadConst32 { dst, value } => Inst::LoadConst32 { dst, value },
        MInst::LoadExtName { dst, name, offset } => Inst::LoadExtName { dst, name, offset },
        MInst::Add { dst, lhs, rhs } => Inst::Add { dst, lhs, rhs },
        MInst::CmpEq { dst, lhs, rhs } => Inst::TwoOp { op: TwoOp::CmpEq, dst, lhs, rhs },
        MInst::CmpLt { dst, lhs, rhs } => Inst::TwoOp { op: TwoOp::CmpLt, dst, lhs, rhs },
        MInst::CmpLtu { dst, lhs, rhs } => Inst::TwoOp { op: TwoOp::CmpLtu, dst, lhs, rhs },
        MInst::Mul { dst, lhs, rhs } => Inst::TwoOp { op: TwoOp::Mul, dst, lhs, rhs },
        MInst::Div { dst, lhs, rhs } => Inst::TwoOp { op: TwoOp::Div, dst, lhs, rhs },
        MInst::DivU { dst, lhs, rhs } => Inst::TwoOp { op: TwoOp::DivU, dst, lhs, rhs },
        MInst::Rem { dst, lhs, rhs } => Inst::TwoOp { op: TwoOp::Rem, dst, lhs, rhs },
        MInst::RemU { dst, lhs, rhs } => Inst::TwoOp { op: TwoOp::RemU, dst, lhs, rhs },
        MInst::Sub { dst, lhs, rhs } => Inst::TwoOp { op: TwoOp::Sub, dst, lhs, rhs },
        MInst::And { dst, lhs, rhs } => Inst::TwoOp { op: TwoOp::And, dst, lhs, rhs },
        MInst::Or { dst, lhs, rhs } => Inst::TwoOp { op: TwoOp::Or, dst, lhs, rhs },
        MInst::Xor { dst, lhs, rhs } => Inst::TwoOp { op: TwoOp::Xor, dst, lhs, rhs },
        MInst::Shl { dst, lhs, rhs } => Inst::TwoOp { op: TwoOp::Shl, dst, lhs, rhs },
        MInst::Shr { dst, lhs, rhs } => Inst::TwoOp { op: TwoOp::Shr, dst, lhs, rhs },
        MInst::Sar { dst, lhs, rhs } => Inst::TwoOp { op: TwoOp::Sar, dst, lhs, rhs },
        MInst::Clz { dst, src } => Inst::Unary { op: UnaryOp::Clz, dst, src },
        MInst::Ctz { dst, src } => Inst::Unary { op: UnaryOp::Ctz, dst, src },
        MInst::Cpop { dst, src } => Inst::Unary { op: UnaryOp::Cpop, dst, src },
        MInst::Icmp { dst, cc, lhs, rhs } => Inst::Icmp { dst, cc, lhs, rhs },
        MInst::Extend { dst, src, signed, from_bits, to_bits } => Inst::Extend {
            dst,
            src,
            signed,
            from_bits,
            to_bits,
        },
        MInst::LoadBaseOffset { dst, base, offset, ty } => Inst::LoadBaseOffset {
            dst,
            base,
            offset,
            ty,
        },
        MInst::StoreBaseOffset { src, base, offset, ty } => Inst::StoreBaseOffset {
            src,
            base,
            offset,
            ty,
        },
        MInst::TrapIfNz { test, code } => Inst::TrapIfNz { test, code },
        MInst::TrapIfZ { test, code } => Inst::TrapIfZ { test, code },
        MInst::Call { info } => Inst::Call { info },
        MInst::CallInd { info } => Inst::CallInd { info },
        MInst::Jump { target } => Inst::Jump { target },
        MInst::BrNz { test, taken, not_taken } => Inst::BrNz { test, taken, not_taken },
        MInst::Fence => Inst::Fence,
        MInst::SRead { dst, selector } => Inst::SRead { dst, selector },
        MInst::ReadFixedGpr { dst, index } => Inst::ReadFixedGpr { dst, index },
        MInst::WriteFixedGpr { src, index } => Inst::WriteFixedGpr { src, index },
        MInst::SWrite { src, selector } => Inst::SWrite { src, selector },
        MInst::SRet => Inst::SRet,
        MInst::TlbFence => Inst::TlbFence,
        MInst::TlbFenceVa { src } => Inst::TlbFenceVa { src },
        MInst::TlbFenceAsid { src } => Inst::TlbFenceAsid { src },
        MInst::Wfi => Inst::Wfi,
        MInst::SyncI => Inst::SyncI,
        MInst::SoftwareTrap { code } => Inst::SoftwareTrap { code },
    }
}

impl MInst {
    /// The register move the shared lowering prelude asks for; the move
    /// encoding does not depend on the type.
    pub fn gen_move(dst: Reg, src: Reg, ty: ValueType) -> (m: MInst)
        ensures
            m == (MInst::Mov { dst, src }),
    {
        MInst::Mov { dst, src }
    }

    /// The lowered form of the machine instructions the shared prelude
    /// produces: moves and stack-slot addresses.
    pub fn from(inst: Inst) -> (m: MInst)
        requires
            inst is Mov || inst is StackAddr,
        ensures
            machine_inst(m) == inst,
    {
        match inst {
            Inst::Mov { dst, src } => MInst::Mov { dst, src },
            Inst::StackAddr { dst, mem } => MInst::StackAddr { dst, mem },
            _ => MInst::Fence,
        }
    }
}

/// The ABI registers (r1..r11, r15) and the architectural stack pointer r13:
/// the registers a fixed-GPR access may name.
pub open spec fn fixed_gpr_ok(register: u8) -> bool {
    (1 <= register <= 11) || register == 13 || register == 15
}

/// A word constant of at most 32 bits.
pub fn sia_load_const(dst: Reg, value: u64) -> (m: MInst)
    requires
        value <= u32::MAX,
    ensures
        m == (MInst::LoadConst32 { dst, value: value as u32 }),
{
    MInst::LoadConst32 { dst, value: value as u32 }
}

/// Read a fixed general-purpose register.
pub fn sia_m_gpr_read(dst: Reg, register: u8) -> (m: MInst)
    requires
        fixed_gpr_ok(register),
    ensures
        m == (MInst::ReadFixedGpr { dst, index: register }),
{
    MInst::ReadFixedGpr { dst, index: register }
}

/// Write a fixed general-purpose register.
pub fn sia_m_gpr_write(src: Reg, register: u8) -> (m: MInst)
    requires
        fixed_gpr_ok(register),
    ensures
        m == (MInst::WriteFixedGpr { src, index: register }),
{
    MInst::WriteFixedGpr { src, index: register }
}

/// Sign or zero extension.
pub fn sia_extend(dst: Reg, src: Reg, signed: bool, from_bits: u8, to_bits: u8) -> (m: MInst)
    ensures
        m == (MInst::Extend { dst, src, signed, from_bits, to_bits }),
{
    MInst::Extend { dst, src, signed, from_bits, to_bits }
}

/// Integer comparison into a canonical boolean.
pub fn sia_icmp(dst: Reg, cc: &IntCC, lhs: Reg, rhs: Reg) -> (m: MInst)
    ensures
        m == (MInst::Icmp { dst, cc: *cc, lhs, rhs }),
{
    MInst::Icmp { dst, cc: *cc, lhs, rhs }
}

/// A load through a base register and offset.
pub fn sia_load_offset(dst: Reg, base: Reg, offset: i32, ty: ValueType) -> (m: MInst)
    ensures
        m == (MInst::LoadBaseOffset { dst, base, offset, ty }),
{
    MInst::LoadBaseOffset { dst, base, offset, ty }
}

/// A store through a base register and offset.
pub fn sia_store_offset(src: Reg, base: Reg, offset: i32, ty: ValueType) -> (m: MInst)
    ensures
        m == (MInst::StoreBaseOffset { src, base, offset, ty }),
{
    MInst::StoreBaseOffset { src, base, offset, ty }
}

/// A two-way branch on a nonzero register.
pub fn sia_brnz(test: Reg, taken: u32, not_taken: u32) -> (m: MInst)
    ensures
        m == (MInst::BrNz { test, taken, not_taken }),
{
    MInst::BrNz { test, taken, not_taken }
}

} // verus!
