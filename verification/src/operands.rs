//! The register operands of each instruction, as the register allocator is
//! told about them: uses, definitions, fixed-register bindings and clobbers.

use crate::inst::{ArgPair, CallRetPair, Inst, RetLocation};
use crate::regs::{preg, preg_set_empty, preg_set_indices, preg_set_remove, preg_set_with, Reg};
use regalloc2::PRegSet;
use vstd::prelude::*;

verus! {

/// One operand report.
#[derive(Clone, Copy, Debug)]
pub enum Operand {
    /// The register is read.
    Use(Reg),
    /// The register is written.
    Def(Reg),
    /// The value is read from a fixed register.
    FixedUse { vreg: Reg, preg: Reg },
    /// The value is written to a fixed register.
    FixedDef { vreg: Reg, preg: Reg },
    /// The value is written somewhere the allocator may choose.
    AnyDef(Reg),
    /// The registers are overwritten.
    Clobbers(PRegSet),
}

/// An operand report, with a clobber set given by register indices.
pub enum OperandView {
    Use(Reg),
    Def(Reg),
    FixedUse(Reg, Reg),
    FixedDef(Reg, Reg),
    AnyDef(Reg),
    Clobbers(Set<usize>),
}

impl View for Operand {
    type V = OperandView;

    open spec fn view(&self) -> OperandView {
        match *self {
            Operand::Use(r) => OperandView::Use(r),
            Operand::Def(r) => OperandView::Def(r),
            Operand::FixedUse { vreg, preg } => OperandView::FixedUse(vreg, preg),
            Operand::FixedDef { vreg, preg } => OperandView::FixedDef(vreg, preg),
            Operand::AnyDef(r) => OperandView::AnyDef(r),
            Operand::Clobbers(s) => OperandView::Clobbers(preg_set_indices(s)),
        }
    }
}

/// The single register `index`, as a clobber set.
pub open spec fn fixed_gpr_clobber(index: u8) -> Set<usize> {
    set![index as usize]
}

/// Whether a call's return value arrives in register `i`.
pub open spec fn returns_in(d: CallRetPair, i: usize) -> bool {
    match d.location {
        RetLocation::Reg(p, _) => p@ == i,
        RetLocation::Stack(..) => false,
    }
}

/// The registers that receive a call's register return values.
pub open spec fn ret_reg_indices(defs: Seq<CallRetPair>) -> Set<usize> {
    Set::new(|i: usize| exists|j: int| 0 <= j < defs.len() && returns_in(#[trigger] defs[j], i))
}

/// A call reads its arguments from their fixed registers, writes each return
/// value to its register (or anywhere, for a stack return), and clobbers its
/// clobber set except the registers that carry return values.
pub open spec fn call_operands(uses: Seq<ArgPair>, defs: Seq<CallRetPair>, clobbers: Set<usize>) -> Seq<OperandView> {
    uses.map_values(|a: ArgPair| OperandView::FixedUse(a.vreg, a.preg)) + defs.map_values(
        |d: CallRetPair|
            match d.location {
                RetLocation::Reg(p, _) => OperandView::FixedDef(d.vreg, p),
                RetLocation::Stack(..) => OperandView::AnyDef(d.vreg),
            },
    ) + seq![OperandView::Clobbers(clobbers.difference(ret_reg_indices(defs)))]
}

/// Fixed-register bindings: definitions for incoming arguments, uses for
/// outgoing return values.
pub open spec fn pair_views(pairs: Seq<ArgPair>, def: bool) -> Seq<OperandView> {
    pairs.map_values(
        |a: ArgPair|
            if def {
                OperandView::FixedDef(a.vreg, a.preg)
            } else {
                OperandView::FixedUse(a.vreg, a.preg)
            },
    )
}

/// The operands of an instruction, in report order.
pub open spec fn operand_views(inst: Inst) -> Seq<OperandView> {
    match inst {
        Inst::Args { args } => pair_views(args@, true),
        Inst::Rets { rets } => pair_views(rets@, false),
        Inst::DummyUse { reg } => seq![OperandView::Use(reg)],
        Inst::SRead { dst, .. } => seq![OperandView::Def(dst)],
        Inst::ReadFixedGpr { dst, index } => seq![
            OperandView::Clobbers(fixed_gpr_clobber(index)),
            OperandView::Def(dst),
        ],
        Inst::WriteFixedGpr { src, index } => seq![
            OperandView::Use(src),
            OperandView::Clobbers(fixed_gpr_clobber(index)),
        ],
        Inst::SWrite { src, .. } | Inst::SRetCtx { src } | Inst::TlbFenceVa { src }
        | Inst::TlbFenceAsid { src } => seq![OperandView::Use(src)],
        Inst::SSwapScratch { dst, src } => seq![OperandView::Use(src), OperandView::Def(dst)],
        Inst::TrapIfNz { test, .. } | Inst::TrapIfZ { test, .. } => seq![OperandView::Use(test)],
        Inst::Mov { dst, src } => seq![OperandView::Use(src), OperandView::Def(dst)],
        Inst::Add { dst, lhs, rhs } | Inst::TwoOp { dst, lhs, rhs, .. } | Inst::Icmp {
            dst,
            lhs,
            rhs,
            ..
        } => seq![OperandView::Use(lhs), OperandView::Use(rhs), OperandView::Def(dst)],
        Inst::Unary { dst, src, .. } | Inst::ShiftImm { dst, src, .. } | Inst::Addi7 {
            dst,
            src,
            ..
        } | Inst::Extend { dst, src, .. } | Inst::AddImm { dst, src, .. } => seq![
            OperandView::Use(src),
            OperandView::Def(dst),
        ],
        Inst::Li7 { dst, .. } | Inst::LoadConst32 { dst, .. } | Inst::LoadExtName { dst, .. }
        | Inst::StackAddr { dst, .. } => seq![
            OperandView::Def(dst),
        ],
        Inst::Load { dst, base, .. } | Inst::LoadBaseOffset { dst, base, .. } => seq![
            OperandView::Use(base),
            OperandView::Def(dst),
        ],
        Inst::Store { src, base, .. } | Inst::StoreBaseOffset { src, base, .. } => seq![
            OperandView::Use(src),
            OperandView::Use(base),
        ],
        Inst::IndexedLoad { dst, base, index } => seq![
            OperandView::Use(base),
            OperandView::Use(index),
            OperandView::Def(dst),
        ],
        Inst::IndexedStore { src, base, index } => seq![
            OperandView::Use(src),
            OperandView::Use(base),
            OperandView::Use(index),
        ],
        Inst::LoadStack { dst, .. } => seq![OperandView::Def(dst)],
        Inst::StoreStack { src, .. } => seq![OperandView::Use(src)],
        Inst::StackLowerBoundTrap { limit } => seq![OperandView::Use(limit)],
        Inst::BrNz { test, .. } => seq![OperandView::Use(test)],
        Inst::Call { info } => call_operands(info.uses@, info.defs@, preg_set_indices(info.clobbers)),
        Inst::CallInd { info } => seq![OperandView::Use(info.dest)] + call_operands(
            info.uses@,
            info.defs@,
            preg_set_indices(info.clobbers),
        ),
        _ => Seq::empty(),
    }
}

/// A call never reports a register both as the fixed destination of one of
/// its return values (`returns_in`) and as clobbered: the register allocator would reject
/// such an instruction. Every other register of its clobber set stays
/// clobbered.
pub proof fn lemma_call_clobbers_exclude_return_regs(
    uses: Seq<ArgPair>,
    defs: Seq<CallRetPair>,
    clobbers: Set<usize>,
)
    ensures
        ({
            let ops = call_operands(uses, defs, clobbers);
            let reported = ops.last();
            &&& reported is Clobbers
            &&& forall|j: int, i: usize|
                0 <= j < defs.len() && #[trigger] returns_in(defs[j], i)
                    ==> !reported->Clobbers_0.contains(i)
            &&& forall|i: usize|
                clobbers.contains(i) && !ret_reg_indices(defs).contains(i)
                    ==> #[trigger] reported->Clobbers_0.contains(i)
        }),
{
    let ops = call_operands(uses, defs, clobbers);
    assert forall|j: int, i: usize|
        0 <= j < defs.len() && #[trigger] returns_in(defs[j], i)
            implies !ops.last()->Clobbers_0.contains(i) by {
        assert(ret_reg_indices(defs).contains(i));
    }
}

/// The operands can be reported: a fixed GPR names one of r0..r15.
pub open spec fn operands_ok(inst: Inst) -> bool {
    match inst {
        Inst::ReadFixedGpr { index, .. } | Inst::WriteFixedGpr { index, .. } => index < 16,
        _ => true,
    }
}

/// `ops` is `old` followed by operands with the given views.
pub open spec fn extends(old: Seq<Operand>, ops: Seq<Operand>, added: Seq<OperandView>) -> bool {
    &&& ops.len() == old.len() + added.len()
    &&& forall|i: int| 0 <= i < old.len() ==> ops[i] == old[i]
    &&& forall|j: int| 0 <= j < added.len() ==> (#[trigger] ops[old.len() + j])@ == added[j]
}

proof fn lemma_extends_push(old: Seq<Operand>, mid: Seq<Operand>, added: Seq<OperandView>, op: Operand)
    requires
        extends(old, mid, added),
    ensures
        extends(old, mid.push(op), added.push(op@)),
{
    let ops = mid.push(op);
    let added2 = added.push(op@);
    assert forall|j: int| 0 <= j < added2.len() implies (#[trigger] ops[old.len() + j])@ == added2[j] by {
        if j < added.len() {
            assert(ops[old.len() + j] == mid[old.len() + j]);
        }
    }
}

fn push_op(ops: &mut Vec<Operand>, op: Operand, Ghost(base): Ghost<Seq<Operand>>, Ghost(added): Ghost<Seq<OperandView>>)
    requires
        extends(base, old(ops)@, added),
    ensures
        extends(base, final(ops)@, added.push(op@)),
{
    proof {
        lemma_extends_push(base, old(ops)@, added, op);
    }
    ops.push(op);
}

/// The clobber set holding the single register `index`.
fn fixed_gpr_clobber_set(index: u8) -> (s: PRegSet)
    requires
        index < 16,
    ensures
        preg_set_indices(s) == fixed_gpr_clobber(index),
{
    let s = preg_set_with(preg_set_empty(), preg(index));
    assert(preg_set_indices(s) =~= fixed_gpr_clobber(index));
    s
}

/// Remove the return registers of `defs` from `clobbers`.
fn without_ret_regs(clobbers: PRegSet, defs: &Vec<CallRetPair>) -> (s: PRegSet)
    ensures
        preg_set_indices(s) == preg_set_indices(clobbers).difference(ret_reg_indices(defs@)),
{
    let mut s = clobbers;
    let mut i: usize = 0;
    while i < defs.len()
        invariant
            i <= defs@.len(),
            preg_set_indices(s) == preg_set_indices(clobbers).difference(
                ret_reg_indices(defs@.subrange(0, i as int)),
            ),
        decreases defs@.len() - i,
    {
        let d = defs[i];
        if let RetLocation::Reg(p, _) = d.location {
            preg_set_remove(&mut s, preg(p.index()));
        }
        proof {
            let pre = defs@.subrange(0, i as int);
            let post = defs@.subrange(0, i + 1);
            assert forall|k: usize| ret_reg_indices(post).contains(k) == (ret_reg_indices(pre).contains(k)
                || returns_in(d, k)) by {
                if ret_reg_indices(post).contains(k) {
                    let j = choose|j: int| 0 <= j < post.len() && returns_in(#[trigger] post[j], k);
                    if j < i {
                        assert(pre[j] == post[j]);
                    }
                }
                if ret_reg_indices(pre).contains(k) {
                    let j = choose|j: int| 0 <= j < pre.len() && returns_in(#[trigger] pre[j], k);
                    assert(post[j] == pre[j]);
                }
                if returns_in(d, k) {
                    assert(post[i as int] == d);
                }
            }
            assert(preg_set_indices(s) =~= preg_set_indices(clobbers).difference(ret_reg_indices(post)));
        }
        i = i + 1;
    }
    assert(defs@.subrange(0, defs@.len() as int) =~= defs@);
    s
}

/// Report the operands of a call.
fn call_operands_exec(
    ops: &mut Vec<Operand>,
    uses: &Vec<ArgPair>,
    defs: &Vec<CallRetPair>,
    clobbers: PRegSet,
    Ghost(base): Ghost<Seq<Operand>>,
    Ghost(added): Ghost<Seq<OperandView>>,
)
    requires
        extends(base, old(ops)@, added),
    ensures
        extends(base, final(ops)@, added + call_operands(uses@, defs@, preg_set_indices(clobbers))),
{
    let ghost uv = uses@.map_values(|a: ArgPair| OperandView::FixedUse(a.vreg, a.preg));
    let ghost dv = defs@.map_values(
        |d: CallRetPair|
            match d.location {
                RetLocation::Reg(p, _) => OperandView::FixedDef(d.vreg, p),
                RetLocation::Stack(..) => OperandView::AnyDef(d.vreg),
            },
    );
    let mut i: usize = 0;
    while i < uses.len()
        invariant
            i <= uses@.len(),
            uv == uses@.map_values(|a: ArgPair| OperandView::FixedUse(a.vreg, a.preg)),
            extends(base, ops@, added + uv.subrange(0, i as int)),
        decreases uses@.len() - i,
    {
        let a = uses[i];
        push_op(ops, Operand::FixedUse { vreg: a.vreg, preg: a.preg }, Ghost(base), Ghost(added + uv.subrange(0, i as int)));
        assert(added + uv.subrange(0, i as int) + seq![uv[i as int]] =~= added + uv.subrange(0, i + 1));
        i = i + 1;
    }
    assert(uv.subrange(0, uses@.len() as int) =~= uv);
    let mut k: usize = 0;
    while k < defs.len()
        invariant
            k <= defs@.len(),
            uv.len() == uses@.len(),
            dv == defs@.map_values(
                |d: CallRetPair|
                    match d.location {
                        RetLocation::Reg(p, _) => OperandView::FixedDef(d.vreg, p),
                        RetLocation::Stack(..) => OperandView::AnyDef(d.vreg),
                    },
            ),
            extends(base, ops@, added + uv + dv.subrange(0, k as int)),
        decreases defs@.len() - k,
    {
        let d = defs[k];
        let op = match d.location {
            RetLocation::Reg(p, _) => Operand::FixedDef { vreg: d.vreg, preg: p },
            RetLocation::Stack(..) => Operand::AnyDef(d.vreg),
        };
        push_op(ops, op, Ghost(base), Ghost(added + uv + dv.subrange(0, k as int)));
        assert(added + uv + dv.subrange(0, k as int) + seq![dv[k as int]] =~= added + uv + dv.subrange(0, k + 1));
        k = k + 1;
    }
    assert(dv.subrange(0, defs@.len() as int) =~= dv);
    let remaining = without_ret_regs(clobbers, defs);
    push_op(ops, Operand::Clobbers(remaining), Ghost(base), Ghost(added + uv + dv));
    assert(added + uv + dv + seq![Operand::Clobbers(remaining)@] =~= added + call_operands(
        uses@,
        defs@,
        preg_set_indices(clobbers),
    ));
}

/// Report fixed-register bindings.
fn pair_operands_exec(ops: &mut Vec<Operand>, pairs: &Vec<ArgPair>, def: bool)
    requires
        old(ops)@.len() == 0,
    ensures
        extends(Seq::empty(), final(ops)@, pair_views(pairs@, def)),
{
    let ghost e = Seq::<Operand>::empty();
    let ghost pv = pair_views(pairs@, def);
    let mut i: usize = 0;
    assert(extends(e, ops@, pv.subrange(0, 0)));
    while i < pairs.len()
        invariant
            i <= pairs@.len(),
            pv == pair_views(pairs@, def),
            extends(e, ops@, pv.subrange(0, i as int)),
        decreases pairs@.len() - i,
    {
        let a = pairs[i];
        let op = if def {
            Operand::FixedDef { vreg: a.vreg, preg: a.preg }
        } else {
            Operand::FixedUse { vreg: a.vreg, preg: a.preg }
        };
        push_op(ops, op, Ghost(e), Ghost(pv.subrange(0, i as int)));
        assert(pv.subrange(0, i as int).push(pv[i as int]) =~= pv.subrange(0, i + 1));
        i = i + 1;
    }
    assert(pv.subrange(0, pairs@.len() as int) =~= pv);
}

impl Inst {
    /// The register operands of the instruction, in the order the register
    /// allocator is told about them.
    pub fn get_operands(&self) -> (ops: Vec<Operand>)
        requires
            operands_ok(*self),
        ensures
            extends(Seq::empty(), ops@, operand_views(*self)),
    {
        let mut ops: Vec<Operand> = Vec::new();
        let ghost e = Seq::<Operand>::empty();
        let ghost none = Seq::<OperandView>::empty();
        match self {
            Self::Args { args } => pair_operands_exec(&mut ops, args, true),
            Self::Rets { rets } => pair_operands_exec(&mut ops, rets, false),
            Self::DummyUse { reg } => ops.push(Operand::Use(*reg)),
            Self::SRead { dst, .. } => ops.push(Operand::Def(*dst)),
            Self::ReadFixedGpr { dst, index } => {
                ops.push(Operand::Clobbers(fixed_gpr_clobber_set(*index)));
                ops.push(Operand::Def(*dst));
            },
            Self::WriteFixedGpr { src, index } => {
                ops.push(Operand::Use(*src));
                ops.push(Operand::Clobbers(fixed_gpr_clobber_set(*index)));
            },
            Self::SWrite { src, .. } | Self::SRetCtx { src } | Self::TlbFenceVa { src }
            | Self::TlbFenceAsid { src } => ops.push(Operand::Use(*src)),
            Self::SSwapScratch { dst, src } | Self::Mov { dst, src } => {
                ops.push(Operand::Use(*src));
                ops.push(Operand::Def(*dst));
            },
            Self::TrapIfNz { test, .. } | Self::TrapIfZ { test, .. } | Self::BrNz { test, .. } => {
                ops.push(Operand::Use(*test))
            },
            Self::Add { dst, lhs, rhs } | Self::TwoOp { dst, lhs, rhs, .. } | Self::Icmp {
                dst,
                lhs,
                rhs,
                ..
            } => {
                ops.push(Operand::Use(*lhs));
                ops.push(Operand::Use(*rhs));
                ops.push(Operand::Def(*dst));
            },
            Self::Unary { dst, src, .. } | Self::ShiftImm { dst, src, .. } | Self::Addi7 {
                dst,
                src,
                ..
            } | Self::Extend { dst, src, .. } | Self::AddImm { dst, src, .. } => {
                ops.push(Operand::Use(*src));
                ops.push(Operand::Def(*dst));
            },
            Self::Li7 { dst, .. } | Self::LoadConst32 { dst, .. } | Self::LoadExtName { dst, .. }
            | Self::StackAddr { dst, .. } | Self::LoadStack { dst, .. } => ops.push(Operand::Def(*dst)),
            Self::Load { dst, base, .. } | Self::LoadBaseOffset { dst, base, .. } => {
                ops.push(Operand::Use(*base));
                ops.push(Operand::Def(*dst));
            },
            Self::Store { src, base, .. } | Self::StoreBaseOffset { src, base, .. } => {
                ops.push(Operand::Use(*src));
                ops.push(Operand::Use(*base));
            },
            Self::IndexedLoad { dst, base, index } => {
                ops.push(Operand::Use(*base));
                ops.push(Operand::Use(*index));
                ops.push(Operand::Def(*dst));
            },
            Self::IndexedStore { src, base, index } => {
                ops.push(Operand::Use(*src));
                ops.push(Operand::Use(*base));
                ops.push(Operand::Use(*index));
            },
            Self::StoreStack { src, .. } | Self::StackLowerBoundTrap { limit: src } => {
                ops.push(Operand::Use(*src))
            },
            Self::Call { info } => {
                call_operands_exec(&mut ops, &info.uses, &info.defs, info.clobbers, Ghost(e), Ghost(none));
                assert(none + call_operands(info.uses@, info.defs@, preg_set_indices(info.clobbers))
                    =~= operand_views(*self));
            },
            Self::CallInd { info } => {
                ops.push(Operand::Use(info.dest));
                let ghost first = seq![OperandView::Use(info.dest)];
                assert(extends(e, ops@, first));
                call_operands_exec(&mut ops, &info.uses, &info.defs, info.clobbers, Ghost(e), Ghost(first));
            },
            _ => {},
        }
        proof {
            let v = operand_views(*self);
            assert(ops@.len() == v.len());
            assert forall|j: int| 0 <= j < v.len() implies (#[trigger] ops@[0 + j])@ == v[j] by {}
        }
        ops
    }
}

} // verus!
