//! Emission of SIA32 machine instructions into a code buffer.
//!
//! Straight-line expansions are written as their halfwords. Traps, branches,
//! literal-pool constants and calls additionally create local labels and
//! record label fixups, call sites and relocations.

use crate::buffer::{le4, padding, room, words_bytes, CodeBuffer, LabelFixup, RelocKind};
use crate::consts::const_digits;
use crate::encode::{self, branch11_word, ldpc_word, reg_imm7_word, word4};
use crate::inst::{
    emit_ok, inline_const, is_straight, lemma_straight_words_size, lemma_words_bytes_concat,
    lemma_words_bytes_len, put_words, spec_worst_case_size, straight_words, CallInfo, FrameLayout, Inst,
};
use crate::label::{patchable, LabelUse};
use crate::regs::Reg;
use vstd::prelude::*;

verus! {

broadcast use Reg::lemma_spec_new_view;

/// What emission needs to know of the function being emitted.
pub struct EmitState {
    pub frame_layout: FrameLayout,
}

impl EmitState {
    /// The state for a function with the given frame layout.
    pub fn new(frame_layout: FrameLayout) -> (s: Self)
        ensures
            s.frame_layout == frame_layout,
    {
        EmitState { frame_layout }
    }
}

impl Default for EmitState {
    /// The state for a function with the empty frame.
    fn default() -> (s: Self)
        ensures
            s.frame_layout.word_bytes == 0,
            s.frame_layout.incoming_args_size == 0,
            s.frame_layout.tail_args_size == 0,
            s.frame_layout.clobbered_callee_saves@ == Seq::<Reg>::empty(),
            s.frame_layout.clobber_size == 0,
            s.frame_layout.fixed_frame_storage_size == 0,
            s.frame_layout.outgoing_args_size == 0,
            s.frame_layout.stackslots_size == 0,
            s.frame_layout.setup_area_size == 0,
            s.frame_layout.function_calls == crate::inst::FunctionCalls::NoCalls,
    {
        EmitState { frame_layout: FrameLayout::default() }
    }
}

/// `BNZ test, 0`, patched later through a `Cond7` fixup.
pub open spec fn bnz0(test: Reg) -> u16 {
    reg_imm7_word(0xA000, test@, 0)
}

/// `B 0`, patched later through a `Branch11` fixup.
pub open spec fn b0() -> u16 {
    branch11_word(0xB000, 0)
}

/// `TRAP 0`.
pub open spec fn trap0() -> u16 {
    0xC00F
}

/// `LDPC.W r, 0`, patched later through a `Literal8` fixup.
pub open spec fn ldpc0(r: Reg) -> u16 {
    ldpc_word(r@, 0)
}

/// `CALLR r`, which is `JALR lr, r`.
pub open spec fn callr_word(r: Reg) -> u16 {
    word4(12, 14, r@ as int, 0)
}

pub open spec fn fixup(offset: int, label: int, kind: LabelUse) -> LabelFixup {
    LabelFixup { offset: offset as u32, label: label as u32, kind }
}

/// The buffer changed in its bytes only.
pub open spec fn only_data_changed(c0: CodeBuffer, c1: CodeBuffer) -> bool {
    &&& c1.relocs == c0.relocs
    &&& c1.fixups == c0.fixups
    &&& c1.label_offsets == c0.label_offsets
    &&& c1.call_sites == c0.call_sites
}

/// The effect of emitting `inst` on a buffer `c0`, giving `c1`.
pub open spec fn emitted(inst: Inst, f: FrameLayout, c0: CodeBuffer, c1: CodeBuffer) -> bool {
    let o = c0.data@.len() as int;
    let l = c0.label_offsets@.len() as int;
    match inst {
        Inst::TrapIfNz { test, .. } => {
            &&& c1.data@ == c0.data@ + words_bytes(seq![bnz0(test), b0(), trap0()])
            &&& c1.fixups@ == c0.fixups@ + seq![
                fixup(o, l, LabelUse::Cond7),
                fixup(o + 2, l + 1, LabelUse::Branch11),
            ]
            &&& c1.label_offsets@ == c0.label_offsets@ + seq![
                Some((o + 4) as u32),
                Some((o + 6) as u32),
            ]
            &&& c1.relocs == c0.relocs
            &&& c1.call_sites == c0.call_sites
        },
        Inst::TrapIfZ { test, .. } => {
            &&& c1.data@ == c0.data@ + words_bytes(seq![bnz0(test), trap0()])
            &&& c1.fixups@ == c0.fixups@.push(fixup(o, l, LabelUse::Cond7))
            &&& c1.label_offsets@ == c0.label_offsets@.push(Some((o + 4) as u32))
            &&& c1.relocs == c0.relocs
            &&& c1.call_sites == c0.call_sites
        },
        Inst::LoadConst32 { dst, value } => if inline_const(value) {
            c1.data@ == c0.data@ + words_bytes(straight_words(inst, f)) && only_data_changed(c0, c1)
        } else {
            let pad = padding(o + 4, 4);
            let lit = o + 4 + pad.len();
            &&& c1.data@ == c0.data@ + words_bytes(seq![ldpc0(dst), b0()]) + pad + le4(value)
            &&& c1.fixups@ == c0.fixups@ + seq![
                fixup(o, l, LabelUse::Literal8),
                fixup(o + 2, l + 1, LabelUse::Branch11),
            ]
            &&& c1.label_offsets@ == c0.label_offsets@ + seq![
                Some(lit as u32),
                Some((lit + 4) as u32),
            ]
            &&& c1.relocs == c0.relocs
            &&& c1.call_sites == c0.call_sites
        },
        Inst::Jump { target } => {
            &&& c1.data@ == c0.data@ + words_bytes(seq![b0()])
            &&& c1.fixups@ == c0.fixups@.push(fixup(o, target as int, LabelUse::Branch11))
            &&& c1.label_offsets == c0.label_offsets
            &&& c1.relocs == c0.relocs
            &&& c1.call_sites == c0.call_sites
        },
        Inst::BrNz { test, taken, not_taken } => {
            &&& c1.data@ == c0.data@ + words_bytes(seq![bnz0(test), b0()])
            &&& c1.fixups@ == c0.fixups@ + seq![
                fixup(o, taken as int, LabelUse::Cond7),
                fixup(o + 2, not_taken as int, LabelUse::Branch11),
            ]
            &&& c1.label_offsets == c0.label_offsets
            &&& c1.relocs == c0.relocs
            &&& c1.call_sites == c0.call_sites
        },
        Inst::Call { info } => {
            let r12 = Reg::spec_new(12);
            let pad = padding(o + 6, 4);
            let lit = o + 6 + pad.len();
            &&& c1.data@ == c0.data@ + words_bytes(seq![ldpc0(r12), callr_word(r12), b0()]) + pad
                + le4(0)
            &&& c1.fixups@ == c0.fixups@ + seq![
                fixup(o, l, LabelUse::Literal8),
                fixup(o + 4, l + 1, LabelUse::Branch11),
            ]
            &&& c1.label_offsets@ == c0.label_offsets@ + seq![
                Some(lit as u32),
                Some((lit + 4) as u32),
            ]
            &&& c1.call_sites@ == c0.call_sites@.push((o + 4) as u32)
            &&& c1.relocs@.len() == c0.relocs@.len() + 1
            &&& c1.relocs@.subrange(0, c0.relocs@.len() as int) == c0.relocs@
            &&& c1.relocs@.last().offset == lit
            &&& c1.relocs@.last().kind == RelocKind::Abs4
            &&& c1.relocs@.last().target@ == info.dest@
            &&& c1.relocs@.last().addend == 0
        },
        Inst::CallInd { info } => {
            &&& c1.data@ == c0.data@ + words_bytes(seq![callr_word(info.dest)])
            &&& c1.call_sites@ == c0.call_sites@.push((o + 2) as u32)
            &&& c1.fixups == c0.fixups
            &&& c1.label_offsets == c0.label_offsets
            &&& c1.relocs == c0.relocs
        },
        _ => c1.data@ == c0.data@ + words_bytes(straight_words(inst, f)) && only_data_changed(
            c0,
            c1,
        ),
    }
}

proof fn lemma_bytes_of(ws: Seq<u16>)
    ensures
        ws.len() == 1 ==> words_bytes(ws) == words_bytes(Seq::<u16>::empty()) + crate::buffer::le2(
            ws[0],
        ),
        words_bytes(ws).len() == 2 * ws.len(),
{
    lemma_words_bytes_len(ws);
    if ws.len() == 1 {
        assert(ws.drop_last() =~= Seq::<u16>::empty());
    }
}

/// Append one halfword, in the terms of `words_bytes`.
fn put_word(code: &mut CodeBuffer, w: u16)
    requires
        room(*old(code), 2),
    ensures
        final(code).data@ == old(code).data@ + words_bytes(seq![w]),
        final(code).data@.len() == old(code).data@.len() + 2,
        only_data_changed(*old(code), *final(code)),
{
    code.put2(w);
    proof {
        lemma_bytes_of(seq![w]);
        assert(words_bytes(Seq::<u16>::empty()) =~= Seq::<u8>::empty());
        assert(old(code).data@ + crate::buffer::le2(w) =~= old(code).data@ + (Seq::<u8>::empty()
            + crate::buffer::le2(w)));
    }
}

/// `LDPC.W dst, literal; B done; .align 4; literal: .word value; done:`.
fn emit_literal32(code: &mut CodeBuffer, dst: Reg, value: u32)
    requires
        room(*old(code), 16),
        old(code).label_offsets@.len() + 2 < u32::MAX,
    ensures
        ({
            let o = old(code).data@.len() as int;
            let l = old(code).label_offsets@.len() as int;
            let pad = padding(o + 4, 4);
            let lit = o + 4 + pad.len();
            &&& final(code).data@ == old(code).data@ + words_bytes(seq![ldpc0(dst), b0()]) + pad
                + le4(value)
            &&& final(code).fixups@ == old(code).fixups@ + seq![
                fixup(o, l, LabelUse::Literal8),
                fixup(o + 2, l + 1, LabelUse::Branch11),
            ]
            &&& final(code).label_offsets@ == old(code).label_offsets@ + seq![
                Some(lit as u32),
                Some((lit + 4) as u32),
            ]
            &&& final(code).relocs == old(code).relocs
            &&& final(code).call_sites == old(code).call_sites
        }),
{
    let ghost c0 = *code;
    let literal = code.get_label();
    let done = code.get_label();
    let load_at = code.cur_offset();
    code.use_label_at_offset(load_at, literal, LabelUse::Literal8);
    put_word(code, encode::ldpc_w(dst, 0).unwrap());
    let branch_at = code.cur_offset();
    code.use_label_at_offset(branch_at, done, LabelUse::Branch11);
    put_word(code, encode::b(0).unwrap());
    proof {
        lemma_words_bytes_concat(seq![ldpc0(dst)], seq![b0()]);
        assert(seq![ldpc0(dst)] + seq![b0()] =~= seq![ldpc0(dst), b0()]);
        lemma_bytes_of(seq![ldpc0(dst)]);
        lemma_bytes_of(seq![b0()]);
        assert(branch_at == c0.data@.len() + 2);
    }
    code.align_to(4);
    code.bind_label(literal);
    code.put4(value);
    code.bind_label(done);
    proof {
        let o = c0.data@.len() as int;
        assert(padding(o + 4, 4).len() <= 3);
        assert(code.fixups@ =~= c0.fixups@ + seq![
            fixup(o, literal as int, LabelUse::Literal8),
            fixup(o + 2, done as int, LabelUse::Branch11),
        ]);
        assert(code.label_offsets@ =~= c0.label_offsets@ + seq![
            Some((o + 4 + padding(o + 4, 4).len()) as u32),
            Some((o + 4 + padding(o + 4, 4).len() + 4) as u32),
        ]);
        assert(code.data@ =~= c0.data@ + words_bytes(seq![ldpc0(dst), b0()]) + padding(o + 4, 4)
            + le4(value));
    }
}

/// `BNZ test, trap; B done; trap: TRAP 0; done:`.
fn emit_trap_if_nz(code: &mut CodeBuffer, test: Reg)
    requires
        room(*old(code), 6),
        old(code).label_offsets@.len() + 2 < u32::MAX,
    ensures
        emitted(Inst::TrapIfNz { test, code: 0 }, arbitrary(), *old(code), *final(code)),
{
    let ghost c0 = *code;
    let trap = code.get_label();
    let done = code.get_label();
    let cond_at = code.cur_offset();
    code.use_label_at_offset(cond_at, trap, LabelUse::Cond7);
    put_word(code, encode::bnz(test, 0).unwrap());
    let skip_at = code.cur_offset();
    code.use_label_at_offset(skip_at, done, LabelUse::Branch11);
    put_word(code, encode::b(0).unwrap());
    code.bind_label(trap);
    put_word(code, encode::trap(0).unwrap());
    code.bind_label(done);
    proof {
        let o = c0.data@.len() as int;
        lemma_words_bytes_concat(seq![bnz0(test)], seq![b0()]);
        lemma_words_bytes_concat(seq![bnz0(test), b0()], seq![trap0()]);
        assert(seq![bnz0(test)] + seq![b0()] =~= seq![bnz0(test), b0()]);
        assert(seq![bnz0(test), b0()] + seq![trap0()] =~= seq![bnz0(test), b0(), trap0()]);
        assert(code.data@ =~= c0.data@ + words_bytes(seq![bnz0(test), b0(), trap0()]));
        assert(code.fixups@ =~= c0.fixups@ + seq![
            fixup(o, trap as int, LabelUse::Cond7),
            fixup(o + 2, done as int, LabelUse::Branch11),
        ]);
        assert(code.label_offsets@ =~= c0.label_offsets@ + seq![
            Some((o + 4) as u32),
            Some((o + 6) as u32),
        ]);
    }
}

/// `BNZ test, done; TRAP 0; done:`.
fn emit_trap_if_z(code: &mut CodeBuffer, test: Reg)
    requires
        room(*old(code), 4),
        old(code).label_offsets@.len() + 1 < u32::MAX,
    ensures
        emitted(Inst::TrapIfZ { test, code: 0 }, arbitrary(), *old(code), *final(code)),
{
    let ghost c0 = *code;
    let done = code.get_label();
    let branch_at = code.cur_offset();
    code.use_label_at_offset(branch_at, done, LabelUse::Cond7);
    put_word(code, encode::bnz(test, 0).unwrap());
    put_word(code, encode::trap(0).unwrap());
    code.bind_label(done);
    proof {
        lemma_words_bytes_concat(seq![bnz0(test)], seq![trap0()]);
        assert(seq![bnz0(test)] + seq![trap0()] =~= seq![bnz0(test), trap0()]);
        assert(code.data@ =~= c0.data@ + words_bytes(seq![bnz0(test), trap0()]));
        assert(code.label_offsets@ =~= c0.label_offsets@.push(Some((c0.data@.len() + 4) as u32)));
    }
}

/// `LDPC.W r12, literal; CALLR r12; B done; .align 4; literal: .word dest
/// (ABS32); done:`. The call site is the return address, right after `CALLR`.
fn emit_direct_call(code: &mut CodeBuffer, info: &CallInfo<String>)
    requires
        room(*old(code), 16),
        old(code).label_offsets@.len() + 2 < u32::MAX,
    ensures
        emitted(Inst::Call { info: *info }, arbitrary(), *old(code), *final(code)),
{
    let ghost c0 = *code;
    let scratch = Reg::scratch();
    proof {
        Reg::lemma_view_injective(scratch, Reg::spec_new(12));
    }
    let literal = code.get_label();
    let done = code.get_label();
    let load_at = code.cur_offset();
    code.use_label_at_offset(load_at, literal, LabelUse::Literal8);
    put_word(code, encode::ldpc_w(scratch, 0).unwrap());
    put_word(code, encode::callr(scratch));
    code.add_call_site();
    let branch_at = code.cur_offset();
    code.use_label_at_offset(branch_at, done, LabelUse::Branch11);
    put_word(code, encode::b(0).unwrap());
    let ghost words = seq![ldpc0(scratch), callr_word(scratch), b0()];
    proof {
        lemma_words_bytes_concat(seq![ldpc0(scratch)], seq![callr_word(scratch)]);
        lemma_words_bytes_concat(seq![ldpc0(scratch), callr_word(scratch)], seq![b0()]);
        assert(seq![ldpc0(scratch)] + seq![callr_word(scratch)] =~= seq![
            ldpc0(scratch),
            callr_word(scratch),
        ]);
        assert(seq![ldpc0(scratch), callr_word(scratch)] + seq![b0()] =~= words);
        assert(code.data@ == c0.data@ + words_bytes(words));
    }
    code.align_to(4);
    code.bind_label(literal);
    code.add_reloc(RelocKind::Abs4, &info.dest, 0);
    code.put4(0);
    code.bind_label(done);
    proof {
        let o = c0.data@.len() as int;
        let pad = padding(o + 6, 4);
        assert(pad.len() <= 3);
        assert(code.fixups@ =~= c0.fixups@ + seq![
            fixup(o, literal as int, LabelUse::Literal8),
            fixup(o + 4, done as int, LabelUse::Branch11),
        ]);
        assert(code.label_offsets@ =~= c0.label_offsets@ + seq![
            Some((o + 6 + pad.len()) as u32),
            Some((o + 6 + pad.len() + 4) as u32),
        ]);
        assert(code.data@ =~= c0.data@ + words_bytes(words) + pad + le4(0));
    }
}

/// Emitting an instruction at a halfword boundary writes at most the number of
/// bytes the instruction reports as its worst case.
pub proof fn lemma_emit_within_reported_size(inst: Inst, f: FrameLayout, c0: CodeBuffer, c1: CodeBuffer)
    requires
        emit_ok(inst, f),
        emitted(inst, f, c0, c1),
        c0.data@.len() % 2 == 0,
    ensures
        c1.data@.len() <= c0.data@.len() + spec_worst_case_size(inst),
{
    let o = c0.data@.len() as int;
    match inst {
        Inst::TrapIfNz { test, .. } => lemma_words_bytes_len(seq![bnz0(test), b0(), trap0()]),
        Inst::TrapIfZ { test, .. } => lemma_words_bytes_len(seq![bnz0(test), trap0()]),
        Inst::Jump { .. } => lemma_words_bytes_len(seq![b0()]),
        Inst::BrNz { test, .. } => lemma_words_bytes_len(seq![bnz0(test), b0()]),
        Inst::CallInd { info } => lemma_words_bytes_len(seq![callr_word(info.dest)]),
        Inst::Call { .. } => {
            let r12 = Reg::spec_new(12);
            lemma_words_bytes_len(seq![ldpc0(r12), callr_word(r12), b0()]);
            assert(padding(o + 6, 4).len() <= 2);
        },
        Inst::LoadConst32 { dst, value } => {
            if inline_const(value) {
                lemma_words_bytes_len(straight_words(inst, f));
                lemma_straight_words_size(inst, f);
            } else {
                lemma_words_bytes_len(seq![ldpc0(dst), b0()]);
            }
        },
        _ => {
            lemma_words_bytes_len(straight_words(inst, f));
            lemma_straight_words_size(inst, f);
        },
    }
}

proof fn lemma_padding4(len: int)
    requires
        len >= 0,
        len % 2 == 0,
    ensures
        (len + padding(len, 4).len()) % 4 == 0,
        padding(len, 4).len() == 0 || padding(len, 4).len() == 2,
{
}

/// Every label fixup that an instruction records against a label it binds
/// itself resolves: once the label is bound, the use can be patched, because
/// the target is suitably aligned and its displacement fits the field. (These
/// are the forward hops of a conditional trap over its branch and trap, of a
/// literal load to its literal word, and of the branch past a literal word.)
pub proof fn lemma_own_fixups_resolve(inst: Inst, f: FrameLayout, c0: CodeBuffer, c1: CodeBuffer)
    requires
        emit_ok(inst, f),
        emitted(inst, f, c0, c1),
        room(c0, 24),
        c0.label_offsets@.len() + 2 < u32::MAX,
        c0.data@.len() % 2 == 0,
    ensures
        forall|k: int|
            c0.fixups@.len() <= k < c1.fixups@.len() && c0.label_offsets@.len() <= (
            #[trigger] c1.fixups@[k]).label < c1.label_offsets@.len() ==> {
                &&& c1.label_offsets@[c1.fixups@[k].label as int] is Some
                &&& patchable(
                    c1.fixups@[k].kind,
                    c1.fixups@[k].offset as int,
                    c1.label_offsets@[c1.fixups@[k].label as int]->0 as int,
                )
            },
{
    let o = c0.data@.len() as int;
    let n = c0.fixups@.len() as int;
    let l = c0.label_offsets@.len() as int;
    match inst {
        Inst::LoadConst32 { value, .. } => {
            if !inline_const(value) {
                lemma_padding4(o + 4);
                assert(c1.fixups@[n] == fixup(o, l, LabelUse::Literal8));
                assert(c1.fixups@[n + 1] == fixup(o + 2, l + 1, LabelUse::Branch11));
                assert(c1.label_offsets@[l] == Some((o + 4 + padding(o + 4, 4).len()) as u32));
                assert(c1.label_offsets@[l + 1] == Some((o + 8 + padding(o + 4, 4).len()) as u32));
            }
        },
        Inst::Call { .. } => {
            lemma_padding4(o + 6);
            assert(c1.fixups@[n] == fixup(o, l, LabelUse::Literal8));
            assert(c1.fixups@[n + 1] == fixup(o + 4, l + 1, LabelUse::Branch11));
            assert(c1.label_offsets@[l] == Some((o + 6 + padding(o + 6, 4).len()) as u32));
            assert(c1.label_offsets@[l + 1] == Some((o + 10 + padding(o + 6, 4).len()) as u32));
        },
        Inst::TrapIfNz { .. } => {
            assert(c1.fixups@[n] == fixup(o, l, LabelUse::Cond7));
            assert(c1.fixups@[n + 1] == fixup(o + 2, l + 1, LabelUse::Branch11));
            assert(c1.label_offsets@[l] == Some((o + 4) as u32));
            assert(c1.label_offsets@[l + 1] == Some((o + 6) as u32));
        },
        Inst::TrapIfZ { .. } => {
            assert(c1.fixups@[n] == fixup(o, l, LabelUse::Cond7));
            assert(c1.label_offsets@[l] == Some((o + 4) as u32));
        },
        _ => {},
    }
}

impl Inst {
    /// Emit the instruction at the end of `code`. No instruction emits more
    /// than `worst_case_size()` bytes.
    pub fn emit(&self, code: &mut CodeBuffer, state: &mut EmitState)
        requires
            emit_ok(*self, old(state).frame_layout),
            room(*old(code), 24),
            old(code).label_offsets@.len() + 2 < u32::MAX,
        ensures
            emitted(*self, old(state).frame_layout, *old(code), *final(code)),
            final(code).data@.len() <= old(code).data@.len() + 24,
            *final(state) == *old(state),
    {
        let ghost c0 = *code;
        match self {
            Self::TrapIfNz { test, .. } => {
                emit_trap_if_nz(code, *test);
                proof {
                    lemma_words_bytes_len(seq![bnz0(*test), b0(), trap0()]);
                }
            },
            Self::TrapIfZ { test, .. } => {
                emit_trap_if_z(code, *test);
                proof {
                    lemma_words_bytes_len(seq![bnz0(*test), trap0()]);
                }
            },
            Self::Jump { target } => {
                let start = code.cur_offset();
                code.use_label_at_offset(start, *target, LabelUse::Branch11);
                put_word(code, encode::b(0).unwrap());
            },
            Self::BrNz { test, taken, not_taken } => {
                let start = code.cur_offset();
                code.use_label_at_offset(start, *taken, LabelUse::Cond7);
                put_word(code, encode::bnz(*test, 0).unwrap());
                let second = code.cur_offset();
                code.use_label_at_offset(second, *not_taken, LabelUse::Branch11);
                put_word(code, encode::b(0).unwrap());
                proof {
                    lemma_words_bytes_concat(seq![bnz0(*test)], seq![b0()]);
                    assert(seq![bnz0(*test)] + seq![b0()] =~= seq![bnz0(*test), b0()]);
                    assert(code.data@ =~= c0.data@ + words_bytes(seq![bnz0(*test), b0()]));
                    assert(code.fixups@ =~= c0.fixups@ + seq![
                        fixup(c0.data@.len() as int, *taken as int, LabelUse::Cond7),
                        fixup(c0.data@.len() as int + 2, *not_taken as int, LabelUse::Branch11),
                    ]);
                }
            },
            Self::Call { info } => {
                emit_direct_call(code, info);
                proof {
                    lemma_words_bytes_len(
                        seq![ldpc0(Reg::spec_new(12)), callr_word(Reg::spec_new(12)), b0()],
                    );
                }
            },
            Self::CallInd { info } => {
                put_word(code, encode::callr(info.dest));
                code.add_call_site();
            },
            Self::LoadConst32 { dst, value } => {
                if const_digits(*value).len() <= 2 {
                    let ws = self.straight_words_exec(&state.frame_layout);
                    put_words(code, &ws);
                    proof {
                        lemma_words_bytes_len(ws@);
                    }
                } else {
                    emit_literal32(code, *dst, *value);
                    proof {
                        lemma_words_bytes_len(seq![ldpc0(*dst), b0()]);
                    }
                }
            },
            _ => {
                let ws = self.straight_words_exec(&state.frame_layout);
                put_words(code, &ws);
                proof {
                    lemma_words_bytes_len(ws@);
                }
            },
        }
    }
}

} // verus!
