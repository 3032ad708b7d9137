//! SIA32 machine-instruction vocabulary and its emission.
//!
//! Semantic instructions are independent of the final 16-bit encoding. Frame
//! and constant pseudos are expanded here, using r12 as the one reserved
//! compiler scratch register.

use crate::buffer::{le2, le4, padding, room, words_bytes, CodeBuffer, LabelFixup, RelocKind};
use crate::consts::{balanced_digits, const32_words, const_digits, const_words};
use crate::encode::{self, branch11_word, ldpc_word, reg_imm7_word, rr_word, shift_imm_word, word4};
use crate::label::LabelUse;
use crate::m7::sx;
use crate::abi::{CallConv, RegClass};
use crate::regs::{preg_set_empty, preg_set_indices, Reg};
use regalloc2::PRegSet;
use vstd::prelude::*;

verus! {

broadcast use Reg::lemma_spec_new_view;

#[derive(Clone, Copy, Debug, PartialEq, Eq, Structural)]
pub enum TwoOp {
    Sub,
    Addo,
    Subo,
    CmpEq,
    CmpLt,
    CmpLtu,
    Min,
    MinU,
    Max,
    MaxU,
    And,
    Or,
    Xor,
    Shl,
    Shr,
    Sar,
    BSet,
    BClr,
    BInv,
    BExt,
    Mul,
    Div,
    DivU,
    Rem,
    RemU,
    Rev8,
}

#[derive(Clone, Copy, Debug, PartialEq, Eq, Structural)]
pub enum UnaryOp {
    Clz,
    Ctz,
    Cpop,
}

#[derive(Clone, Copy, Debug, PartialEq, Eq, Structural)]
pub enum LoadOp {
    I8,
    U8,
    I16,
    U16,
    I32,
}

#[derive(Clone, Copy, Debug, PartialEq, Eq, Structural)]
pub enum StoreOp {
    I8,
    I16,
    I32,
}

/// Integer comparison conditions.
#[derive(Clone, Copy, Debug, PartialEq, Eq, Structural)]
pub enum IntCC {
    Equal,
    NotEqual,
    SignedLessThan,
    SignedGreaterThanOrEqual,
    SignedGreaterThan,
    SignedLessThanOrEqual,
    UnsignedLessThan,
    UnsignedGreaterThanOrEqual,
    UnsignedGreaterThan,
    UnsignedLessThanOrEqual,
}

/// SSA value types the backend is asked to hold.
#[derive(Clone, Copy, Debug, PartialEq, Eq, Structural)]
pub enum ValueType {
    I8,
    I16,
    I32,
    I64,
    I128,
    F16,
    F32,
    F64,
    F128,
    Vector,
}

/// Addressing modes of stack pseudos.
#[derive(Clone, Copy, Debug, PartialEq, Eq, Structural)]
pub enum StackAMode {
    /// Offset into the incoming argument area, and that area's size.
    IncomingArg(i64, u32),
    /// Offset into the spill/stack-slot area.
    Slot(i64),
    /// Offset into the outgoing argument area.
    OutgoingArg(i64),
}

#[derive(Clone, Copy, Debug, PartialEq, Eq, Structural)]
pub enum FunctionCalls {
    /// The function makes no calls.
    NoCalls,
    TailOnly,
    Regular,
}

/// The frame layout of one function, from the caller's SP downward.
#[derive(Clone, Debug)]
pub struct FrameLayout {
    pub word_bytes: u32,
    pub incoming_args_size: u32,
    pub tail_args_size: u32,
    pub setup_area_size: u32,
    pub clobber_size: u32,
    pub fixed_frame_storage_size: u32,
    pub stackslots_size: u32,
    pub outgoing_args_size: u32,
    pub clobbered_callee_saves: Vec<Reg>,
    pub function_calls: FunctionCalls,
}

impl Default for FrameLayout {
    /// The empty frame: no areas, no saves, no calls.
    fn default() -> (f: Self)
        ensures
            f.word_bytes == 0,
            f.incoming_args_size == 0,
            f.tail_args_size == 0,
            f.setup_area_size == 0,
            f.clobber_size == 0,
            f.fixed_frame_storage_size == 0,
            f.stackslots_size == 0,
            f.outgoing_args_size == 0,
            f.clobbered_callee_saves@ == Seq::<Reg>::empty(),
            f.function_calls == FunctionCalls::NoCalls,
    {
        FrameLayout {
            word_bytes: 0,
            incoming_args_size: 0,
            tail_args_size: 0,
            setup_area_size: 0,
            clobber_size: 0,
            fixed_frame_storage_size: 0,
            stackslots_size: 0,
            outgoing_args_size: 0,
            clobbered_callee_saves: Vec::new(),
            function_calls: FunctionCalls::NoCalls,
        }
    }
}

// ---------------------------------------------------------------------------
// Word sequences of instruction expansions
// ---------------------------------------------------------------------------

/// `MOV d, s` when the registers differ, nothing otherwise.
pub open spec fn mov_if(d: Reg, s: Reg) -> Seq<u16> {
    if d != s {
        seq![mov_word(d, s)]
    } else {
        Seq::empty()
    }
}

/// Bringing `l` into `d` for a two-address operation `d <- l op r`: when `d`
/// is `r` but not `l`, the move would overwrite `r`, so `r` is first copied
/// into r12; otherwise `d` simply receives `l`.
pub open spec fn two_addr_setup(d: Reg, l: Reg, r: Reg) -> Seq<u16> {
    if d == r && d != l {
        seq![mov_word(Reg::spec_new(12), r), mov_word(d, l)]
    } else {
        mov_if(d, l)
    }
}

/// The register that holds `r` once `two_addr_setup(d, l, r)` has run.
pub open spec fn two_addr_rhs(d: Reg, l: Reg, r: Reg) -> Reg {
    if d == r && d != l {
        Reg::spec_new(12)
    } else {
        r
    }
}

/// Adding an immediate: a 7-bit immediate is added in place (after a move);
/// any other immediate is materialised in r12 and added with a register `ADD`.
pub open spec fn add_imm_words(dst: Reg, src: Reg, imm: i32) -> Seq<u16> {
    if -64 <= imm <= 63 {
        mov_if(dst, src) + if imm != 0 {
            seq![reg_imm7_word(0x6800, dst@, imm as int)]
        } else {
            Seq::empty()
        }
    } else if dst@ == 12 {
        const_words(dst, balanced_digits(sx(imm as u32))) + seq![
            word4(0, 12, 12, src@ as int),
        ]
    } else {
        mov_if(dst, src) + const_words(Reg::spec_new(12), balanced_digits(sx(imm as u32))) + seq![
            word4(0, dst@ as int, dst@ as int, 12),
        ]
    }
}

/// The requirement of an immediate add: a large immediate cannot be added in
/// place to r12 from r12, since r12 is the only scratch register.
pub open spec fn add_imm_ok(dst: Reg, src: Reg, imm: i32) -> bool {
    !(-64 <= imm <= 63) && dst@ == 12 ==> src@ != 12
}

proof fn lemma_const_words_len(dst: Reg, value: u32)
    ensures
        1 <= const_words(dst, balanced_digits(sx(value))).len() <= 9,
{
    crate::consts::lemma_const_digits_reconstruct(value);
    lemma_const_words_len_rec(dst, balanced_digits(sx(value)));
}

proof fn lemma_const_words_len_rec(dst: Reg, ds: Seq<i8>)
    requires
        ds.len() >= 1,
    ensures
        1 <= const_words(dst, ds).len() <= 2 * ds.len() - 1,
    decreases ds.len(),
{
    if ds.len() > 1 {
        lemma_const_words_len_rec(dst, ds.drop_last());
    }
}

/// Append the words of `src` to `dst`.
fn append_words(dst: &mut Vec<u16>, src: Vec<u16>)
    ensures
        final(dst)@ == old(dst)@ + src@,
{
    let mut i: usize = 0;
    while i < src.len()
        invariant
            i <= src@.len(),
            dst@ == old(dst)@ + src@.subrange(0, i as int),
        decreases src@.len() - i,
    {
        dst.push(src[i]);
        i = i + 1;
        assert(dst@ =~= old(dst)@ + src@.subrange(0, i as int));
    }
    assert(src@.subrange(0, src@.len() as int) =~= src@);
}

fn mov_if_words(d: Reg, s: Reg) -> (ws: Vec<u16>)
    ensures
        ws@ == mov_if(d, s),
{
    let mut ws: Vec<u16> = Vec::new();
    if d != s {
        ws.push(encode::mov(d, s));
    }
    assert(ws@ =~= mov_if(d, s));
    ws
}

fn two_addr_setup_exec(d: Reg, l: Reg, r: Reg) -> (res: (Vec<u16>, Reg))
    ensures
        res.0@ == two_addr_setup(d, l, r),
        res.1 == two_addr_rhs(d, l, r),
{
    let scratch = Reg::scratch();
    proof {
        Reg::lemma_view_injective(scratch, Reg::spec_new(12));
    }
    if d == r && d != l {
        let mut ws: Vec<u16> = Vec::new();
        ws.push(encode::mov(scratch, r));
        ws.push(encode::mov(d, l));
        assert(ws@ =~= two_addr_setup(d, l, r));
        (ws, scratch)
    } else {
        (mov_if_words(d, l), r)
    }
}

/// The expansion of `dst <- src + imm`.
pub fn add_imm32_words(dst: Reg, src: Reg, imm: i32) -> (ws: Vec<u16>)
    requires
        add_imm_ok(dst, src, imm),
    ensures
        ws@ == add_imm_words(dst, src, imm),
        ws@.len() <= 11,
{
    if -64 <= imm && imm <= 63 {
        let mut ws = mov_if_words(dst, src);
        if imm != 0 {
            ws.push(encode::addi(dst, imm).unwrap());
        }
        assert(ws@ =~= add_imm_words(dst, src, imm));
        return ws;
    }
    let scratch = Reg::scratch();
    proof {
        lemma_const_words_len(dst, imm as u32);
        lemma_const_words_len(scratch, imm as u32);
        Reg::lemma_view_injective(scratch, Reg::spec_new(12));
        Reg::lemma_view_injective(dst, scratch);
    }
    if dst == scratch {
        let mut ws = const32_words(scratch, imm as u32);
        ws.push(encode::add(scratch, scratch, src));
        assert(ws@ =~= add_imm_words(dst, src, imm));
        ws
    } else {
        let mut ws = mov_if_words(dst, src);
        append_words(&mut ws, const32_words(scratch, imm as u32));
        ws.push(encode::add(dst, dst, scratch));
        assert(ws@ =~= add_imm_words(dst, src, imm));
        ws
    }
}


/// The signed distance of a stack operand from the current SP: outgoing
/// arguments sit at SP, spill slots above them, and incoming arguments above
/// the whole frame that the prologue allocated (setup area, clobber saves and
/// fixed storage, which already holds the explicit stack slots) and the
/// tail-argument area.
pub open spec fn sp_delta(f: FrameLayout) -> int {
    f.tail_args_size + f.setup_area_size + f.clobber_size + f.fixed_frame_storage_size
        + f.outgoing_args_size
}

pub open spec fn stack_offset(mem: StackAMode, f: FrameLayout) -> int {
    match mem {
        StackAMode::OutgoingArg(offset) => offset as int,
        StackAMode::Slot(offset) => offset + f.outgoing_args_size,
        StackAMode::IncomingArg(offset, stack_args_size) => sp_delta(f) - (stack_args_size - offset),
    }
}

pub open spec fn fits_i32(x: int) -> bool {
    i32::MIN <= x <= i32::MAX
}

pub fn frame_stack_offset(mem: &StackAMode, frame: &FrameLayout) -> (off: i32)
    requires
        fits_i32(stack_offset(*mem, *frame)),
    ensures
        off == stack_offset(*mem, *frame),
{
    let offset: i64 = match *mem {
        StackAMode::OutgoingArg(offset) => offset,
        StackAMode::Slot(offset) => offset + frame.outgoing_args_size as i64,
        StackAMode::IncomingArg(offset, stack_args_size) => {
            let current_sp_delta = frame.tail_args_size as i64 + frame.setup_area_size as i64
                + frame.clobber_size as i64 + frame.fixed_frame_storage_size as i64
                + frame.outgoing_args_size as i64;
            current_sp_delta - (stack_args_size as i64 - offset)
        },
    };
    offset as i32
}

/// Scalar types that the stack pseudos can load and store.
pub open spec fn is_scalar32(ty: ValueType) -> bool {
    ty == ValueType::I8 || ty == ValueType::I16 || ty == ValueType::I32
}

pub open spec fn spec_load_op(ty: ValueType) -> LoadOp {
    match ty {
        ValueType::I8 => LoadOp::U8,
        ValueType::I16 => LoadOp::U16,
        _ => LoadOp::I32,
    }
}

pub open spec fn spec_store_op(ty: ValueType) -> StoreOp {
    match ty {
        ValueType::I8 => StoreOp::I8,
        ValueType::I16 => StoreOp::I16,
        _ => StoreOp::I32,
    }
}

/// Stack loads of narrow values zero-extend.
pub fn load_op(ty: ValueType) -> (op: LoadOp)
    requires
        is_scalar32(ty),
    ensures
        op == spec_load_op(ty),
{
    match ty {
        ValueType::I8 => LoadOp::U8,
        ValueType::I16 => LoadOp::U16,
        _ => LoadOp::I32,
    }
}

pub fn store_op(ty: ValueType) -> (op: StoreOp)
    requires
        is_scalar32(ty),
    ensures
        op == spec_store_op(ty),
{
    match ty {
        ValueType::I8 => StoreOp::I8,
        ValueType::I16 => StoreOp::I16,
        _ => StoreOp::I32,
    }
}

pub open spec fn load_function(op: LoadOp) -> int {
    match op {
        LoadOp::I8 => 0,
        LoadOp::U8 => 1,
        LoadOp::I16 => 2,
        LoadOp::U16 => 3,
        LoadOp::I32 => 4,
    }
}

pub open spec fn store_function(op: StoreOp) -> int {
    match op {
        StoreOp::I8 => 5,
        StoreOp::I16 => 6,
        StoreOp::I32 => 7,
    }
}

/// The zero-offset load `dst <- [base]`.
pub open spec fn load_word(op: LoadOp, dst: Reg, base: Reg) -> u16 {
    rr_word(7, dst, base, load_function(op))
}

/// The zero-offset store `[base] <- src`.
pub open spec fn store_word(op: StoreOp, src: Reg, base: Reg) -> u16 {
    rr_word(7, src, base, store_function(op))
}

fn load_zero_offset_word(op: LoadOp, dst: Reg, base: Reg) -> (w: u16)
    ensures
        w == load_word(op, dst, base),
{
    match op {
        LoadOp::I8 => encode::lb(dst, base),
        LoadOp::U8 => encode::lbu(dst, base),
        LoadOp::I16 => encode::lh(dst, base),
        LoadOp::U16 => encode::lhu(dst, base),
        LoadOp::I32 => encode::lw(dst, base),
    }
}

fn store_zero_offset_word(op: StoreOp, src: Reg, base: Reg) -> (w: u16)
    ensures
        w == store_word(op, src, base),
{
    match op {
        StoreOp::I8 => encode::sb(src, base),
        StoreOp::I16 => encode::sh(src, base),
        StoreOp::I32 => encode::sw(src, base),
    }
}

/// `dst <- [base + offset]`: a nonzero offset is added into the destination
/// first, or into r12 when the destination is the base.
pub open spec fn load_offset_words(op: LoadOp, dst: Reg, base: Reg, offset: i32) -> Seq<u16> {
    if offset == 0 {
        seq![load_word(op, dst, base)]
    } else if dst != base {
        add_imm_words(dst, base, offset) + seq![load_word(op, dst, dst)]
    } else {
        add_imm_words(Reg::spec_new(12), base, offset) + seq![load_word(op, dst, Reg::spec_new(12))]
    }
}

/// A load through a nonzero offset cannot use r12 as both base and destination.
pub open spec fn load_offset_ok(dst: Reg, base: Reg, offset: i32) -> bool {
    offset != 0 && dst == base ==> base@ != 12
}

/// `[base + offset] <- src`: a nonzero offset is added into r12 first.
pub open spec fn store_offset_words(op: StoreOp, src: Reg, base: Reg, offset: i32) -> Seq<u16> {
    if offset == 0 {
        seq![store_word(op, src, base)]
    } else {
        add_imm_words(Reg::spec_new(12), base, offset) + seq![store_word(op, src, Reg::spec_new(12))]
    }
}

/// A store through a nonzero offset cannot involve r12.
pub open spec fn store_offset_ok(src: Reg, base: Reg, offset: i32) -> bool {
    offset != 0 ==> src@ != 12 && base@ != 12
}

pub fn load_base_offset_words(op: LoadOp, dst: Reg, base: Reg, offset: i32) -> (ws: Vec<u16>)
    requires
        load_offset_ok(dst, base, offset),
    ensures
        ws@ == load_offset_words(op, dst, base, offset),
        ws@.len() <= 12,
{
    let scratch = Reg::scratch();
    proof {
        Reg::lemma_view_injective(scratch, Reg::spec_new(12));
        Reg::lemma_view_injective(dst, base);
    }
    if offset == 0 {
        let mut ws: Vec<u16> = Vec::new();
        ws.push(load_zero_offset_word(op, dst, base));
        assert(ws@ =~= load_offset_words(op, dst, base, offset));
        return ws;
    }
    if dst != base {
        let mut ws = add_imm32_words(dst, base, offset);
        ws.push(load_zero_offset_word(op, dst, dst));
        ws
    } else {
        let mut ws = add_imm32_words(scratch, base, offset);
        ws.push(load_zero_offset_word(op, dst, scratch));
        ws
    }
}

pub fn store_base_offset_words(op: StoreOp, src: Reg, base: Reg, offset: i32) -> (ws: Vec<u16>)
    requires
        store_offset_ok(src, base, offset),
    ensures
        ws@ == store_offset_words(op, src, base, offset),
        ws@.len() <= 12,
{
    let scratch = Reg::scratch();
    proof {
        Reg::lemma_view_injective(scratch, Reg::spec_new(12));
    }
    if offset == 0 {
        let mut ws: Vec<u16> = Vec::new();
        ws.push(store_zero_offset_word(op, src, base));
        assert(ws@ =~= store_offset_words(op, src, base, offset));
        return ws;
    }
    let mut ws = add_imm32_words(scratch, base, offset);
    ws.push(store_zero_offset_word(op, src, scratch));
    ws
}

/// Sign or zero extension from `from_bits` to `to_bits`: the value is shifted
/// to the top of the word and back with an arithmetic or logical shift.
pub open spec fn extend_words(dst: Reg, src: Reg, signed: bool, from_bits: u8, to_bits: u8) -> Seq<u16> {
    let shift = (32 - from_bits) as u8;
    mov_if(dst, src) + if from_bits < to_bits {
        seq![
            shift_imm_word(dst@, shift, 6, 7),
            if signed {
                shift_imm_word(dst@, shift, 10, 11)
            } else {
                shift_imm_word(dst@, shift, 8, 9)
            },
        ]
    } else {
        Seq::empty()
    }
}

pub fn extend_words_exec(dst: Reg, src: Reg, signed: bool, from_bits: u8, to_bits: u8) -> (ws: Vec<u16>)
    requires
        0 < from_bits <= to_bits <= 32,
    ensures
        ws@ == extend_words(dst, src, signed, from_bits, to_bits),
{
    let mut ws = mov_if_words(dst, src);
    if from_bits < to_bits {
        let shift = 32 - from_bits;
        ws.push(encode::shli(dst, shift).unwrap());
        ws.push(
            if signed {
                encode::sari(dst, shift).unwrap()
            } else {
                encode::shri(dst, shift).unwrap()
            },
        );
    }
    assert(ws@ =~= extend_words(dst, src, signed, from_bits, to_bits));
    ws
}


/// `MOV d, s`, which is `ADD d, r0, s`.
pub open spec fn mov_word(d: Reg, s: Reg) -> u16 {
    word4(0, d@ as int, 0, s@ as int)
}

/// The primary opcode and function code of each two-address operation.
pub open spec fn two_op_code(op: TwoOp) -> (int, int) {
    match op {
        TwoOp::Sub => (4, 0),
        TwoOp::Addo => (4, 1),
        TwoOp::Subo => (4, 2),
        TwoOp::CmpEq => (4, 3),
        TwoOp::CmpLt => (4, 4),
        TwoOp::CmpLtu => (4, 5),
        TwoOp::Min => (4, 6),
        TwoOp::MinU => (4, 7),
        TwoOp::Max => (4, 8),
        TwoOp::MaxU => (4, 9),
        TwoOp::And => (5, 0),
        TwoOp::Or => (5, 1),
        TwoOp::Xor => (5, 2),
        TwoOp::Shl => (5, 3),
        TwoOp::Shr => (5, 4),
        TwoOp::Sar => (5, 5),
        TwoOp::BSet => (12, 1),
        TwoOp::BClr => (12, 2),
        TwoOp::BInv => (12, 3),
        TwoOp::BExt => (12, 4),
        TwoOp::Mul => (12, 5),
        TwoOp::Div => (12, 10),
        TwoOp::DivU => (12, 11),
        TwoOp::Rem => (12, 12),
        TwoOp::RemU => (12, 13),
        TwoOp::Rev8 => (12, 14),
    }
}

pub open spec fn two_op_word(op: TwoOp, d: Reg, r: Reg) -> u16 {
    rr_word(two_op_code(op).0, d, r, two_op_code(op).1)
}

fn two_op_word_exec(op: TwoOp, d: Reg, r: Reg) -> (w: u16)
    ensures
        w == two_op_word(op, d, r),
{
    match op {
        TwoOp::Sub => encode::sub(d, r),
        TwoOp::Addo => encode::addo(d, r),
        TwoOp::Subo => encode::subo(d, r),
        TwoOp::CmpEq => encode::cmpeq(d, r),
        TwoOp::CmpLt => encode::cmplt(d, r),
        TwoOp::CmpLtu => encode::cmpltu(d, r),
        TwoOp::Min => encode::min(d, r),
        TwoOp::MinU => encode::minu(d, r),
        TwoOp::Max => encode::max(d, r),
        TwoOp::MaxU => encode::maxu(d, r),
        TwoOp::And => encode::and(d, r),
        TwoOp::Or => encode::or(d, r),
        TwoOp::Xor => encode::xor(d, r),
        TwoOp::Shl => encode::shl(d, r),
        TwoOp::Shr => encode::shr(d, r),
        TwoOp::Sar => encode::sar(d, r),
        TwoOp::BSet => encode::bset(d, r),
        TwoOp::BClr => encode::bclr(d, r),
        TwoOp::BInv => encode::binv(d, r),
        TwoOp::BExt => encode::bext(d, r),
        TwoOp::Mul => encode::mul(d, r),
        TwoOp::Div => encode::div(d, r),
        TwoOp::DivU => encode::divu(d, r),
        TwoOp::Rem => encode::rem(d, r),
        TwoOp::RemU => encode::remu(d, r),
        TwoOp::Rev8 => encode::rev8(d, r),
    }
}

/// `LI r12, 1; XOR d, r12`: turn a 0/1 truth value into its negation.
pub open spec fn invert_words(d: Reg) -> Seq<u16> {
    seq![reg_imm7_word(0x6000, 12, 1), rr_word(5, d, Reg::spec_new(12), 2)]
}

/// For a reversed comparison `r < l` computed into `d` after `d` already holds
/// `l`: `l` is first saved in r12 when `d` is `l` itself, then `d` takes `r`.
pub open spec fn reversed_setup(d: Reg, l: Reg, r: Reg) -> Seq<u16> {
    (if d == l && d != r {
        seq![mov_word(Reg::spec_new(12), l)]
    } else {
        Seq::empty()
    }) + if d != r {
        seq![mov_word(d, r)]
    } else {
        Seq::empty()
    }
}

/// The register holding `l` for a reversed comparison.
pub open spec fn reversed_lhs(d: Reg, l: Reg, r: Reg) -> Reg {
    if d == l && d != r {
        Reg::spec_new(12)
    } else {
        l
    }
}

/// Integer comparison into a canonical boolean, computed with `CMPEQ`,
/// `CMPLT` or `CMPLTU`. For the direct forms `d` receives `l` (keeping `r`
/// intact, see `two_addr_setup`) and is compared with `r`; the greater-than
/// forms swap the operands, `d` receiving `r` and being compared with `l`
/// (with no move of `l` into `d` first: that value would be overwritten at
/// once, and when `d` is `r` it would destroy `r`); the negated forms invert
/// the result.
pub open spec fn compare_words(cc: IntCC, d: Reg, l: Reg, r: Reg) -> Seq<u16> {
    let pre = two_addr_setup(d, l, r);
    let rhs = two_addr_rhs(d, l, r);
    let setup = reversed_setup(d, l, r);
    let lhs = reversed_lhs(d, l, r);
    match cc {
        IntCC::Equal => pre + seq![rr_word(4, d, rhs, 3)],
        IntCC::NotEqual => pre + seq![rr_word(4, d, rhs, 3)] + invert_words(d),
        IntCC::SignedLessThan => pre + seq![rr_word(4, d, rhs, 4)],
        IntCC::UnsignedLessThan => pre + seq![rr_word(4, d, rhs, 5)],
        IntCC::SignedGreaterThan => setup + seq![rr_word(4, d, lhs, 4)],
        IntCC::UnsignedGreaterThan => setup + seq![rr_word(4, d, lhs, 5)],
        IntCC::SignedLessThanOrEqual => setup + seq![rr_word(4, d, lhs, 4)] + invert_words(d),
        IntCC::UnsignedLessThanOrEqual => setup + seq![rr_word(4, d, lhs, 5)] + invert_words(d),
        IntCC::SignedGreaterThanOrEqual => pre + seq![rr_word(4, d, rhs, 4)] + invert_words(d),
        IntCC::UnsignedGreaterThanOrEqual => pre + seq![rr_word(4, d, rhs, 5)] + invert_words(d),
    }
}

fn invert_words_exec(ws: &mut Vec<u16>, d: Reg)
    ensures
        final(ws)@ == old(ws)@ + invert_words(d),
{
    let scratch = Reg::scratch();
    proof {
        Reg::lemma_view_injective(scratch, Reg::spec_new(12));
    }
    ws.push(encode::li(scratch, 1).unwrap());
    ws.push(encode::xor(d, scratch));
    assert(ws@ =~= old(ws)@ + invert_words(d));
}

fn reversed_setup_exec(ws: &mut Vec<u16>, d: Reg, l: Reg, r: Reg) -> (lhs: Reg)
    ensures
        final(ws)@ == old(ws)@ + reversed_setup(d, l, r),
        lhs == reversed_lhs(d, l, r),
{
    let scratch = Reg::scratch();
    proof {
        Reg::lemma_view_injective(scratch, Reg::spec_new(12));
    }
    let lhs = if d == l && d != r {
        ws.push(encode::mov(scratch, l));
        scratch
    } else {
        l
    };
    if d != r {
        ws.push(encode::mov(d, r));
    }
    assert(ws@ =~= old(ws)@ + reversed_setup(d, l, r));
    lhs
}

pub fn compare_words_exec(cc: IntCC, d: Reg, l: Reg, r: Reg) -> (ws: Vec<u16>)
    ensures
        ws@ == compare_words(cc, d, l, r),
{
    let mut ws: Vec<u16> = Vec::new();
    match cc {
        IntCC::Equal => {
            let (pre, rhs) = two_addr_setup_exec(d, l, r);
            ws = pre;
            ws.push(encode::cmpeq(d, rhs));
        },
        IntCC::NotEqual => {
            let (pre, rhs) = two_addr_setup_exec(d, l, r);
            ws = pre;
            ws.push(encode::cmpeq(d, rhs));
            invert_words_exec(&mut ws, d);
        },
        IntCC::SignedLessThan => {
            let (pre, rhs) = two_addr_setup_exec(d, l, r);
            ws = pre;
            ws.push(encode::cmplt(d, rhs));
        },
        IntCC::UnsignedLessThan => {
            let (pre, rhs) = two_addr_setup_exec(d, l, r);
            ws = pre;
            ws.push(encode::cmpltu(d, rhs));
        },
        IntCC::SignedGreaterThan => {
            let lhs = reversed_setup_exec(&mut ws, d, l, r);
            ws.push(encode::cmplt(d, lhs));
        },
        IntCC::UnsignedGreaterThan => {
            let lhs = reversed_setup_exec(&mut ws, d, l, r);
            ws.push(encode::cmpltu(d, lhs));
        },
        IntCC::SignedLessThanOrEqual => {
            let lhs = reversed_setup_exec(&mut ws, d, l, r);
            ws.push(encode::cmplt(d, lhs));
            invert_words_exec(&mut ws, d);
        },
        IntCC::UnsignedLessThanOrEqual => {
            let lhs = reversed_setup_exec(&mut ws, d, l, r);
            ws.push(encode::cmpltu(d, lhs));
            invert_words_exec(&mut ws, d);
        },
        IntCC::SignedGreaterThanOrEqual => {
            let (pre, rhs) = two_addr_setup_exec(d, l, r);
            ws = pre;
            ws.push(encode::cmplt(d, rhs));
            invert_words_exec(&mut ws, d);
        },
        IntCC::UnsignedGreaterThanOrEqual => {
            let (pre, rhs) = two_addr_setup_exec(d, l, r);
            ws = pre;
            ws.push(encode::cmpltu(d, rhs));
            invert_words_exec(&mut ws, d);
        },
    }
    assert(ws@ =~= compare_words(cc, d, l, r));
    ws
}


/// What a call instruction carries: its destination, the fixed registers of
/// its arguments and return values, the registers it clobbers, its calling
/// conventions, the stack bytes the callee pops, and whether the call site is
/// patchable.
#[derive(Clone, Debug)]
pub struct CallInfo<T> {
    pub dest: T,
    pub uses: Vec<ArgPair>,
    pub defs: Vec<CallRetPair>,
    pub clobbers: PRegSet,
    pub callee_conv: CallConv,
    pub caller_conv: CallConv,
    pub callee_pop_size: u32,
    pub patchable: bool,
}

impl<T> CallInfo<T> {
    /// A call with no register uses, definitions or clobbers.
    pub fn empty(dest: T, call_conv: CallConv) -> (c: Self)
        ensures
            c.dest == dest,
            c.uses@ == Seq::<ArgPair>::empty(),
            c.defs@ == Seq::<CallRetPair>::empty(),
            preg_set_indices(c.clobbers) == Set::<usize>::empty(),
            c.callee_conv == call_conv,
            c.caller_conv == call_conv,
            c.callee_pop_size == 0,
            !c.patchable,
    {
        CallInfo {
            dest,
            uses: Vec::new(),
            defs: Vec::new(),
            clobbers: preg_set_empty(),
            callee_conv: call_conv,
            caller_conv: call_conv,
            callee_pop_size: 0,
            patchable: false,
        }
    }
}

/// Where a call's return value arrives.
#[derive(Clone, Copy, Debug, PartialEq, Eq, Structural)]
pub enum RetLocation {
    Reg(Reg, ValueType),
    Stack(StackAMode, ValueType),
}

/// A return value of a call and where it arrives.
#[derive(Clone, Copy, Debug, PartialEq, Eq, Structural)]
pub struct CallRetPair {
    pub vreg: Reg,
    pub location: RetLocation,
}

/// A fixed register binding of an incoming argument or outgoing return value.
#[derive(Clone, Copy, Debug, PartialEq, Eq, Structural)]
pub struct ArgPair {
    pub vreg: Reg,
    pub preg: Reg,
}

/// SIA32 machine instructions after register allocation.
#[derive(Clone, Debug)]
pub enum Inst {
    Args { args: Vec<ArgPair> },
    Rets { rets: Vec<ArgPair> },
    DummyUse { reg: Reg },
    Nop,
    SoftwareTrap { code: u8 },
    TrapIfNz { test: Reg, code: u8 },
    TrapIfZ { test: Reg, code: u8 },
    Mov { dst: Reg, src: Reg },
    Add { dst: Reg, lhs: Reg, rhs: Reg },
    Unary { op: UnaryOp, dst: Reg, src: Reg },
    TwoOp { op: TwoOp, dst: Reg, lhs: Reg, rhs: Reg },
    Icmp { dst: Reg, cc: IntCC, lhs: Reg, rhs: Reg },
    ShiftImm { op: TwoOp, dst: Reg, src: Reg, amount: u8 },
    Li7 { dst: Reg, imm: i8 },
    Addi7 { dst: Reg, src: Reg, imm: i8 },
    LoadConst32 { dst: Reg, value: u32 },
    /// The address of an external symbol plus an offset.
    LoadExtName { dst: Reg, name: String, offset: i64 },
    Load { op: LoadOp, dst: Reg, base: Reg },
    Store { op: StoreOp, src: Reg, base: Reg },
    IndexedLoad { dst: Reg, base: Reg, index: Reg },
    IndexedStore { src: Reg, base: Reg, index: Reg },
    Fence,
    SRead { dst: Reg, selector: u8 },
    ReadFixedGpr { dst: Reg, index: u8 },
    WriteFixedGpr { src: Reg, index: u8 },
    SWrite { src: Reg, selector: u8 },
    SSwapScratch { dst: Reg, src: Reg },
    SRet,
    SRetCtx { src: Reg },
    TlbFence,
    TlbFenceVa { src: Reg },
    TlbFenceAsid { src: Reg },
    Wfi,
    SyncI,
    LoadStack { dst: Reg, mem: StackAMode, ty: ValueType },
    StoreStack { src: Reg, mem: StackAMode, ty: ValueType },
    StackAddr { dst: Reg, mem: StackAMode },
    LoadBaseOffset { dst: Reg, base: Reg, offset: i32, ty: ValueType },
    StoreBaseOffset { src: Reg, base: Reg, offset: i32, ty: ValueType },
    Extend { dst: Reg, src: Reg, signed: bool, from_bits: u8, to_bits: u8 },
    AddImm { dst: Reg, src: Reg, imm: i32 },
    SpAdjust { amount: i32 },
    StackLowerBoundTrap { limit: Reg },
    Jump { target: u32 },
    BrNz { test: Reg, taken: u32, not_taken: u32 },
    Call { info: CallInfo<String> },
    CallInd { info: CallInfo<Reg> },
    Ret,
}

/// How a call instruction relates to calls for frame purposes.
#[derive(Clone, Copy, Debug, PartialEq, Eq, Structural)]
pub enum CallType {
    NoCall,
    Regular,
}

/// How an instruction ends a block.
#[derive(Clone, Copy, Debug, PartialEq, Eq, Structural)]
pub enum MachTerminator {
    NotTerminator,
    Ret,
    Branch,
}

#[derive(Clone, Copy, Debug, PartialEq, Eq, Structural)]
pub struct FunctionAlignment {
    pub minimum: u32,
    pub preferred: u32,
}

/// The register-class representation of an SSA value: how many 32-bit
/// integer registers hold it.
pub open spec fn spec_reg_parts(ty: ValueType) -> Option<u8> {
    match ty {
        ValueType::I8 | ValueType::I16 | ValueType::I32 => Some(1u8),
        ValueType::I64 => Some(2u8),
        _ => None,
    }
}

/// A value type the initial backend cannot hold in integer registers.
#[derive(Clone, Copy, Debug, PartialEq, Eq, Structural)]
pub struct UnsupportedType(pub ValueType);

/// Integers of at most 32 bits occupy one integer register, I64 two (low word
/// first); floating-point, vector and I128 values are rejected.
pub fn rc_for_type(ty: ValueType) -> (res: Result<u8, UnsupportedType>)
    ensures
        res == match spec_reg_parts(ty) {
            Some(n) => Ok(n),
            None => Err(UnsupportedType(ty)),
        },
{
    match ty {
        ValueType::I8 | ValueType::I16 | ValueType::I32 => Ok(1),
        ValueType::I64 => Ok(2),
        _ => Err(UnsupportedType(ty)),
    }
}

/// The conservative size in bytes that each instruction may occupy.
pub open spec fn spec_worst_case_size(inst: Inst) -> u32 {
    match inst {
        Inst::TwoOp { dst, lhs, rhs, .. } => if dst == rhs && dst != lhs {
            6
        } else {
            4
        },
        Inst::ShiftImm { .. } | Inst::Addi7 { .. } | Inst::SSwapScratch { .. } => 4,
        Inst::TrapIfNz { .. } => 6,
        Inst::TrapIfZ { .. } => 4,
        Inst::Icmp { .. } => 10,
        Inst::LoadConst32 { .. } => 18,
        Inst::LoadExtName { .. } => 10,
        Inst::BrNz { .. } => 4,
        Inst::Extend { .. } => 6,
        Inst::AddImm { .. } | Inst::SpAdjust { .. } | Inst::StackAddr { .. } => 22,
        Inst::LoadStack { .. } | Inst::LoadBaseOffset { .. } => 24,
        Inst::StoreStack { .. } | Inst::StoreBaseOffset { .. } => 24,
        Inst::Call { .. } => 12,
        Inst::CallInd { .. } => 2,
        Inst::StackLowerBoundTrap { .. } => 12,
        Inst::Args { .. } | Inst::Rets { .. } | Inst::DummyUse { .. } => 0,
        _ => 2,
    }
}

impl Inst {
    pub fn encoded_worst_case_size(&self) -> (n: u32)
        ensures
            n == spec_worst_case_size(*self),
    {
        match self {
            Self::TwoOp { dst, lhs, rhs, .. } => if *dst == *rhs && *dst != *lhs {
                6
            } else {
                4
            },
            Self::ShiftImm { .. } | Self::Addi7 { .. } | Self::SSwapScratch { .. } => 4,
            Self::TrapIfNz { .. } => 6,
            Self::TrapIfZ { .. } => 4,
            Self::Icmp { .. } => 10,
            Self::LoadConst32 { .. } => 18,
            Self::LoadExtName { .. } => 10,
            Self::BrNz { .. } => 4,
            Self::Extend { .. } => 6,
            Self::AddImm { .. } | Self::SpAdjust { .. } | Self::StackAddr { .. } => 22,
            Self::LoadStack { .. } | Self::LoadBaseOffset { .. } => 24,
            Self::StoreStack { .. } | Self::StoreBaseOffset { .. } => 24,
            Self::Call { .. } => 12,
            Self::CallInd { .. } => 2,
            Self::StackLowerBoundTrap { .. } => 12,
            Self::Args { .. } | Self::Rets { .. } | Self::DummyUse { .. } => 0,
            _ => 2,
        }
    }

    /// The canonical register move.
    pub fn gen_move(to_reg: Reg, from_reg: Reg, ty: ValueType) -> (i: Self)
        requires
            ty == ValueType::I32,
        ensures
            i matches Inst::Mov { dst, src } && dst == to_reg && src == from_reg,
    {
        Inst::Mov { dst: to_reg, src: from_reg }
    }

    pub fn is_move(&self) -> (res: Option<(Reg, Reg)>)
        ensures
            res == match *self {
                Inst::Mov { dst, src } => Some((dst, src)),
                _ => None,
            },
    {
        if let Self::Mov { dst, src } = *self {
            Some((dst, src))
        } else {
            None
        }
    }

    pub fn is_term(&self) -> (t: MachTerminator)
        ensures
            t == match *self {
                Inst::Rets { .. } | Inst::Ret => MachTerminator::Ret,
                Inst::Jump { .. } | Inst::BrNz { .. } => MachTerminator::Branch,
                _ => MachTerminator::NotTerminator,
            },
    {
        match self {
            Self::Rets { .. } | Self::Ret => MachTerminator::Ret,
            Self::Jump { .. } | Self::BrNz { .. } => MachTerminator::Branch,
            _ => MachTerminator::NotTerminator,
        }
    }

    /// No SIA32 instruction is an unconditional trap terminator.
    pub fn is_trap(&self) -> (b: bool)
        ensures
            !b,
    {
        false
    }

    pub fn is_args(&self) -> (b: bool)
        ensures
            b == (*self is Args),
    {
        matches!(self, Self::Args { .. })
    }

    pub fn call_type(&self) -> (t: CallType)
        ensures
            t == if *self is Call || *self is CallInd {
                CallType::Regular
            } else {
                CallType::NoCall
            },
    {
        if matches!(self, Self::Call { .. } | Self::CallInd { .. }) {
            CallType::Regular
        } else {
            CallType::NoCall
        }
    }

    /// Every instruction but the argument pseudo counts toward clobbers.
    pub fn is_included_in_clobbers(&self) -> (b: bool)
        ensures
            b == !(*self is Args),
    {
        !self.is_args()
    }

    pub fn is_mem_access(&self) -> (b: bool)
        ensures
            b == (*self is Load || *self is Store || *self is IndexedLoad || *self is IndexedStore
                || *self is LoadStack || *self is StoreStack || *self is LoadBaseOffset
                || *self is StoreBaseOffset),
    {
        matches!(
            self,
            Self::Load { .. } | Self::Store { .. } | Self::IndexedLoad { .. } | Self::IndexedStore {
                ..
            } | Self::LoadStack { .. } | Self::StoreStack { .. } | Self::LoadBaseOffset { .. }
                | Self::StoreBaseOffset { .. }
        )
    }

    pub fn gen_dummy_use(reg: Reg) -> (i: Self)
        ensures
            i matches Inst::DummyUse { reg: r } && r == reg,
    {
        Self::DummyUse { reg }
    }

    pub fn gen_jump(target: u32) -> (i: Self)
        ensures
            i matches Inst::Jump { target: t } && t == target,
    {
        Self::Jump { target }
    }

    /// A constant load, for values that fit 32 bits.
    pub fn gen_imm_u64(value: u64, dst: Reg) -> (res: Option<Self>)
        ensures
            value <= u32::MAX <==> res.is_some(),
            res matches Some(i) ==> i matches Inst::LoadConst32 { dst: d, value: v } && d == dst
                && v == value,
    {
        if value <= 0xffff_ffff {
            Some(Self::LoadConst32 { dst, value: value as u32 })
        } else {
            None
        }
    }

    pub fn gen_nop(_preferred_size: usize) -> (i: Self)
        ensures
            i is Nop,
    {
        Self::Nop
    }

    /// The padding units: one `NOP` halfword.
    pub fn gen_nop_units() -> (units: Vec<Vec<u8>>)
        ensures
            units@.len() == 1,
            units@[0]@ == le2(encode::NOP),
    {
        let b = encode::to_le_bytes(encode::NOP);
        let mut unit: Vec<u8> = Vec::new();
        unit.push(b[0]);
        unit.push(b[1]);
        let mut units: Vec<Vec<u8>> = Vec::new();
        units.push(unit);
        assert(units@[0]@ =~= le2(encode::NOP));
        units
    }

    /// The bytes of the trapping instruction `TRAP 0`.
    pub fn trap_opcode() -> (bytes: [u8; 2])
        ensures
            bytes@ == seq![0x0fu8, 0xc0u8],
    {
        [0x0f, 0xc0]
    }

    /// No single instruction emits more than 24 bytes.
    pub fn worst_case_size() -> (n: u32)
        ensures
            n == 24,
    {
        24
    }

    pub fn worst_case_island_growth() -> (n: u32)
        ensures
            n == 34,
    {
        34
    }

    pub fn is_safepoint(&self) -> (b: bool)
        ensures
            b == (*self is SoftwareTrap || *self is Call || *self is CallInd),
    {
        matches!(self, Self::SoftwareTrap { .. } | Self::Call { .. } | Self::CallInd { .. })
    }

    /// Functions start on a 4-byte boundary so that `LDPC.W` word phases hold.
    pub fn function_alignment() -> (a: FunctionAlignment)
        ensures
            a == (FunctionAlignment { minimum: 4, preferred: 4 }),
    {
        FunctionAlignment { minimum: 4, preferred: 4 }
    }
}

impl Inst {
    /// Integer registers only: the one register class holds 32-bit integers.
    pub fn canonical_type_for_rc(rc: RegClass) -> (ty: ValueType)
        requires
            rc == RegClass::Int,
        ensures
            ty == ValueType::I32,
    {
        ValueType::I32
    }
}

// ---------------------------------------------------------------------------
// Emission
// ---------------------------------------------------------------------------

pub proof fn lemma_words_bytes_len(ws: Seq<u16>)
    ensures
        words_bytes(ws).len() == 2 * ws.len(),
    decreases ws.len(),
{
    if ws.len() > 0 {
        lemma_words_bytes_len(ws.drop_last());
    }
}

pub proof fn lemma_words_bytes_concat(a: Seq<u16>, b: Seq<u16>)
    ensures
        words_bytes(a + b) == words_bytes(a) + words_bytes(b),
    decreases b.len(),
{
    if b.len() == 0 {
        assert(a + b =~= a);
    } else {
        lemma_words_bytes_concat(a, b.drop_last());
        assert((a + b).drop_last() =~= a + b.drop_last());
        assert((a + b).last() == b.last());
    }
}

/// Append halfwords to the buffer, little-endian.
pub fn put_words(code: &mut CodeBuffer, ws: &Vec<u16>)
    requires
        room(*old(code), 2 * ws@.len() as int),
    ensures
        final(code).data@ == old(code).data@ + words_bytes(ws@),
        final(code).relocs == old(code).relocs,
        final(code).fixups == old(code).fixups,
        final(code).label_offsets == old(code).label_offsets,
        final(code).call_sites == old(code).call_sites,
{
    let mut i: usize = 0;
    while i < ws.len()
        invariant
            i <= ws@.len(),
            room(*old(code), 2 * ws@.len() as int),
            code.data@ == old(code).data@ + words_bytes(ws@.subrange(0, i as int)),
            code.relocs == old(code).relocs,
            code.fixups == old(code).fixups,
            code.label_offsets == old(code).label_offsets,
            code.call_sites == old(code).call_sites,
        decreases ws@.len() - i,
    {
        proof {
            lemma_words_bytes_len(ws@.subrange(0, i as int));
        }
        code.put2(ws[i]);
        proof {
            let s = ws@.subrange(0, i + 1);
            assert(s.drop_last() =~= ws@.subrange(0, i as int));
            assert(s.last() == ws@[i as int]);
        }
        i = i + 1;
    }
    assert(ws@.subrange(0, ws@.len() as int) =~= ws@);
}

/// The single encoding of a unary bit-count operation.
pub open spec fn unary_word(op: UnaryOp, d: Reg, s: Reg) -> u16 {
    let p = match op {
        UnaryOp::Clz => 0int,
        UnaryOp::Ctz => 1,
        UnaryOp::Cpop => 2,
    };
    word4(p, 0, d@ as int, s@ as int)
}

/// The function codes of the immediate shifts, for amounts below / from 16.
pub open spec fn shift_codes(op: TwoOp) -> (int, int) {
    match op {
        TwoOp::Shl => (6, 7),
        TwoOp::Shr => (8, 9),
        _ => (10, 11),
    }
}

/// The register through which stack pseudos address the frame: the stack
/// pointer r13, from which the prologue lays the frame out.
pub open spec fn frame_base() -> Reg {
    Reg::spec_new(13)
}

/// Whether a constant is loaded inline (at most two balanced digits) rather
/// than from a literal word.
pub open spec fn inline_const(value: u32) -> bool {
    balanced_digits(sx(value)).len() <= 2
}

/// The words of instructions whose expansion is straight-line code.
pub open spec fn straight_words(inst: Inst, f: FrameLayout) -> Seq<u16> {
    match inst {
        Inst::Icmp { dst, cc, lhs, rhs } => compare_words(cc, dst, lhs, rhs),
        _ => plain_words(inst, f),
    }
}

/// The words of the straight-line expansions other than comparisons.
pub open spec fn plain_words(inst: Inst, f: FrameLayout) -> Seq<u16> {
    match inst {
        Inst::Nop => seq![encode::NOP],
        Inst::SRead { dst, selector } => seq![word4(15, 0, dst@ as int, selector as int)],
        Inst::ReadFixedGpr { dst, index } => mov_if(dst, Reg::spec_new(index)),
        Inst::WriteFixedGpr { src, index } => mov_if(Reg::spec_new(index), src),
        Inst::SWrite { src, selector } => seq![word4(15, 1, src@ as int, selector as int)],
        Inst::SSwapScratch { dst, src } => mov_if(dst, src) + seq![word4(15, 2, dst@ as int, 4)],
        Inst::SRet => seq![word4(15, 3, 0, 0)],
        Inst::SRetCtx { src } => seq![word4(15, 3, src@ as int, 1)],
        Inst::TlbFence => seq![word4(15, 4, 0, 0)],
        Inst::TlbFenceVa { src } => seq![word4(15, 4, src@ as int, 1)],
        Inst::TlbFenceAsid { src } => seq![word4(15, 4, src@ as int, 2)],
        Inst::Wfi => seq![word4(15, 5, 0, 0)],
        Inst::SyncI => seq![word4(15, 6, 0, 0)],
        Inst::Fence => seq![word4(15, 7, 0, 0)],
        Inst::SoftwareTrap { code } => seq![(0xC00F + code * 0x10) as u16],
        Inst::Mov { dst, src } => seq![mov_word(dst, src)],
        Inst::Add { dst, lhs, rhs } => seq![word4(0, dst@ as int, lhs@ as int, rhs@ as int)],
        Inst::Unary { op, dst, src } => seq![unary_word(op, dst, src)],
        Inst::TwoOp { op, dst, lhs, rhs } => two_addr_setup(dst, lhs, rhs) + seq![
            two_op_word(op, dst, two_addr_rhs(dst, lhs, rhs)),
        ],
        Inst::ShiftImm { op, dst, src, amount } => mov_if(dst, src) + seq![
            shift_imm_word(dst@, amount, shift_codes(op).0, shift_codes(op).1),
        ],
        Inst::Li7 { dst, imm } => seq![reg_imm7_word(0x6000, dst@, imm as int)],
        Inst::Addi7 { dst, src, imm } => mov_if(dst, src) + seq![
            reg_imm7_word(0x6800, dst@, imm as int),
        ],
        Inst::LoadConst32 { dst, value } => const_words(dst, balanced_digits(sx(value))),
        Inst::Load { op, dst, base } => seq![load_word(op, dst, base)],
        Inst::Store { op, src, base } => seq![store_word(op, src, base)],
        Inst::IndexedLoad { dst, base, index } => seq![
            word4(2, dst@ as int, base@ as int, index@ as int),
        ],
        Inst::IndexedStore { src, base, index } => seq![
            word4(3, src@ as int, base@ as int, index@ as int),
        ],
        Inst::LoadStack { dst, mem, ty } => load_offset_words(
            spec_load_op(ty),
            dst,
            frame_base(),
            stack_offset(mem, f) as i32,
        ),
        Inst::StoreStack { src, mem, ty } => store_offset_words(
            spec_store_op(ty),
            src,
            frame_base(),
            stack_offset(mem, f) as i32,
        ),
        Inst::StackAddr { dst, mem } => add_imm_words(dst, frame_base(), stack_offset(mem, f) as i32),
        Inst::LoadBaseOffset { dst, base, offset, ty } => load_offset_words(
            spec_load_op(ty),
            dst,
            base,
            offset,
        ),
        Inst::StoreBaseOffset { src, base, offset, ty } => store_offset_words(
            spec_store_op(ty),
            src,
            base,
            offset,
        ),
        Inst::Extend { dst, src, signed, from_bits, to_bits } => extend_words(
            dst,
            src,
            signed,
            from_bits,
            to_bits,
        ),
        Inst::AddImm { dst, src, imm } => add_imm_words(dst, src, imm),
        Inst::SpAdjust { amount } => add_imm_words(Reg::spec_new(13), Reg::spec_new(13), amount),
        Inst::Ret => seq![word4(12, 0, 14, 0)],
        _ => Seq::empty(),
    }
}

/// The operand restrictions under which an instruction can be emitted.
pub open spec fn emit_ok(inst: Inst, f: FrameLayout) -> bool {
    match inst {
        Inst::SRead { selector, .. } => selector <= encode::SYSREG_VMCTX,
        Inst::SWrite { selector, .. } => encode::swrite_selector_ok(selector),
        Inst::SoftwareTrap { code } => code <= 0xFD,
        Inst::ReadFixedGpr { index, .. } => index < 16,
        Inst::WriteFixedGpr { index, .. } => index < 16,
        Inst::ShiftImm { op, amount, .. } => (op == TwoOp::Shl || op == TwoOp::Shr || op
            == TwoOp::Sar) && amount < 32,
        Inst::Li7 { imm, .. } => -64 <= imm <= 63,
        Inst::Addi7 { imm, .. } => -64 <= imm <= 63,
        Inst::LoadStack { mem, ty, .. } => is_scalar32(ty) && fits_i32(stack_offset(mem, f)),
        Inst::StoreStack { src, mem, ty } => is_scalar32(ty) && fits_i32(stack_offset(mem, f))
            && store_offset_ok(src, frame_base(), stack_offset(mem, f) as i32),
        Inst::StackAddr { mem, .. } => fits_i32(stack_offset(mem, f)),
        Inst::LoadBaseOffset { dst, base, offset, ty } => is_scalar32(ty) && load_offset_ok(
            dst,
            base,
            offset,
        ),
        Inst::StoreBaseOffset { src, base, offset, ty } => is_scalar32(ty) && store_offset_ok(
            src,
            base,
            offset,
        ),
        Inst::Extend { from_bits, to_bits, .. } => 0 < from_bits <= to_bits <= 32,
        Inst::AddImm { dst, src, imm } => add_imm_ok(dst, src, imm),
        Inst::StackLowerBoundTrap { .. } => false,
        Inst::LoadExtName { .. } => false,
        Inst::Call { info } => info.callee_pop_size == 0 && !info.patchable,
        Inst::CallInd { info } => info.callee_pop_size == 0 && !info.patchable,
        _ => true,
    }
}

proof fn lemma_add_imm_words_len()
    ensures
        forall|dst: Reg, src: Reg, imm: i32| #[trigger] add_imm_words(dst, src, imm).len() <= 11,
{
    assert forall|dst: Reg, src: Reg, imm: i32| #[trigger] add_imm_words(dst, src, imm).len() <= 11 by {
        lemma_const_words_len(dst, imm as u32);
        lemma_const_words_len(Reg::spec_new(12), imm as u32);
    }
}

proof fn lemma_offset_words_len()
    ensures
        forall|op: LoadOp, dst: Reg, base: Reg, offset: i32| #[trigger] load_offset_words(op, dst, base, offset).len() <= 12,
        forall|op: StoreOp, src: Reg, base: Reg, offset: i32| #[trigger] store_offset_words(op, src, base, offset).len() <= 12,
{
    lemma_add_imm_words_len();
}

proof fn lemma_compare_words_len()
    ensures
        forall|cc: IntCC, d: Reg, l: Reg, r: Reg| #[trigger] compare_words(cc, d, l, r).len() <= 5,
{
    assert forall|cc: IntCC, d: Reg, l: Reg, r: Reg| #[trigger] compare_words(cc, d, l, r).len() <= 5 by {
        assert(reversed_setup(d, l, r).len() <= 2);
        assert(two_addr_setup(d, l, r).len() <= 2);
    }
}

proof fn lemma_inline_const_len(dst: Reg, value: u32)
    requires
        inline_const(value),
    ensures
        const_words(dst, balanced_digits(sx(value))).len() <= 3,
{
    crate::consts::lemma_const_digits_reconstruct(value);
    lemma_const_words_len_rec(dst, balanced_digits(sx(value)));
}

/// The straight-line expansion of an instruction fits the size it reports.
pub proof fn lemma_straight_words_size(inst: Inst, f: FrameLayout)
    requires
        is_straight(inst),
        emit_ok(inst, f),
    ensures
        2 * straight_words(inst, f).len() <= spec_worst_case_size(inst),
{
    lemma_add_imm_words_len();
    lemma_offset_words_len();
    lemma_compare_words_len();
    match inst {
        Inst::LoadConst32 { dst, value } => lemma_inline_const_len(dst, value),
        _ => {},
    }
}

/// Whether the instruction's expansion is straight-line code without labels.
pub open spec fn is_straight(inst: Inst) -> bool {
    match inst {
        Inst::TrapIfNz { .. } | Inst::TrapIfZ { .. } | Inst::Jump { .. } | Inst::BrNz { .. }
        | Inst::Call { .. } | Inst::CallInd { .. } | Inst::StackLowerBoundTrap { .. } => false,
        Inst::LoadConst32 { value, .. } => inline_const(value),
        _ => true,
    }
}

impl Inst {
    /// The words of a straight-line expansion.
    pub fn straight_words_exec(&self, frame: &FrameLayout) -> (ws: Vec<u16>)
        requires
            is_straight(*self),
            emit_ok(*self, *frame),
        ensures
            ws@ == straight_words(*self, *frame),
            ws@.len() <= 12,
    {
        match self {
            Self::Icmp { dst, cc, lhs, rhs } => compare_words_exec(*cc, *dst, *lhs, *rhs),
            _ => self.plain_words_exec(frame),
        }
    }

    fn plain_words_exec(&self, frame: &FrameLayout) -> (ws: Vec<u16>)
        requires
            is_straight(*self),
            emit_ok(*self, *frame),
        ensures
            ws@ == plain_words(*self, *frame),
            ws@.len() <= 12,
    {
        let sp = Reg::sp();
        proof {
            Reg::lemma_view_injective(sp, Reg::spec_new(13));
        }
        let mut ws: Vec<u16> = Vec::new();
        match self {
            Self::Args { .. } | Self::Rets { .. } | Self::DummyUse { .. } => {},
            Self::Nop => ws.push(encode::NOP),
            Self::SRead { dst, selector } => ws.push(encode::sread(*dst, *selector).unwrap()),
            Self::ReadFixedGpr { dst, index } => {
                let fixed = Reg::new(*index).unwrap();
                proof {
                    Reg::lemma_view_injective(fixed, Reg::spec_new(*index));
                }
                ws = mov_if_words(*dst, fixed);
            },
            Self::WriteFixedGpr { src, index } => {
                let fixed = Reg::new(*index).unwrap();
                proof {
                    Reg::lemma_view_injective(fixed, Reg::spec_new(*index));
                }
                ws = mov_if_words(fixed, *src);
            },
            Self::SWrite { src, selector } => ws.push(encode::swrite(*src, *selector).unwrap()),
            Self::SSwapScratch { dst, src } => {
                ws = mov_if_words(*dst, *src);
                ws.push(encode::sswap_scratch(*dst));
            },
            Self::SRet => ws.push(encode::sret()),
            Self::SRetCtx { src } => ws.push(encode::sretctx(*src)),
            Self::TlbFence => ws.push(encode::tlbfence()),
            Self::TlbFenceVa { src } => ws.push(encode::tlbfence_va(*src)),
            Self::TlbFenceAsid { src } => ws.push(encode::tlbfence_asid(*src)),
            Self::Wfi => ws.push(encode::wfi()),
            Self::SyncI => ws.push(encode::sync_i()),
            Self::Fence => ws.push(encode::fence()),
            Self::SoftwareTrap { code } => ws.push(encode::trap(*code).unwrap()),
            Self::Mov { dst, src } => ws.push(encode::mov(*dst, *src)),
            Self::Add { dst, lhs, rhs } => ws.push(encode::add(*dst, *lhs, *rhs)),
            Self::Unary { op, dst, src } => ws.push(
                match op {
                    UnaryOp::Clz => encode::clz(*dst, *src),
                    UnaryOp::Ctz => encode::ctz(*dst, *src),
                    UnaryOp::Cpop => encode::cpop(*dst, *src),
                },
            ),
            Self::TwoOp { op, dst, lhs, rhs } => {
                let (pre, r) = two_addr_setup_exec(*dst, *lhs, *rhs);
                ws = pre;
                ws.push(two_op_word_exec(*op, *dst, r));
            },
            Self::ShiftImm { op, dst, src, amount } => {
                ws = mov_if_words(*dst, *src);
                let w = match op {
                    TwoOp::Shl => encode::shli(*dst, *amount),
                    TwoOp::Shr => encode::shri(*dst, *amount),
                    _ => encode::sari(*dst, *amount),
                };
                ws.push(w.unwrap());
            },
            Self::Li7 { dst, imm } => ws.push(encode::li(*dst, *imm as i32).unwrap()),
            Self::Addi7 { dst, src, imm } => {
                ws = mov_if_words(*dst, *src);
                ws.push(encode::addi(*dst, *imm as i32).unwrap());
            },
            Self::LoadConst32 { dst, value } => {
                ws = const32_words(*dst, *value);
                proof {
                    lemma_const_words_len(*dst, *value);
                }
            },
            Self::Load { op, dst, base } => ws.push(load_zero_offset_word(*op, *dst, *base)),
            Self::Store { op, src, base } => ws.push(store_zero_offset_word(*op, *src, *base)),
            Self::IndexedLoad { dst, base, index } => ws.push(encode::lda_w(*dst, *base, *index)),
            Self::IndexedStore { src, base, index } => ws.push(encode::sta_w(*src, *base, *index)),
            Self::LoadStack { dst, mem, ty } => {
                let off = frame_stack_offset(mem, frame);
                ws = load_base_offset_words(load_op(*ty), *dst, sp, off);
            },
            Self::StoreStack { src, mem, ty } => {
                let off = frame_stack_offset(mem, frame);
                ws = store_base_offset_words(store_op(*ty), *src, sp, off);
            },
            Self::StackAddr { dst, mem } => {
                let off = frame_stack_offset(mem, frame);
                ws = add_imm32_words(*dst, sp, off);
            },
            Self::LoadBaseOffset { dst, base, offset, ty } => {
                ws = load_base_offset_words(load_op(*ty), *dst, *base, *offset);
            },
            Self::StoreBaseOffset { src, base, offset, ty } => {
                ws = store_base_offset_words(store_op(*ty), *src, *base, *offset);
            },
            Self::Extend { dst, src, signed, from_bits, to_bits } => {
                ws = extend_words_exec(*dst, *src, *signed, *from_bits, *to_bits);
            },
            Self::AddImm { dst, src, imm } => {
                ws = add_imm32_words(*dst, *src, *imm);
            },
            Self::SpAdjust { amount } => {
                ws = add_imm32_words(sp, sp, *amount);
            },
            Self::Ret => ws.push(encode::ret()),
            _ => {},
        }
        assert(ws@ =~= plain_words(*self, *frame));
        ws
    }
}

} // verus!
