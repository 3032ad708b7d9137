//! Exact SIA32-I / SIA32-P instruction encoding helpers.
//!
//! Every SIA32 instruction is one little-endian 16-bit word. These helpers
//! validate architectural operand restrictions so later lowering cannot
//! silently emit a reserved or ambiguous encoding.

use crate::regs::Reg;
use vstd::prelude::*;

verus! {

pub const BREAK: u16 = 0xCFEF;

pub const NOP: u16 = 0xCFFF;

pub const EXT_RESERVED: u16 = 0xF000;

/// A rejected encoding request.
#[derive(Clone, Copy, Debug, PartialEq, Eq)]
pub enum EncodeError {
    ImmediateOutOfRange { kind: &'static str, value: i32, min: i32, max: i32 },
    InvalidAlias { kind: &'static str },
    RegisterGroupWrap { kind: &'static str, first: u8, width: u8 },
    UpdatingLoadBaseOverlap { kind: &'static str, first: u8, width: u8, base: u8 },
    TrapImmediateReserved(u8),
}

// ---------------------------------------------------------------------------
// Word layouts
// ---------------------------------------------------------------------------

/// A word made of four 4-bit fields, most significant first.
pub open spec fn word4(p: int, a: int, b: int, c: int) -> u16 {
    (p * 0x1000 + a * 0x100 + b * 0x10 + c) as u16
}

/// The low `bits` bits of a signed value in two's complement, for a value that
/// fits in `bits` signed bits.
pub open spec fn twos(value: int, bits: nat) -> int {
    if value < 0 {
        value + vstd::arithmetic::power2::pow2(bits)
    } else {
        value
    }
}

/// The word of an instruction whose low 7 bits hold a signed immediate and
/// whose bits 7..10 hold a register.
pub open spec fn reg_imm7_word(base: int, r: u8, imm: int) -> u16 {
    (base + r * 0x80 + twos(imm, 7)) as u16
}

/// `LDPC.W`: register in bits 8..11, signed word displacement in bits 0..7.
pub open spec fn ldpc_word(r: u8, disp: int) -> u16 {
    (0x9000 + r * 0x100 + twos(disp, 8)) as u16
}

/// `B` / `BL`: signed halfword displacement in bits 0..10.
pub open spec fn branch11_word(base: int, disp: int) -> u16 {
    (base + twos(disp, 11)) as u16
}

/// A two-register word: primary opcode, two register fields and a function code.
pub open spec fn rr_word(p: int, a: Reg, b: Reg, f: int) -> u16 {
    word4(p, a@ as int, b@ as int, f)
}

pub open spec fn in_range(value: int, min: int, max: int) -> bool {
    min <= value <= max
}

proof fn lemma_word4(p: u16, a: u16, b: u16, c: u16)
    by (bit_vector)
    requires
        p < 16,
        a < 16,
        b < 16,
        c < 16,
    ensures
        (p << 12u16) | (a << 8u16) | (b << 4u16) | c == p * 0x1000 + a * 0x100 + b * 0x10 + c,
{
}

proof fn lemma_reg_imm7(base: u16, r: u16, imm: i32)
    by (bit_vector)
    requires
        base % 0x800 == 0,
        r < 16,
        -64 <= imm <= 63,
    ensures
        base | (r << 7u16) | ((imm as u16) & 0x7f) == base + r * 0x80 + (if imm < 0 {
            imm + 128
        } else {
            imm as int
        }),
{
}

proof fn lemma_ldpc(r: u16, disp: i32)
    by (bit_vector)
    requires
        r < 16,
        -128 <= disp <= 127,
    ensures
        0x9000u16 | (r << 8u16) | ((disp as u16) & 0xff) == 0x9000 + r * 0x100 + (if disp < 0 {
            disp + 256
        } else {
            disp as int
        }),
{
}

proof fn lemma_branch11(base: u16, disp: i32)
    by (bit_vector)
    requires
        base % 0x800 == 0,
        -1024 <= disp <= 1023,
    ensures
        base | ((disp as u16) & 0x7ff) == base + (if disp < 0 {
            disp + 2048
        } else {
            disp as int
        }),
{
}

proof fn lemma_pow2_facts()
    ensures
        vstd::arithmetic::power2::pow2(7) == 128,
        vstd::arithmetic::power2::pow2(8) == 256,
        vstd::arithmetic::power2::pow2(11) == 2048,
{
    vstd::arithmetic::power2::lemma2_to64();
}

fn r3(primary: u16, a: Reg, b: Reg, c: Reg) -> (w: u16)
    requires
        primary < 16,
    ensures
        w == word4(primary as int, a@ as int, b@ as int, c@ as int),
{
    let (x, y, z) = (a.index() as u16, b.index() as u16, c.index() as u16);
    proof {
        lemma_word4(primary, x, y, z);
    }
    (primary << 12) | (x << 8) | (y << 4) | z
}

fn r2f(primary: u16, a: Reg, b: Reg, function: u8) -> (w: u16)
    requires
        primary < 16,
        function < 16,
    ensures
        w == word4(primary as int, a@ as int, b@ as int, function as int),
{
    let (x, y, z) = (a.index() as u16, b.index() as u16, function as u16);
    proof {
        lemma_word4(primary, x, y, z);
    }
    (primary << 12) | (x << 8) | (y << 4) | z
}

fn signed_range(kind: &'static str, value: i32, min: i32, max: i32) -> (res: Result<(), EncodeError>)
    ensures
        res == if in_range(value as int, min as int, max as int) {
            Ok(())
        } else {
            Err(EncodeError::ImmediateOutOfRange { kind, value, min, max })
        },
{
    if min <= value && value <= max {
        Ok(())
    } else {
        Err(EncodeError::ImmediateOutOfRange { kind, value, min, max })
    }
}

/// Whether a register group of `width` registers starting at `first` stays within r0..r15.
pub open spec fn group_fits(first: u8, width: u8) -> bool {
    first + width <= 16
}

fn group(kind: &'static str, first: Reg, width: u8) -> (res: Result<(), EncodeError>)
    requires
        width <= 16,
    ensures
        res == if group_fits(first@, width) {
            Ok(())
        } else {
            Err(EncodeError::RegisterGroupWrap { kind, first: first@, width })
        },
{
    if first.index() <= 16 - width {
        Ok(())
    } else {
        Err(EncodeError::RegisterGroupWrap { kind, first: first.index(), width })
    }
}

/// Whether the base register is one of the `width` registers loaded from `first`.
pub open spec fn base_in_group(first: u8, width: u8, base: u8) -> bool {
    first <= base < first + width
}

fn updating_load_group(kind: &'static str, first: Reg, width: u8, base: Reg) -> (res: Result<
    (),
    EncodeError,
>)
    requires
        width <= 16,
    ensures
        res == if !group_fits(first@, width) {
            Err(EncodeError::RegisterGroupWrap { kind, first: first@, width })
        } else if base_in_group(first@, width, base@) {
            Err(EncodeError::UpdatingLoadBaseOverlap { kind, first: first@, width, base: base@ })
        } else {
            Ok(())
        },
{
    group(kind, first, width)?;
    let first = first.index();
    let base = base.index();
    if first <= base && base < first + width {
        Err(EncodeError::UpdatingLoadBaseOverlap { kind, first, width, base })
    } else {
        Ok(())
    }
}

pub fn add(rd: Reg, ra: Reg, rb: Reg) -> (w: u16)
    ensures
        w == word4(0, rd@ as int, ra@ as int, rb@ as int),
{
    r3(0x0, rd, ra, rb)
}

pub fn cmov(rd: Reg, rs: Reg, rc: Reg) -> (w: u16)
    ensures
        w == word4(1, rd@ as int, rs@ as int, rc@ as int),
{
    r3(0x1, rd, rs, rc)
}

pub fn lda_w(rd: Reg, rb: Reg, ri: Reg) -> (w: u16)
    ensures
        w == word4(2, rd@ as int, rb@ as int, ri@ as int),
{
    r3(0x2, rd, rb, ri)
}

pub fn sta_w(rs: Reg, rb: Reg, ri: Reg) -> (w: u16)
    ensures
        w == word4(3, rs@ as int, rb@ as int, ri@ as int),
{
    r3(0x3, rs, rb, ri)
}

/// `MOV rd, rs` is `ADD rd, r0, rs`.
pub fn mov(rd: Reg, rs: Reg) -> (w: u16)
    ensures
        w == word4(0, rd@ as int, 0, rs@ as int),
{
    self::add(rd, Reg::zero(), rs)
}

pub fn clz(rd: Reg, rs: Reg) -> (w: u16)
    ensures
        w == word4(0, 0, rd@ as int, rs@ as int),
{
    r3(0x0, Reg::zero(), rd, rs)
}

pub fn ctz(rd: Reg, rs: Reg) -> (w: u16)
    ensures
        w == word4(1, 0, rd@ as int, rs@ as int),
{
    r3(0x1, Reg::zero(), rd, rs)
}

pub fn cpop(rd: Reg, rs: Reg) -> (w: u16)
    ensures
        w == word4(2, 0, rd@ as int, rs@ as int),
{
    r3(0x2, Reg::zero(), rd, rs)
}

pub fn sub(rd: Reg, rs: Reg) -> (w: u16)
    ensures
        w == rr_word(4, rd, rs, 0),
{
    r2f(0x4, rd, rs, 0x0)
}

pub fn addo(rd: Reg, rs: Reg) -> (w: u16)
    ensures
        w == rr_word(4, rd, rs, 1),
{
    r2f(0x4, rd, rs, 0x1)
}

pub fn subo(rd: Reg, rs: Reg) -> (w: u16)
    ensures
        w == rr_word(4, rd, rs, 2),
{
    r2f(0x4, rd, rs, 0x2)
}

pub fn cmpeq(rd: Reg, rs: Reg) -> (w: u16)
    ensures
        w == rr_word(4, rd, rs, 3),
{
    r2f(0x4, rd, rs, 0x3)
}

pub fn cmplt(rd: Reg, rs: Reg) -> (w: u16)
    ensures
        w == rr_word(4, rd, rs, 4),
{
    r2f(0x4, rd, rs, 0x4)
}

pub fn cmpltu(rd: Reg, rs: Reg) -> (w: u16)
    ensures
        w == rr_word(4, rd, rs, 5),
{
    r2f(0x4, rd, rs, 0x5)
}

pub fn min(rd: Reg, rs: Reg) -> (w: u16)
    ensures
        w == rr_word(4, rd, rs, 6),
{
    r2f(0x4, rd, rs, 0x6)
}

pub fn minu(rd: Reg, rs: Reg) -> (w: u16)
    ensures
        w == rr_word(4, rd, rs, 7),
{
    r2f(0x4, rd, rs, 0x7)
}

pub fn max(rd: Reg, rs: Reg) -> (w: u16)
    ensures
        w == rr_word(4, rd, rs, 8),
{
    r2f(0x4, rd, rs, 0x8)
}

pub fn maxu(rd: Reg, rs: Reg) -> (w: u16)
    ensures
        w == rr_word(4, rd, rs, 9),
{
    r2f(0x4, rd, rs, 0x9)
}

pub fn and(rd: Reg, rs: Reg) -> (w: u16)
    ensures
        w == rr_word(5, rd, rs, 0),
{
    r2f(0x5, rd, rs, 0x0)
}

pub fn or(rd: Reg, rs: Reg) -> (w: u16)
    ensures
        w == rr_word(5, rd, rs, 1),
{
    r2f(0x5, rd, rs, 0x1)
}

pub fn xor(rd: Reg, rs: Reg) -> (w: u16)
    ensures
        w == rr_word(5, rd, rs, 2),
{
    r2f(0x5, rd, rs, 0x2)
}

pub fn shl(rd: Reg, rs: Reg) -> (w: u16)
    ensures
        w == rr_word(5, rd, rs, 3),
{
    r2f(0x5, rd, rs, 0x3)
}

pub fn shr(rd: Reg, rs: Reg) -> (w: u16)
    ensures
        w == rr_word(5, rd, rs, 4),
{
    r2f(0x5, rd, rs, 0x4)
}

pub fn sar(rd: Reg, rs: Reg) -> (w: u16)
    ensures
        w == rr_word(5, rd, rs, 5),
{
    r2f(0x5, rd, rs, 0x5)
}

pub fn lb(rv: Reg, rb: Reg) -> (w: u16)
    ensures
        w == rr_word(7, rv, rb, 0),
{
    r2f(0x7, rv, rb, 0x0)
}

pub fn lbu(rv: Reg, rb: Reg) -> (w: u16)
    ensures
        w == rr_word(7, rv, rb, 1),
{
    r2f(0x7, rv, rb, 0x1)
}

pub fn lh(rv: Reg, rb: Reg) -> (w: u16)
    ensures
        w == rr_word(7, rv, rb, 2),
{
    r2f(0x7, rv, rb, 0x2)
}

pub fn lhu(rv: Reg, rb: Reg) -> (w: u16)
    ensures
        w == rr_word(7, rv, rb, 3),
{
    r2f(0x7, rv, rb, 0x3)
}

pub fn lw(rv: Reg, rb: Reg) -> (w: u16)
    ensures
        w == rr_word(7, rv, rb, 4),
{
    r2f(0x7, rv, rb, 0x4)
}

pub fn sb(rv: Reg, rb: Reg) -> (w: u16)
    ensures
        w == rr_word(7, rv, rb, 5),
{
    r2f(0x7, rv, rb, 0x5)
}

pub fn sh(rv: Reg, rb: Reg) -> (w: u16)
    ensures
        w == rr_word(7, rv, rb, 6),
{
    r2f(0x7, rv, rb, 0x6)
}

pub fn sw(rv: Reg, rb: Reg) -> (w: u16)
    ensures
        w == rr_word(7, rv, rb, 7),
{
    r2f(0x7, rv, rb, 0x7)
}

pub fn sw_post(rv: Reg, rb: Reg) -> (w: u16)
    ensures
        w == rr_word(7, rv, rb, 13),
{
    r2f(0x7, rv, rb, 0xD)
}

pub fn sw_pre(rv: Reg, rb: Reg) -> (w: u16)
    ensures
        w == rr_word(7, rv, rb, 15),
{
    r2f(0x7, rv, rb, 0xF)
}

pub fn jalr(rd: Reg, rb: Reg) -> (w: u16)
    ensures
        w == rr_word(12, rd, rb, 0),
{
    r2f(0xC, rd, rb, 0x0)
}

pub fn jr(rb: Reg) -> (w: u16)
    ensures
        w == word4(12, 0, rb@ as int, 0),
{
    jalr(Reg::zero(), rb)
}

pub fn callr(rb: Reg) -> (w: u16)
    ensures
        w == word4(12, 14, rb@ as int, 0),
{
    jalr(Reg::lr(), rb)
}

pub fn ret() -> (w: u16)
    ensures
        w == word4(12, 0, 14, 0),
{
    jalr(Reg::zero(), Reg::lr())
}

pub fn bset(rd: Reg, rs: Reg) -> (w: u16)
    ensures
        w == rr_word(12, rd, rs, 1),
{
    r2f(0xC, rd, rs, 0x1)
}

pub fn bclr(rd: Reg, rs: Reg) -> (w: u16)
    ensures
        w == rr_word(12, rd, rs, 2),
{
    r2f(0xC, rd, rs, 0x2)
}

pub fn binv(rd: Reg, rs: Reg) -> (w: u16)
    ensures
        w == rr_word(12, rd, rs, 3),
{
    r2f(0xC, rd, rs, 0x3)
}

pub fn bext(rd: Reg, rs: Reg) -> (w: u16)
    ensures
        w == rr_word(12, rd, rs, 4),
{
    r2f(0xC, rd, rs, 0x4)
}

pub fn mul(rd: Reg, rs: Reg) -> (w: u16)
    ensures
        w == rr_word(12, rd, rs, 5),
{
    r2f(0xC, rd, rs, 0x5)
}

pub fn mulh(rd: Reg, rs: Reg) -> (w: u16)
    ensures
        w == rr_word(12, rd, rs, 6),
{
    r2f(0xC, rd, rs, 0x6)
}

pub fn mulhu(rd: Reg, rs: Reg) -> (w: u16)
    ensures
        w == rr_word(12, rd, rs, 7),
{
    r2f(0xC, rd, rs, 0x7)
}

pub fn mulhsu(rd: Reg, rs: Reg) -> (w: u16)
    ensures
        w == rr_word(12, rd, rs, 8),
{
    r2f(0xC, rd, rs, 0x8)
}

pub fn mulo(rd: Reg, rs: Reg) -> (w: u16)
    ensures
        w == rr_word(12, rd, rs, 9),
{
    r2f(0xC, rd, rs, 0x9)
}

pub fn div(rd: Reg, rs: Reg) -> (w: u16)
    ensures
        w == rr_word(12, rd, rs, 10),
{
    r2f(0xC, rd, rs, 0xA)
}

pub fn divu(rd: Reg, rs: Reg) -> (w: u16)
    ensures
        w == rr_word(12, rd, rs, 11),
{
    r2f(0xC, rd, rs, 0xB)
}

pub fn rem(rd: Reg, rs: Reg) -> (w: u16)
    ensures
        w == rr_word(12, rd, rs, 12),
{
    r2f(0xC, rd, rs, 0xC)
}

pub fn remu(rd: Reg, rs: Reg) -> (w: u16)
    ensures
        w == rr_word(12, rd, rs, 13),
{
    r2f(0xC, rd, rs, 0xD)
}

pub fn rev8(rd: Reg, rs: Reg) -> (w: u16)
    ensures
        w == rr_word(12, rd, rs, 14),
{
    r2f(0xC, rd, rs, 0xE)
}

/// The word of an immediate shift: amounts below 16 use the low function code,
/// amounts 16..31 use the high function code with the amount less 16.
pub open spec fn shift_imm_word(rd: u8, amount: u8, low_function: int, high_function: int) -> u16 {
    if amount < 16 {
        word4(5, rd as int, amount as int, low_function)
    } else {
        word4(5, rd as int, amount - 16, high_function)
    }
}

pub open spec fn shift_result(rd: u8, amount: u8, low_function: int, high_function: int) -> Result<u16, EncodeError> {
    if amount < 32 {
        Ok(shift_imm_word(rd, amount, low_function, high_function))
    } else {
        Err(EncodeError::ImmediateOutOfRange { kind: "shift amount", value: amount as i32, min: 0, max: 31 })
    }
}

fn shift_imm(rd: Reg, amount: u8, low_function: u8, high_function: u8) -> (res: Result<u16, EncodeError>)
    requires
        low_function < 16,
        high_function < 16,
    ensures
        res == shift_result(rd@, amount, low_function as int, high_function as int),
{
    if amount >= 32 {
        return Err(
            EncodeError::ImmediateOutOfRange { kind: "shift amount", value: amount as i32, min: 0, max: 31 },
        );
    }
    let (nibble, function) = if amount < 16 {
        (amount, low_function)
    } else {
        (amount - 16, high_function)
    };
    let imm = Reg::new(nibble).unwrap();
    Ok(r2f(0x5, rd, imm, function))
}

pub fn shli(rd: Reg, amount: u8) -> (res: Result<u16, EncodeError>)
    ensures
        res == shift_result(rd@, amount, 6, 7),
{
    shift_imm(rd, amount, 0x6, 0x7)
}

pub fn shri(rd: Reg, amount: u8) -> (res: Result<u16, EncodeError>)
    ensures
        res == shift_result(rd@, amount, 8, 9),
{
    shift_imm(rd, amount, 0x8, 0x9)
}

pub fn sari(rd: Reg, amount: u8) -> (res: Result<u16, EncodeError>)
    ensures
        res == shift_result(rd@, amount, 10, 11),
{
    shift_imm(rd, amount, 0xA, 0xB)
}

/// A signed-immediate encoding: the word when the immediate is in range,
/// otherwise the range error naming the field.
pub open spec fn imm_result(kind: &'static str, value: i32, min: int, max: int, word: u16) -> Result<u16, EncodeError> {
    if in_range(value as int, min, max) {
        Ok(word)
    } else {
        Err(EncodeError::ImmediateOutOfRange { kind, value, min: min as i32, max: max as i32 })
    }
}

pub fn li(rd: Reg, imm: i32) -> (res: Result<u16, EncodeError>)
    ensures
        res == imm_result("LI imm7", imm, -64, 63, reg_imm7_word(0x6000, rd@, imm as int)),
{
    signed_range("LI imm7", imm, -64, 63)?;
    let r = rd.index() as u16;
    proof {
        lemma_reg_imm7(0x6000, r, imm);
        lemma_pow2_facts();
    }
    Ok(0x6000 | (r << 7) | ((imm as u16) & 0x7F))
}

pub fn addi(rd: Reg, imm: i32) -> (res: Result<u16, EncodeError>)
    ensures
        res == imm_result("ADDI imm7", imm, -64, 63, reg_imm7_word(0x6800, rd@, imm as int)),
{
    signed_range("ADDI imm7", imm, -64, 63)?;
    let r = rd.index() as u16;
    proof {
        lemma_reg_imm7(0x6800, r, imm);
        lemma_pow2_facts();
    }
    Ok(0x6800 | (r << 7) | ((imm as u16) & 0x7F))
}

/// An encoding that is rejected when its two operands are the same register.
pub open spec fn alias_result(kind: &'static str, aliased: bool, word: u16) -> Result<u16, EncodeError> {
    if aliased {
        Err(EncodeError::InvalidAlias { kind })
    } else {
        Ok(word)
    }
}

pub fn lw_post(rv: Reg, rb: Reg) -> (res: Result<u16, EncodeError>)
    ensures
        res == alias_result("LW [rb]+ requires rv != rb", rv == rb, rr_word(7, rv, rb, 12)),
{
    if rv == rb {
        return Err(EncodeError::InvalidAlias { kind: "LW [rb]+ requires rv != rb" });
    }
    Ok(r2f(0x7, rv, rb, 0xC))
}

pub fn lw_pre(rv: Reg, rb: Reg) -> (res: Result<u16, EncodeError>)
    ensures
        res == alias_result("LW -[rb] requires rv != rb", rv == rb, rr_word(7, rv, rb, 14)),
{
    if rv == rb {
        return Err(EncodeError::InvalidAlias { kind: "LW -[rb] requires rv != rb" });
    }
    Ok(r2f(0x7, rv, rb, 0xE))
}

/// A register-group encoding: the word when the group stays within r0..r15.
pub open spec fn group_result(kind: &'static str, first: u8, width: u8, word: u16) -> Result<u16, EncodeError> {
    if group_fits(first, width) {
        Ok(word)
    } else {
        Err(EncodeError::RegisterGroupWrap { kind, first, width })
    }
}

/// An updating group load: the group must fit and must not contain the base register.
pub open spec fn updating_group_result(kind: &'static str, first: u8, width: u8, base: u8, word: u16) -> Result<u16, EncodeError> {
    if !group_fits(first, width) {
        Err(EncodeError::RegisterGroupWrap { kind, first, width })
    } else if base_in_group(first, width, base) {
        Err(EncodeError::UpdatingLoadBaseOverlap { kind, first, width, base })
    } else {
        Ok(word)
    }
}

pub fn ldp(first: Reg, rb: Reg) -> (res: Result<u16, EncodeError>)
    ensures
        res == group_result("LDP", first@, 2, rr_word(8, first, rb, 0)),
{
    group("LDP", first, 2)?;
    Ok(r2f(0x8, first, rb, 0x0))
}

pub fn ldp_post(first: Reg, rb: Reg) -> (res: Result<u16, EncodeError>)
    ensures
        res == updating_group_result("LDP [rb]+", first@, 2, rb@, rr_word(8, first, rb, 1)),
{
    updating_load_group("LDP [rb]+", first, 2, rb)?;
    Ok(r2f(0x8, first, rb, 0x1))
}

pub fn stp(first: Reg, rb: Reg) -> (res: Result<u16, EncodeError>)
    ensures
        res == group_result("STP", first@, 2, rr_word(8, first, rb, 2)),
{
    group("STP", first, 2)?;
    Ok(r2f(0x8, first, rb, 0x2))
}

pub fn stp_post(first: Reg, rb: Reg) -> (res: Result<u16, EncodeError>)
    ensures
        res == group_result("STP [rb]+", first@, 2, rr_word(8, first, rb, 3)),
{
    group("STP [rb]+", first, 2)?;
    Ok(r2f(0x8, first, rb, 0x3))
}

pub fn stp_pre(first: Reg, rb: Reg) -> (res: Result<u16, EncodeError>)
    ensures
        res == group_result("STP -[rb]", first@, 2, rr_word(8, first, rb, 4)),
{
    group("STP -[rb]", first, 2)?;
    Ok(r2f(0x8, first, rb, 0x4))
}

pub fn ld4(first: Reg, rb: Reg) -> (res: Result<u16, EncodeError>)
    ensures
        res == group_result("LD4", first@, 4, rr_word(8, first, rb, 5)),
{
    group("LD4", first, 4)?;
    Ok(r2f(0x8, first, rb, 0x5))
}

pub fn ld4_post(first: Reg, rb: Reg) -> (res: Result<u16, EncodeError>)
    ensures
        res == updating_group_result("LD4 [rb]+", first@, 4, rb@, rr_word(8, first, rb, 6)),
{
    updating_load_group("LD4 [rb]+", first, 4, rb)?;
    Ok(r2f(0x8, first, rb, 0x6))
}

pub fn st4(first: Reg, rb: Reg) -> (res: Result<u16, EncodeError>)
    ensures
        res == group_result("ST4", first@, 4, rr_word(8, first, rb, 7)),
{
    group("ST4", first, 4)?;
    Ok(r2f(0x8, first, rb, 0x7))
}

pub fn st4_post(first: Reg, rb: Reg) -> (res: Result<u16, EncodeError>)
    ensures
        res == group_result("ST4 [rb]+", first@, 4, rr_word(8, first, rb, 8)),
{
    group("ST4 [rb]+", first, 4)?;
    Ok(r2f(0x8, first, rb, 0x8))
}

pub fn st4_pre(first: Reg, rb: Reg) -> (res: Result<u16, EncodeError>)
    ensures
        res == group_result("ST4 -[rb]", first@, 4, rr_word(8, first, rb, 9)),
{
    group("ST4 -[rb]", first, 4)?;
    Ok(r2f(0x8, first, rb, 0x9))
}

pub fn ldpc_w(rd: Reg, displacement_words: i32) -> (res: Result<u16, EncodeError>)
    ensures
        res == imm_result(
            "LDPC.W disp8 words",
            displacement_words,
            -128,
            127,
            ldpc_word(rd@, displacement_words as int),
        ),
{
    signed_range("LDPC.W disp8 words", displacement_words, -128, 127)?;
    let r = rd.index() as u16;
    proof {
        lemma_ldpc(r, displacement_words);
        lemma_pow2_facts();
    }
    Ok(0x9000 | (r << 8) | ((displacement_words as u16) & 0xFF))
}

pub fn bnz(rs: Reg, displacement_halfwords: i32) -> (res: Result<u16, EncodeError>)
    ensures
        res == imm_result(
            "BNZ disp7 halfwords",
            displacement_halfwords,
            -64,
            63,
            reg_imm7_word(0xA000, rs@, displacement_halfwords as int),
        ),
{
    signed_range("BNZ disp7 halfwords", displacement_halfwords, -64, 63)?;
    let r = rs.index() as u16;
    proof {
        lemma_reg_imm7(0xA000, r, displacement_halfwords);
        lemma_pow2_facts();
    }
    Ok(0xA000 | (r << 7) | ((displacement_halfwords as u16) & 0x7F))
}

pub fn dbnz(rs: Reg, displacement_halfwords: i32) -> (res: Result<u16, EncodeError>)
    ensures
        res == imm_result(
            "DBNZ disp7 halfwords",
            displacement_halfwords,
            -64,
            63,
            reg_imm7_word(0xA800, rs@, displacement_halfwords as int),
        ),
{
    signed_range("DBNZ disp7 halfwords", displacement_halfwords, -64, 63)?;
    let r = rs.index() as u16;
    proof {
        lemma_reg_imm7(0xA800, r, displacement_halfwords);
        lemma_pow2_facts();
    }
    Ok(0xA800 | (r << 7) | ((displacement_halfwords as u16) & 0x7F))
}

pub fn b(displacement_halfwords: i32) -> (res: Result<u16, EncodeError>)
    ensures
        res == imm_result(
            "B disp11 halfwords",
            displacement_halfwords,
            -1024,
            1023,
            branch11_word(0xB000, displacement_halfwords as int),
        ),
{
    signed_range("B disp11 halfwords", displacement_halfwords, -1024, 1023)?;
    proof {
        lemma_branch11(0xB000, displacement_halfwords);
        lemma_pow2_facts();
    }
    Ok(0xB000 | ((displacement_halfwords as u16) & 0x7FF))
}

pub fn bl(displacement_halfwords: i32) -> (res: Result<u16, EncodeError>)
    ensures
        res == imm_result(
            "BL disp11 halfwords",
            displacement_halfwords,
            -1024,
            1023,
            branch11_word(0xB800, displacement_halfwords as int),
        ),
{
    signed_range("BL disp11 halfwords", displacement_halfwords, -1024, 1023)?;
    proof {
        lemma_branch11(0xB800, displacement_halfwords);
        lemma_pow2_facts();
    }
    Ok(0xB800 | ((displacement_halfwords as u16) & 0x7FF))
}

/// `TRAP imm8`: codes 0..=0xFD are encodable; 0xFE and 0xFF are reserved
/// (they would alias `BREAK` and `NOP`).
pub fn trap(imm: u8) -> (res: Result<u16, EncodeError>)
    ensures
        res == if imm <= 0xFD {
            Ok((0xC00F + imm * 0x10) as u16)
        } else {
            Err(EncodeError::TrapImmediateReserved(imm))
        },
{
    if imm > 0xFD {
        return Err(EncodeError::TrapImmediateReserved(imm));
    }
    let x = imm as u16;
    assert(0xC00Fu16 | (x << 4u16) == 0xC00F + x * 0x10) by (bit_vector)
        requires
            x <= 0xFD,
    ;
    Ok(0xC00F | (x << 4))
}

pub fn adc(rd: Reg, rs: Reg, carry: Reg) -> (res: Result<u16, EncodeError>)
    ensures
        res == alias_result(
            "ADC requires rd != carry register",
            rd == carry,
            word4(13, rd@ as int, rs@ as int, carry@ as int),
        ),
{
    if rd == carry {
        return Err(EncodeError::InvalidAlias { kind: "ADC requires rd != carry register" });
    }
    Ok(r3(0xD, rd, rs, carry))
}

pub fn sbb(rd: Reg, rs: Reg, borrow: Reg) -> (res: Result<u16, EncodeError>)
    ensures
        res == alias_result(
            "SBB requires rd != borrow register",
            rd == borrow,
            word4(14, rd@ as int, rs@ as int, borrow@ as int),
        ),
{
    if rd == borrow {
        return Err(EncodeError::InvalidAlias { kind: "SBB requires rd != borrow register" });
    }
    Ok(r3(0xE, rd, rs, borrow))
}

// SIA32-P SYSTEM encodings. Semantic privilege checks belong to execution and
// lowering; these helpers only emit structurally valid architectural forms.
pub const SYSREG_STATUS: u8 = 0;

pub const SYSREG_EPC: u8 = 1;

pub const SYSREG_CAUSE: u8 = 2;

pub const SYSREG_BADADDR: u8 = 3;

pub const SYSREG_SCRATCH: u8 = 4;

pub const SYSREG_VMCTX: u8 = 5;

fn system(sysop: u8, reg: Reg, selector: u8) -> (w: u16)
    requires
        sysop < 16,
        selector < 16,
    ensures
        w == word4(15, sysop as int, reg@ as int, selector as int),
{
    let (x, y, z) = (sysop as u16, reg.index() as u16, selector as u16);
    proof {
        lemma_word4(0xF, x, y, z);
    }
    (0xFu16 << 12) | (x << 8) | (y << 4) | z
}

pub fn sread(rd: Reg, selector: u8) -> (res: Result<u16, EncodeError>)
    ensures
        res == if selector <= SYSREG_VMCTX {
            Ok(word4(15, 0, rd@ as int, selector as int))
        } else {
            Err(
                EncodeError::ImmediateOutOfRange {
                    kind: "SREAD sysreg",
                    value: selector as i32,
                    min: 0,
                    max: SYSREG_VMCTX as i32,
                },
            )
        },
{
    if selector > SYSREG_VMCTX {
        return Err(
            EncodeError::ImmediateOutOfRange {
                kind: "SREAD sysreg",
                value: selector as i32,
                min: 0,
                max: SYSREG_VMCTX as i32,
            },
        );
    }
    Ok(system(0x0, rd, selector))
}

/// Whether `SWRITE` may target a system register: it must exist and must not
/// be one of the read-only `CAUSE` / `BADADDR` registers.
pub open spec fn swrite_selector_ok(selector: u8) -> bool {
    selector <= SYSREG_VMCTX && selector != SYSREG_CAUSE && selector != SYSREG_BADADDR
}

pub fn swrite(rs: Reg, selector: u8) -> (res: Result<u16, EncodeError>)
    ensures
        res == if swrite_selector_ok(selector) {
            Ok(word4(15, 1, rs@ as int, selector as int))
        } else {
            Err(EncodeError::InvalidAlias { kind: "SWRITE selector is reserved or read-only" })
        },
{
    if selector > SYSREG_VMCTX || selector == SYSREG_CAUSE || selector == SYSREG_BADADDR {
        return Err(EncodeError::InvalidAlias { kind: "SWRITE selector is reserved or read-only" });
    }
    Ok(system(0x1, rs, selector))
}

pub fn sswap_scratch(reg: Reg) -> (w: u16)
    ensures
        w == word4(15, 2, reg@ as int, SYSREG_SCRATCH as int),
{
    system(0x2, reg, SYSREG_SCRATCH)
}

pub fn sret() -> (w: u16)
    ensures
        w == word4(15, 3, 0, 0),
{
    system(0x3, Reg::zero(), 0x0)
}

pub fn sretctx(rs: Reg) -> (w: u16)
    ensures
        w == word4(15, 3, rs@ as int, 1),
{
    system(0x3, rs, 0x1)
}

pub fn tlbfence() -> (w: u16)
    ensures
        w == word4(15, 4, 0, 0),
{
    system(0x4, Reg::zero(), 0x0)
}

pub fn tlbfence_va(rs: Reg) -> (w: u16)
    ensures
        w == word4(15, 4, rs@ as int, 1),
{
    system(0x4, rs, 0x1)
}

pub fn tlbfence_asid(rs: Reg) -> (w: u16)
    ensures
        w == word4(15, 4, rs@ as int, 2),
{
    system(0x4, rs, 0x2)
}

pub fn wfi() -> (w: u16)
    ensures
        w == word4(15, 5, 0, 0),
{
    system(0x5, Reg::zero(), 0x0)
}

pub fn sync_i() -> (w: u16)
    ensures
        w == word4(15, 6, 0, 0),
{
    system(0x6, Reg::zero(), 0x0)
}

pub fn fence() -> (w: u16)
    ensures
        w == word4(15, 7, 0, 0),
{
    system(0x7, Reg::zero(), 0x0)
}

/// Convert an encoded halfword to the actual little-endian instruction bytes.
pub fn to_le_bytes(word: u16) -> (bytes: [u8; 2])
    ensures
        bytes@[0] == word % 256,
        bytes@[1] == word / 256,
{
    let lo = (word & 0xFF) as u8;
    let hi = (word >> 8) as u8;
    assert(word & 0xFF == word % 256 && word >> 8 == word / 256) by (bit_vector);
    [lo, hi]
}

} // verus!
