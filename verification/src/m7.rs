//! M7 SIA32 ISA facilities that are independent of CLIF/ISLE lowering: the
//! two-address bit-manipulation, multiply, divide and byte-reverse group.

use crate::encode::{self, rr_word};
use crate::regs::{spec_reg_name, Reg};
use vstd::prelude::*;
use vstd::string::*;

verus! {

broadcast use Reg::lemma_spec_new_view;

#[derive(Clone, Copy, Debug, PartialEq, Eq, Structural)]
pub enum M7Op {
    Bset,
    Bclr,
    Binv,
    Bext,
    Mul,
    Mulh,
    Mulhu,
    Mulhsu,
    Mulo,
    Div,
    Divu,
    Rem,
    Remu,
    Rev8,
}

#[derive(Clone, Copy, Debug, PartialEq, Eq, Structural)]
pub struct M7Inst {
    pub op: M7Op,
    pub rd: Reg,
    pub rs: Reg,
}

#[derive(Clone, Copy, Debug, PartialEq, Eq, Structural)]
pub enum M7DecodeError {
    NotM7,
    ReservedFunction,
}

/// The R2F function code of each M7 operation (primary opcode 0xC).
pub open spec fn spec_function(op: M7Op) -> int {
    match op {
        M7Op::Bset => 1,
        M7Op::Bclr => 2,
        M7Op::Binv => 3,
        M7Op::Bext => 4,
        M7Op::Mul => 5,
        M7Op::Mulh => 6,
        M7Op::Mulhu => 7,
        M7Op::Mulhsu => 8,
        M7Op::Mulo => 9,
        M7Op::Div => 10,
        M7Op::Divu => 11,
        M7Op::Rem => 12,
        M7Op::Remu => 13,
        M7Op::Rev8 => 14,
    }
}

/// The operation selected by a function code; codes 0 and 15 are reserved.
pub open spec fn spec_op_of_function(f: int) -> Option<M7Op> {
    if f == 1 {
        Some(M7Op::Bset)
    } else if f == 2 {
        Some(M7Op::Bclr)
    } else if f == 3 {
        Some(M7Op::Binv)
    } else if f == 4 {
        Some(M7Op::Bext)
    } else if f == 5 {
        Some(M7Op::Mul)
    } else if f == 6 {
        Some(M7Op::Mulh)
    } else if f == 7 {
        Some(M7Op::Mulhu)
    } else if f == 8 {
        Some(M7Op::Mulhsu)
    } else if f == 9 {
        Some(M7Op::Mulo)
    } else if f == 10 {
        Some(M7Op::Div)
    } else if f == 11 {
        Some(M7Op::Divu)
    } else if f == 12 {
        Some(M7Op::Rem)
    } else if f == 13 {
        Some(M7Op::Remu)
    } else if f == 14 {
        Some(M7Op::Rev8)
    } else {
        None
    }
}

/// The encoding of an M7 instruction.
pub open spec fn spec_encode(i: M7Inst) -> u16 {
    rr_word(12, i.rd, i.rs, spec_function(i.op))
}

/// Decoding: the primary opcode must be 0xC and the function code one of 1..14;
/// the destination is bits 8..11 and the source bits 4..7.
pub open spec fn spec_decode(word: u16) -> Result<M7Inst, M7DecodeError> {
    if word / 0x1000 != 12 {
        Err(M7DecodeError::NotM7)
    } else {
        match spec_op_of_function((word % 16) as int) {
            Some(op) => Ok(
                M7Inst {
                    op,
                    rd: Reg::spec_new(((word / 0x100) % 16) as u8),
                    rs: Reg::spec_new(((word / 0x10) % 16) as u8),
                },
            ),
            None => Err(M7DecodeError::ReservedFunction),
        }
    }
}

/// The assembler mnemonic of each operation.
pub open spec fn spec_mnemonic(op: M7Op) -> Seq<char> {
    match op {
        M7Op::Bset => "bset"@,
        M7Op::Bclr => "bclr"@,
        M7Op::Binv => "binv"@,
        M7Op::Bext => "bext"@,
        M7Op::Mul => "mul"@,
        M7Op::Mulh => "mulh"@,
        M7Op::Mulhu => "mulhu"@,
        M7Op::Mulhsu => "mulhsu"@,
        M7Op::Mulo => "mulo"@,
        M7Op::Div => "div"@,
        M7Op::Divu => "divu"@,
        M7Op::Rem => "rem"@,
        M7Op::Remu => "remu"@,
        M7Op::Rev8 => "rev8"@,
    }
}

/// Textual disassembly: `<mnemonic> <rd>, <rs>`.
pub open spec fn spec_disassemble(i: M7Inst) -> Seq<char> {
    spec_mnemonic(i.op) + " "@ + spec_reg_name(i.rd@) + ", "@ + spec_reg_name(i.rs@)
}

proof fn lemma_fields(word: u16)
    by (bit_vector)
    ensures
        word >> 12u16 == word / 0x1000,
        (word >> 8u16) & 0xf == (word / 0x100) % 16,
        (word >> 4u16) & 0xf == (word / 0x10) % 16,
        word & 0xf == word % 16,
{
}

impl M7Inst {
    pub fn new(op: M7Op, rd: Reg, rs: Reg) -> (i: Self)
        ensures
            i == (M7Inst { op, rd, rs }),
    {
        Self { op, rd, rs }
    }

    pub fn encode(self) -> (w: u16)
        ensures
            w == spec_encode(self),
    {
        match self.op {
            M7Op::Bset => encode::bset(self.rd, self.rs),
            M7Op::Bclr => encode::bclr(self.rd, self.rs),
            M7Op::Binv => encode::binv(self.rd, self.rs),
            M7Op::Bext => encode::bext(self.rd, self.rs),
            M7Op::Mul => encode::mul(self.rd, self.rs),
            M7Op::Mulh => encode::mulh(self.rd, self.rs),
            M7Op::Mulhu => encode::mulhu(self.rd, self.rs),
            M7Op::Mulhsu => encode::mulhsu(self.rd, self.rs),
            M7Op::Mulo => encode::mulo(self.rd, self.rs),
            M7Op::Div => encode::div(self.rd, self.rs),
            M7Op::Divu => encode::divu(self.rd, self.rs),
            M7Op::Rem => encode::rem(self.rd, self.rs),
            M7Op::Remu => encode::remu(self.rd, self.rs),
            M7Op::Rev8 => encode::rev8(self.rd, self.rs),
        }
    }

    pub fn decode(word: u16) -> (res: Result<Self, M7DecodeError>)
        ensures
            res == spec_decode(word),
    {
        proof {
            lemma_fields(word);
        }
        if word >> 12 != 0xC {
            return Err(M7DecodeError::NotM7);
        }
        let rd = Reg::new(((word >> 8) & 0xf) as u8).unwrap();
        let rs = Reg::new(((word >> 4) & 0xf) as u8).unwrap();
        let op = match word & 0xf {
            0x1 => M7Op::Bset,
            0x2 => M7Op::Bclr,
            0x3 => M7Op::Binv,
            0x4 => M7Op::Bext,
            0x5 => M7Op::Mul,
            0x6 => M7Op::Mulh,
            0x7 => M7Op::Mulhu,
            0x8 => M7Op::Mulhsu,
            0x9 => M7Op::Mulo,
            0xA => M7Op::Div,
            0xB => M7Op::Divu,
            0xC => M7Op::Rem,
            0xD => M7Op::Remu,
            0xE => M7Op::Rev8,
            _ => return Err(M7DecodeError::ReservedFunction),
        };
        proof {
            Reg::lemma_view_injective(rd, Reg::spec_new(((word / 0x100) % 16) as u8));
            Reg::lemma_view_injective(rs, Reg::spec_new(((word / 0x10) % 16) as u8));
        }
        Ok(Self { op, rd, rs })
    }

    pub fn disassemble(self) -> (s: String)
        ensures
            s@ == spec_disassemble(self),
    {
        let mut s = String::from_str(self.op.mnemonic());
        s.append(" ");
        s.append(self.rd.name());
        s.append(", ");
        s.append(self.rs.name());
        s
    }
}

impl M7Op {
    pub fn mnemonic(self) -> (s: &'static str)
        ensures
            s@ == spec_mnemonic(self),
    {
        match self {
            Self::Bset => "bset",
            Self::Bclr => "bclr",
            Self::Binv => "binv",
            Self::Bext => "bext",
            Self::Mul => "mul",
            Self::Mulh => "mulh",
            Self::Mulhu => "mulhu",
            Self::Mulhsu => "mulhsu",
            Self::Mulo => "mulo",
            Self::Div => "div",
            Self::Divu => "divu",
            Self::Rem => "rem",
            Self::Remu => "remu",
            Self::Rev8 => "rev8",
        }
    }
}

/// Decoding an encoded M7 instruction gives the instruction back.
pub proof fn lemma_decode_encode(i: M7Inst)
    requires
        i.rd@ < 16,
        i.rs@ < 16,
    ensures
        spec_decode(spec_encode(i)) == Ok::<M7Inst, M7DecodeError>(i),
{
    let w = spec_encode(i);
    let (d, s, f) = (i.rd@ as int, i.rs@ as int, spec_function(i.op));
    assert(w as int == 12 * 0x1000 + d * 0x100 + s * 0x10 + f);
    assert(w / 0x1000 == 12);
    assert((w / 0x100) % 16 == d);
    assert((w / 0x10) % 16 == s);
    assert(w % 16 == f);
    Reg::lemma_view_injective(i.rd, Reg::spec_new(d as u8));
    Reg::lemma_view_injective(i.rs, Reg::spec_new(s as u8));
}

/// Every word that decodes is the encoding of what it decodes to.
pub proof fn lemma_encode_decode(word: u16)
    ensures
        spec_decode(word) matches Ok(i) ==> spec_encode(i) == word,
{
    if let Ok(i) = spec_decode(word) {
        let (d, s, f) = ((word / 0x100) % 16, (word / 0x10) % 16, word % 16);
        assert(word == 12 * 0x1000 + d * 0x100 + s * 0x10 + f);
    }
}


// ---------------------------------------------------------------------------
// Reference execution semantics
// ---------------------------------------------------------------------------

pub open spec fn two32() -> int {
    0x1_0000_0000
}

/// The signed value of a 32-bit word.
pub open spec fn sx(x: u32) -> int {
    if x >= 0x8000_0000 {
        x - two32()
    } else {
        x as int
    }
}

/// A mathematical integer reduced to a 32-bit word.
pub open spec fn wrap32(x: int) -> u32 {
    (x % two32()) as u32
}

pub open spec fn abs(x: int) -> int {
    if x < 0 {
        -x
    } else {
        x
    }
}

/// Division rounding toward zero.
pub open spec fn trunc_div(a: int, b: int) -> int {
    if (a < 0) == (b < 0) {
        abs(a) / abs(b)
    } else {
        -(abs(a) / abs(b))
    }
}

/// The remainder of division rounding toward zero; it has the sign of `a`.
pub open spec fn trunc_rem(a: int, b: int) -> int {
    if a < 0 {
        -(abs(a) % abs(b))
    } else {
        abs(a) % abs(b)
    }
}

/// Byte `i` (0 = least significant) of a word.
pub open spec fn byte_of(x: u32, i: int) -> int {
    if i == 0 {
        (x % 0x100) as int
    } else if i == 1 {
        ((x / 0x100) % 0x100) as int
    } else if i == 2 {
        ((x / 0x1_0000) % 0x100) as int
    } else {
        (x / 0x100_0000) as int
    }
}

/// Architectural semantics of the two-address form `rd <- f(rd, rs)`.
/// Division by zero yields all ones (`DIV`, `DIVU`) or the dividend (`REM`,
/// `REMU`); the signed overflow `MIN / -1` wraps to `MIN` with remainder 0.
pub open spec fn spec_execute(op: M7Op, rd: u32, rs: u32) -> u32 {
    match op {
        M7Op::Bset => rd | (1u32 << (rs % 32)),
        M7Op::Bclr => rd & !(1u32 << (rs % 32)),
        M7Op::Binv => rd ^ (1u32 << (rs % 32)),
        M7Op::Bext => (rd >> (rs % 32)) & 1,
        M7Op::Mul => wrap32(rd * rs),
        M7Op::Mulh => wrap32((sx(rd) * sx(rs)) / two32()),
        M7Op::Mulhu => wrap32((rd * rs) / two32()),
        M7Op::Mulhsu => wrap32((sx(rd) * rs) / two32()),
        M7Op::Mulo => if -0x8000_0000 <= sx(rd) * sx(rs) < 0x8000_0000 {
            0
        } else {
            1
        },
        M7Op::Div => if rs == 0 {
            0xffff_ffff
        } else {
            wrap32(trunc_div(sx(rd), sx(rs)))
        },
        M7Op::Divu => if rs == 0 {
            0xffff_ffff
        } else {
            rd / rs
        },
        M7Op::Rem => if rs == 0 {
            rd
        } else {
            wrap32(trunc_rem(sx(rd), sx(rs)))
        },
        M7Op::Remu => if rs == 0 {
            rd
        } else {
            rd % rs
        },
        M7Op::Rev8 => (byte_of(rd, 0) * 0x100_0000 + byte_of(rd, 1) * 0x1_0000 + byte_of(rd, 2) * 0x100
            + byte_of(rd, 3)) as u32,
    }
}

/// The high word of the unsigned 64-bit product.
fn mul_high_unsigned(rd: u32, rs: u32) -> (h: u64)
    ensures
        h == (rd * rs) / two32(),
        h < two32(),
{
    assert(rd * rs <= 0xffff_fffe_0000_0001) by (nonlinear_arith)
        requires
            rd <= 0xffff_ffff,
            rs <= 0xffff_ffff,
    ;
    let p = (rd as u64) * (rs as u64);
    p / 0x1_0000_0000
}

proof fn lemma_mulh(rd: u32, rs: u32)
    ensures
        ({
            let a: int = if rd >= 0x8000_0000 {
                1
            } else {
                0
            };
            let b: int = if rs >= 0x8000_0000 {
                1
            } else {
                0
            };
            wrap32((sx(rd) * sx(rs)) / two32()) == wrap32((rd * rs) / two32() - a * rs - b * rd)
                && wrap32((sx(rd) * rs) / two32()) == wrap32((rd * rs) / two32() - a * rs)
        }),
{
    let a: int = if rd >= 0x8000_0000 {
        1
    } else {
        0
    };
    let b: int = if rs >= 0x8000_0000 {
        1
    } else {
        0
    };
    let p = rd * rs;
    let k = -(a * rs + b * rd) + two32() * a * b;
    assert(sx(rd) * sx(rs) == p + k * two32()) by (nonlinear_arith)
        requires
            sx(rd) == rd - a * two32(),
            sx(rs) == rs - b * two32(),
            p == rd * rs,
            k == -(a * rs + b * rd) + two32() * a * b,
    ;
    vstd::arithmetic::div_mod::lemma_hoist_over_denominator(p, k, two32() as nat);
    vstd::arithmetic::div_mod::lemma_mod_multiples_vanish(a * b, p / two32() - a * rs - b * rd, two32());
    assert(two32() * (a * b) + (p / two32() - a * rs - b * rd) == p / two32() + k) by (nonlinear_arith)
        requires
            k == -(a * rs + b * rd) + two32() * a * b,
    ;
    let k2 = -(a * rs);
    assert(sx(rd) * rs == p + k2 * two32()) by (nonlinear_arith)
        requires
            sx(rd) == rd - a * two32(),
            p == rd * rs,
            k2 == -(a * rs),
    ;
    vstd::arithmetic::div_mod::lemma_hoist_over_denominator(p, k2, two32() as nat);
}

/// Pure architectural reference semantics. The R2F instruction form is
/// two-address: `rd <- f(rd, rs)`.
pub fn execute_reference(inst: M7Inst, rd: u32, rs: u32) -> (v: u32)
    ensures
        v == spec_execute(inst.op, rd, rs),
{
    let amount = rs & 31;
    assert(rs & 31 == rs % 32) by (bit_vector);
    match inst.op {
        M7Op::Bset => rd | (1u32 << amount),
        M7Op::Bclr => rd & !(1u32 << amount),
        M7Op::Binv => rd ^ (1u32 << amount),
        M7Op::Bext => (rd >> amount) & 1,
        M7Op::Mul => rd.wrapping_mul(rs),
        M7Op::Mulh => {
            let h = mul_high_unsigned(rd, rs);
            let a: u64 = if rd >= 0x8000_0000 {
                rs as u64
            } else {
                0
            };
            let b: u64 = if rs >= 0x8000_0000 {
                rd as u64
            } else {
                0
            };
            proof {
                lemma_mulh(rd, rs);
                vstd::arithmetic::div_mod::lemma_mod_multiples_vanish(2, h - a - b, two32());
            }
            ((h + 0x2_0000_0000 - a - b) % 0x1_0000_0000) as u32
        },
        M7Op::Mulhu => mul_high_unsigned(rd, rs) as u32,
        M7Op::Mulhsu => {
            let h = mul_high_unsigned(rd, rs);
            let a: u64 = if rd >= 0x8000_0000 {
                rs as u64
            } else {
                0
            };
            proof {
                lemma_mulh(rd, rs);
                vstd::arithmetic::div_mod::lemma_mod_multiples_vanish(1, h - a, two32());
            }
            ((h + 0x1_0000_0000 - a) % 0x1_0000_0000) as u32
        },
        M7Op::Mulo => {
            let x = signed_value(rd);
            let y = signed_value(rs);
            assert(-0x4000_0000_0000_0000 <= x * y <= 0x4000_0000_0000_0000) by (nonlinear_arith)
                requires
                    -0x8000_0000 <= x <= 0x7fff_ffff,
                    -0x8000_0000 <= y <= 0x7fff_ffff,
            ;
            let p = x * y;
            if -0x8000_0000 <= p && p <= 0x7fff_ffff {
                0
            } else {
                1
            }
        },
        M7Op::Div => signed_div(rd, rs),
        M7Op::Divu => if rs == 0 {
            u32::MAX
        } else {
            rd / rs
        },
        M7Op::Rem => signed_rem(rd, rs),
        M7Op::Remu => if rs == 0 {
            rd
        } else {
            rd % rs
        },
        M7Op::Rev8 => {
            let v = ((rd & 0xff) << 24) | (((rd >> 8) & 0xff) << 16) | (((rd >> 16) & 0xff) << 8)
                | (rd >> 24);
            assert(v == (rd % 0x100) * 0x100_0000 + ((rd / 0x100) % 0x100) * 0x1_0000 + ((rd
                / 0x1_0000) % 0x100) * 0x100 + rd / 0x100_0000) by (bit_vector)
                requires
                    v == ((rd & 0xff) << 24) | (((rd >> 8) & 0xff) << 16) | (((rd >> 16) & 0xff)
                        << 8) | (rd >> 24),
            ;
            v
        },
    }
}

/// The signed value of a word, widened to 64 bits.
pub fn signed_value(x: u32) -> (v: i64)
    ensures
        v == sx(x),
{
    if x >= 0x8000_0000 {
        x as i64 - 0x1_0000_0000
    } else {
        x as i64
    }
}

/// The magnitude of the signed value of a word, and whether it is negative.
fn magnitude(x: u32) -> (res: (u32, bool))
    ensures
        res.0 == abs(sx(x)),
        res.1 == (sx(x) < 0),
{
    if x >= 0x8000_0000 {
        ((0x1_0000_0000u64 - x as u64) as u32, true)
    } else {
        (x, false)
    }
}

/// The word whose value is the negation of `m` modulo 2^32.
fn negate(m: u32) -> (v: u32)
    ensures
        v == wrap32(-(m as int)),
{
    proof {
        vstd::arithmetic::div_mod::lemma_mod_multiples_vanish(1, -(m as int), two32());
    }
    ((0x1_0000_0000u64 - m as u64) % 0x1_0000_0000) as u32
}

fn signed_div(lhs: u32, rhs: u32) -> (v: u32)
    ensures
        v == spec_execute(M7Op::Div, lhs, rhs),
{
    if rhs == 0 {
        u32::MAX
    } else if lhs == 0x8000_0000 && rhs == 0xffff_ffff {
        assert(trunc_div(sx(lhs), sx(rhs)) == 0x8000_0000);
        0x8000_0000
    } else {
        let (a, an) = magnitude(lhs);
        let (b, bn) = magnitude(rhs);
        let q = a / b;
        if an == bn {
            q
        } else {
            negate(q)
        }
    }
}

fn signed_rem(lhs: u32, rhs: u32) -> (v: u32)
    ensures
        v == spec_execute(M7Op::Rem, lhs, rhs),
{
    if rhs == 0 {
        lhs
    } else if lhs == 0x8000_0000 && rhs == 0xffff_ffff {
        assert(trunc_rem(sx(lhs), sx(rhs)) == 0);
        0
    } else {
        let (a, an) = magnitude(lhs);
        let (b, _) = magnitude(rhs);
        let r = a % b;
        if an {
            negate(r)
        } else {
            r
        }
    }
}

} // verus!

verus! {

proof fn lemma_trunc_div_rem(a: int, b: int)
    requires
        b != 0,
    ensures
        trunc_div(a, b) * b + trunc_rem(a, b) == a,
        abs(trunc_rem(a, b)) < abs(b),
        trunc_rem(a, b) == 0 || (trunc_rem(a, b) < 0) == (a < 0),
{
    let x = abs(a);
    let y = abs(b);
    vstd::arithmetic::div_mod::lemma_fundamental_div_mod(x, y);
    vstd::arithmetic::div_mod::lemma_mod_bound(x, y);
    let q = x / y;
    let r = x % y;
    assert(x == y * q + r);
    if a < 0 && b < 0 {
        assert(q * b == -(y * q)) by (nonlinear_arith)
            requires
                y == -b,
        ;
    } else if a < 0 {
        assert(-q * b == -(y * q)) by (nonlinear_arith)
            requires
                y == b,
        ;
    } else if b < 0 {
        assert(-q * b == y * q) by (nonlinear_arith)
            requires
                y == -b,
        ;
    } else {
        assert(q * b == y * q) by (nonlinear_arith)
            requires
                y == b,
        ;
    }
}

/// How many times 2^32 the signed value of `wrap32(x)` lies above `x`.
spec fn wrap_multiple(x: int) -> int {
    if wrap32(x) >= 0x8000_0000 {
        -(x / two32()) - 1
    } else {
        -(x / two32())
    }
}

/// A word taken as a signed value differs from the integer it was reduced
/// from by a multiple of 2^32, and equals it when it is in the signed range.
proof fn lemma_sx_wrap(x: int)
    ensures
        sx(wrap32(x)) == x + wrap_multiple(x) * two32(),
        -0x8000_0000 <= x < 0x8000_0000 ==> sx(wrap32(x)) == x,
{
    vstd::arithmetic::div_mod::lemma_fundamental_div_mod(x, two32());
    vstd::arithmetic::div_mod::lemma_mod_bound(x, two32());
    let q = x / two32();
    assert(x == two32() * q + x % two32());
    if wrap32(x) >= 0x8000_0000 {
        assert(sx(wrap32(x)) == x + (-q - 1) * two32());
    } else {
        assert(sx(wrap32(x)) == x + (-q) * two32());
    }
    if -0x8000_0000 <= x < 0x8000_0000 {
        if x < 0 {
            vstd::arithmetic::div_mod::lemma_mod_multiples_vanish(1, x, two32());
            vstd::arithmetic::div_mod::lemma_small_mod((x + two32()) as nat, two32() as nat);
        } else {
            vstd::arithmetic::div_mod::lemma_small_mod(x as nat, two32() as nat);
        }
    }
}

/// Signed division and remainder: for a nonzero divisor, quotient times
/// divisor plus remainder gives back the dividend in 32-bit wrapping
/// arithmetic, the remainder is smaller in magnitude than the divisor, and it
/// is zero or has the dividend's sign. `MIN / -1` gives `MIN`, remainder 0.
/// By zero, `DIV` gives all ones and `REM` the dividend.
pub proof fn lemma_signed_division(rd: u32, rs: u32)
    ensures
        rs != 0 ==> ({
            let q = spec_execute(M7Op::Div, rd, rs);
            let r = spec_execute(M7Op::Rem, rd, rs);
            &&& wrap32(sx(q) * sx(rs) + sx(r)) == rd
            &&& abs(sx(r)) < abs(sx(rs))
            &&& sx(r) == 0 || (sx(r) < 0) == (sx(rd) < 0)
        }),
        rd == 0x8000_0000 && rs == 0xffff_ffff ==> spec_execute(M7Op::Div, rd, rs) == 0x8000_0000
            && spec_execute(M7Op::Rem, rd, rs) == 0,
        rs == 0 ==> spec_execute(M7Op::Div, rd, rs) == u32::MAX && spec_execute(M7Op::Rem, rd, rs)
            == rd,
{
    if rs != 0 {
        let a = sx(rd);
        let b = sx(rs);
        let td = trunc_div(a, b);
        let tr = trunc_rem(a, b);
        lemma_trunc_div_rem(a, b);
        assert(-0x8000_0000 <= tr < 0x8000_0000);
        lemma_sx_wrap(tr);
        lemma_sx_wrap(td);
        let k = wrap_multiple(td);
        let sq = sx(wrap32(td));
        assert(sq * b + tr == a + (k * b) * two32()) by (nonlinear_arith)
            requires
                sq == td + k * two32(),
                td * b + tr == a,
        ;
        vstd::arithmetic::div_mod::lemma_mod_multiples_vanish(k * b, a, two32());
        assert(two32() * (k * b) == (k * b) * two32()) by (nonlinear_arith);
        lemma_sx_wrap(rd as int);
        vstd::arithmetic::div_mod::lemma_small_mod(rd as nat, two32() as nat);
        if rd >= 0x8000_0000 {
            vstd::arithmetic::div_mod::lemma_mod_multiples_vanish(-1, rd as int, two32());
        }
    }
    if rd == 0x8000_0000 && rs == 0xffff_ffff {
        assert(sx(rd) == -0x8000_0000 && sx(rs) == -1);
        assert(abs(sx(rd)) == 0x8000_0000 && abs(sx(rs)) == 1);
        vstd::arithmetic::div_mod::lemma_div_basics(0x8000_0000);
        vstd::arithmetic::div_mod::lemma_fundamental_div_mod(0x8000_0000, 1);
        vstd::arithmetic::div_mod::lemma_mod_bound(0x8000_0000, 1);
        assert(trunc_div(sx(rd), sx(rs)) == 0x8000_0000);
        assert(trunc_rem(sx(rd), sx(rs)) == 0);
        vstd::arithmetic::div_mod::lemma_small_mod(0x8000_0000nat, two32() as nat);
        vstd::arithmetic::div_mod::lemma_small_mod(0nat, two32() as nat);
    }
}

/// Unsigned division and remainder: for a nonzero divisor, quotient times
/// divisor plus remainder is the dividend and the remainder is below the
/// divisor; by zero, `DIVU` gives all ones and `REMU` the dividend.
pub proof fn lemma_unsigned_division(rd: u32, rs: u32)
    ensures
        rs != 0 ==> spec_execute(M7Op::Divu, rd, rs) * rs + spec_execute(M7Op::Remu, rd, rs) == rd
            && spec_execute(M7Op::Remu, rd, rs) < rs,
        rs == 0 ==> spec_execute(M7Op::Divu, rd, rs) == u32::MAX && spec_execute(M7Op::Remu, rd, rs)
            == rd,
{
    if rs != 0 {
        vstd::arithmetic::div_mod::lemma_fundamental_div_mod(rd as int, rs as int);
        vstd::arithmetic::div_mod::lemma_mod_bound(rd as int, rs as int);
        assert((rd / rs) * rs == rs * (rd / rs)) by (nonlinear_arith);
    }
}

/// Every operation has its own mnemonic.
pub proof fn lemma_mnemonic_injective(a: M7Op, b: M7Op)
    ensures
        spec_mnemonic(a) == spec_mnemonic(b) ==> a == b,
{
    reveal_strlit("bset");
    reveal_strlit("bclr");
    reveal_strlit("binv");
    reveal_strlit("bext");
    reveal_strlit("mul");
    reveal_strlit("mulh");
    reveal_strlit("mulhu");
    reveal_strlit("mulhsu");
    reveal_strlit("mulo");
    reveal_strlit("div");
    reveal_strlit("divu");
    reveal_strlit("rem");
    reveal_strlit("remu");
    reveal_strlit("rev8");
    let s = spec_mnemonic(a);
    let t = spec_mnemonic(b);
    if s == t {
        assert(s.len() == t.len());
        assert(forall|i: int| 0 <= i < s.len() ==> s[i] == t[i]);
        assert(s[0] == t[0]);
        assert(s[1] == t[1]);
        assert(s[2] == t[2]);
        if s.len() > 3 {
            assert(s[3] == t[3]);
        }
        if s.len() > 4 {
            assert(s[4] == t[4]);
        }
    }
}

/// `a * b` and `sa * sb` agree modulo 2^32 when `a`, `b` are words and `sa`,
/// `sb` their signed values; the high word of a product and its reduction
/// rebuild the product.
proof fn lemma_product_split(p: int, low: u32)
    requires
        low == wrap32(p),
    ensures
        (p / two32()) * two32() + low == p,
{
    vstd::arithmetic::div_mod::lemma_fundamental_div_mod(p, two32());
    vstd::arithmetic::div_mod::lemma_mod_bound(p, two32());
    assert(two32() * (p / two32()) == (p / two32()) * two32()) by (nonlinear_arith);
}

proof fn lemma_same_low_word(x: int, y: int, k: int)
    requires
        x == y + k * two32(),
    ensures
        wrap32(x) == wrap32(y),
{
    vstd::arithmetic::div_mod::lemma_mod_multiples_vanish(k, y, two32());
    assert(two32() * k == k * two32()) by (nonlinear_arith);
}

/// The multiply group splits the 64-bit product into words: `MUL` is the
/// low word of the product, and `MULH`, `MULHU` and `MULHSU` the high word of
/// the signed, unsigned and signed-by-unsigned product, so that high word
/// times 2^32 plus low word is that product exactly.
pub proof fn lemma_multiply_words(rd: u32, rs: u32)
    ensures
        sx(spec_execute(M7Op::Mulh, rd, rs)) * two32() + spec_execute(M7Op::Mul, rd, rs) == sx(rd)
            * sx(rs),
        spec_execute(M7Op::Mulhu, rd, rs) * two32() + spec_execute(M7Op::Mul, rd, rs) == rd * rs,
        sx(spec_execute(M7Op::Mulhsu, rd, rs)) * two32() + spec_execute(M7Op::Mul, rd, rs) == sx(rd)
            * rs,
{
    let a = sx(rd);
    let b = sx(rs);
    let k1: int = if rd >= 0x8000_0000 { 1 } else { 0 };
    let k2: int = if rs >= 0x8000_0000 { 1 } else { 0 };
    assert(rd == a + k1 * two32() && rs == b + k2 * two32());
    let low = spec_execute(M7Op::Mul, rd, rs);
    // signed by signed
    assert(rd * rs == a * b + (k1 * b + k2 * a + k1 * k2 * two32()) * two32()) by (nonlinear_arith)
        requires
            rd == a + k1 * two32(),
            rs == b + k2 * two32(),
    ;
    lemma_same_low_word(rd * rs, a * b, k1 * b + k2 * a + k1 * k2 * two32());
    lemma_product_split(a * b, low);
    assert(-0x4000_0000_0000_0000 <= a * b <= 0x4000_0000_0000_0000) by (nonlinear_arith)
        requires
            -0x8000_0000 <= a < 0x8000_0000,
            -0x8000_0000 <= b < 0x8000_0000,
    ;
    let h = (a * b) / two32();
    assert(-0x4000_0000 <= h <= 0x4000_0000) by {
        vstd::arithmetic::div_mod::lemma_fundamental_div_mod(a * b, two32());
        vstd::arithmetic::div_mod::lemma_mod_bound(a * b, two32());
    }
    lemma_sx_wrap(h);
    // unsigned by unsigned
    lemma_product_split(rd * rs, low);
    assert(0 <= rd * rs < two32() * two32()) by (nonlinear_arith)
        requires
            0 <= rd < two32(),
            0 <= rs < two32(),
    ;
    let hu = (rd * rs) / two32();
    assert(0 <= hu < two32()) by {
        vstd::arithmetic::div_mod::lemma_fundamental_div_mod(rd * rs, two32());
        vstd::arithmetic::div_mod::lemma_mod_bound(rd * rs, two32());
    }
    vstd::arithmetic::div_mod::lemma_small_mod(hu as nat, two32() as nat);
    // signed by unsigned
    assert(rd * rs == a * rs + (k1 * rs) * two32()) by (nonlinear_arith)
        requires
            rd == a + k1 * two32(),
    ;
    lemma_same_low_word(rd * rs, a * rs, k1 * rs);
    lemma_product_split(a * rs, low);
    assert(-0x8000_0000 * two32() < a * rs < 0x8000_0000 * two32()) by (nonlinear_arith)
        requires
            -0x8000_0000 <= a < 0x8000_0000,
            0 <= rs < two32(),
    ;
    let hs = (a * rs) / two32();
    assert(-0x8000_0000 <= hs < 0x8000_0000) by {
        vstd::arithmetic::div_mod::lemma_fundamental_div_mod(a * rs, two32());
        vstd::arithmetic::div_mod::lemma_mod_bound(a * rs, two32());
    }
    lemma_sx_wrap(hs);
}

proof fn lemma_bit_ops(rd: u32, k: u32, j: u32)
    by (bit_vector)
    requires
        k < 32,
        j < 32,
    ensures
        ((rd | (1u32 << k)) >> j) & 1 == if j == k {
            1u32
        } else {
            (rd >> j) & 1
        },
        ((rd & !(1u32 << k)) >> j) & 1 == if j == k {
            0u32
        } else {
            (rd >> j) & 1
        },
        ((rd ^ (1u32 << k)) >> j) & 1 == if j == k {
            ((rd >> j) & 1) ^ 1
        } else {
            (rd >> j) & 1
        },
{
}

/// The single-bit operations act on bit `rs mod 32` of `rd` alone: `BSET`
/// sets it, `BCLR` clears it, `BINV` flips it, and every other bit keeps its
/// value; `BEXT` reads it.
pub proof fn lemma_single_bit_ops(rd: u32, rs: u32, j: u32)
    requires
        j < 32,
    ensures
        (spec_execute(M7Op::Bset, rd, rs) >> j) & 1 == if j == rs % 32 {
            1u32
        } else {
            (rd >> j) & 1
        },
        (spec_execute(M7Op::Bclr, rd, rs) >> j) & 1 == if j == rs % 32 {
            0u32
        } else {
            (rd >> j) & 1
        },
        (spec_execute(M7Op::Binv, rd, rs) >> j) & 1 == if j == rs % 32 {
            ((rd >> j) & 1) ^ 1
        } else {
            (rd >> j) & 1
        },
        j == rs % 32 ==> spec_execute(M7Op::Bext, rd, rs) == (rd >> j) & 1,
{
    lemma_bit_ops(rd, rs % 32, j);
}

proof fn lemma_rev8_bytes(x: u32, v: u32)
    by (bit_vector)
    requires
        v == (x % 0x100) * 0x100_0000 + ((x / 0x100) % 0x100) * 0x1_0000 + ((x / 0x1_0000) % 0x100) * 0x100
            + x / 0x100_0000,
    ensures
        v & 0xff == (x >> 24) & 0xff,
        (v >> 8) & 0xff == (x >> 16) & 0xff,
        (v >> 16) & 0xff == (x >> 8) & 0xff,
        (v >> 24) & 0xff == x & 0xff,
{
}

/// `REV8` reverses the four bytes of `rd`: byte `i` of the result is byte
/// `3 - i` of `rd`.
pub proof fn lemma_rev8_reverses_bytes(rd: u32, rs: u32)
    ensures
        spec_execute(M7Op::Rev8, rd, rs) & 0xff == (rd >> 24) & 0xff,
        (spec_execute(M7Op::Rev8, rd, rs) >> 8) & 0xff == (rd >> 16) & 0xff,
        (spec_execute(M7Op::Rev8, rd, rs) >> 16) & 0xff == (rd >> 8) & 0xff,
        (spec_execute(M7Op::Rev8, rd, rs) >> 24) & 0xff == rd & 0xff,
{
    let v = spec_execute(M7Op::Rev8, rd, rs);
    assert(v == (rd % 0x100) * 0x100_0000 + ((rd / 0x100) % 0x100) * 0x1_0000 + ((rd / 0x1_0000) % 0x100)
        * 0x100 + rd / 0x100_0000);
    lemma_rev8_bytes(rd, v);
}

/// `MULO` reports overflow of the signed product: it is 0 exactly when the
/// low word of the product (`MUL`), read as a signed value, is the whole
/// product of the signed operands.
pub proof fn lemma_multiply_overflow(rd: u32, rs: u32)
    ensures
        spec_execute(M7Op::Mulo, rd, rs) == 0 <==> sx(spec_execute(M7Op::Mul, rd, rs)) == sx(rd) * sx(
            rs,
        ),
        spec_execute(M7Op::Mulo, rd, rs) == 0 || spec_execute(M7Op::Mulo, rd, rs) == 1,
{
    let a = sx(rd);
    let b = sx(rs);
    let k1: int = if rd >= 0x8000_0000 { 1 } else { 0 };
    let k2: int = if rs >= 0x8000_0000 { 1 } else { 0 };
    assert(rd * rs == a * b + (k1 * b + k2 * a + k1 * k2 * two32()) * two32()) by (nonlinear_arith)
        requires
            rd == a + k1 * two32(),
            rs == b + k2 * two32(),
    ;
    lemma_same_low_word(rd * rs, a * b, k1 * b + k2 * a + k1 * k2 * two32());
    lemma_sx_wrap(a * b);
    let low = spec_execute(M7Op::Mul, rd, rs);
    assert(-0x8000_0000 <= sx(low) < 0x8000_0000);
}

} // verus!
