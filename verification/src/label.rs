//! SIA32 local-label fixup kinds.
//!
//! Branch displacements are signed halfword counts relative to the following
//! 16-bit instruction. `LDPC.W` is different: its displacement is a signed word
//! count relative to `align_down(instruction_pc + 4, 4)`.

use crate::encode::{self, branch11_word, ldpc_word, reg_imm7_word, twos};
use vstd::prelude::*;

verus! {

#[derive(Clone, Copy, Debug, PartialEq, Eq, Structural)]
pub enum LabelUse {
    /// The 7-bit halfword displacement of `BNZ` / `DBNZ`.
    Cond7,
    /// The 11-bit halfword displacement of `B` / `BL`.
    Branch11,
    /// The 8-bit word displacement of `LDPC.W`.
    Literal8,
}

/// The little-endian 16-bit word at the start of a byte sequence.
pub open spec fn spec_read_word(s: Seq<u8>) -> u16 {
    (s[0] + s[1] * 256) as u16
}

/// Halfword displacement from the instruction after a use to the label.
pub open spec fn branch_disp(use_offset: int, label_offset: int) -> int {
    (label_offset - (use_offset + 2)) / 2
}

/// The base of an `LDPC.W` displacement: the use offset plus four, rounded
/// down to a word boundary.
pub open spec fn literal_base(use_offset: int) -> int {
    ((use_offset + 4) / 4) * 4
}

/// Word displacement from the literal base to the label.
pub open spec fn literal_disp(use_offset: int, label_offset: int) -> int {
    (label_offset - literal_base(use_offset)) / 4
}

/// The displacement a fixup of this kind encodes.
pub open spec fn spec_disp(kind: LabelUse, use_offset: int, label_offset: int) -> int {
    match kind {
        LabelUse::Literal8 => literal_disp(use_offset, label_offset),
        _ => branch_disp(use_offset, label_offset),
    }
}

/// Width in bits of the displacement field.
pub open spec fn field_bits(kind: LabelUse) -> nat {
    match kind {
        LabelUse::Cond7 => 7,
        LabelUse::Branch11 => 11,
        LabelUse::Literal8 => 8,
    }
}

/// Smallest and largest encodable displacement.
pub open spec fn disp_min(kind: LabelUse) -> int {
    match kind {
        LabelUse::Cond7 => -64,
        LabelUse::Branch11 => -1024,
        LabelUse::Literal8 => -128,
    }
}

pub open spec fn disp_max(kind: LabelUse) -> int {
    match kind {
        LabelUse::Cond7 => 63,
        LabelUse::Branch11 => 1023,
        LabelUse::Literal8 => 127,
    }
}

/// A use can be patched to a label when the target is suitably aligned and the
/// displacement fits the field: branch targets are halfword aligned, literal
/// targets word aligned.
pub open spec fn patchable(kind: LabelUse, use_offset: int, label_offset: int) -> bool {
    &&& match kind {
        LabelUse::Literal8 => label_offset % 4 == 0,
        _ => (label_offset - (use_offset + 2)) % 2 == 0,
    }
    &&& disp_min(kind) <= spec_disp(kind, use_offset, label_offset) <= disp_max(kind)
}

/// The word with its displacement field replaced and every other bit kept.
pub open spec fn patched_word(kind: LabelUse, old: u16, disp: int) -> u16 {
    let m = vstd::arithmetic::power2::pow2(field_bits(kind)) as int;
    (old - (old as int) % m + twos(disp, field_bits(kind))) as u16
}

proof fn lemma_pow2_facts()
    ensures
        vstd::arithmetic::power2::pow2(7) == 128,
        vstd::arithmetic::power2::pow2(8) == 256,
        vstd::arithmetic::power2::pow2(11) == 2048,
{
    vstd::arithmetic::power2::lemma2_to64();
}

proof fn lemma_replace_field(old: u16, d: i64, mask: u16, m: u16)
    by (bit_vector)
    requires
        m == mask + 1,
        mask == 0x7f && -64 <= d <= 63 || mask == 0x7ff && -1024 <= d <= 1023 || mask == 0xff && -128
            <= d <= 127,
    ensures
        (old & !mask) | ((d as u16) & mask) == old - old % m + (if d < 0 {
            d + m
        } else {
            d as int
        }),
{
}

impl LabelUse {
    pub const ALIGN: u32 = 2;

    fn read_word(buffer: &[u8]) -> (w: u16)
        requires
            buffer@.len() >= 2,
        ensures
            w == spec_read_word(buffer@),
    {
        let (lo, hi) = (buffer[0], buffer[1]);
        let w = (lo as u16) | ((hi as u16) << 8);
        assert(w == lo + hi * 256) by (bit_vector)
            requires
                w == (lo as u16) | ((hi as u16) << 8),
        ;
        w
    }

    fn write_word(buffer: &mut [u8], word: u16)
        requires
            old(buffer)@.len() >= 2,
        ensures
            final(buffer)@.len() == old(buffer)@.len(),
            spec_read_word(final(buffer)@) == word,
            final(buffer)@.subrange(2, final(buffer)@.len() as int) == old(buffer)@.subrange(
                2,
                old(buffer)@.len() as int,
            ),
    {
        let lo = (word & 0xff) as u8;
        let hi = (word >> 8) as u8;
        assert(lo + hi * 256 == word) by (bit_vector)
            requires
                lo == (word & 0xff) as u8,
                hi == (word >> 8) as u8,
        ;
        buffer[0] = lo;
        buffer[1] = hi;
        assert(final(buffer)@.subrange(2, final(buffer)@.len() as int) =~= old(buffer)@.subrange(
            2,
            old(buffer)@.len() as int,
        ));
    }

    fn branch_disp_halfwords(use_offset: u32, label_offset: u32) -> (d: i64)
        requires
            (label_offset - (use_offset + 2)) % 2 == 0,
        ensures
            d == branch_disp(use_offset as int, label_offset as int),
    {
        let delta = (label_offset as i64) - ((use_offset as i64) + 2);
        delta / 2
    }

    pub fn literal_disp_words(use_offset: u32, label_offset: u32) -> (d: i64)
        requires
            label_offset % 4 == 0,
        ensures
            d == literal_disp(use_offset as int, label_offset as int),
    {
        let s = (use_offset as u64) + 4;
        let base = s & !3u64;
        assert(base == (s / 4) * 4) by (bit_vector)
            requires
                base == s & !3u64,
        ;
        let delta = (label_offset as i64) - (base as i64);
        delta / 4
    }

    /// How far forward, in bytes from the use, a label may lie.
    pub fn max_pos_range(self) -> (n: u32)
        ensures
            n == match self {
                LabelUse::Cond7 => 128u32,
                LabelUse::Branch11 => 2048,
                LabelUse::Literal8 => 508,
            },
    {
        match self {
            Self::Cond7 => 128,
            Self::Branch11 => 2048,
            Self::Literal8 => 508,
        }
    }

    /// How far backward, in bytes from the use, a label may lie.
    pub fn max_neg_range(self) -> (n: u32)
        ensures
            n == match self {
                LabelUse::Cond7 => 126u32,
                LabelUse::Branch11 => 2046,
                LabelUse::Literal8 => 508,
            },
    {
        match self {
            Self::Cond7 => 126,
            Self::Branch11 => 2046,
            Self::Literal8 => 508,
        }
    }

    /// Every fixup patches one 16-bit instruction.
    pub fn patch_size(self) -> (n: u32)
        ensures
            n == 2,
    {
        2
    }

    /// Replace the displacement field of the instruction at the start of
    /// `buffer`, which sits at `use_offset`, so that it reaches `label_offset`.
    pub fn patch(self, buffer: &mut [u8], use_offset: u32, label_offset: u32)
        requires
            old(buffer)@.len() >= 2,
            patchable(self, use_offset as int, label_offset as int),
        ensures
            final(buffer)@.len() == old(buffer)@.len(),
            spec_read_word(final(buffer)@) == patched_word(
                self,
                spec_read_word(old(buffer)@),
                spec_disp(self, use_offset as int, label_offset as int),
            ),
            final(buffer)@.subrange(2, final(buffer)@.len() as int) == old(buffer)@.subrange(
                2,
                old(buffer)@.len() as int,
            ),
    {
        let old = Self::read_word(buffer);
        proof {
            lemma_pow2_facts();
        }
        let patched = match self {
            Self::Cond7 => {
                let disp = Self::branch_disp_halfwords(use_offset, label_offset);
                proof {
                    lemma_replace_field(old, disp, 0x7f, 0x80);
                }
                (old & !0x007f) | ((disp as u16) & 0x007f)
            },
            Self::Branch11 => {
                let disp = Self::branch_disp_halfwords(use_offset, label_offset);
                proof {
                    lemma_replace_field(old, disp, 0x7ff, 0x800);
                }
                (old & !0x07ff) | ((disp as u16) & 0x07ff)
            },
            Self::Literal8 => {
                let disp = Self::literal_disp_words(use_offset, label_offset);
                proof {
                    lemma_replace_field(old, disp, 0xff, 0x100);
                }
                (old & !0x00ff) | ((disp as u16) & 0x00ff)
            },
        };
        Self::write_word(buffer, patched);
    }

    /// Branch uses can be extended through a veneer; literal loads cannot.
    pub fn supports_veneer(self) -> (b: bool)
        ensures
            b == !(self is Literal8),
    {
        match self {
            Self::Cond7 | Self::Branch11 => true,
            Self::Literal8 => false,
        }
    }

    pub fn veneer_size(self) -> (n: u32)
        ensures
            n == if self is Literal8 {
                0u32
            } else {
                2
            },
    {
        match self {
            Self::Cond7 | Self::Branch11 => 2,
            Self::Literal8 => 0,
        }
    }

    pub fn worst_case_veneer_size() -> (n: u32)
        ensures
            n == 2,
    {
        2
    }

    /// Write a veneer: an unconditional `B` whose own displacement is fixed up
    /// later. `Cond7` is promoted to `Branch11`; `Branch11` returns another
    /// `Branch11` use, so hops can chain for arbitrary in-function reach.
    pub fn generate_veneer(self, buffer: &mut [u8], veneer_offset: u32) -> (res: (u32, LabelUse))
        requires
            !(self is Literal8),
            old(buffer)@.len() >= 2,
        ensures
            res == (veneer_offset, LabelUse::Branch11),
            final(buffer)@.len() == old(buffer)@.len(),
            spec_read_word(final(buffer)@) == branch11_word(0xB000, 0),
            final(buffer)@.subrange(2, final(buffer)@.len() as int) == old(buffer)@.subrange(
                2,
                old(buffer)@.len() as int,
            ),
    {
        let word = encode::b(0).unwrap();
        Self::write_word(buffer, word);
        (veneer_offset, Self::Branch11)
    }
}

/// A label within the declared reach of a use, suitably aligned, always gets
/// an encodable displacement: the declared ranges never promise more than the
/// instruction fields can hold.
pub proof fn lemma_declared_ranges_are_encodable(kind: LabelUse, use_offset: u32, label_offset: u32)
    requires
        use_offset % 2 == 0,
        match kind {
            LabelUse::Literal8 => label_offset % 4 == 0,
            _ => label_offset % 2 == 0,
        },
        label_offset <= use_offset + match kind {
            LabelUse::Cond7 => 128int,
            LabelUse::Branch11 => 2048,
            LabelUse::Literal8 => 508,
        },
        use_offset <= label_offset + match kind {
            LabelUse::Cond7 => 126int,
            LabelUse::Branch11 => 2046,
            LabelUse::Literal8 => 508,
        },
    ensures
        patchable(kind, use_offset as int, label_offset as int),
{
    let b = literal_base(use_offset as int);
    vstd::arithmetic::div_mod::lemma_fundamental_div_mod(use_offset + 4, 4);
}

/// For branches the declared reach is exact: a halfword-aligned label can be
/// patched into a use exactly when it lies at most `max_neg_range` bytes
/// before or `max_pos_range` bytes after the use.
pub proof fn lemma_branch_ranges_are_exact(kind: LabelUse, use_offset: u32, label_offset: u32)
    requires
        !(kind is Literal8),
        use_offset % 2 == 0,
        label_offset % 2 == 0,
    ensures
        patchable(kind, use_offset as int, label_offset as int) <==> match kind {
            LabelUse::Cond7 => -126 <= label_offset - use_offset <= 128,
            _ => -2046 <= label_offset - use_offset <= 2048,
        },
{
    let d = label_offset - (use_offset + 2);
    vstd::arithmetic::div_mod::lemma_fundamental_div_mod(d, 2);
    vstd::arithmetic::div_mod::lemma_mod_bound(d, 2);
}

/// Patching the zero-displacement `BNZ`/`DBNZ` placeholder produces the
/// instruction encoded with the label's displacement, keeping its register.
pub proof fn lemma_patch_cond7(base: int, r: u8, disp: int)
    requires
        base == 0xA000 || base == 0xA800,
        r < 16,
        -64 <= disp <= 63,
    ensures
        patched_word(LabelUse::Cond7, reg_imm7_word(base, r, 0), disp) == reg_imm7_word(base, r, disp),
{
    lemma_pow2_facts();
    let w = reg_imm7_word(base, r, 0);
    assert(w == base + r * 128);
    assert(w % 128 == 0);
}

/// Patching the zero-displacement `B`/`BL` placeholder produces the branch to
/// the label; `B` stays `B` and `BL` stays `BL`.
pub proof fn lemma_patch_branch11(base: int, disp: int)
    requires
        base == 0xB000 || base == 0xB800,
        -1024 <= disp <= 1023,
    ensures
        patched_word(LabelUse::Branch11, branch11_word(base, 0), disp) == branch11_word(base, disp),
{
    lemma_pow2_facts();
    let w = branch11_word(base, 0);
    assert(w == base);
    assert(w % 2048 == 0);
}

/// Patching the zero-displacement `LDPC.W` placeholder produces the literal
/// load of the label, keeping its destination register.
pub proof fn lemma_patch_literal8(r: u8, disp: int)
    requires
        r < 16,
        -128 <= disp <= 127,
    ensures
        patched_word(LabelUse::Literal8, ldpc_word(r, 0), disp) == ldpc_word(r, disp),
{
    lemma_pow2_facts();
    let w = ldpc_word(r, 0);
    assert(w == 0x9000 + r * 256);
    assert(w % 256 == 0);
}

} // verus!
