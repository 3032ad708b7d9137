//! SIA32 external relocation contract.
//!
//! The machine backend emits absolute 32-bit words and leaves final symbol
//! placement to the object writer/linker. Local SIA branches and `LDPC.W`
//! literal references are label fixups resolved before this boundary.

use crate::buffer::{le4, padding, room, CodeBuffer, RelocKind};
use vstd::prelude::*;

verus! {

/// The relocation used by the SIA32 object contract for an absolute 32-bit
/// address word.
pub const ABS32: RelocKind = RelocKind::Abs4;

/// Emit one aligned, zero-filled SIA32 address word carrying an absolute
/// 32-bit relocation, and return its offset.
///
/// The caller must place this word in a non-executed literal/data region.
pub fn emit_abs32_word(code: &mut CodeBuffer, target: &String, addend: i32) -> (offset: u32)
    requires
        room(*old(code), 8),
    ensures
        offset as int == old(code).data@.len() + padding(old(code).data@.len() as int, 4).len(),
        offset % 4 == 0,
        final(code).data@ == old(code).data@ + padding(old(code).data@.len() as int, 4) + le4(0),
        final(code).relocs@.len() == old(code).relocs@.len() + 1,
        final(code).relocs@.subrange(0, old(code).relocs@.len() as int) == old(code).relocs@,
        final(code).relocs@.last().offset == offset,
        final(code).relocs@.last().kind == ABS32,
        final(code).relocs@.last().target@ == target@,
        final(code).relocs@.last().addend == addend,
        final(code).fixups == old(code).fixups,
        final(code).label_offsets == old(code).label_offsets,
        final(code).call_sites == old(code).call_sites,
{
    code.align_to(4);
    let offset = code.cur_offset();
    code.add_reloc(ABS32, target, addend as i64);
    code.put4(0);
    offset
}

/// Resolve the mathematical value `S + A` of a SIA32 ABS32 relocation.
///
/// Object writers/linkers must reject `None`; truncating a value outside the
/// unsigned 32-bit address space is not part of the SIA32 contract.
pub fn checked_abs32_value(symbol_address: u64, addend: i32) -> (res: Option<u32>)
    ensures
        res == if 0 <= symbol_address + addend <= u32::MAX {
            Some((symbol_address + addend) as u32)
        } else {
            None::<u32>
        },
{
    if symbol_address > 0x1_0000_0000 + 0x8000_0000 {
        return None;
    }
    let value = (symbol_address as i64) + (addend as i64);
    if 0 <= value && value <= 0xffff_ffff {
        Some(value as u32)
    } else {
        None
    }
}

} // verus!
