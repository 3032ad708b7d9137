//! The machine-code buffer that SIA32 emission writes into: little-endian
//! bytes, absolute relocations, local label definitions and label fixups.
//!
//! Fixups are recorded, not resolved: resolving a fixup is `LabelUse::patch`
//! applied at the recorded offset once the label's offset is known.

use crate::label::LabelUse;
use vstd::prelude::*;

verus! {

/// The relocation kinds the SIA32 backend emits.
#[derive(Clone, Copy, Debug, PartialEq, Eq, Structural)]
pub enum RelocKind {
    /// An absolute 32-bit little-endian word: the SIA32 `ABS32` relocation.
    Abs4,
}

/// One relocation record: at `offset` the object writer stores `target + addend`.
#[derive(Clone, Debug, PartialEq, Eq)]
pub struct Reloc {
    pub offset: u32,
    pub kind: RelocKind,
    pub target: String,
    pub addend: i64,
}

/// One use of a local label: the instruction at `offset` must be patched with
/// `kind` once `label` is bound.
#[derive(Clone, Copy, Debug, PartialEq, Eq, Structural)]
pub struct LabelFixup {
    pub offset: u32,
    pub label: u32,
    pub kind: LabelUse,
}

pub struct CodeBuffer {
    pub data: Vec<u8>,
    pub relocs: Vec<Reloc>,
    pub fixups: Vec<LabelFixup>,
    pub label_offsets: Vec<Option<u32>>,
    pub call_sites: Vec<u32>,
}

/// The little-endian bytes of a halfword.
pub open spec fn le2(w: u16) -> Seq<u8> {
    seq![(w % 256) as u8, (w / 256) as u8]
}

/// The little-endian bytes of a word.
pub open spec fn le4(w: u32) -> Seq<u8> {
    seq![
        (w % 0x100) as u8,
        ((w / 0x100) % 0x100) as u8,
        ((w / 0x1_0000) % 0x100) as u8,
        (w / 0x100_0000) as u8,
    ]
}

/// The little-endian bytes of a sequence of halfwords.
pub open spec fn words_bytes(ws: Seq<u16>) -> Seq<u8>
    decreases ws.len(),
{
    if ws.len() == 0 {
        Seq::empty()
    } else {
        words_bytes(ws.drop_last()) + le2(ws.last())
    }
}

/// Zero bytes that pad `len` up to a multiple of `align`.
pub open spec fn padding(len: int, align: int) -> Seq<u8> {
    Seq::new((if len % align == 0 {
        0
    } else {
        align - len % align
    }) as nat, |i: int| 0u8)
}

/// Room left for more code: offsets are 32-bit.
pub open spec fn room(code: CodeBuffer, n: int) -> bool {
    code.data@.len() + n <= u32::MAX
}

impl CodeBuffer {
    pub fn new() -> (b: Self)
        ensures
            b.data@.len() == 0,
            b.relocs@.len() == 0,
            b.fixups@.len() == 0,
            b.label_offsets@.len() == 0,
            b.call_sites@.len() == 0,
    {
        CodeBuffer {
            data: Vec::new(),
            relocs: Vec::new(),
            fixups: Vec::new(),
            label_offsets: Vec::new(),
            call_sites: Vec::new(),
        }
    }

    pub fn cur_offset(&self) -> (n: u32)
        requires
            self.data@.len() <= u32::MAX,
        ensures
            n == self.data@.len(),
    {
        self.data.len() as u32
    }

    /// Append one little-endian halfword.
    pub fn put2(&mut self, word: u16)
        requires
            room(*old(self), 2),
        ensures
            final(self).data@ == old(self).data@ + le2(word),
            final(self).relocs == old(self).relocs,
            final(self).fixups == old(self).fixups,
            final(self).label_offsets == old(self).label_offsets,
            final(self).call_sites == old(self).call_sites,
    {
        self.data.push((word & 0xff) as u8);
        self.data.push((word >> 8) as u8);
        assert((word & 0xff) as u8 == (word % 256) as u8 && (word >> 8) as u8 == (word / 256) as u8)
            by (bit_vector);
        assert(self.data@ =~= old(self).data@ + le2(word));
    }

    /// Append one little-endian word.
    pub fn put4(&mut self, word: u32)
        requires
            room(*old(self), 4),
        ensures
            final(self).data@ == old(self).data@ + le4(word),
            final(self).relocs == old(self).relocs,
            final(self).fixups == old(self).fixups,
            final(self).label_offsets == old(self).label_offsets,
            final(self).call_sites == old(self).call_sites,
    {
        let b0 = (word & 0xff) as u8;
        let b1 = ((word >> 8) & 0xff) as u8;
        let b2 = ((word >> 16) & 0xff) as u8;
        let b3 = (word >> 24) as u8;
        assert(b0 == (word % 0x100) as u8 && b1 == ((word / 0x100) % 0x100) as u8 && b2 == ((word
            / 0x1_0000) % 0x100) as u8 && b3 == (word / 0x100_0000) as u8) by (bit_vector)
            requires
                b0 == (word & 0xff) as u8,
                b1 == ((word >> 8) & 0xff) as u8,
                b2 == ((word >> 16) & 0xff) as u8,
                b3 == (word >> 24) as u8,
        ;
        self.data.push(b0);
        self.data.push(b1);
        self.data.push(b2);
        self.data.push(b3);
        assert(self.data@ =~= old(self).data@ + le4(word));
    }

    /// Pad with zero bytes to a multiple of `align`.
    pub fn align_to(&mut self, align: u32)
        requires
            align == 2 || align == 4,
            room(*old(self), 4),
        ensures
            final(self).data@ == old(self).data@ + padding(old(self).data@.len() as int, align as int),
            final(self).data@.len() % (align as nat) == 0,
            final(self).relocs == old(self).relocs,
            final(self).fixups == old(self).fixups,
            final(self).label_offsets == old(self).label_offsets,
            final(self).call_sites == old(self).call_sites,
    {
        let rem = self.data.len() % (align as usize);
        let pad = if rem == 0 {
            0
        } else {
            align as usize - rem
        };
        let mut k: usize = 0;
        while k < pad
            invariant
                k <= pad <= 4,
                self.data@ == old(self).data@ + Seq::new(k as nat, |i: int| 0u8),
                self.relocs == old(self).relocs,
                self.fixups == old(self).fixups,
                self.label_offsets == old(self).label_offsets,
                self.call_sites == old(self).call_sites,
            decreases pad - k,
        {
            self.data.push(0);
            k = k + 1;
            assert(self.data@ =~= old(self).data@ + Seq::new(k as nat, |i: int| 0u8));
        }
        assert(self.data@ =~= old(self).data@ + padding(old(self).data@.len() as int, align as int));
        let ghost len = old(self).data@.len() as int;
        assert((len + pad) % (align as int) == 0) by {
            vstd::arithmetic::div_mod::lemma_fundamental_div_mod(len, align as int);
            let q = len / (align as int);
            if rem == 0 {
                vstd::arithmetic::div_mod::lemma_mod_multiples_basic(q, align as int);
            } else {
                assert(len + pad == (q + 1) * (align as int)) by (nonlinear_arith)
                    requires
                        len == align * q + rem,
                        pad == align - rem,
                ;
                vstd::arithmetic::div_mod::lemma_mod_multiples_basic(q + 1, align as int);
            }
        }
    }

    /// A new, unbound label.
    pub fn get_label(&mut self) -> (label: u32)
        requires
            old(self).label_offsets@.len() < u32::MAX,
        ensures
            label == old(self).label_offsets@.len(),
            final(self).label_offsets@ == old(self).label_offsets@.push(None),
            final(self).data == old(self).data,
            final(self).relocs == old(self).relocs,
            final(self).fixups == old(self).fixups,
            final(self).call_sites == old(self).call_sites,
    {
        let label = self.label_offsets.len() as u32;
        self.label_offsets.push(None);
        label
    }

    /// Bind a label to the current offset.
    pub fn bind_label(&mut self, label: u32)
        requires
            label < old(self).label_offsets@.len(),
            old(self).data@.len() <= u32::MAX,
        ensures
            final(self).label_offsets@ == old(self).label_offsets@.update(
                label as int,
                Some(old(self).data@.len() as u32),
            ),
            final(self).data == old(self).data,
            final(self).relocs == old(self).relocs,
            final(self).fixups == old(self).fixups,
            final(self).call_sites == old(self).call_sites,
    {
        let offset = self.cur_offset();
        self.label_offsets.set(label as usize, Some(offset));
    }

    /// Record that the instruction at `offset` refers to `label`.
    pub fn use_label_at_offset(&mut self, offset: u32, label: u32, kind: LabelUse)
        ensures
            final(self).fixups@ == old(self).fixups@.push(LabelFixup { offset, label, kind }),
            final(self).data == old(self).data,
            final(self).relocs == old(self).relocs,
            final(self).label_offsets == old(self).label_offsets,
            final(self).call_sites == old(self).call_sites,
    {
        self.fixups.push(LabelFixup { offset, label, kind });
    }

    /// Record a relocation at the current offset.
    pub fn add_reloc(&mut self, kind: RelocKind, target: &String, addend: i64)
        requires
            old(self).data@.len() <= u32::MAX,
        ensures
            final(self).relocs@.len() == old(self).relocs@.len() + 1,
            final(self).relocs@.subrange(0, old(self).relocs@.len() as int) == old(self).relocs@,
            final(self).relocs@.last().offset == old(self).data@.len(),
            final(self).relocs@.last().kind == kind,
            final(self).relocs@.last().target@ == target@,
            final(self).relocs@.last().addend == addend,
            final(self).data == old(self).data,
            final(self).fixups == old(self).fixups,
            final(self).label_offsets == old(self).label_offsets,
            final(self).call_sites == old(self).call_sites,
    {
        let offset = self.cur_offset();
        let target = target.clone();
        self.relocs.push(Reloc { offset, kind, target, addend });
        assert(self.relocs@.subrange(0, old(self).relocs@.len() as int) =~= old(self).relocs@);
    }

    /// Record a call site whose return address is the current offset.
    pub fn add_call_site(&mut self)
        requires
            old(self).data@.len() <= u32::MAX,
        ensures
            final(self).call_sites@ == old(self).call_sites@.push(old(self).data@.len() as u32),
            final(self).data == old(self).data,
            final(self).relocs == old(self).relocs,
            final(self).fixups == old(self).fixups,
            final(self).label_offsets == old(self).label_offsets,
    {
        let offset = self.cur_offset();
        self.call_sites.push(offset);
    }
}

} // verus!
