use sia32::encode;
use sia32::label::LabelUse;
use sia32::regs::Reg;

fn r(n: u8) -> Reg {
    Reg::new(n).unwrap()
}

#[test]
fn cond_fixup_is_relative_to_following_instruction() {
    let mut bytes = encode::bnz(r(3), 0).unwrap().to_le_bytes();
    LabelUse::Cond7.patch(&mut bytes, 100, 102 + 63 * 2);
    assert_eq!(u16::from_le_bytes(bytes), encode::bnz(r(3), 63).unwrap());
    let mut bytes = encode::dbnz(r(4), 0).unwrap().to_le_bytes();
    LabelUse::Cond7.patch(&mut bytes, 200, 202 - 64 * 2);
    assert_eq!(u16::from_le_bytes(bytes), encode::dbnz(r(4), -64).unwrap());
}

#[test]
fn branch11_fixup_preserves_b_vs_bl_opcode() {
    let mut b = encode::b(0).unwrap().to_le_bytes();
    LabelUse::Branch11.patch(&mut b, 0x1000, 0x1002 + 1023 * 2);
    assert_eq!(u16::from_le_bytes(b), encode::b(1023).unwrap());
    let mut bl = encode::bl(0).unwrap().to_le_bytes();
    LabelUse::Branch11.patch(&mut bl, 0x2000, 0x2002 - 1024 * 2);
    assert_eq!(u16::from_le_bytes(bl), encode::bl(-1024).unwrap());
}

#[test]
fn literal_fixup_uses_aligned_pc_plus_four_base() {
    let mut a = encode::ldpc_w(r(5), 0).unwrap().to_le_bytes();
    LabelUse::Literal8.patch(&mut a, 0x1000, 0x1004 + 127 * 4);
    assert_eq!(u16::from_le_bytes(a), encode::ldpc_w(r(5), 127).unwrap());
    let mut b = encode::ldpc_w(r(6), 0).unwrap().to_le_bytes();
    LabelUse::Literal8.patch(&mut b, 0x1002, 0x1004 - 128 * 4);
    assert_eq!(u16::from_le_bytes(b), encode::ldpc_w(r(6), -128).unwrap());
}

#[test]
fn declared_branch_ranges_match_exact_encoding_boundaries() {
    assert_eq!(LabelUse::Cond7.max_pos_range(), 128);
    assert_eq!(LabelUse::Cond7.max_neg_range(), 126);
    assert_eq!(LabelUse::Branch11.max_pos_range(), 2048);
    assert_eq!(LabelUse::Branch11.max_neg_range(), 2046);
    assert_eq!(LabelUse::Cond7.patch_size(), 2);
    assert_eq!(LabelUse::Literal8.patch_size(), 2);
}

#[test]
fn conditional_veneer_promotes_to_branch11() {
    let mut bytes = [0u8; 2];
    let (fixup, next) = LabelUse::Cond7.generate_veneer(&mut bytes, 0x400);
    assert_eq!(u16::from_le_bytes(bytes), encode::b(0).unwrap());
    assert_eq!(fixup, 0x400);
    assert_eq!(next, LabelUse::Branch11);
}

#[test]
fn branch11_veneer_can_chain_without_relinking_lr() {
    let mut first = [0u8; 2];
    let (fixup, next) = LabelUse::Branch11.generate_veneer(&mut first, 0x800);
    assert_eq!(u16::from_le_bytes(first), encode::b(0).unwrap());
    assert_eq!(fixup, 0x800);
    assert_eq!(next, LabelUse::Branch11);
    assert_eq!(LabelUse::Branch11.veneer_size(), 2);
    assert!(LabelUse::Branch11.supports_veneer());
    assert!(!LabelUse::Literal8.supports_veneer());
}

#[test]
fn patching_keeps_register_and_opcode_bits() {
    // A backward BNZ on r15 keeps the register field; patching twice with the
    // same target gives the same word.
    let mut bytes = encode::bnz(r(15), 5).unwrap().to_le_bytes();
    LabelUse::Cond7.patch(&mut bytes, 0x40, 0x40 + 2 - 2);
    assert_eq!(u16::from_le_bytes(bytes), encode::bnz(r(15), -1).unwrap());
    let once = bytes;
    LabelUse::Cond7.patch(&mut bytes, 0x40, 0x40);
    assert_eq!(bytes, once);
    // A literal two words ahead of an odd-halfword LDPC.W.
    let mut lit = encode::ldpc_w(r(12), 0).unwrap().to_le_bytes();
    LabelUse::Literal8.patch(&mut lit, 0x102, 0x108);
    assert_eq!(u16::from_le_bytes(lit), encode::ldpc_w(r(12), 1).unwrap());
}

#[test]
fn veneer_sizes_and_literal_ranges() {
    assert_eq!(LabelUse::worst_case_veneer_size(), 2);
    assert_eq!(LabelUse::Cond7.veneer_size(), 2);
    assert!(LabelUse::Cond7.supports_veneer());
    assert_eq!(LabelUse::Literal8.max_pos_range(), 508);
    assert_eq!(LabelUse::Literal8.max_neg_range(), 508);
}
