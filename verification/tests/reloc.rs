use sia32::abi::CallConv;
use sia32::buffer::{CodeBuffer, RelocKind};
use sia32::emit::EmitState;
use sia32::inst::{CallInfo, Inst};
use sia32::reloc::{checked_abs32_value, emit_abs32_word, ABS32};

#[test]
fn abs32_word_records_exact_target_addend_and_alignment() {
    let target = String::from("sia_data");
    let mut code = CodeBuffer::new();

    // Start on the other legal halfword alignment so that the relocated word
    // itself has to be moved to a four-byte boundary.
    code.put2(0);
    let offset = emit_abs32_word(&mut code, &target, -4);

    assert_eq!(offset, 4);
    assert_eq!(offset % 4, 0);
    assert_eq!(code.cur_offset(), 8);
    assert_eq!(&code.data[4..8], &[0, 0, 0, 0]);
    assert_eq!(code.relocs.len(), 1);

    let reloc = &code.relocs[0];
    assert_eq!(reloc.offset, 4);
    assert_eq!(reloc.kind, RelocKind::Abs4);
    assert_eq!(reloc.target, target);
    assert_eq!(reloc.addend, -4);
}

#[test]
fn direct_external_call_uses_abs32_target_literal() {
    let target = String::from("sia_callee");
    let info = CallInfo::empty(target.clone(), CallConv::SystemV);
    let call = Inst::Call { info };
    let mut code = CodeBuffer::new();
    let mut state = EmitState::default();

    call.emit(&mut code, &mut state);

    assert_eq!(code.cur_offset(), 12);
    assert_eq!(code.relocs.len(), 1);
    let reloc = &code.relocs[0];
    assert_eq!(reloc.offset, 8);
    assert_eq!(reloc.offset % 4, 0);
    assert_eq!(reloc.kind, RelocKind::Abs4);
    assert_eq!(reloc.target, target);
    assert_eq!(reloc.addend, 0);
    assert_eq!(&code.data[8..12], &[0, 0, 0, 0]);
}

#[test]
fn abs32_range_is_checked_without_host_width_truncation() {
    assert_eq!(checked_abs32_value(0, 0), Some(0));
    assert_eq!(checked_abs32_value(u64::from(u32::MAX), 0), Some(u32::MAX));
    assert_eq!(checked_abs32_value(0x1000, -4), Some(0x0ffc));

    assert_eq!(checked_abs32_value(0, -1), None);
    assert_eq!(checked_abs32_value(u64::from(u32::MAX) + 1, 0), None);
    assert_eq!(checked_abs32_value(u64::MAX, i32::MAX), None);
}

#[test]
fn abs32_word_on_an_aligned_buffer_needs_no_padding() {
    let mut code = CodeBuffer::new();
    code.put4(0x1122_3344);
    let offset = emit_abs32_word(&mut code, &String::from("x"), 7);
    assert_eq!(offset, 4);
    assert_eq!(code.data, vec![0x44, 0x33, 0x22, 0x11, 0, 0, 0, 0]);
    assert_eq!(code.relocs[0].kind, ABS32);
    assert_eq!(code.relocs[0].addend, 7);
}

#[test]
fn abs32_value_adds_negative_and_positive_addends() {
    assert_eq!(checked_abs32_value(4, -4), Some(0));
    assert_eq!(checked_abs32_value(u64::from(u32::MAX) - 1, 1), Some(u32::MAX));
    assert_eq!(checked_abs32_value(u64::from(u32::MAX), 1), None);
    assert_eq!(checked_abs32_value(0x1_7fff_ffff, i32::MIN), Some(u32::MAX));
    assert_eq!(checked_abs32_value(0x1_8000_0000, i32::MIN), None);
}
