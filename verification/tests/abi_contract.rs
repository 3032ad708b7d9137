use sia32::abi_contract::{place_args, place_rets, Location, ValueKind};

#[test]
fn six_scalar_args_fill_r1_through_r6() {
    let p = place_args(&[ValueKind::I32; 6], false);
    assert_eq!(
        p.values,
        vec![
            Location::Reg(1),
            Location::Reg(2),
            Location::Reg(3),
            Location::Reg(4),
            Location::Reg(5),
            Location::Reg(6),
        ]
    );
    assert_eq!(p.stack_size, 0);
}

#[test]
fn first_stack_arg_forces_following_args_to_stack() {
    let p = place_args(&[ValueKind::I32; 8], false);
    assert_eq!(p.values[5], Location::Reg(6));
    assert_eq!(p.values[6], Location::Stack { offset: 0, size: 4, align: 4 });
    assert_eq!(p.values[7], Location::Stack { offset: 4, size: 4, align: 4 });
    assert_eq!(p.stack_size, 8);
}

#[test]
fn i64_uses_aligned_register_pairs() {
    let p = place_args(&[ValueKind::I32, ValueKind::I64, ValueKind::I32, ValueKind::I64], false);
    assert_eq!(p.values[0], Location::Reg(1));
    assert_eq!(p.values[1], Location::RegPair { low: 3, high: 4 });
    assert_eq!(p.values[2], Location::Reg(5));
    assert_eq!(p.values[3], Location::Stack { offset: 0, size: 8, align: 8 });
    assert_eq!(p.stack_size, 8);
}

#[test]
fn hidden_sret_consumes_r1() {
    let p = place_args(&[ValueKind::Ptr32, ValueKind::I32], true);
    assert_eq!(p.values, vec![Location::Reg(2), Location::Reg(3)]);
}

#[test]
fn stack_i64_is_eight_byte_aligned() {
    let p = place_args(
        &[
            ValueKind::I32,
            ValueKind::I32,
            ValueKind::I32,
            ValueKind::I32,
            ValueKind::I32,
            ValueKind::I32,
            ValueKind::I32,
            ValueKind::I64,
        ],
        false,
    );
    assert_eq!(p.values[6], Location::Stack { offset: 0, size: 4, align: 4 });
    assert_eq!(p.values[7], Location::Stack { offset: 8, size: 8, align: 8 });
    assert_eq!(p.stack_size, 16);
}

#[test]
fn returns_are_bounded_and_explicit() {
    assert_eq!(place_rets(&[ValueKind::I32]).unwrap().values, vec![Location::Reg(1)]);
    assert_eq!(
        place_rets(&[ValueKind::I64]).unwrap().values,
        vec![Location::RegPair { low: 1, high: 2 }]
    );
    assert_eq!(
        place_rets(&[ValueKind::Ptr32, ValueKind::I16]).unwrap().values,
        vec![Location::Reg(1), Location::Reg(2)]
    );
    assert!(place_rets(&[ValueKind::I32, ValueKind::I32, ValueKind::I32]).is_none());
}

#[test]
fn narrow_values_are_one_abi_word() {
    let p = place_args(&[ValueKind::I8, ValueKind::I16, ValueKind::Ptr32], false);
    assert_eq!(p.values, vec![Location::Reg(1), Location::Reg(2), Location::Reg(3)]);
}

#[test]
fn placement_laws_hold_on_a_mixed_signature() {
    // Stack slots follow one another without overlap, each aligned to its size,
    // and the area is a multiple of eight.
    let p = place_args(
        &[
            ValueKind::I64,
            ValueKind::I32,
            ValueKind::I64,
            ValueKind::I64,
            ValueKind::I8,
            ValueKind::I64,
        ],
        true,
    );
    assert_eq!(p.values[0], Location::RegPair { low: 3, high: 4 });
    assert_eq!(p.values[1], Location::Reg(5));
    assert_eq!(p.values[2], Location::Stack { offset: 0, size: 8, align: 8 });
    assert_eq!(p.values[3], Location::Stack { offset: 8, size: 8, align: 8 });
    assert_eq!(p.values[4], Location::Stack { offset: 16, size: 4, align: 4 });
    assert_eq!(p.values[5], Location::Stack { offset: 24, size: 8, align: 8 });
    assert_eq!(p.stack_size, 32);
}

#[test]
fn empty_and_i64_pair_returns() {
    assert_eq!(place_rets(&[]).unwrap().values, Vec::<Location>::new());
    assert!(place_rets(&[ValueKind::I64, ValueKind::I32]).is_none());
    assert!(place_rets(&[ValueKind::I32, ValueKind::I64]).is_none());
}

#[test]
fn hidden_sret_places_like_a_leading_pointer() {
    let kinds = [ValueKind::I32, ValueKind::I64, ValueKind::I64, ValueKind::I64, ValueKind::I32];
    let mut with_pointer = vec![ValueKind::Ptr32];
    with_pointer.extend_from_slice(&kinds);
    let hidden = place_args(&kinds, true);
    let leading = place_args(&with_pointer, false);
    assert_eq!(leading.values[0], Location::Reg(1));
    assert_eq!(hidden.values, leading.values[1..].to_vec());
    assert_eq!(hidden.stack_size, leading.stack_size);
    assert_eq!(place_args(&[ValueKind::Ptr32, ValueKind::I32], true).values, vec![Location::Reg(2), Location::Reg(3)]);
}
