use sia32::m7::{execute_reference, M7DecodeError, M7Inst, M7Op};
use sia32::regs::Reg;

fn r(index: u8) -> Reg {
    Reg::new(index).unwrap()
}

#[test]
fn all_m7_encodings_round_trip_and_match_frozen_words() {
    let cases = [
        (M7Op::Bset, 0xC121),
        (M7Op::Bclr, 0xC122),
        (M7Op::Binv, 0xC123),
        (M7Op::Bext, 0xC124),
        (M7Op::Mul, 0xC125),
        (M7Op::Mulh, 0xC126),
        (M7Op::Mulhu, 0xC127),
        (M7Op::Mulhsu, 0xC128),
        (M7Op::Mulo, 0xC129),
        (M7Op::Div, 0xC12A),
        (M7Op::Divu, 0xC12B),
        (M7Op::Rem, 0xC12C),
        (M7Op::Remu, 0xC12D),
        (M7Op::Rev8, 0xC12E),
    ];
    for (op, word) in cases {
        let inst = M7Inst::new(op, r(1), r(2));
        assert_eq!(inst.encode(), word);
        assert_eq!(M7Inst::decode(word), Ok(inst));
    }
}

#[test]
fn decoder_rejects_wrong_opcode_and_reserved_functions() {
    assert_eq!(M7Inst::decode(0xB125), Err(M7DecodeError::NotM7));
    assert_eq!(M7Inst::decode(0xC120), Err(M7DecodeError::ReservedFunction));
    assert_eq!(M7Inst::decode(0xC12F), Err(M7DecodeError::ReservedFunction));
}

#[test]
fn register_and_immediate_contract_is_explicit() {
    assert!(Reg::new(0).is_some());
    assert!(Reg::new(15).is_some());
    assert!(Reg::new(16).is_none());
    assert!(r(12).is_backend_scratch());
    assert!(r(13).is_sp());
    assert!(r(14).is_lr());
    assert_eq!(M7Inst::new(M7Op::Mul, r(15), r(0)).encode(), 0xCF05);
}

#[test]
fn disassembly_is_stable() {
    assert_eq!(M7Inst::new(M7Op::Mul, r(1), r(2)).disassemble(), "mul r1, r2");
    assert_eq!(M7Inst::new(M7Op::Divu, r(13), r(14)).disassemble(), "divu sp, lr");
}

#[test]
fn arithmetic_reference_model_covers_edges() {
    let i = |op| M7Inst::new(op, r(1), r(2));
    assert_eq!(execute_reference(i(M7Op::Mul), 0xffff_ffff, 2), 0xffff_fffe);
    assert_eq!(execute_reference(i(M7Op::Mulh), 0xffff_ffff, 2), 0xffff_ffff);
    assert_eq!(execute_reference(i(M7Op::Mulhu), 0xffff_ffff, 2), 1);
    assert_eq!(execute_reference(i(M7Op::Mulhsu), 0xffff_ffff, 2), 0xffff_ffff);
    assert_eq!(execute_reference(i(M7Op::Div), (-7i32) as u32, 3), (-2i32) as u32);
    assert_eq!(execute_reference(i(M7Op::Rem), (-7i32) as u32, 3), (-1i32) as u32);
    assert_eq!(execute_reference(i(M7Op::Divu), 7, 0), u32::MAX);
    assert_eq!(execute_reference(i(M7Op::Remu), 7, 0), 7);
    assert_eq!(execute_reference(i(M7Op::Div), i32::MIN as u32, (-1i32) as u32), i32::MIN as u32);
    assert_eq!(execute_reference(i(M7Op::Rem), i32::MIN as u32, (-1i32) as u32), 0);
    assert_eq!(execute_reference(i(M7Op::Rev8), 0x1122_3344, 0), 0x4433_2211);
}

#[test]
fn every_m7_word_decodes_to_its_encoding() {
    for word in 0u32..=0xffff {
        let word = word as u16;
        match M7Inst::decode(word) {
            Ok(inst) => assert_eq!(inst.encode(), word),
            Err(M7DecodeError::NotM7) => assert_ne!(word >> 12, 0xC),
            Err(M7DecodeError::ReservedFunction) => {
                assert_eq!(word >> 12, 0xC);
                let f = word & 0xF;
                assert!(f == 0 || f == 0xF);
            }
        }
    }
}

#[test]
fn bit_ops_and_mulo_reference_values() {
    let i = |op| M7Inst::new(op, r(3), r(4));
    assert_eq!(execute_reference(i(M7Op::Bset), 0, 33), 2);
    assert_eq!(execute_reference(i(M7Op::Bclr), 0xff, 3), 0xf7);
    assert_eq!(execute_reference(i(M7Op::Binv), 0x10, 4), 0);
    assert_eq!(execute_reference(i(M7Op::Bext), 0x80, 7), 1);
    assert_eq!(execute_reference(i(M7Op::Mulo), 0x4000_0000, 2), 1);
    assert_eq!(execute_reference(i(M7Op::Mulo), 0xffff_ffff, 0xffff_ffff), 0);
    assert_eq!(execute_reference(i(M7Op::Div), 7, 0), u32::MAX);
    assert_eq!(execute_reference(i(M7Op::Rem), 7, 0), 7);
    assert_eq!(M7Op::Rev8.mnemonic(), "rev8");
}

const ALL_OPS: [M7Op; 14] = [
    M7Op::Bset,
    M7Op::Bclr,
    M7Op::Binv,
    M7Op::Bext,
    M7Op::Mul,
    M7Op::Mulh,
    M7Op::Mulhu,
    M7Op::Mulhsu,
    M7Op::Mulo,
    M7Op::Div,
    M7Op::Divu,
    M7Op::Rem,
    M7Op::Remu,
    M7Op::Rev8,
];

#[test]
fn mnemonics_are_distinct() {
    for a in ALL_OPS {
        for b in ALL_OPS {
            assert_eq!(a == b, a.mnemonic() == b.mnemonic());
        }
    }
}

#[test]
fn division_and_remainder_recombine() {
    let div = M7Inst::new(M7Op::Div, r(1), r(2));
    let rem = M7Inst::new(M7Op::Rem, r(1), r(2));
    let divu = M7Inst::new(M7Op::Divu, r(1), r(2));
    let remu = M7Inst::new(M7Op::Remu, r(1), r(2));
    let values: [u32; 6] = [0, 7, (-7i32) as u32, 0x8000_0000, 0xffff_ffff, 123_456_789];
    for rd in values {
        for rs in values {
            let q = execute_reference(div, rd, rs);
            let m = execute_reference(rem, rd, rs);
            let qu = execute_reference(divu, rd, rs);
            let mu = execute_reference(remu, rd, rs);
            if rs == 0 {
                assert_eq!((q, m, qu, mu), (u32::MAX, rd, u32::MAX, rd));
                continue;
            }
            assert_eq!((q as i32).wrapping_mul(rs as i32).wrapping_add(m as i32), rd as i32);
            assert!((m as i32).unsigned_abs() < (rs as i32).unsigned_abs());
            assert!(m == 0 || ((m as i32) < 0) == ((rd as i32) < 0));
            assert_eq!(qu.wrapping_mul(rs).wrapping_add(mu), rd);
            assert!(mu < rs);
        }
    }
    assert_eq!(execute_reference(div, 0x8000_0000, 0xffff_ffff), 0x8000_0000);
    assert_eq!(execute_reference(rem, 0x8000_0000, 0xffff_ffff), 0);
    assert_eq!(execute_reference(div, (-7i32) as u32, 2), (-3i32) as u32);
    assert_eq!(execute_reference(rem, (-7i32) as u32, 2), (-1i32) as u32);
}
