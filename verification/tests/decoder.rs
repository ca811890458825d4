use jvm::classfile::opcode::OpCode;
use jvm::trans::instruction::{
    decode, Baload, Dneg, Dup2_X1, Fadd, Ifne, Instruction, InstructionInfo, Istore_1, Iushr,
    Jsr, Ldiv, Lstore, F2L,
};

fn info(pc: usize, op_code: OpCode) -> InstructionInfo {
    InstructionInfo { pc, op_code, icp: 0, wide: false }
}

#[test]
fn decoders_without_operands_advance_by_one() {
    let codes = [0u8; 4];
    assert_eq!(Baload.run(&codes, 0), (info(0, OpCode::baload), 1));
    assert_eq!(Dneg.run(&codes, 7), (info(7, OpCode::dneg), 8));
    assert_eq!(Dup2_X1.run(&codes, 2), (info(2, OpCode::dup2_x1), 3));
    assert_eq!(F2L.run(&codes, 3), (info(3, OpCode::f2l), 4));
    assert_eq!(Fadd.run(&codes, 10), (info(10, OpCode::fadd), 11));
    assert_eq!(Istore_1.run(&codes, 0), (info(0, OpCode::istore_1), 1));
    assert_eq!(Iushr.run(&codes, 1), (info(1, OpCode::iushr), 2));
    assert_eq!(Ldiv.run(&codes, 100), (info(100, OpCode::ldiv), 101));
}

#[test]
fn branch_decoders_advance_by_three() {
    let codes = [0x9a, 0, 5, 0xa8, 0, 9];
    assert_eq!(Ifne.run(&codes, 0), (info(0, OpCode::ifne), 3));
    assert_eq!(Jsr.run(&codes, 3), (info(3, OpCode::jsr), 6));
}

#[test]
fn lstore_advances_by_two_or_by_three_after_wide() {
    let codes = [0x37, 1, 0];
    let mut lstore = Lstore { wide: false };
    assert_eq!(lstore.run(&codes, 0), (info(0, OpCode::lstore), 2));
    lstore.set_wide(true);
    assert!(lstore.wide);
    assert_eq!(
        lstore.run(&codes, 0),
        (InstructionInfo { pc: 0, op_code: OpCode::lstore, icp: 0, wide: true }, 3)
    );
    lstore.set_wide(false);
    assert_eq!(lstore.run(&codes, 5), (info(5, OpCode::lstore), 7));
}

#[test]
fn set_wide_leaves_other_decoders_as_they_are() {
    let codes = [0u8; 2];
    let mut d = Baload;
    d.set_wide(true);
    assert_eq!(d.run(&codes, 0), (info(0, OpCode::baload), 1));
    let mut d = Ifne;
    d.set_wide(true);
    assert_eq!(d.run(&codes, 0), (info(0, OpCode::ifne), 3));
}

#[test]
fn opcode_bytes_go_both_ways() {
    let mut defined = 0;
    for b in 0..=255u8 {
        match OpCode::from_byte(b) {
            Some(op) => {
                defined += 1;
                assert_eq!(op.to_byte(), b);
            }
            None => assert!((0xcb..=0xfd).contains(&b)),
        }
    }
    assert_eq!(defined, 205);
    assert_eq!(OpCode::from_byte(0x33), Some(OpCode::baload));
    assert_eq!(OpCode::from_byte(0x77), Some(OpCode::dneg));
    assert_eq!(OpCode::from_byte(0x5d), Some(OpCode::dup2_x1));
    assert_eq!(OpCode::from_byte(0x8c), Some(OpCode::f2l));
    assert_eq!(OpCode::from_byte(0x62), Some(OpCode::fadd));
    assert_eq!(OpCode::from_byte(0x9a), Some(OpCode::ifne));
    assert_eq!(OpCode::from_byte(0x3c), Some(OpCode::istore_1));
    assert_eq!(OpCode::from_byte(0x7c), Some(OpCode::iushr));
    assert_eq!(OpCode::from_byte(0xa8), Some(OpCode::jsr));
    assert_eq!(OpCode::from_byte(0x6d), Some(OpCode::ldiv));
    assert_eq!(OpCode::from_byte(0x37), Some(OpCode::lstore));
    assert_eq!(OpCode::from_byte(0xb1), Some(OpCode::return_void));
    assert_eq!(OpCode::return_void.mnemonic(), "return");
    assert_eq!(OpCode::if_acmpeq.mnemonic(), "if_acmpeq");
    assert_eq!(OpCode::from_byte(0xc9), Some(OpCode::jsr_w));
    assert_eq!(OpCode::from_byte(0xca), Some(OpCode::breakpoint));
    assert_eq!(OpCode::from_byte(0xfe), Some(OpCode::impdep1));
    assert_eq!(OpCode::from_byte(0xff), Some(OpCode::impdep2));
}

fn table_width(b: u8) -> usize {
    match b {
        0x10 | 0x12 | 0x15..=0x19 | 0x36..=0x3a | 0xa9 | 0xbc => 2,
        0x11 | 0x13 | 0x14 | 0x84 | 0x99..=0xa8 | 0xb2..=0xb8 | 0xbb | 0xbd | 0xc0 | 0xc1 | 0xc6 | 0xc7 => 3,
        0xc5 => 4,
        0xb9 | 0xba | 0xc8 | 0xc9 => 5,
        _ => 1,
    }
}

#[test]
fn every_opcode_has_the_width_of_the_instruction_set() {
    for b in 0..=255u8 {
        let Some(op) = OpCode::from_byte(b) else { continue };
        assert_eq!(op.width(false), table_width(b), "{:?}", op);
        if b == 0xaa || b == 0xab {
            continue;
        }
        let mut codes = vec![0u8; 3];
        codes.push(b);
        codes.extend([0u8; 8]);
        let (decoded, next) = decode(&codes, 3, false).unwrap();
        assert_eq!(decoded.pc, 3);
        assert_eq!(decoded.op_code, op);
        assert!(!decoded.wide);
        assert_eq!(next - 3, table_width(b), "{:?}", op);
        codes.truncate(3 + table_width(b));
        assert_eq!(decode(&codes, 3, false).map(|r| r.1), Some(codes.len()));
        codes.pop();
        if table_width(b) > 1 {
            assert_eq!(decode(&codes, 3, false), None);
        }
    }
}

#[test]
fn wide_doubles_the_index_of_loads_and_stores() {
    for b in 0..=255u8 {
        let Some(op) = OpCode::from_byte(b) else { continue };
        let codes = [b, 0, 0, 0, 0, 0, 0, 0, 0, 0, 0, 0, 0, 0, 0, 0];
        let expected = match b {
            0x15..=0x19 | 0x36..=0x3a | 0xa9 => Some(3),
            0x84 => Some(5),
            _ => None,
        };
        assert_eq!(decode(&codes, 0, true).map(|r| r.1), expected, "{:?}", op);
        if let Some(w) = expected {
            assert_eq!(op.width(true), w);
            assert_eq!(decode(&codes, 0, true).unwrap().0, InstructionInfo { pc: 0, op_code: op, icp: 0, wide: true });
            assert_eq!(decode(&codes[..w - 1], 0, true), None);
        } else {
            assert_eq!(op.width(true), op.width(false));
        }
    }
}

#[test]
fn decode_reads_the_constant_pool_index() {
    assert_eq!(decode(&[0x12, 0xfe], 0, false).unwrap().0.icp, 0xfe);
    assert_eq!(decode(&[0x13, 0x01, 0x02], 0, false).unwrap().0.icp, 0x0102);
    assert_eq!(decode(&[0x00, 0xb6, 0xff, 0xff], 1, false).unwrap().0.icp, 0xffff);
    assert_eq!(decode(&[0xb9, 0x00, 0x07, 0x02, 0x00], 0, false).unwrap(), (
        InstructionInfo { pc: 0, op_code: OpCode::invokeinterface, icp: 7, wide: false },
        5
    ));
    assert_eq!(decode(&[0xc5, 0x00, 0x09, 0x02], 0, false).unwrap().0.icp, 9);
    assert_eq!(decode(&[0x10, 0x7f], 0, false).unwrap().0.icp, 0);
    assert_eq!(decode(&[0x99, 0x12, 0x34], 0, false).unwrap().0.icp, 0);
}

#[test]
fn decode_refuses_what_is_no_instruction() {
    assert_eq!(decode(&[], 0, false), None);
    assert_eq!(decode(&[0x00], 1, false), None);
    assert_eq!(decode(&[0x00], usize::MAX, false), None);
    assert_eq!(decode(&[0xcb], 0, false), None);
    assert_eq!(decode(&[0xfd], 0, false), None);
    assert_eq!(decode(&[0x00], 0, true), None);
}

fn tableswitch(at: usize, low: i32, high: i32) -> Vec<u8> {
    let mut codes = vec![0u8; at];
    codes.push(0xaa);
    while codes.len() % 4 != 0 {
        codes.push(0);
    }
    codes.extend(0i32.to_be_bytes());
    codes.extend(low.to_be_bytes());
    codes.extend(high.to_be_bytes());
    for _ in low..=high {
        codes.extend(0i32.to_be_bytes());
    }
    codes
}

#[test]
fn tableswitch_is_padded_and_holds_one_offset_for_each_value() {
    for at in 0..8 {
        for (low, high) in [(0, 0), (1, 3), (-2, 2), (10, 10)] {
            let codes = tableswitch(at, low, high);
            let (decoded, next) = decode(&codes, at, false).unwrap();
            assert_eq!(decoded, info(at, OpCode::tableswitch));
            assert_eq!(next, codes.len());
            let pad = 3 - at % 4;
            assert_eq!(next, at + 1 + pad + 12 + 4 * (high - low + 1) as usize);
            assert_eq!(decode(&codes[..codes.len() - 1], at, false), None);
        }
    }
    let mut bad = tableswitch(0, 3, 5);
    bad[8..12].copy_from_slice(&6i32.to_be_bytes());
    assert_eq!(decode(&bad, 0, false), None);
    let mut huge = tableswitch(0, 0, 0);
    huge[8..12].copy_from_slice(&i32::MIN.to_be_bytes());
    huge[12..16].copy_from_slice(&i32::MAX.to_be_bytes());
    assert_eq!(decode(&huge, 0, false), None);
}

#[test]
fn lookupswitch_is_padded_and_holds_its_pairs() {
    for at in 0..8usize {
        for pairs in [0i32, 1, 5] {
            let mut codes = vec![0u8; at];
            codes.push(0xab);
            while codes.len() % 4 != 0 {
                codes.push(0);
            }
            codes.extend(0i32.to_be_bytes());
            codes.extend(pairs.to_be_bytes());
            codes.extend(vec![0u8; 8 * pairs as usize]);
            let (decoded, next) = decode(&codes, at, false).unwrap();
            assert_eq!(decoded, info(at, OpCode::lookupswitch));
            assert_eq!(next, at + 1 + (3 - at % 4) + 8 + 8 * pairs as usize);
            assert_eq!(next, codes.len());
            if pairs > 0 {
                assert_eq!(decode(&codes[..codes.len() - 1], at, false), None);
            }
        }
    }
    let mut negative = vec![0xab, 0, 0, 0];
    negative.extend(0i32.to_be_bytes());
    negative.extend((-1i32).to_be_bytes());
    assert_eq!(decode(&negative, 0, false), None);
}

#[test]
fn a_decoder_agrees_with_decode_on_its_own_opcode() {
    let codes = [0x33, 0x9a, 0, 0, 0x37, 4, 0xc4, 0x37, 0, 4];
    assert_eq!(decode(&codes, 0, false), Some(Baload.run(&codes, 0)));
    assert_eq!(decode(&codes, 1, false), Some(Ifne.run(&codes, 1)));
    assert_eq!(decode(&codes, 4, false), Some(Lstore { wide: false }.run(&codes, 4)));
    assert_eq!(decode(&codes, 6, false), Some((info(6, OpCode::wide), 7)));
    assert_eq!(decode(&codes, 7, true), Some(Lstore { wide: true }.run(&codes, 7)));
}
