use r8::assemble;
use r8::Address;
use r8::Emulator;
use r8::Error;
use r8::Line;
use r8::Opcode;
use r8::Token;
use r8::Tokenizer;

#[test]
fn assemble_labels_round_trip() {
    // Scenario: a backward label reference resolves to the entry point
    let source = b"start:\n  LD V0, #0A\n  JP start\n";
    let rom = assemble(source).unwrap();
    assert_eq!(rom, vec![0x60, 0x0A, 0x12, 0x00]);

    let mut emu = Emulator::new();
    emu.load_rom(&rom).unwrap();
    emu.tick().unwrap();
    assert_eq!(emu.pc().inner(), 0x202);
    emu.tick().unwrap();
    assert_eq!(emu.pc().inner(), 0x200);
}

#[test]
fn assemble_forward_reference() {
    let source = b"JP end\nDW #FFFF\nend:\nCLS\n";
    let rom = assemble(source).unwrap();
    assert_eq!(rom, vec![0x12, 0x04, 0xFF, 0xFF, 0x00, 0xE0]);
}

#[test]
fn assemble_fetch_disassemble_round_trip() {
    let source = b"SE V1, #2F\n";
    let rom = assemble(source).unwrap();
    assert_eq!(rom, vec![0x31, 0x2F]);

    let mut emu = Emulator::new();
    emu.load_rom(&rom).unwrap();
    let op = emu.fetch_opcode().unwrap();
    assert_eq!(op.mnemonic(), b"SE V1, #2F".to_vec());
}

#[test]
fn assemble_all_template_families() {
    let source = b"CLS\nRET\nSYS #123\nJP #234\nCALL #345\nSE V1, #10\nSNE V2, #20\nSE V3, V4\nLD V5, #30\nADD V6, #40\nLD V7, V8\nOR V1, V2\nAND V3, V4\nXOR V5, V6\nADD V7, V8\nSUB V9, VA\nSHR VB\nSUBN VC, VD\nSHL VE\nSNE VF, V0\nLD I, #456\nJP V0, #567\nRND V1, #77\nDRW V2, V3, #5\nSKP V4\nSKNP V5\nLD V6, DT\nLD V7, K\nLD DT, V8\nLD ST, V9\nADD I, VA\nLD F, VB\nLD B, VC\nLD [I], VD\nLD VE, [I]\nDB #AB\nDW #CDEF\n";
    let rom = assemble(source).unwrap();
    let expected: Vec<u8> = vec![
        0x00, 0xE0, 0x00, 0xEE, 0x01, 0x23, 0x12, 0x34, 0x23, 0x45, 0x31, 0x10, 0x42, 0x20, 0x53,
        0x40, 0x65, 0x30, 0x76, 0x40, 0x87, 0x80, 0x81, 0x21, 0x83, 0x42, 0x85, 0x63, 0x87, 0x84,
        0x89, 0xA5, 0x8B, 0x16, 0x8C, 0xD7, 0x8E, 0x0E, 0x9F, 0x00, 0xA4, 0x56, 0xB5, 0x67, 0xC1,
        0x77, 0xD2, 0x35, 0xE4, 0x9E, 0xE5, 0xA1, 0xF6, 0x07, 0xF7, 0x0A, 0xF8, 0x15, 0xF9, 0x18,
        0xFA, 0x1E, 0xFB, 0x29, 0xFC, 0x33, 0xFD, 0x55, 0xFE, 0x65, 0xAB, 0xCD, 0xEF,
    ];
    assert_eq!(rom, expected);
}

#[test]
fn assemble_decimal_numbers_and_comments() {
    let source = b"; a comment line\nLD V0, 10 ; trailing comment\nDB 255\n";
    let rom = assemble(source).unwrap();
    assert_eq!(rom, vec![0x60, 0x0A, 0xFF]);
}

#[test]
fn duplicate_label_is_rejected() {
    let source = b"here:\nCLS\nhere:\n";
    match assemble(source) {
        Err(Error::DuplicateLabel(name, line)) => {
            assert_eq!(name, b"here".to_vec());
            assert_eq!(line, 3);
        },
        other => panic!("expected a duplicate label error, got {:?}", other),
    }
}

#[test]
fn undefined_label_is_rejected() {
    let source = b"JP nowhere\n";
    match assemble(source) {
        Err(Error::UndefinedLabel(name, line)) => {
            assert_eq!(name, b"nowhere".to_vec());
            assert_eq!(line, 1);
        },
        other => panic!("expected an undefined label error, got {:?}", other),
    }
}

#[test]
fn defined_label_is_not_undefined() {
    // The same reference succeeds once the label is defined anywhere
    let source = b"JP later\nlater:\n";
    assert_eq!(assemble(source).unwrap(), vec![0x12, 0x02]);
}

#[test]
fn first_error_in_line_order_wins() {
    // The undefined reference on line 1 precedes the bad byte on line 2
    let source = b"JP nowhere\nDB #123\n";
    assert!(matches!(assemble(source), Err(Error::UndefinedLabel(_, 1))));
    // With the reference resolved, the byte error surfaces instead
    let source2 = b"JP fin\nDB #123\nfin:\n";
    assert!(matches!(assemble(source2), Err(Error::InvalidByte(0x123, 2))));
}

#[test]
fn operand_range_errors() {
    assert!(matches!(assemble(b"SYS #1FFF\n"), Err(Error::InvalidAddress(0x1FFF, 1))));
    assert!(matches!(assemble(b"LD V0, #1FF\n"), Err(Error::InvalidByte(0x1FF, 1))));
    assert!(matches!(assemble(b"DRW V0, V1, #1F\n"), Err(Error::InvalidNibble(0x1F, 1))));
}

#[test]
fn lexical_errors() {
    assert!(matches!(assemble(b"V10\n"), Err(Error::InvalidRegister(0x10, 1))));
    match assemble(b"#FFFFF\n") {
        Err(Error::InvalidNumber(text, 1)) => assert_eq!(text, b"FFFFF".to_vec()),
        other => panic!("expected an invalid number error, got {:?}", other),
    }
    match assemble(b"@oops\n") {
        Err(Error::InvalidToken(text, 1)) => assert_eq!(text, b"@oops".to_vec()),
        other => panic!("expected an invalid token error, got {:?}", other),
    }
    match assemble(b"LD\n") {
        Err(Error::InvalidLine(line)) => assert_eq!(line.line, 1),
        other => panic!("expected an invalid line error, got {:?}", other),
    }
}

#[test]
fn empty_source_assembles_to_nothing() {
    assert_eq!(assemble(b""), Ok(vec![]));
    assert_eq!(assemble(b"\n\n ; only comments\n"), Ok(vec![]));
}

#[test]
fn tokenizer_reads_one_line_at_a_time() {
    let mut tok = Tokenizer::new(b"LD V0, #0A\nnext:\n");
    let line: Line = tok.get_line().unwrap();
    assert_eq!(line.line, 1);
    assert_eq!(
        line.tokens,
        vec![
            Token::Identifier(b"LD".to_vec()),
            Token::Register(0),
            Token::Comma,
            Token::Number(0x0A),
        ]
    );
    let line2 = tok.get_line().unwrap();
    assert_eq!(line2.line, 2);
    assert_eq!(line2.tokens, vec![Token::Label(b"next".to_vec())]);
    let line3 = tok.get_line().unwrap();
    assert_eq!(line3.tokens, vec![Token::Eof]);
}

#[test]
fn error_warp_wraps() {
    let e = Error::InvalidLine(Line { tokens: vec![], line: 7 });
    let r: Result<u8, Error> = e.clone().warp();
    assert_eq!(r, Err(e));
}

#[test]
fn decode_matches_table() {
    assert_eq!(Opcode::decode(0x00E0), Opcode::Cls);
    assert_eq!(Opcode::decode(0x00EE), Opcode::Ret);
    assert!(matches!(Opcode::decode(0x1344), Opcode::Jp { address } if address.inner() == 0x344));
    assert!(matches!(Opcode::decode(0x5120), Opcode::SeRegister { .. }));
    assert!(matches!(Opcode::decode(0x5121), Opcode::Invalid(0x5121)));
    assert!(matches!(Opcode::decode(0x8AB6), Opcode::Shr { x } if x.inner() == 0xA));
    assert!(matches!(Opcode::decode(0xE09E), Opcode::Skp { .. }));
    assert!(matches!(Opcode::decode(0xE09F), Opcode::Invalid(0xE09F)));
    assert!(matches!(Opcode::decode(0xF433), Opcode::LdBVx { x } if x.inner() == 4));
    assert!(matches!(Opcode::decode(0xFF99), Opcode::Invalid(0xFF99)));
}

#[test]
fn mnemonics_render() {
    assert_eq!(Opcode::decode(0x00E0).mnemonic(), b"CLS".to_vec());
    assert_eq!(Opcode::decode(0x632F).mnemonic(), b"LD V3, #2F".to_vec());
    assert_eq!(Opcode::decode(0xD235).mnemonic(), b"DRW V2, V3, #5".to_vec());
    assert_eq!(Opcode::decode(0x1000).mnemonic(), b"JP #0".to_vec());
    assert_eq!(Opcode::decode(0xFF99).mnemonic(), b"#FF99".to_vec());
    assert_eq!(Opcode::decode(0xB123).mnemonic(), b"JP V0, #123".to_vec());
    assert_eq!(Opcode::decode(0xFA65).mnemonic(), b"LD VA, [I]".to_vec());
}

#[test]
fn sys_address_colliding_with_cls_decodes_as_cls() {
    // 0x00E0 is both `SYS #E0`'s pattern and CLS; decoding picks CLS
    let rom = assemble(b"SYS #E0\n").unwrap();
    assert_eq!(rom, vec![0x00, 0xE0]);
    assert_eq!(Opcode::decode(0x00E0), Opcode::Cls);
}
