use chip8::opcode::{Byte, Fault, OpCode, V};

#[test]
fn decode_clear_and_return() {
    assert_eq!(OpCode::try_from(0x00E0), Ok(OpCode::ClearScreen));
    assert_eq!(OpCode::try_from(0x00EE), Ok(OpCode::Return));
}

#[test]
fn decode_system_keeps_address() {
    match OpCode::try_from(0x0123) {
        Ok(OpCode::System(nnn)) => assert_eq!(nnn.0, 0x123),
        other => panic!("expected SYS, got {:?}", other),
    }
}

#[test]
fn decode_jump_and_call() {
    match OpCode::try_from(0x1ABC) {
        Ok(OpCode::Jump(nnn)) => assert_eq!(nnn.0, 0xABC),
        other => panic!("expected JP, got {:?}", other),
    }
    match OpCode::try_from(0x2F00) {
        Ok(OpCode::Call(nnn)) => assert_eq!(nnn.0, 0xF00),
        other => panic!("expected CALL, got {:?}", other),
    }
}

#[test]
fn decode_immediate_forms() {
    assert_eq!(OpCode::try_from(0x3A42), Ok(OpCode::SkipEqual(V(0xA), Byte(0x42))));
    assert_eq!(OpCode::try_from(0x4B10), Ok(OpCode::SkipNotEqual(V(0xB), Byte(0x10))));
    assert_eq!(OpCode::try_from(0x6C99), Ok(OpCode::Load(V(0xC), Byte(0x99))));
    assert_eq!(OpCode::try_from(0x7D01), Ok(OpCode::Add(V(0xD), Byte(0x01))));
    assert_eq!(OpCode::try_from(0xC3F0), Ok(OpCode::Random(V(0x3), Byte(0xF0))));
}

#[test]
fn decode_register_alu_forms() {
    assert_eq!(OpCode::try_from(0x8120), Ok(OpCode::LoadRegister(V(1), V(2))));
    assert_eq!(OpCode::try_from(0x8121), Ok(OpCode::OrRegister(V(1), V(2))));
    assert_eq!(OpCode::try_from(0x8122), Ok(OpCode::AndRegister(V(1), V(2))));
    assert_eq!(OpCode::try_from(0x8123), Ok(OpCode::XorRegister(V(1), V(2))));
    assert_eq!(OpCode::try_from(0x8124), Ok(OpCode::AddRegister(V(1), V(2))));
    assert_eq!(OpCode::try_from(0x8125), Ok(OpCode::SubRegister(V(1), V(2))));
    assert_eq!(OpCode::try_from(0x8126), Ok(OpCode::ShrRegister(V(1), V(2))));
    assert_eq!(OpCode::try_from(0x8127), Ok(OpCode::SubNotBorrowRegister(V(1), V(2))));
    assert_eq!(OpCode::try_from(0x812E), Ok(OpCode::ShlRegister(V(1), V(2))));
}

#[test]
fn decode_skip_register_forms_require_zero_nibble() {
    assert_eq!(OpCode::try_from(0x5120), Ok(OpCode::SkipEqualRegister(V(1), V(2))));
    assert_eq!(OpCode::try_from(0x9120), Ok(OpCode::SkipNotEqualRegister(V(1), V(2))));
    assert_eq!(OpCode::try_from(0x5121), Err(Fault::Decode));
    assert_eq!(OpCode::try_from(0x9127), Err(Fault::Decode));
}

#[test]
fn decode_index_and_draw() {
    match OpCode::try_from(0xA200) {
        Ok(OpCode::SetIndex(nnn)) => assert_eq!(nnn.0, 0x200),
        other => panic!("expected LD I, got {:?}", other),
    }
    match OpCode::try_from(0xB321) {
        Ok(OpCode::JumpV0(nnn)) => assert_eq!(nnn.0, 0x321),
        other => panic!("expected JP V0, got {:?}", other),
    }
    assert_eq!(OpCode::try_from(0xD12F), Ok(OpCode::Draw(V(1), V(2), 0xF)));
}

#[test]
fn decode_key_forms() {
    assert_eq!(OpCode::try_from(0xE49E), Ok(OpCode::SkipKey(V(4))));
    assert_eq!(OpCode::try_from(0xE5A1), Ok(OpCode::SkipNotKey(V(5))));
    assert_eq!(OpCode::try_from(0xE400), Err(Fault::Decode));
    assert_eq!(OpCode::try_from(0xE59F), Err(Fault::Decode));
}

#[test]
fn decode_timer_memory_forms() {
    assert_eq!(OpCode::try_from(0xF107), Ok(OpCode::LoadDelayTimer(V(1))));
    assert_eq!(OpCode::try_from(0xF20A), Ok(OpCode::LoadKey(V(2))));
    assert_eq!(OpCode::try_from(0xF315), Ok(OpCode::SetDelayTimer(V(3))));
    assert_eq!(OpCode::try_from(0xF418), Ok(OpCode::SetSoundTimer(V(4))));
    assert_eq!(OpCode::try_from(0xF51E), Ok(OpCode::AddI(V(5))));
    assert_eq!(OpCode::try_from(0xF629), Ok(OpCode::LoadSprite(V(6))));
    assert_eq!(OpCode::try_from(0xF733), Ok(OpCode::LoadBCD(V(7))));
    assert_eq!(OpCode::try_from(0xF855), Ok(OpCode::SaveRegisters(V(8))));
    assert_eq!(OpCode::try_from(0xF965), Ok(OpCode::LoadRegisters(V(9))));
}

#[test]
fn decode_rejects_unknown_secondary_discriminators() {
    assert_eq!(OpCode::try_from(0x8008), Err(Fault::Decode));
    assert_eq!(OpCode::try_from(0x800F), Err(Fault::Decode));
    assert_eq!(OpCode::try_from(0xF000), Err(Fault::Decode));
    assert_eq!(OpCode::try_from(0xF0FF), Err(Fault::Decode));
    assert_eq!(OpCode::try_from(0xFFFF), Err(Fault::Decode));
}

#[test]
fn decode_is_total_over_all_words() {
    // Every 16-bit word yields a typed instruction or a decode fault,
    // without a panic.
    let mut decoded: u32 = 0;
    let mut faulted: u32 = 0;
    for w in 0..=0xFFFFu16 {
        match OpCode::try_from(w) {
            Ok(_) => decoded += 1,
            Err(Fault::Decode) => faulted += 1,
            Err(other) => panic!("unexpected fault {:?} for {:04X}", other, w),
        }
    }
    assert_eq!(decoded + faulted, 0x10000);
    // The two reserved full-word forms plus the rest of the 0-page.
    assert!(decoded > 0);
    assert!(faulted > 0);
}

#[test]
fn disassembles_every_form() {
    let line: String = OpCode::try_from(0x00E0).unwrap().into();
    assert_eq!(line, "CLS");
    let line: String = OpCode::try_from(0x00EE).unwrap().into();
    assert_eq!(line, "RET");
    let line: String = OpCode::try_from(0x0123).unwrap().into();
    assert_eq!(line, "SYS 291");
    let line: String = OpCode::try_from(0x1ABC).unwrap().into();
    assert_eq!(line, "JP 2748");
    let line: String = OpCode::try_from(0x2F00).unwrap().into();
    assert_eq!(line, "CALL 3840");
    let line: String = OpCode::try_from(0x3A42).unwrap().into();
    assert_eq!(line, "SE V10, 66");
    let line: String = OpCode::try_from(0x5120).unwrap().into();
    assert_eq!(line, "SE V1, V2");
    let line: String = OpCode::try_from(0x6312).unwrap().into();
    assert_eq!(line, "LD V3, 18");
    let line: String = OpCode::try_from(0x8124).unwrap().into();
    assert_eq!(line, "ADD V1, V2");
    let line: String = OpCode::try_from(0x8126).unwrap().into();
    assert_eq!(line, "SHR V1, V2");
    let line: String = OpCode::try_from(0xA200).unwrap().into();
    assert_eq!(line, "LD I, 512");
    let line: String = OpCode::try_from(0xB005).unwrap().into();
    assert_eq!(line, "JP V0, 5");
    let line: String = OpCode::try_from(0xD12F).unwrap().into();
    assert_eq!(line, "DRW V1, V2, 15");
    let line: String = OpCode::try_from(0xE49E).unwrap().into();
    assert_eq!(line, "SKP V4");
    let line: String = OpCode::try_from(0xF107).unwrap().into();
    assert_eq!(line, "LD V1, DT");
    let line: String = OpCode::try_from(0xF20A).unwrap().into();
    assert_eq!(line, "LD V2, K");
    let line: String = OpCode::try_from(0xF855).unwrap().into();
    assert_eq!(line, "LD [I], V8");
    let line: String = OpCode::try_from(0xF965).unwrap().into();
    assert_eq!(line, "LD V9, [I]");
}
