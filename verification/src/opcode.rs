//! Instruction words, their typed decoding, and the fault taxonomy.

use vstd::prelude::*;

verus! {

/// An 8-bit immediate operand (the `kk` field of an instruction word).
#[derive(Clone, Copy, Debug, PartialEq, Eq, Structural)]
pub struct Byte(pub u8);

/// A 12-bit address operand (the `nnn` field of an instruction word).
#[derive(Clone, Copy, Debug, PartialEq, Eq, Structural)]
pub struct Addr(pub u16);

/// A register index operand, `0x0` through `0xF`.
#[derive(Clone, Copy, Debug, PartialEq, Eq, Structural)]
pub struct V(pub u8);

/// Why a word failed to decode or an instruction failed to execute.
#[derive(Clone, Copy, Debug, PartialEq, Eq, Structural)]
pub enum Fault {
    /// The word matches no known instruction encoding.
    Decode,
    /// A call was attempted with a full stack, or a return with an empty one.
    Stack,
    /// A computed address would fall outside the 4096-byte memory.
    Memory,
}

/// One instruction of the machine, with typed operands.
#[derive(Clone, Copy, Debug, PartialEq, Eq, Structural)]
pub enum OpCode {
    /// `0nnn`: jump to a machine routine; ignored by modern interpreters.
    System(Addr),
    /// `00E0`: clear the display.
    ClearScreen,
    /// `00EE`: return from a subroutine.
    Return,
    /// `1nnn`: set the program counter to `nnn`.
    Jump(Addr),
    /// `2nnn`: push the return address and jump to `nnn`.
    Call(Addr),
    /// `3xkk`: skip the next instruction if `Vx == kk`.
    SkipEqual(V, Byte),
    /// `4xkk`: skip the next instruction if `Vx != kk`.
    SkipNotEqual(V, Byte),
    /// `5xy0`: skip the next instruction if `Vx == Vy`.
    SkipEqualRegister(V, V),
    /// `6xkk`: set `Vx = kk`.
    Load(V, Byte),
    /// `7xkk`: set `Vx = Vx + kk` modulo 256; the flag register is untouched.
    Add(V, Byte),
    /// `8xy0`: set `Vx = Vy`.
    LoadRegister(V, V),
    /// `8xy1`: set `Vx = Vx | Vy`.
    OrRegister(V, V),
    /// `8xy2`: set `Vx = Vx & Vy`.
    AndRegister(V, V),
    /// `8xy3`: set `Vx = Vx ^ Vy`.
    XorRegister(V, V),
    /// `8xy4`: set `Vx = Vx + Vy` modulo 256, and `VF` to the carry.
    AddRegister(V, V),
    /// `8xy5`: set `Vx = Vx - Vy` modulo 256, and `VF` to 1 iff `Vx > Vy`.
    SubRegister(V, V),
    /// `8xy6`: set `VF` to the low bit of `Vx`, then shift `Vx` right by 1.
    ShrRegister(V, V),
    /// `8xy7`: set `Vx = Vy - Vx` modulo 256, and `VF` to 1 iff `Vy > Vx`.
    SubNotBorrowRegister(V, V),
    /// `8xyE`: set `VF` to the high bit of `Vx`, then shift `Vx` left by 1.
    ShlRegister(V, V),
    /// `9xy0`: skip the next instruction if `Vx != Vy`.
    SkipNotEqualRegister(V, V),
    /// `Annn`: set the index register to `nnn`.
    SetIndex(Addr),
    /// `Bnnn`: set the program counter to `nnn + V0`, in the address space.
    JumpV0(Addr),
    /// `Cxkk`: set `Vx` to a random byte masked with `kk`.
    Random(V, Byte),
    /// `Dxyn`: draw the `n`-row sprite at address `I` at `(Vx, Vy)`, with
    /// wraparound; set `VF` to 1 iff a set pixel was erased.
    Draw(V, V, u8),
    /// `Ex9E`: skip the next instruction if the key numbered by `Vx` is down.
    SkipKey(V),
    /// `ExA1`: skip the next instruction if the key numbered by `Vx` is up.
    SkipNotKey(V),
    /// `Fx07`: set `Vx` to the delay timer.
    LoadDelayTimer(V),
    /// `Fx0A`: await a key press; its value is then written to `Vx`.
    LoadKey(V),
    /// `Fx15`: set the delay timer to `Vx`.
    SetDelayTimer(V),
    /// `Fx18`: set the sound timer to `Vx`.
    SetSoundTimer(V),
    /// `Fx1E`: add `Vx` to the index register, in the address space.
    AddI(V),
    /// `Fx29`: set the index register to the glyph address for `Vx`'s low nibble.
    LoadSprite(V),
    /// `Fx33`: store the decimal digits of `Vx` at `I`, `I+1`, `I+2`.
    LoadBCD(V),
    /// `Fx55`: store registers `V0` through `Vx` at memory starting at `I`.
    SaveRegisters(V),
    /// `Fx65`: load registers `V0` through `Vx` from memory starting at `I`.
    LoadRegisters(V),
}

/// The `x` nibble of a word: bits 8 through 11.
pub open spec fn nib_x(w: u16) -> u8 {
    ((w >> 8) & 0xF) as u8
}

/// The `y` nibble of a word: bits 4 through 7.
pub open spec fn nib_y(w: u16) -> u8 {
    ((w >> 4) & 0xF) as u8
}

/// The low nibble of a word.
pub open spec fn nib_n(w: u16) -> u8 {
    (w & 0xF) as u8
}

/// The low byte of a word: the `kk` immediate.
pub open spec fn low_byte(w: u16) -> u8 {
    (w & 0xFF) as u8
}

/// The low 12 bits of a word: the `nnn` address.
pub open spec fn addr_bits(w: u16) -> u16 {
    w & 0xFFF
}

/// What a 16-bit word decodes to: exactly one instruction, or nothing when
/// the secondary discriminator within its top-nibble group is unknown.
pub open spec fn spec_decode(w: u16) -> Option<OpCode> {
    let top = w >> 12;
    let x = V(nib_x(w));
    let y = V(nib_y(w));
    let n = nib_n(w);
    let kk = Byte(low_byte(w));
    let nnn = Addr(addr_bits(w));
    if top == 0 {
        if w == 0x00E0 {
            Some(OpCode::ClearScreen)
        } else if w == 0x00EE {
            Some(OpCode::Return)
        } else {
            Some(OpCode::System(nnn))
        }
    } else if top == 0x1 {
        Some(OpCode::Jump(nnn))
    } else if top == 0x2 {
        Some(OpCode::Call(nnn))
    } else if top == 0x3 {
        Some(OpCode::SkipEqual(x, kk))
    } else if top == 0x4 {
        Some(OpCode::SkipNotEqual(x, kk))
    } else if top == 0x5 {
        if n == 0 {
            Some(OpCode::SkipEqualRegister(x, y))
        } else {
            None
        }
    } else if top == 0x6 {
        Some(OpCode::Load(x, kk))
    } else if top == 0x7 {
        Some(OpCode::Add(x, kk))
    } else if top == 0x8 {
        if n == 0x0 {
            Some(OpCode::LoadRegister(x, y))
        } else if n == 0x1 {
            Some(OpCode::OrRegister(x, y))
        } else if n == 0x2 {
            Some(OpCode::AndRegister(x, y))
        } else if n == 0x3 {
            Some(OpCode::XorRegister(x, y))
        } else if n == 0x4 {
            Some(OpCode::AddRegister(x, y))
        } else if n == 0x5 {
            Some(OpCode::SubRegister(x, y))
        } else if n == 0x6 {
            Some(OpCode::ShrRegister(x, y))
        } else if n == 0x7 {
            Some(OpCode::SubNotBorrowRegister(x, y))
        } else if n == 0xE {
            Some(OpCode::ShlRegister(x, y))
        } else {
            None
        }
    } else if top == 0x9 {
        if n == 0 {
            Some(OpCode::SkipNotEqualRegister(x, y))
        } else {
            None
        }
    } else if top == 0xA {
        Some(OpCode::SetIndex(nnn))
    } else if top == 0xB {
        Some(OpCode::JumpV0(nnn))
    } else if top == 0xC {
        Some(OpCode::Random(x, kk))
    } else if top == 0xD {
        Some(OpCode::Draw(x, y, n))
    } else if top == 0xE {
        if kk.0 == 0x9E {
            Some(OpCode::SkipKey(x))
        } else if kk.0 == 0xA1 {
            Some(OpCode::SkipNotKey(x))
        } else {
            None
        }
    } else {
        if kk.0 == 0x07 {
            Some(OpCode::LoadDelayTimer(x))
        } else if kk.0 == 0x0A {
            Some(OpCode::LoadKey(x))
        } else if kk.0 == 0x15 {
            Some(OpCode::SetDelayTimer(x))
        } else if kk.0 == 0x18 {
            Some(OpCode::SetSoundTimer(x))
        } else if kk.0 == 0x1E {
            Some(OpCode::AddI(x))
        } else if kk.0 == 0x29 {
            Some(OpCode::LoadSprite(x))
        } else if kk.0 == 0x33 {
            Some(OpCode::LoadBCD(x))
        } else if kk.0 == 0x55 {
            Some(OpCode::SaveRegisters(x))
        } else if kk.0 == 0x65 {
            Some(OpCode::LoadRegisters(x))
        } else {
            None
        }
    }
}

impl OpCode {
    /// Every operand lies in the range its field width allows: register
    /// indices below 16, addresses below 4096, sprite heights below 16.
    pub open spec fn wf(self) -> bool {
        match self {
            OpCode::System(nnn) => nnn.0 < 0x1000,
            OpCode::ClearScreen => true,
            OpCode::Return => true,
            OpCode::Jump(nnn) => nnn.0 < 0x1000,
            OpCode::Call(nnn) => nnn.0 < 0x1000,
            OpCode::SkipEqual(x, _) => x.0 < 16,
            OpCode::SkipNotEqual(x, _) => x.0 < 16,
            OpCode::SkipEqualRegister(x, y) => x.0 < 16 && y.0 < 16,
            OpCode::Load(x, _) => x.0 < 16,
            OpCode::Add(x, _) => x.0 < 16,
            OpCode::LoadRegister(x, y) => x.0 < 16 && y.0 < 16,
            OpCode::OrRegister(x, y) => x.0 < 16 && y.0 < 16,
            OpCode::AndRegister(x, y) => x.0 < 16 && y.0 < 16,
            OpCode::XorRegister(x, y) => x.0 < 16 && y.0 < 16,
            OpCode::AddRegister(x, y) => x.0 < 16 && y.0 < 16,
            OpCode::SubRegister(x, y) => x.0 < 16 && y.0 < 16,
            OpCode::ShrRegister(x, y) => x.0 < 16 && y.0 < 16,
            OpCode::SubNotBorrowRegister(x, y) => x.0 < 16 && y.0 < 16,
            OpCode::ShlRegister(x, y) => x.0 < 16 && y.0 < 16,
            OpCode::SkipNotEqualRegister(x, y) => x.0 < 16 && y.0 < 16,
            OpCode::SetIndex(nnn) => nnn.0 < 0x1000,
            OpCode::JumpV0(nnn) => nnn.0 < 0x1000,
            OpCode::Random(x, _) => x.0 < 16,
            OpCode::Draw(x, y, n) => x.0 < 16 && y.0 < 16 && n < 16,
            OpCode::SkipKey(x) => x.0 < 16,
            OpCode::SkipNotKey(x) => x.0 < 16,
            OpCode::LoadDelayTimer(x) => x.0 < 16,
            OpCode::LoadKey(x) => x.0 < 16,
            OpCode::SetDelayTimer(x) => x.0 < 16,
            OpCode::SetSoundTimer(x) => x.0 < 16,
            OpCode::AddI(x) => x.0 < 16,
            OpCode::LoadSprite(x) => x.0 < 16,
            OpCode::LoadBCD(x) => x.0 < 16,
            OpCode::SaveRegisters(x) => x.0 < 16,
            OpCode::LoadRegisters(x) => x.0 < 16,
        }
    }

    /// Decode a 16-bit instruction word, total over all words: every word
    /// yields exactly one instruction or a decode fault, and an unrecognized
    /// secondary discriminator is a fault, never a silent default.
    pub fn try_from(value: u16) -> (r: Result<OpCode, Fault>)
        ensures
            (match spec_decode(value) {
                Some(op) => r == Ok::<OpCode, Fault>(op),
                None => r == Err::<OpCode, Fault>(Fault::Decode),
            }),
            r matches Ok(op) ==> op.wf(),
    {
        proof {
            lemma_field_bounds(value);
        }
        let top = value >> 12;
        let x = V(((value >> 8) & 0xF) as u8);
        let y = V(((value >> 4) & 0xF) as u8);
        let n = (value & 0xF) as u8;
        let kk = Byte((value & 0xFF) as u8);
        let nnn = Addr(value & 0xFFF);
        if top == 0x0 {
            if value == 0x00E0 {
                Ok(OpCode::ClearScreen)
            } else if value == 0x00EE {
                Ok(OpCode::Return)
            } else {
                Ok(OpCode::System(nnn))
            }
        } else if top == 0x1 {
            Ok(OpCode::Jump(nnn))
        } else if top == 0x2 {
            Ok(OpCode::Call(nnn))
        } else if top == 0x3 {
            Ok(OpCode::SkipEqual(x, kk))
        } else if top == 0x4 {
            Ok(OpCode::SkipNotEqual(x, kk))
        } else if top == 0x5 {
            if n == 0 {
                Ok(OpCode::SkipEqualRegister(x, y))
            } else {
                Err(Fault::Decode)
            }
        } else if top == 0x6 {
            Ok(OpCode::Load(x, kk))
        } else if top == 0x7 {
            Ok(OpCode::Add(x, kk))
        } else if top == 0x8 {
            match n {
                0x0 => Ok(OpCode::LoadRegister(x, y)),
                0x1 => Ok(OpCode::OrRegister(x, y)),
                0x2 => Ok(OpCode::AndRegister(x, y)),
                0x3 => Ok(OpCode::XorRegister(x, y)),
                0x4 => Ok(OpCode::AddRegister(x, y)),
                0x5 => Ok(OpCode::SubRegister(x, y)),
                0x6 => Ok(OpCode::ShrRegister(x, y)),
                0x7 => Ok(OpCode::SubNotBorrowRegister(x, y)),
                0xE => Ok(OpCode::ShlRegister(x, y)),
                _ => Err(Fault::Decode),
            }
        } else if top == 0x9 {
            if n == 0 {
                Ok(OpCode::SkipNotEqualRegister(x, y))
            } else {
                Err(Fault::Decode)
            }
        } else if top == 0xA {
            Ok(OpCode::SetIndex(nnn))
        } else if top == 0xB {
            Ok(OpCode::JumpV0(nnn))
        } else if top == 0xC {
            Ok(OpCode::Random(x, kk))
        } else if top == 0xD {
            Ok(OpCode::Draw(x, y, n))
        } else if top == 0xE {
            match kk.0 {
                0x9E => Ok(OpCode::SkipKey(x)),
                0xA1 => Ok(OpCode::SkipNotKey(x)),
                _ => Err(Fault::Decode),
            }
        } else {
            match kk.0 {
                0x07 => Ok(OpCode::LoadDelayTimer(x)),
                0x0A => Ok(OpCode::LoadKey(x)),
                0x15 => Ok(OpCode::SetDelayTimer(x)),
                0x18 => Ok(OpCode::SetSoundTimer(x)),
                0x1E => Ok(OpCode::AddI(x)),
                0x29 => Ok(OpCode::LoadSprite(x)),
                0x33 => Ok(OpCode::LoadBCD(x)),
                0x55 => Ok(OpCode::SaveRegisters(x)),
                0x65 => Ok(OpCode::LoadRegisters(x)),
                _ => Err(Fault::Decode),
            }
        }
    }
}

/// The unique word that a well-formed instruction encodes to; decoding is
/// lossless with respect to this map.
pub open spec fn spec_encode(op: OpCode) -> u16 {
    match op {
        OpCode::System(nnn) => nnn.0,
        OpCode::ClearScreen => 0x00E0,
        OpCode::Return => 0x00EE,
        OpCode::Jump(nnn) => 0x1000 | nnn.0,
        OpCode::Call(nnn) => 0x2000 | nnn.0,
        OpCode::SkipEqual(x, kk) => 0x3000 | ((x.0 as u16) << 8) | (kk.0 as u16),
        OpCode::SkipNotEqual(x, kk) => 0x4000 | ((x.0 as u16) << 8) | (kk.0 as u16),
        OpCode::SkipEqualRegister(x, y) => 0x5000 | ((x.0 as u16) << 8) | ((y.0 as u16) << 4),
        OpCode::Load(x, kk) => 0x6000 | ((x.0 as u16) << 8) | (kk.0 as u16),
        OpCode::Add(x, kk) => 0x7000 | ((x.0 as u16) << 8) | (kk.0 as u16),
        OpCode::LoadRegister(x, y) => 0x8000 | ((x.0 as u16) << 8) | ((y.0 as u16) << 4),
        OpCode::OrRegister(x, y) => 0x8001 | ((x.0 as u16) << 8) | ((y.0 as u16) << 4),
        OpCode::AndRegister(x, y) => 0x8002 | ((x.0 as u16) << 8) | ((y.0 as u16) << 4),
        OpCode::XorRegister(x, y) => 0x8003 | ((x.0 as u16) << 8) | ((y.0 as u16) << 4),
        OpCode::AddRegister(x, y) => 0x8004 | ((x.0 as u16) << 8) | ((y.0 as u16) << 4),
        OpCode::SubRegister(x, y) => 0x8005 | ((x.0 as u16) << 8) | ((y.0 as u16) << 4),
        OpCode::ShrRegister(x, y) => 0x8006 | ((x.0 as u16) << 8) | ((y.0 as u16) << 4),
        OpCode::SubNotBorrowRegister(x, y) => 0x8007 | ((x.0 as u16) << 8) | ((y.0 as u16) << 4),
        OpCode::ShlRegister(x, y) => 0x800E | ((x.0 as u16) << 8) | ((y.0 as u16) << 4),
        OpCode::SkipNotEqualRegister(x, y) => 0x9000 | ((x.0 as u16) << 8) | ((y.0 as u16) << 4),
        OpCode::SetIndex(nnn) => 0xA000 | nnn.0,
        OpCode::JumpV0(nnn) => 0xB000 | nnn.0,
        OpCode::Random(x, kk) => 0xC000 | ((x.0 as u16) << 8) | (kk.0 as u16),
        OpCode::Draw(x, y, n) => 0xD000 | ((x.0 as u16) << 8) | ((y.0 as u16) << 4) | (
        n as u16),
        OpCode::SkipKey(x) => 0xE09E | ((x.0 as u16) << 8),
        OpCode::SkipNotKey(x) => 0xE0A1 | ((x.0 as u16) << 8),
        OpCode::LoadDelayTimer(x) => 0xF007 | ((x.0 as u16) << 8),
        OpCode::LoadKey(x) => 0xF00A | ((x.0 as u16) << 8),
        OpCode::SetDelayTimer(x) => 0xF015 | ((x.0 as u16) << 8),
        OpCode::SetSoundTimer(x) => 0xF018 | ((x.0 as u16) << 8),
        OpCode::AddI(x) => 0xF01E | ((x.0 as u16) << 8),
        OpCode::LoadSprite(x) => 0xF029 | ((x.0 as u16) << 8),
        OpCode::LoadBCD(x) => 0xF033 | ((x.0 as u16) << 8),
        OpCode::SaveRegisters(x) => 0xF055 | ((x.0 as u16) << 8),
        OpCode::LoadRegisters(x) => 0xF065 | ((x.0 as u16) << 8),
    }
}

/// Decoding is lossless: whenever a word decodes to an instruction, that
/// instruction is well formed and re-encodes to the very same word.
pub proof fn lemma_decode_encode(w: u16)
    ensures
        spec_decode(w) matches Some(op) ==> op.wf() && spec_encode(op) == w,
{
    lemma_field_bounds(w);
    assert((w >> 12 == 0x0 ==> (w & 0xFFF) == w) && (w >> 12 == 0x1 ==> (0x1000 | (w & 0xFFF))
        == w) && (w >> 12 == 0x2 ==> (0x2000 | (w & 0xFFF)) == w) && (w >> 12 == 0xA ==> (0xA000
        | (w & 0xFFF)) == w) && (w >> 12 == 0xB ==> (0xB000 | (w & 0xFFF)) == w))
        by (bit_vector);
    assert((w >> 12 == 0x3 ==> (0x3000 | (((((w >> 8) & 0xF) as u8) as u16) << 8) | (((w
        & 0xFF) as u8) as u16)) == w) && (w >> 12 == 0x4 ==> (0x4000 | (((((w >> 8)
        & 0xF) as u8) as u16) << 8) | (((w & 0xFF) as u8) as u16)) == w) && (w >> 12 == 0x6 ==> (
    0x6000 | (((((w >> 8) & 0xF) as u8) as u16) << 8) | (((w & 0xFF) as u8) as u16)) == w) && (w
        >> 12 == 0x7 ==> (0x7000 | (((((w >> 8) & 0xF) as u8) as u16) << 8) | (((w
        & 0xFF) as u8) as u16)) == w) && (w >> 12 == 0xC ==> (0xC000 | (((((w >> 8)
        & 0xF) as u8) as u16) << 8) | (((w & 0xFF) as u8) as u16)) == w)) by (bit_vector);
    assert((w >> 12 == 0x5 && ((w & 0xF) as u8) == 0 ==> (0x5000 | (((((w >> 8)
        & 0xF) as u8) as u16) << 8) | (((((w >> 4) & 0xF) as u8) as u16) << 4)) == w) && (w >> 12
        == 0x9 && ((w & 0xF) as u8) == 0 ==> (0x9000 | (((((w >> 8) & 0xF) as u8) as u16) << 8) | (
    ((((w >> 4) & 0xF) as u8) as u16) << 4)) == w) && (w >> 12 == 0xD ==> (0xD000 | (((((w >> 8)
        & 0xF) as u8) as u16) << 8) | (((((w >> 4) & 0xF) as u8) as u16) << 4) | (((w
        & 0xF) as u8) as u16)) == w)) by (bit_vector);
    assert((w >> 12 == 0x8 && ((w & 0xF) as u8) == 0x0 ==> (0x8000 | (((((w >> 8)
        & 0xF) as u8) as u16) << 8) | (((((w >> 4) & 0xF) as u8) as u16) << 4)) == w) && (w >> 12
        == 0x8 && ((w & 0xF) as u8) == 0x1 ==> (0x8001 | (((((w >> 8) & 0xF) as u8) as u16) << 8)
        | (((((w >> 4) & 0xF) as u8) as u16) << 4)) == w) && (w >> 12 == 0x8 && ((w
        & 0xF) as u8) == 0x2 ==> (0x8002 | (((((w >> 8) & 0xF) as u8) as u16) << 8) | (((((w >> 4)
        & 0xF) as u8) as u16) << 4)) == w) && (w >> 12 == 0x8 && ((w & 0xF) as u8) == 0x3 ==> (
    0x8003 | (((((w >> 8) & 0xF) as u8) as u16) << 8) | (((((w >> 4) & 0xF) as u8) as u16) << 4))
        == w) && (w >> 12 == 0x8 && ((w & 0xF) as u8) == 0x4 ==> (0x8004 | (((((w >> 8)
        & 0xF) as u8) as u16) << 8) | (((((w >> 4) & 0xF) as u8) as u16) << 4)) == w))
        by (bit_vector);
    assert((w >> 12 == 0x8 && ((w & 0xF) as u8) == 0x5 ==> (0x8005 | (((((w >> 8)
        & 0xF) as u8) as u16) << 8) | (((((w >> 4) & 0xF) as u8) as u16) << 4)) == w) && (w >> 12
        == 0x8 && ((w & 0xF) as u8) == 0x6 ==> (0x8006 | (((((w >> 8) & 0xF) as u8) as u16) << 8)
        | (((((w >> 4) & 0xF) as u8) as u16) << 4)) == w) && (w >> 12 == 0x8 && ((w
        & 0xF) as u8) == 0x7 ==> (0x8007 | (((((w >> 8) & 0xF) as u8) as u16) << 8) | (((((w >> 4)
        & 0xF) as u8) as u16) << 4)) == w) && (w >> 12 == 0x8 && ((w & 0xF) as u8) == 0xE ==> (
    0x800E | (((((w >> 8) & 0xF) as u8) as u16) << 8) | (((((w >> 4) & 0xF) as u8) as u16) << 4))
        == w)) by (bit_vector);
    assert((w >> 12 == 0xE && ((w & 0xFF) as u8) == 0x9E ==> (0xE09E | (((((w >> 8)
        & 0xF) as u8) as u16) << 8)) == w) && (w >> 12 == 0xE && ((w & 0xFF) as u8) == 0xA1 ==> (
    0xE0A1 | (((((w >> 8) & 0xF) as u8) as u16) << 8)) == w) && (w >> 12 == 0xF && ((w
        & 0xFF) as u8) == 0x07 ==> (0xF007 | (((((w >> 8) & 0xF) as u8) as u16) << 8)) == w) && (w
        >> 12 == 0xF && ((w & 0xFF) as u8) == 0x0A ==> (0xF00A | (((((w >> 8)
        & 0xF) as u8) as u16) << 8)) == w) && (w >> 12 == 0xF && ((w & 0xFF) as u8) == 0x15 ==> (
    0xF015 | (((((w >> 8) & 0xF) as u8) as u16) << 8)) == w)) by (bit_vector);
    assert((w >> 12 == 0xF && ((w & 0xFF) as u8) == 0x18 ==> (0xF018 | (((((w >> 8)
        & 0xF) as u8) as u16) << 8)) == w) && (w >> 12 == 0xF && ((w & 0xFF) as u8) == 0x1E ==> (
    0xF01E | (((((w >> 8) & 0xF) as u8) as u16) << 8)) == w) && (w >> 12 == 0xF && ((w
        & 0xFF) as u8) == 0x29 ==> (0xF029 | (((((w >> 8) & 0xF) as u8) as u16) << 8)) == w) && (w
        >> 12 == 0xF && ((w & 0xFF) as u8) == 0x33 ==> (0xF033 | (((((w >> 8)
        & 0xF) as u8) as u16) << 8)) == w) && (w >> 12 == 0xF && ((w & 0xFF) as u8) == 0x55 ==> (
    0xF055 | (((((w >> 8) & 0xF) as u8) as u16) << 8)) == w) && (w >> 12 == 0xF && ((w
        & 0xFF) as u8) == 0x65 ==> (0xF065 | (((((w >> 8) & 0xF) as u8) as u16) << 8)) == w))
        by (bit_vector);
}

/// Every field extracted from a word lies within its width.
pub proof fn lemma_field_bounds(w: u16)
    ensures
        w >> 12 < 16,
        (w >> 8) & 0xF < 16,
        (w >> 4) & 0xF < 16,
        w & 0xF < 16,
        w & 0xFF < 256,
        w & 0xFFF < 0x1000,
{
    assert(w >> 12 < 16 && (w >> 8) & 0xF < 16 && (w >> 4) & 0xF < 16 && w & 0xF < 16 && w
        & 0xFF < 256 && w & 0xFFF < 0x1000) by (bit_vector);
}

} // verus!
