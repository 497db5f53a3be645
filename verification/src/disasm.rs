//! Rendering decoded instructions to canonical mnemonic text: one
//! instruction per line, every variant and operand distinguished.

use vstd::prelude::*;

use crate::opcode::OpCode;

verus! {

/// The character for one decimal digit.
pub open spec fn digit_char(d: int) -> char {
    if d == 0 {
        '0'
    } else if d == 1 {
        '1'
    } else if d == 2 {
        '2'
    } else if d == 3 {
        '3'
    } else if d == 4 {
        '4'
    } else if d == 5 {
        '5'
    } else if d == 6 {
        '6'
    } else if d == 7 {
        '7'
    } else if d == 8 {
        '8'
    } else {
        '9'
    }
}

/// The decimal rendering of a number, most significant digit first.
pub open spec fn dec_seq(n: int) -> Seq<char>
    decreases n,
{
    if n < 10 {
        seq![digit_char(n)]
    } else {
        dec_seq(n / 10).push(digit_char(n % 10))
    }
}

/// The canonical mnemonic line for an instruction. Operands are rendered
/// in decimal; every variant is distinguishable from the text alone.
pub open spec fn mnemonic(op: OpCode) -> Seq<char> {
    match op {
        OpCode::System(nnn) => "SYS "@ + dec_seq(nnn.0 as int),
        OpCode::ClearScreen => "CLS"@,
        OpCode::Return => "RET"@,
        OpCode::Jump(nnn) => "JP "@ + dec_seq(nnn.0 as int),
        OpCode::Call(nnn) => "CALL "@ + dec_seq(nnn.0 as int),
        OpCode::SkipEqual(x, kk) => "SE V"@ + dec_seq(x.0 as int) + ", "@ + dec_seq(kk.0 as int),
        OpCode::SkipNotEqual(x, kk) => "SNE V"@ + dec_seq(x.0 as int) + ", "@ + dec_seq(
            kk.0 as int,
        ),
        OpCode::SkipEqualRegister(x, y) => "SE V"@ + dec_seq(x.0 as int) + ", V"@ + dec_seq(
            y.0 as int,
        ),
        OpCode::Load(x, kk) => "LD V"@ + dec_seq(x.0 as int) + ", "@ + dec_seq(kk.0 as int),
        OpCode::Add(x, kk) => "ADD V"@ + dec_seq(x.0 as int) + ", "@ + dec_seq(kk.0 as int),
        OpCode::LoadRegister(x, y) => "LD V"@ + dec_seq(x.0 as int) + ", V"@ + dec_seq(y.0 as int),
        OpCode::OrRegister(x, y) => "OR V"@ + dec_seq(x.0 as int) + ", V"@ + dec_seq(y.0 as int),
        OpCode::AndRegister(x, y) => "AND V"@ + dec_seq(x.0 as int) + ", V"@ + dec_seq(y.0 as int),
        OpCode::XorRegister(x, y) => "XOR V"@ + dec_seq(x.0 as int) + ", V"@ + dec_seq(y.0 as int),
        OpCode::AddRegister(x, y) => "ADD V"@ + dec_seq(x.0 as int) + ", V"@ + dec_seq(y.0 as int),
        OpCode::SubRegister(x, y) => "SUB V"@ + dec_seq(x.0 as int) + ", V"@ + dec_seq(y.0 as int),
        OpCode::ShrRegister(x, y) => "SHR V"@ + dec_seq(x.0 as int) + ", V"@ + dec_seq(y.0 as int),
        OpCode::SubNotBorrowRegister(x, y) => "SUBN V"@ + dec_seq(x.0 as int) + ", V"@ + dec_seq(
            y.0 as int,
        ),
        OpCode::ShlRegister(x, y) => "SHL V"@ + dec_seq(x.0 as int) + ", V"@ + dec_seq(y.0 as int),
        OpCode::SkipNotEqualRegister(x, y) => "SNE V"@ + dec_seq(x.0 as int) + ", V"@ + dec_seq(
            y.0 as int,
        ),
        OpCode::SetIndex(nnn) => "LD I, "@ + dec_seq(nnn.0 as int),
        OpCode::JumpV0(nnn) => "JP V0, "@ + dec_seq(nnn.0 as int),
        OpCode::Random(x, kk) => "RND V"@ + dec_seq(x.0 as int) + ", "@ + dec_seq(kk.0 as int),
        OpCode::Draw(x, y, n) => "DRW V"@ + dec_seq(x.0 as int) + ", V"@ + dec_seq(y.0 as int)
            + ", "@ + dec_seq(n as int),
        OpCode::SkipKey(x) => "SKP V"@ + dec_seq(x.0 as int),
        OpCode::SkipNotKey(x) => "SKNP V"@ + dec_seq(x.0 as int),
        OpCode::LoadDelayTimer(x) => "LD V"@ + dec_seq(x.0 as int) + ", DT"@,
        OpCode::LoadKey(x) => "LD V"@ + dec_seq(x.0 as int) + ", K"@,
        OpCode::SetDelayTimer(x) => "LD DT, V"@ + dec_seq(x.0 as int),
        OpCode::SetSoundTimer(x) => "LD ST, V"@ + dec_seq(x.0 as int),
        OpCode::AddI(x) => "ADD I, V"@ + dec_seq(x.0 as int),
        OpCode::LoadSprite(x) => "LD F, V"@ + dec_seq(x.0 as int),
        OpCode::LoadBCD(x) => "LD B, V"@ + dec_seq(x.0 as int),
        OpCode::SaveRegisters(x) => "LD [I], V"@ + dec_seq(x.0 as int),
        OpCode::LoadRegisters(x) => "LD V"@ + dec_seq(x.0 as int) + ", [I]"@,
    }
}

/// The one-character string for a decimal digit.
fn digit_str(d: u8) -> (r: &'static str)
    requires
        d < 10,
    ensures
        r@ == seq![digit_char(d as int)],
{
    if d == 0 {
        proof {
            reveal_strlit("0");
        }
        assert("0"@ =~= seq![digit_char(0)]);
        "0"
    } else if d == 1 {
        proof {
            reveal_strlit("1");
        }
        assert("1"@ =~= seq![digit_char(1)]);
        "1"
    } else if d == 2 {
        proof {
            reveal_strlit("2");
        }
        assert("2"@ =~= seq![digit_char(2)]);
        "2"
    } else if d == 3 {
        proof {
            reveal_strlit("3");
        }
        assert("3"@ =~= seq![digit_char(3)]);
        "3"
    } else if d == 4 {
        proof {
            reveal_strlit("4");
        }
        assert("4"@ =~= seq![digit_char(4)]);
        "4"
    } else if d == 5 {
        proof {
            reveal_strlit("5");
        }
        assert("5"@ =~= seq![digit_char(5)]);
        "5"
    } else if d == 6 {
        proof {
            reveal_strlit("6");
        }
        assert("6"@ =~= seq![digit_char(6)]);
        "6"
    } else if d == 7 {
        proof {
            reveal_strlit("7");
        }
        assert("7"@ =~= seq![digit_char(7)]);
        "7"
    } else if d == 8 {
        proof {
            reveal_strlit("8");
        }
        assert("8"@ =~= seq![digit_char(8)]);
        "8"
    } else {
        proof {
            reveal_strlit("9");
        }
        assert("9"@ =~= seq![digit_char(9)]);
        "9"
    }
}

/// Append the decimal rendering of `n`.
fn push_dec(s: &mut String, n: u16)
    ensures
        final(s)@ == old(s)@ + dec_seq(n as int),
    decreases n,
{
    if n >= 10 {
        push_dec(s, n / 10);
    }
    s.append(digit_str((n % 10) as u8));
    assert(s@ =~= old(s)@ + dec_seq(n as int));
}

/// A fresh line `prefix` followed by a number.
fn mn_addr(prefix: &str, nnn: u16) -> (r: String)
    ensures
        r@ == prefix@ + dec_seq(nnn as int),
{
    let mut s = String::from_str(prefix);
    push_dec(&mut s, nnn);
    s
}

/// A fresh line `prefix`, a number, `mid`, and a second number.
fn mn_two(prefix: &str, a: u8, mid: &str, b: u8) -> (r: String)
    ensures
        r@ == prefix@ + dec_seq(a as int) + mid@ + dec_seq(b as int),
{
    let mut s = String::from_str(prefix);
    push_dec(&mut s, a as u16);
    s.append(mid);
    push_dec(&mut s, b as u16);
    s
}

/// A fresh line `prefix`, a number, and a closing `suffix`.
fn mn_suffixed(prefix: &str, a: u8, suffix: &str) -> (r: String)
    ensures
        r@ == prefix@ + dec_seq(a as int) + suffix@,
{
    let mut s = String::from_str(prefix);
    push_dec(&mut s, a as u16);
    s.append(suffix);
    s
}

impl OpCode {
    /// Render the instruction as its canonical mnemonic line.
    pub fn into(self) -> (r: String)
        ensures
            r@ == mnemonic(self),
    {
        match self {
            OpCode::System(nnn) => mn_addr("SYS ", nnn.0),
            OpCode::ClearScreen => String::from_str("CLS"),
            OpCode::Return => String::from_str("RET"),
            OpCode::Jump(nnn) => mn_addr("JP ", nnn.0),
            OpCode::Call(nnn) => mn_addr("CALL ", nnn.0),
            OpCode::SkipEqual(x, kk) => mn_two("SE V", x.0, ", ", kk.0),
            OpCode::SkipNotEqual(x, kk) => mn_two("SNE V", x.0, ", ", kk.0),
            OpCode::SkipEqualRegister(x, y) => mn_two("SE V", x.0, ", V", y.0),
            OpCode::Load(x, kk) => mn_two("LD V", x.0, ", ", kk.0),
            OpCode::Add(x, kk) => mn_two("ADD V", x.0, ", ", kk.0),
            OpCode::LoadRegister(x, y) => mn_two("LD V", x.0, ", V", y.0),
            OpCode::OrRegister(x, y) => mn_two("OR V", x.0, ", V", y.0),
            OpCode::AndRegister(x, y) => mn_two("AND V", x.0, ", V", y.0),
            OpCode::XorRegister(x, y) => mn_two("XOR V", x.0, ", V", y.0),
            OpCode::AddRegister(x, y) => mn_two("ADD V", x.0, ", V", y.0),
            OpCode::SubRegister(x, y) => mn_two("SUB V", x.0, ", V", y.0),
            OpCode::ShrRegister(x, y) => mn_two("SHR V", x.0, ", V", y.0),
            OpCode::SubNotBorrowRegister(x, y) => mn_two("SUBN V", x.0, ", V", y.0),
            OpCode::ShlRegister(x, y) => mn_two("SHL V", x.0, ", V", y.0),
            OpCode::SkipNotEqualRegister(x, y) => mn_two("SNE V", x.0, ", V", y.0),
            OpCode::SetIndex(nnn) => mn_addr("LD I, ", nnn.0),
            OpCode::JumpV0(nnn) => mn_addr("JP V0, ", nnn.0),
            OpCode::Random(x, kk) => mn_two("RND V", x.0, ", ", kk.0),
            OpCode::Draw(x, y, n) => {
                let mut s = mn_two("DRW V", x.0, ", V", y.0);
                s.append(", ");
                push_dec(&mut s, n as u16);
                s
            },
            OpCode::SkipKey(x) => mn_addr("SKP V", x.0 as u16),
            OpCode::SkipNotKey(x) => mn_addr("SKNP V", x.0 as u16),
            OpCode::LoadDelayTimer(x) => mn_suffixed("LD V", x.0, ", DT"),
            OpCode::LoadKey(x) => mn_suffixed("LD V", x.0, ", K"),
            OpCode::SetDelayTimer(x) => mn_addr("LD DT, V", x.0 as u16),
            OpCode::SetSoundTimer(x) => mn_addr("LD ST, V", x.0 as u16),
            OpCode::AddI(x) => mn_addr("ADD I, V", x.0 as u16),
            OpCode::LoadSprite(x) => mn_addr("LD F, V", x.0 as u16),
            OpCode::LoadBCD(x) => mn_addr("LD B, V", x.0 as u16),
            OpCode::SaveRegisters(x) => mn_addr("LD [I], V", x.0 as u16),
            OpCode::LoadRegisters(x) => mn_suffixed("LD V", x.0, ", [I]"),
        }
    }
}

} // verus!
