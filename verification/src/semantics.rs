//! The mathematical model of the machine and the state-transition function
//! that every instruction handler is verified against.

use vstd::prelude::*;

use crate::opcode::{Fault, OpCode};

verus! {

/// Number of bytes of memory.
pub const MEMORY_BYTES: usize = 4096;

/// Number of general-purpose registers.
pub const REGISTER_COUNT: usize = 16;

/// Number of call-stack slots.
pub const STACK_LENGTH: usize = 16;

/// Width of the display in pixels.
pub const DISPLAY_WIDTH: usize = 64;

/// Height of the display in pixels.
pub const DISPLAY_HEIGHT: usize = 32;

/// Number of pixels on the display.
pub const DISPLAY_PIXELS: usize = 2048;

/// Number of keys on the keypad.
pub const KEY_COUNT: usize = 16;

/// Address where loaded programs begin.
pub const PROGRAM_START: u16 = 0x200;

/// Address of the first font glyph; glyph `d` occupies the five bytes
/// starting at `FONT_BASE + 5 * d`.
pub const FONT_BASE: u16 = 0;

/// A snapshot of the whole machine: memory, registers, the index register,
/// the two timers, program counter, stack, display, keypad, and whether the
/// machine is parked awaiting a key for some register.
#[verifier::ext_equal]
pub ghost struct VmState {
    /// The 4096 bytes of memory.
    pub mem: Seq<u8>,
    /// The 16 general-purpose registers; index 15 is the flag register.
    pub regs: Seq<u8>,
    /// The 12-bit index register `I`.
    pub index: u16,
    /// The delay timer.
    pub dt: u8,
    /// The sound timer.
    pub st: u8,
    /// The program counter.
    pub pc: u16,
    /// The stack pointer: the number of frames on the stack.
    pub sp: u8,
    /// The 16 return-address slots.
    pub stack: Seq<u16>,
    /// The 64 x 32 display, row-major: pixel `(col, row)` is `disp[row * 64 + col]`.
    pub disp: Seq<bool>,
    /// Which of the 16 keys are currently pressed.
    pub keys: Seq<bool>,
    /// `Some(x)` when execution is parked until a key press lands in register `x`.
    pub waiting: Option<u8>,
}

impl VmState {
    /// All pieces have their fixed sizes and the bounded fields are in range.
    pub open spec fn wf(self) -> bool {
        &&& self.mem.len() == MEMORY_BYTES
        &&& self.regs.len() == REGISTER_COUNT
        &&& self.stack.len() == STACK_LENGTH
        &&& self.disp.len() == DISPLAY_PIXELS
        &&& self.keys.len() == KEY_COUNT
        &&& self.sp <= STACK_LENGTH
        &&& self.index < MEMORY_BYTES
        &&& (self.waiting matches Some(x) ==> x < REGISTER_COUNT)
    }
}

/// A program counter bumped past one instruction, in 16-bit arithmetic.
pub open spec fn pc_skip(pc: u16) -> u16 {
    ((pc + 2) % 0x10000) as u16
}

/// Bit `k` (counting from the least significant) of a byte.
pub open spec fn bit_of(byte: u8, k: int) -> bool {
    (byte >> (k as u8)) & 1 == 1
}

/// Whether the `n`-row sprite at address `i`, drawn at `(cx, cy)` with
/// wraparound, has a set bit landing on pixel `p` of the display.
pub open spec fn sprite_covers(mem: Seq<u8>, i: int, n: int, cx: int, cy: int, p: int) -> bool {
    let row = p / 64;
    let col = p % 64;
    let dr = (row - cy + 32) % 32;
    let db = (col - cx + 64) % 64;
    dr < n && db < 8 && bit_of(mem[i + dr], 7 - db)
}

/// The display after XOR-compositing the sprite onto it.
pub open spec fn draw_disp(disp: Seq<bool>, mem: Seq<u8>, i: int, n: int, cx: int, cy: int) -> Seq<
    bool,
> {
    Seq::new(2048, |p: int| disp[p] != sprite_covers(mem, i, n, cx, cy, p))
}

/// Whether the XOR erases some pixel that was set: the collision flag.
pub open spec fn draw_hit(disp: Seq<bool>, mem: Seq<u8>, i: int, n: int, cx: int, cy: int) -> bool {
    exists|p: int| 0 <= p < 2048 && sprite_covers(mem, i, n, cx, cy, p) && disp[p]
}

/// Registers after an arithmetic or shift instruction: the flag register is
/// written first, then the result, so the result wins when `x` is 15.
pub open spec fn regs_with_flag(regs: Seq<u8>, x: u8, val: u8, flag: u8) -> Seq<u8> {
    regs.update(15, flag).update(x as int, val)
}

/// What executing one instruction does to a machine state: the successor
/// state and the reported result. `rnd` is the byte the random source
/// produced, read only by `Random`. Faulting instructions leave the state
/// untouched: nothing is written before a bounds check fails.
pub open spec fn spec_execute(s: VmState, op: OpCode, rnd: u8) -> (VmState, Result<(), Fault>) {
    match op {
        OpCode::System(_) => (s, Ok(())),
        OpCode::ClearScreen => (VmState { disp: Seq::new(2048, |p: int| false), ..s }, Ok(())),
        OpCode::Return => if s.sp == 0 {
            (s, Err(Fault::Stack))
        } else {
            (VmState { pc: s.stack[s.sp - 1], sp: (s.sp - 1) as u8, ..s }, Ok(()))
        },
        OpCode::Jump(nnn) => (VmState { pc: nnn.0, ..s }, Ok(())),
        OpCode::Call(nnn) => if s.sp >= 16 {
            (s, Err(Fault::Stack))
        } else {
            (
                VmState {
                    stack: s.stack.update(s.sp as int, s.pc),
                    sp: (s.sp + 1) as u8,
                    pc: nnn.0,
                    ..s
                },
                Ok(()),
            )
        },
        OpCode::SkipEqual(x, kk) => (
            if s.regs[x.0 as int] == kk.0 {
                VmState { pc: pc_skip(s.pc), ..s }
            } else {
                s
            },
            Ok(()),
        ),
        OpCode::SkipNotEqual(x, kk) => (
            if s.regs[x.0 as int] != kk.0 {
                VmState { pc: pc_skip(s.pc), ..s }
            } else {
                s
            },
            Ok(()),
        ),
        OpCode::SkipEqualRegister(x, y) => (
            if s.regs[x.0 as int] == s.regs[y.0 as int] {
                VmState { pc: pc_skip(s.pc), ..s }
            } else {
                s
            },
            Ok(()),
        ),
        OpCode::Load(x, kk) => (VmState { regs: s.regs.update(x.0 as int, kk.0), ..s }, Ok(())),
        OpCode::Add(x, kk) => (
            VmState {
                regs: s.regs.update(x.0 as int, ((s.regs[x.0 as int] + kk.0) % 256) as u8),
                ..s
            },
            Ok(()),
        ),
        OpCode::LoadRegister(x, y) => (
            VmState { regs: s.regs.update(x.0 as int, s.regs[y.0 as int]), ..s },
            Ok(()),
        ),
        OpCode::OrRegister(x, y) => (
            VmState { regs: s.regs.update(x.0 as int, s.regs[x.0 as int] | s.regs[y.0 as int]), ..s },
            Ok(()),
        ),
        OpCode::AndRegister(x, y) => (
            VmState { regs: s.regs.update(x.0 as int, s.regs[x.0 as int] & s.regs[y.0 as int]), ..s },
            Ok(()),
        ),
        OpCode::XorRegister(x, y) => (
            VmState { regs: s.regs.update(x.0 as int, s.regs[x.0 as int] ^ s.regs[y.0 as int]), ..s },
            Ok(()),
        ),
        OpCode::AddRegister(x, y) => {
            let a = s.regs[x.0 as int];
            let b = s.regs[y.0 as int];
            let flag: u8 = if a + b > 255 {
                1
            } else {
                0
            };
            (
                VmState { regs: regs_with_flag(s.regs, x.0, ((a + b) % 256) as u8, flag), ..s },
                Ok(()),
            )
        },
        OpCode::SubRegister(x, y) => {
            let a = s.regs[x.0 as int];
            let b = s.regs[y.0 as int];
            let flag: u8 = if a > b {
                1
            } else {
                0
            };
            (
                VmState {
                    regs: regs_with_flag(s.regs, x.0, ((a - b + 256) % 256) as u8, flag),
                    ..s
                },
                Ok(()),
            )
        },
        OpCode::ShrRegister(x, _) => {
            let a = s.regs[x.0 as int];
            (
                VmState { regs: regs_with_flag(s.regs, x.0, a / 2, a & 1), ..s },
                Ok(()),
            )
        },
        OpCode::SubNotBorrowRegister(x, y) => {
            let a = s.regs[x.0 as int];
            let b = s.regs[y.0 as int];
            let flag: u8 = if b > a {
                1
            } else {
                0
            };
            (
                VmState {
                    regs: regs_with_flag(s.regs, x.0, ((b - a + 256) % 256) as u8, flag),
                    ..s
                },
                Ok(()),
            )
        },
        OpCode::ShlRegister(x, _) => {
            let a = s.regs[x.0 as int];
            (
                VmState { regs: regs_with_flag(s.regs, x.0, ((2 * a) % 256) as u8, a >> 7), ..s },
                Ok(()),
            )
        },
        OpCode::SkipNotEqualRegister(x, y) => (
            if s.regs[x.0 as int] != s.regs[y.0 as int] {
                VmState { pc: pc_skip(s.pc), ..s }
            } else {
                s
            },
            Ok(()),
        ),
        OpCode::SetIndex(nnn) => (VmState { index: nnn.0, ..s }, Ok(())),
        OpCode::JumpV0(nnn) => (
            VmState { pc: ((nnn.0 + s.regs[0]) % 0x1000) as u16, ..s },
            Ok(()),
        ),
        OpCode::Random(x, kk) => (
            VmState { regs: s.regs.update(x.0 as int, rnd & kk.0), ..s },
            Ok(()),
        ),
        OpCode::Draw(x, y, n) => if s.index + n > 4096 {
            (s, Err(Fault::Memory))
        } else {
            let cx = s.regs[x.0 as int] % 64;
            let cy = s.regs[y.0 as int] % 32;
            let hit = draw_hit(s.disp, s.mem, s.index as int, n as int, cx as int, cy as int);
            let flag: u8 = if hit {
                1
            } else {
                0
            };
            (
                VmState {
                    disp: draw_disp(s.disp, s.mem, s.index as int, n as int, cx as int, cy as int),
                    regs: s.regs.update(15, flag),
                    ..s
                },
                Ok(()),
            )
        },
        OpCode::SkipKey(x) => (
            if s.keys[(s.regs[x.0 as int] & 0xF) as int] {
                VmState { pc: pc_skip(s.pc), ..s }
            } else {
                s
            },
            Ok(()),
        ),
        OpCode::SkipNotKey(x) => (
            if !s.keys[(s.regs[x.0 as int] & 0xF) as int] {
                VmState { pc: pc_skip(s.pc), ..s }
            } else {
                s
            },
            Ok(()),
        ),
        OpCode::LoadDelayTimer(x) => (VmState { regs: s.regs.update(x.0 as int, s.dt), ..s }, Ok(())),
        OpCode::LoadKey(x) => (VmState { waiting: Some(x.0), ..s }, Ok(())),
        OpCode::SetDelayTimer(x) => (VmState { dt: s.regs[x.0 as int], ..s }, Ok(())),
        OpCode::SetSoundTimer(x) => (VmState { st: s.regs[x.0 as int], ..s }, Ok(())),
        OpCode::AddI(x) => (
            VmState { index: ((s.index + s.regs[x.0 as int]) % 0x1000) as u16, ..s },
            Ok(()),
        ),
        OpCode::LoadSprite(x) => (
            VmState { index: (FONT_BASE + 5 * (s.regs[x.0 as int] & 0xF)) as u16, ..s },
            Ok(()),
        ),
        OpCode::LoadBCD(x) => if s.index + 2 >= 4096 {
            (s, Err(Fault::Memory))
        } else {
            let v = s.regs[x.0 as int];
            (
                VmState {
                    mem: s.mem.update(s.index as int, v / 100).update(
                        s.index + 1,
                        (v / 10) % 10,
                    ).update(s.index + 2, v % 10),
                    ..s
                },
                Ok(()),
            )
        },
        OpCode::SaveRegisters(x) => if s.index + x.0 >= 4096 {
            (s, Err(Fault::Memory))
        } else {
            (
                VmState {
                    mem: Seq::new(
                        4096,
                        |k: int|
                            if s.index <= k <= s.index + x.0 {
                                s.regs[k - s.index]
                            } else {
                                s.mem[k]
                            },
                    ),
                    ..s
                },
                Ok(()),
            )
        },
        OpCode::LoadRegisters(x) => if s.index + x.0 >= 4096 {
            (s, Err(Fault::Memory))
        } else {
            (
                VmState {
                    regs: Seq::new(
                        16,
                        |k: int|
                            if k <= x.0 {
                                s.mem[s.index + k]
                            } else {
                                s.regs[k]
                            },
                    ),
                    ..s
                },
                Ok(()),
            )
        },
    }
}

/// A sum below 64 splits a modulus of 32 into two linear cases.
pub proof fn lemma_mod32(a: int)
    requires
        0 <= a < 64,
    ensures
        a % 32 == if a < 32 {
            a
        } else {
            a - 32
        },
{
}

/// A sum below 128 splits a modulus of 64 into two linear cases.
pub proof fn lemma_mod64(a: int)
    requires
        0 <= a < 128,
    ensures
        a % 64 == if a < 64 {
            a
        } else {
            a - 64
        },
{
}

/// The pixel index computed for row offset `row` and bit offset `b` lies on
/// the display, and its row and bit offsets recompute to `row` and `b`.
pub proof fn lemma_pixel_ident(cx: int, cy: int, row: int, b: int)
    requires
        0 <= cx < 64,
        0 <= cy < 32,
        0 <= row < 32,
        0 <= b < 8,
    ensures
        ({
            let py = (cy + row) % 32;
            let px = (cx + b) % 64;
            let idx = py * 64 + px;
            &&& 0 <= py < 32
            &&& 0 <= px < 64
            &&& 0 <= idx < 2048
            &&& idx / 64 == py
            &&& idx % 64 == px
            &&& (py - cy + 32) % 32 == row
            &&& (px - cx + 64) % 64 == b
        }),
{
    lemma_mod32(cy + row);
    lemma_mod64(cx + b);
    let py = (cy + row) % 32;
    let px = (cx + b) % 64;
    lemma_mod32(py - cy + 32);
    lemma_mod64(px - cx + 64);
    let idx = py * 64 + px;
    assert(idx / 64 == py && idx % 64 == px) by (nonlinear_arith)
        requires
            0 <= py < 32,
            0 <= px < 64,
            idx == py * 64 + px,
    ;
}

/// A pixel whose recomputed offsets are `row` and `b` is the very pixel the
/// drawing loops touch at that step: the coordinate map is injective.
pub proof fn lemma_pixel_unique(cx: int, cy: int, row: int, b: int, p: int)
    requires
        0 <= cx < 64,
        0 <= cy < 32,
        0 <= row < 32,
        0 <= b < 64,
        0 <= p < 2048,
        ((p / 64) - cy + 32) % 32 == row,
        ((p % 64) - cx + 64) % 64 == b,
    ensures
        p == ((cy + row) % 32) * 64 + ((cx + b) % 64),
{
    let prow = p / 64;
    let pcol = p % 64;
    assert(0 <= prow < 32 && 0 <= pcol < 64 && p == prow * 64 + pcol) by (nonlinear_arith)
        requires
            0 <= p < 2048,
            prow == p / 64,
            pcol == p % 64,
    ;
    lemma_mod32(prow - cy + 32);
    lemma_mod64(pcol - cx + 64);
    lemma_mod32(cy + row);
    lemma_mod64(cx + b);
}

/// `b` agrees with `a` on every field but the display.
pub open spec fn same_except_disp(a: VmState, b: VmState) -> bool {
    b == (VmState { disp: b.disp, ..a })
}

/// `b` agrees with `a` on every field but memory.
pub open spec fn same_except_mem(a: VmState, b: VmState) -> bool {
    b == (VmState { mem: b.mem, ..a })
}

/// `b` agrees with `a` on every field but the registers.
pub open spec fn same_except_regs(a: VmState, b: VmState) -> bool {
    b == (VmState { regs: b.regs, ..a })
}

/// The instruction word fetched at the program counter: the byte at `pc` is
/// the high byte, the byte at `pc + 1` the low byte.
pub open spec fn fetched_word(s: VmState) -> u16 {
    ((s.mem[s.pc as int] as u16) << 8) | (s.mem[s.pc as int + 1] as u16)
}

} // verus!
